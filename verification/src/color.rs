use vstd::prelude::*;

verus! {

/// One lookup-table entry: three independent channel magnitudes. Each channel
/// holds the decimal text token that the scalar prints as in the LUT file, so
/// the serialized form of an entry is fixed by the entry itself.
#[derive(Clone, Debug, PartialEq)]
pub struct Color {
    pub red: String,
    pub green: String,
    pub blue: String,
}

/// A channel token can stand in a LUT data line: it is non-empty and free of
/// the two separators of the format, the space between tokens and the newline
/// between lines.
pub open spec fn token_wf(t: Seq<char>) -> bool {
    &&& t.len() > 0
    &&& forall|i: int| 0 <= i < t.len() ==> t[i] != ' ' && t[i] != '\n'
}

impl Color {
    /// Every channel is a printable token.
    pub open spec fn wf(self) -> bool {
        token_wf(self.red@) && token_wf(self.green@) && token_wf(self.blue@)
    }

    /// The three channels hold one and the same scalar, as every generated
    /// table entry does.
    pub open spec fn uniform(self) -> bool {
        self.red@ == self.green@ && self.green@ == self.blue@
    }
}

impl Default for Color {
    /// The default color is all-zero: every channel holds the token that the
    /// scalar zero prints as.
    fn default() -> (c: Color)
        ensures
            c.red@ == "0"@,
            c.green@ == "0"@,
            c.blue@ == "0"@,
            c.uniform(),
            c.wf(),
    {
        let c = Color { red: "0".to_owned(), green: "0".to_owned(), blue: "0".to_owned() };
        proof {
            reveal_strlit("0");
        }
        c
    }
}

} // verus!
