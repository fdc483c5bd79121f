use vstd::prelude::*;

use crate::color::Color;

verus! {

/// Number of entries in every generated table.
pub const LUT_SIZE: usize = 256;

/// Build a table from the 256 sampled scalar values of a transfer function,
/// already rendered as their decimal tokens; `samples[i]` is the value at the
/// domain sample `i / 255`. Entry `i` carries `samples[i]` identically on its
/// three channels.
pub fn generate_lut(samples: &Vec<String>) -> (lut: Vec<Color>)
    requires
        samples@.len() == LUT_SIZE,
    ensures
        lut@.len() == LUT_SIZE,
        forall|i: int|
            0 <= i < lut@.len() ==> {
                &&& #[trigger] lut@[i].red@ == samples@[i]@
                &&& lut@[i].green@ == samples@[i]@
                &&& lut@[i].blue@ == samples@[i]@
            },
        forall|i: int| 0 <= i < lut@.len() ==> (#[trigger] lut@[i]).uniform(),
{
    let mut lut: Vec<Color> = Vec::new();
    let mut i: usize = 0;
    while i < LUT_SIZE
        invariant
            samples@.len() == LUT_SIZE,
            i <= LUT_SIZE,
            lut@.len() == i,
            forall|j: int|
                0 <= j < i ==> {
                    &&& #[trigger] lut@[j].red@ == samples@[j]@
                    &&& lut@[j].green@ == samples@[j]@
                    &&& lut@[j].blue@ == samples@[j]@
                },
        decreases LUT_SIZE - i,
    {
        let value = &samples[i];
        lut.push(Color { red: value.clone(), green: value.clone(), blue: value.clone() });
        i = i + 1;
    }
    lut
}

/// The first line of a LUT file: the literal token `TITLE`, one space, then
/// the caller-supplied title, unquoted and unescaped.
pub open spec fn title_line(title: Seq<char>) -> Seq<char> {
    "TITLE "@ + title
}

/// The second line of a LUT file: the fixed table size declaration.
pub open spec fn size_line() -> Seq<char> {
    "LUT_1D_SIZE 256"@
}

/// A data line: the entry's three channel tokens in order, separated by
/// single spaces.
pub open spec fn entry_line(c: Color) -> Seq<char> {
    c.red@ + " "@ + c.green@ + " "@ + c.blue@
}

/// The lines of the serialized file, in order and without their terminators:
/// the title line, the size line, then one data line per entry.
pub open spec fn lut_lines(title: Seq<char>, lut: Seq<Color>) -> Seq<Seq<char>> {
    seq![title_line(title), size_line()] + lut.map_values(|c: Color| entry_line(c))
}

/// Lines joined into one text, a newline after every line including the last.
pub open spec fn join_lines(lines: Seq<Seq<char>>) -> Seq<char>
    decreases lines.len(),
{
    if lines.len() == 0 {
        Seq::<char>::empty()
    } else {
        join_lines(lines.drop_last()) + lines.last() + "\n"@
    }
}

/// The full text of the serialized LUT file for a title and a table.
pub open spec fn lut_text(title: Seq<char>, lut: Seq<Color>) -> Seq<char> {
    join_lines(lut_lines(title, lut))
}

proof fn lemma_join_lines_take_succ(lines: Seq<Seq<char>>, i: int)
    requires
        0 <= i < lines.len(),
    ensures
        join_lines(lines.take(i + 1)) == join_lines(lines.take(i)) + lines[i] + "\n"@,
{
    assert(lines.take(i + 1).drop_last() =~= lines.take(i));
    assert(lines.take(i + 1).last() == lines[i]);
}

/// Serialize a table: the result is exactly the file text, character for
/// character.
pub fn render_lut(title: &str, lut: &Vec<Color>) -> (text: String)
    requires
        lut@.len() == LUT_SIZE,
    ensures
        text@ == lut_text(title@, lut@),
{
    let ghost lines = lut_lines(title@, lut@);
    let mut text = String::new();
    text.append("TITLE ");
    text.append(title);
    text.append("\n");
    proof {
        lemma_join_lines_take_succ(lines, 0);
        assert(lines.take(0) =~= Seq::<Seq<char>>::empty());
        assert(text@ =~= join_lines(lines.take(1)));
    }
    text.append("LUT_1D_SIZE 256");
    text.append("\n");
    proof {
        lemma_join_lines_take_succ(lines, 1);
        assert(text@ =~= join_lines(lines.take(2)));
    }
    let mut i: usize = 0;
    while i < lut.len()
        invariant
            lut@.len() == LUT_SIZE,
            i <= lut@.len(),
            lines == lut_lines(title@, lut@),
            text@ == join_lines(lines.take(2 + i)),
        decreases lut@.len() - i,
    {
        text.append(lut[i].red.as_str());
        text.append(" ");
        text.append(lut[i].green.as_str());
        text.append(" ");
        text.append(lut[i].blue.as_str());
        text.append("\n");
        proof {
            lemma_join_lines_take_succ(lines, 2 + i);
            assert(lines[2 + i] == entry_line(lut@[i as int]));
            assert(text@ =~= join_lines(lines.take(2 + i + 1)));
        }
        i = i + 1;
    }
    proof {
        assert(lines.take(2 + i) =~= lines);
    }
    text
}

/// How many newline characters a text holds; since every line of a LUT file
/// ends in one, this is its line count.
pub open spec fn newline_count(text: Seq<char>) -> nat
    decreases text.len(),
{
    if text.len() == 0 {
        0
    } else {
        newline_count(text.drop_last()) + if text.last() == '\n' {
            1nat
        } else {
            0nat
        }
    }
}

/// A text free of newlines: what a single line's body must be.
pub open spec fn newline_free(text: Seq<char>) -> bool {
    forall|i: int| 0 <= i < text.len() ==> text[i] != '\n'
}

proof fn lemma_newline_count_concat(a: Seq<char>, b: Seq<char>)
    ensures
        newline_count(a + b) == newline_count(a) + newline_count(b),
    decreases b.len(),
{
    if b.len() == 0 {
        assert(a + b =~= a);
    } else {
        assert((a + b).drop_last() =~= a + b.drop_last());
        assert((a + b).last() == b.last());
        lemma_newline_count_concat(a, b.drop_last());
    }
}

proof fn lemma_newline_count_free(s: Seq<char>)
    requires
        newline_free(s),
    ensures
        newline_count(s) == 0,
    decreases s.len(),
{
    if s.len() > 0 {
        assert(newline_free(s.drop_last()));
        lemma_newline_count_free(s.drop_last());
    }
}

proof fn lemma_join_lines_count(lines: Seq<Seq<char>>)
    requires
        forall|i: int| 0 <= i < lines.len() ==> newline_free(#[trigger] lines[i]),
    ensures
        newline_count(join_lines(lines)) == lines.len(),
    decreases lines.len(),
{
    reveal_strlit("\n");
    if lines.len() > 0 {
        lemma_join_lines_count(lines.drop_last());
        lemma_newline_count_free(lines.last());
        lemma_newline_count_concat(join_lines(lines.drop_last()), lines.last());
        lemma_newline_count_concat(join_lines(lines.drop_last()) + lines.last(), "\n"@);
        assert("\n"@.drop_last() =~= Seq::<char>::empty());
        assert(newline_count(Seq::<char>::empty()) == 0);
        assert("\n"@.last() == '\n');
        assert(newline_count("\n"@) == 1);
    }
}

/// Law: the serialized file text of a well-formed table under a single-line
/// title consists of exactly 258 newline-terminated lines; line 1 is the
/// `TITLE` token, a space and the title, line 2 is exactly `LUT_1D_SIZE 256`,
/// and each of the 256 following lines holds the three channel tokens of the
/// corresponding entry, in index order, separated by single spaces.
pub proof fn lemma_lut_text_shape(title: Seq<char>, lut: Seq<Color>)
    requires
        lut.len() == LUT_SIZE,
        newline_free(title),
        forall|i: int| 0 <= i < lut.len() ==> (#[trigger] lut[i]).wf(),
    ensures
        lut_lines(title, lut).len() == LUT_SIZE + 2,
        lut_lines(title, lut)[0] == "TITLE "@ + title,
        lut_lines(title, lut)[1] == "LUT_1D_SIZE 256"@,
        forall|i: int|
            0 <= i < lut.len() ==> lut_lines(title, lut)[i + 2] == entry_line(#[trigger] lut[i]),
        forall|i: int|
            0 <= i < lut_lines(title, lut).len() ==> newline_free(#[trigger] lut_lines(title, lut)[i]),
        newline_count(lut_text(title, lut)) == LUT_SIZE + 2,
{
    reveal_strlit("TITLE ");
    reveal_strlit("LUT_1D_SIZE 256");
    reveal_strlit(" ");
    let lines = lut_lines(title, lut);
    assert forall|i: int| 0 <= i < lines.len() implies newline_free(#[trigger] lines[i]) by {
        if i == 0 {
            assert forall|j: int| 0 <= j < lines[0].len() implies lines[0][j] != '\n' by {
                if j < "TITLE "@.len() {
                    assert(lines[0][j] == "TITLE "@[j]);
                } else {
                    assert(lines[0][j] == title[j - "TITLE "@.len()]);
                }
            }
        } else if i == 1 {
        } else {
            let c = lut[i - 2];
            assert(lines[i] == entry_line(c));
            let r = c.red@;
            let g = c.green@;
            let b = c.blue@;
            assert forall|j: int| 0 <= j < lines[i].len() implies lines[i][j] != '\n' by {
                let rl = r.len() as int;
                let gl = g.len() as int;
                if j < rl {
                    assert(lines[i][j] == r[j]);
                } else if j == rl {
                    assert(lines[i][j] == ' ');
                } else if j < rl + 1 + gl {
                    assert(lines[i][j] == g[j - (rl + 1)]);
                } else if j == rl + 1 + gl {
                    assert(lines[i][j] == ' ');
                } else {
                    assert(lines[i][j] == b[j - (rl + 1 + gl + 1)]);
                }
            }
        }
    }
    lemma_join_lines_count(lines);
}

} // verus!
