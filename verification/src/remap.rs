use vstd::prelude::*;

verus! {

// The two 8-bit range-remap curves, stated exactly. A value is carried as a
// rational `num / den` with a positive denominator, so the laws below are
// laws of the curves themselves, free of any rounding. The executable
// evaluation of the curves is double-precision arithmetic, which the verifier
// does not take, so it stands outside this crate beside the file I/O.

/// `a` and `b` denote the same rational; denominators are positive.
pub open spec fn rat_eq(a: (int, int), b: (int, int)) -> bool {
    a.0 * b.1 == b.0 * a.1
}

/// `a` denotes a strictly smaller rational than `b`; denominators are
/// positive.
pub open spec fn rat_lt(a: (int, int), b: (int, int)) -> bool {
    a.0 * b.1 < b.0 * a.1
}

/// Limited-to-full range expansion of `num / den`: `0` at and below `16/255`,
/// `1` at and above `235/255`, and the linear rescale
/// `(255/219) * (x - 16/255) == (255 x - 16) / 219` strictly between.
pub open spec fn cvt_full_rat(num: int, den: int) -> (int, int)
    recommends
        den > 0,
{
    if 255 * num <= 16 * den {
        (0, 1)
    } else if 255 * num >= 235 * den {
        (1, 1)
    } else {
        (255 * num - 16 * den, 219 * den)
    }
}

/// Full-to-limited range compression of `num / den`: the unclamped linear
/// rescale `(219/255) * x + 16/255 == (219 x + 16) / 255`.
pub open spec fn cvt_limited_rat(num: int, den: int) -> (int, int)
    recommends
        den > 0,
{
    (219 * num + 16 * den, 255 * den)
}

/// Law: the expansion pins both edges of the legal video range, `16/255` to
/// zero and `235/255` to one.
pub proof fn lemma_cvt_full_at_bounds()
    ensures
        cvt_full_rat(16, 255) == (0int, 1int),
        cvt_full_rat(235, 255) == (1int, 1int),
{
}

/// Law: the compression carries the edges of the full range onto the edges of
/// the legal video range, zero to `16/255` and one to `235/255`, exactly.
pub proof fn lemma_cvt_limited_at_bounds()
    ensures
        rat_eq(cvt_limited_rat(0, 1), (16, 255)),
        rat_eq(cvt_limited_rat(1, 1), (235, 255)),
{
}

/// Law: strictly between the two clamp thresholds the expansion follows the
/// affine form `(255 x - 16) / 219`, and it is strictly increasing there.
pub proof fn lemma_cvt_full_strictly_increasing(an: int, ad: int, bn: int, bd: int)
    requires
        ad > 0,
        bd > 0,
        16 * ad < 255 * an,
        255 * bn < 235 * bd,
        rat_lt((an, ad), (bn, bd)),
    ensures
        cvt_full_rat(an, ad) == (255 * an - 16 * ad, 219 * ad),
        cvt_full_rat(bn, bd) == (255 * bn - 16 * bd, 219 * bd),
        rat_lt(cvt_full_rat(an, ad), cvt_full_rat(bn, bd)),
{
    assert(255 * an < 235 * ad) by (nonlinear_arith)
        requires
            ad > 0,
            bd > 0,
            an * bd < bn * ad,
            255 * bn < 235 * bd,
    ;
    assert(16 * bd < 255 * bn) by (nonlinear_arith)
        requires
            ad > 0,
            bd > 0,
            an * bd < bn * ad,
            16 * ad < 255 * an,
    ;
    assert((255 * an - 16 * ad) * (219 * bd) < (255 * bn - 16 * bd) * (219 * ad))
        by (nonlinear_arith)
        requires
            an * bd < bn * ad,
    ;
}

/// Law: compressing any full-range value into the legal video range and
/// expanding it back returns exactly the value started from; the two curves
/// are exact inverses over the full range, clamps included.
pub proof fn lemma_remap_round_trip(num: int, den: int)
    requires
        den > 0,
        0 <= num <= den,
    ensures
        rat_eq(
            cvt_full_rat(cvt_limited_rat(num, den).0, cvt_limited_rat(num, den).1),
            (num, den),
        ),
{
    let ln = 219 * num + 16 * den;
    let ld = 255 * den;
    if 255 * ln <= 16 * ld {
        assert(num == 0) by (nonlinear_arith)
            requires
                den > 0,
                0 <= num,
                255 * (219 * num + 16 * den) <= 16 * (255 * den),
        ;
        assert(0 * den == num * 1);
    } else if 255 * ln >= 235 * ld {
        assert(num == den) by (nonlinear_arith)
            requires
                den > 0,
                num <= den,
                255 * (219 * num + 16 * den) >= 235 * (255 * den),
        ;
        assert(1 * den == num * 1);
    } else {
        assert((255 * ln - 16 * ld) * den == num * (219 * ld)) by (nonlinear_arith)
            requires
                ln == 219 * num + 16 * den,
                ld == 255 * den,
        ;
    }
}

/// Law: expanding any legal-video-range value to full range and compressing
/// it back returns exactly the value started from; on `[16/255, 235/255]` the
/// curves are exact inverses in this order too.
pub proof fn lemma_remap_round_trip_rev(num: int, den: int)
    requires
        den > 0,
        16 * den <= 255 * num,
        255 * num <= 235 * den,
    ensures
        rat_eq(
            cvt_limited_rat(cvt_full_rat(num, den).0, cvt_full_rat(num, den).1),
            (num, den),
        ),
{
    if 255 * num <= 16 * den {
        assert(rat_eq(cvt_limited_rat(0, 1), (num, den))) by (nonlinear_arith)
            requires
                16 * den <= 255 * num <= 16 * den,
        ;
    } else if 255 * num >= 235 * den {
        assert(rat_eq(cvt_limited_rat(1, 1), (num, den))) by (nonlinear_arith)
            requires
                235 * den <= 255 * num <= 235 * den,
        ;
    } else {
        let fn_ = 255 * num - 16 * den;
        let fd = 219 * den;
        assert((219 * fn_ + 16 * fd) * den == num * (255 * fd)) by (nonlinear_arith)
            requires
                fn_ == 255 * num - 16 * den,
                fd == 219 * den,
        ;
    }
}

} // verus!
