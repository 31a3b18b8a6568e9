use vstd::prelude::*;
use vstd::arithmetic::div_mod::{
    lemma_basic_div, lemma_div_is_ordered, lemma_div_pos_is_pos, lemma_fundamental_div_mod_converse,
};
use vstd::arithmetic::mul::lemma_mul_inequality;

verus! {

/// `m` is the least value occurring in `s`.
pub open spec fn is_min_of(s: Seq<i64>, m: int) -> bool {
    &&& exists|i: int| 0 <= i < s.len() && s[i] == m
    &&& forall|i: int| 0 <= i < s.len() ==> m <= #[trigger] s[i]
}

/// `m` is the greatest value occurring in `s`.
pub open spec fn is_max_of(s: Seq<i64>, m: int) -> bool {
    &&& exists|i: int| 0 <= i < s.len() && s[i] == m
    &&& forall|i: int| 0 <= i < s.len() ==> #[trigger] s[i] <= m
}

/// The least value of a nonempty sequence of raw samples.
pub open spec fn seq_min(s: Seq<i64>) -> int
    decreases s.len(),
{
    if s.len() <= 1 {
        s[0] as int
    } else if s.last() < seq_min(s.drop_last()) {
        s.last() as int
    } else {
        seq_min(s.drop_last())
    }
}

/// The greatest value of a nonempty sequence of raw samples.
pub open spec fn seq_max(s: Seq<i64>) -> int
    decreases s.len(),
{
    if s.len() <= 1 {
        s[0] as int
    } else if s.last() > seq_max(s.drop_last()) {
        s.last() as int
    } else {
        seq_max(s.drop_last())
    }
}

/// `seq_min` and `seq_max` are the least and greatest occurring values.
pub proof fn lemma_seq_min_max_are_extremes(s: Seq<i64>)
    requires
        s.len() >= 1,
    ensures
        is_min_of(s, seq_min(s)),
        is_max_of(s, seq_max(s)),
    decreases s.len(),
{
    if s.len() == 1 {
        assert(s[0] == seq_min(s) && s[0] == seq_max(s));
    } else {
        lemma_seq_min_max_are_extremes(s.drop_last());
        assert forall|i: int| 0 <= i < s.len() implies seq_min(s) <= #[trigger] s[i] && s[i]
            <= seq_max(s) by {
            if i < s.len() - 1 {
                assert(s.drop_last()[i] == s[i]);
            }
        }
        if s.last() < seq_min(s.drop_last()) {
            assert(s[s.len() - 1] == seq_min(s));
        } else {
            let k = choose|i: int|
                0 <= i < s.drop_last().len() && s.drop_last()[i] == seq_min(s.drop_last());
            assert(s[k] == seq_min(s));
        }
        if s.last() > seq_max(s.drop_last()) {
            assert(s[s.len() - 1] == seq_max(s));
        } else {
            let k = choose|i: int|
                0 <= i < s.drop_last().len() && s.drop_last()[i] == seq_max(s.drop_last());
            assert(s[k] == seq_max(s));
        }
    }
}

/// A sequence has one least and one greatest value.
pub proof fn lemma_min_max_unique(s: Seq<i64>, a: int, b: int)
    requires
        is_min_of(s, a) && is_min_of(s, b) || is_max_of(s, a) && is_max_of(s, b),
    ensures
        a == b,
{
}

/// Min-max rescaling of one raw sample to the 16-bit output range: the
/// nearest integer (half rounded up) to (v - lo) * 65535 / (hi - lo), or 0
/// for a flat buffer (lo == hi), so a constant buffer maps to uniform black
/// instead of dividing by zero.
pub open spec fn rescale(v: int, lo: int, hi: int) -> int {
    if lo == hi {
        0
    } else {
        ((v - lo) * 131070 + (hi - lo)) / (2 * (hi - lo))
    }
}

/// Rescaling maps the whole interval [lo, hi] into [0, 65535], the lower
/// endpoint to exactly 0 and the upper endpoint to exactly 65535.
pub proof fn lemma_rescale_bounds(v: int, lo: int, hi: int)
    requires
        lo <= v <= hi,
        lo < hi,
    ensures
        0 <= rescale(v, lo, hi) <= 65535,
        v == lo ==> rescale(v, lo, hi) == 0,
        v == hi ==> rescale(v, lo, hi) == 65535,
{
    let d = hi - lo;
    let n = (v - lo) * 131070 + d;
    assert(n >= d) by {
        lemma_mul_inequality(0, v - lo, 131070);
    }
    lemma_div_pos_is_pos(n, 2 * d);
    assert(n <= 131071 * d) by {
        lemma_mul_inequality(v - lo, d, 131070);
        assert(d * 131070 == 131070 * d) by (nonlinear_arith);
    }
    assert((131071 * d) / (2 * d) == 65535) by {
        assert(131071 * d == 65535 * (2 * d) + d) by (nonlinear_arith);
        lemma_fundamental_div_mod_converse(131071 * d, 2 * d, 65535, d);
    }
    lemma_div_is_ordered(n, 131071 * d, 2 * d);
    if v == lo {
        lemma_basic_div(d, 2 * d);
    }
    if v == hi {
        assert(n == 131071 * d) by {
            assert(d * 131070 + d == 131071 * d) by (nonlinear_arith);
        }
    }
}

/// Rescale one raw sample into a 16-bit output sample, exactly as the
/// `rescale` mapping states.
pub fn rescale_u16(v: i64, lo: i64, hi: i64) -> (r: u16)
    requires
        lo <= v <= hi,
    ensures
        r == rescale(v as int, lo as int, hi as int),
{
    if lo == hi {
        0u16
    } else {
        proof {
            lemma_rescale_bounds(v as int, lo as int, hi as int);
        }
        let d: u128 = ((hi as i128) - (lo as i128)) as u128;
        let s: u128 = ((v as i128) - (lo as i128)) as u128;
        let n: u128 = s * 131070 + d;
        let q: u128 = n / (2 * d);
        q as u16
    }
}

/// The min-max rescaled 16-bit image of a nonempty raw buffer: every sample
/// rescaled by the buffer's own least and greatest values.
pub open spec fn rescaled_of(raw: Seq<i64>) -> Seq<u16> {
    Seq::new(raw.len(), |i: int| rescale(raw[i] as int, seq_min(raw), seq_max(raw)) as u16)
}

/// Scan a raw output buffer once and return its least and greatest samples;
/// `None` exactly when the buffer is empty.
pub fn min_max(raw: &Vec<i64>) -> (r: Option<(i64, i64)>)
    ensures
        r is None <==> raw.len() == 0,
        r matches Some(mm) ==> is_min_of(raw@, mm.0 as int) && is_max_of(raw@, mm.1 as int)
            && mm.0 <= mm.1,
{
    if raw.len() == 0 {
        return None;
    }
    let mut lo: i64 = raw[0];
    let mut hi: i64 = raw[0];
    let mut i: usize = 1;
    while i < raw.len()
        invariant
            1 <= i <= raw.len(),
            exists|k: int| 0 <= k < i && raw@[k] == lo,
            exists|k: int| 0 <= k < i && raw@[k] == hi,
            forall|k: int| 0 <= k < i ==> lo <= #[trigger] raw@[k] <= hi,
        decreases raw.len() - i,
    {
        let v = raw[i];
        if v < lo {
            lo = v;
        }
        if v > hi {
            hi = v;
        }
        proof {
            assert(raw@[i as int] == v);
        }
        i += 1;
    }
    Some((lo, hi))
}

/// Normalize a raw output buffer by global min-max rescaling into 16-bit
/// samples. Returns the rescaled buffer together with the least and greatest
/// raw samples it was rescaled by. A flat buffer (all samples equal) maps to
/// all zeros; otherwise every output lies in [0, 65535], the least sample
/// maps to exactly 0 and the greatest to exactly 65535.
pub fn normalize_raw(raw: &Vec<i64>) -> (r: (Vec<u16>, i64, i64))
    requires
        raw.len() >= 1,
    ensures
        r.0.len() == raw.len(),
        is_min_of(raw@, r.1 as int),
        is_max_of(raw@, r.2 as int),
        r.1 == seq_min(raw@),
        r.2 == seq_max(raw@),
        r.0@ == rescaled_of(raw@),
        r.1 <= r.2,
        forall|i: int| 0 <= i < raw.len() ==> r.0@[i] == rescale(raw@[i] as int, r.1 as int, r.2 as int),
        r.1 == r.2 ==> forall|i: int| 0 <= i < raw.len() ==> r.0@[i] == 0,
        forall|i: int| 0 <= i < raw.len() && raw@[i] == r.1 ==> r.0@[i] == 0,
        forall|i: int| 0 <= i < raw.len() && raw@[i] == r.2 && r.1 < r.2 ==> r.0@[i] == 65535,
{
    let mm = min_max(raw);
    let (lo, hi) = match mm {
        Some(p) => p,
        None => {
            proof {
                assert(false);
            }
            (0, 0)
        },
    };
    let mut out: Vec<u16> = Vec::new();
    let mut i: usize = 0;
    while i < raw.len()
        invariant
            0 <= i <= raw.len(),
            out.len() == i,
            is_min_of(raw@, lo as int),
            is_max_of(raw@, hi as int),
            lo <= hi,
            forall|k: int| 0 <= k < i ==> out@[k] == rescale(raw@[k] as int, lo as int, hi as int),
        decreases raw.len() - i,
    {
        let v = raw[i];
        let q = rescale_u16(v, lo, hi);
        out.push(q);
        i += 1;
    }
    proof {
        if lo < hi {
            lemma_rescale_bounds(lo as int, lo as int, hi as int);
            lemma_rescale_bounds(hi as int, lo as int, hi as int);
        }
        lemma_seq_min_max_are_extremes(raw@);
        lemma_min_max_unique(raw@, lo as int, seq_min(raw@));
        lemma_min_max_unique(raw@, hi as int, seq_max(raw@));
        assert(out@ =~= rescaled_of(raw@));
    }
    (out, lo, hi)
}

/// Law: a flat raw buffer — all samples equal — normalizes to all zeros;
/// the degenerate rule fires instead of a division by zero.
pub proof fn lemma_flat_buffer_normalizes_to_zero(raw: Seq<i64>)
    requires
        raw.len() >= 1,
        forall|i: int, j: int| 0 <= i < raw.len() && 0 <= j < raw.len() ==> raw[i] == raw[j],
    ensures
        forall|i: int| 0 <= i < raw.len() ==> rescaled_of(raw)[i] == 0,
{
    lemma_seq_min_max_are_extremes(raw);
    let ki = choose|i: int| 0 <= i < raw.len() && raw[i] == seq_min(raw);
    let kj = choose|i: int| 0 <= i < raw.len() && raw[i] == seq_max(raw);
    assert(raw[ki] == raw[kj]);
    assert(seq_min(raw) == seq_max(raw));
}

/// Law: rescaling a non-flat buffer by its own extremes covers the whole
/// output range — at least one output sample is exactly 0 and at least one is
/// exactly 65535 (the least and greatest raw samples map to the extremes),
/// and every output sample lies between the two.
pub proof fn lemma_rescaled_extremes_attained(raw: Seq<i64>, out: Seq<u16>, lo: int, hi: int)
    requires
        out.len() == raw.len(),
        is_min_of(raw, lo),
        is_max_of(raw, hi),
        lo < hi,
        forall|i: int| 0 <= i < raw.len() ==> out[i] == rescale(raw[i] as int, lo, hi),
    ensures
        exists|i: int| 0 <= i < out.len() && out[i] == 0,
        exists|i: int| 0 <= i < out.len() && out[i] == 65535,
        forall|i: int| 0 <= i < out.len() ==> 0 <= #[trigger] out[i] && out[i] <= 65535,
{
    let ki = choose|i: int| 0 <= i < raw.len() && (#[trigger] raw[i]) == lo;
    assert(out[ki] == rescale(lo, lo, hi));
    lemma_rescale_bounds(lo, lo, hi);
    assert(out[ki] == 0);
    let kj = choose|i: int| 0 <= i < raw.len() && (#[trigger] raw[i]) == hi;
    assert(out[kj] == rescale(hi, lo, hi));
    lemma_rescale_bounds(hi, lo, hi);
    assert(out[kj] == 65535);
}

} // verus!
