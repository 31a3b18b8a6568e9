use vstd::prelude::*;
use vstd::arithmetic::div_mod::{
    lemma_fundamental_div_mod, lemma_mod_division_less_than_divisor, lemma_mod_multiples_basic,
};

verus! {

/// The smallest multiple of `align` strictly greater than `(v / align) * align`.
/// This is how a model dimension is derived from a source dimension when no
/// explicit resolution was requested.
pub open spec fn snap_up(v: int, align: int) -> int {
    (v / align + 1) * align
}

/// The largest multiple of `align` not exceeding `v`: how an explicitly
/// requested dimension is aligned.
pub open spec fn snap_down(v: int, align: int) -> int {
    (v / align) * align
}

/// An explicitly requested dimension, aligned down, and clamped up to one
/// whole alignment unit when the request was smaller than the unit (a zero
/// dimension would be unusable).
pub open spec fn aligned_request(v: int, align: int) -> int {
    if snap_down(v, align) == 0 {
        align
    } else {
        snap_down(v, align)
    }
}

/// Law: the auto-derived dimension `snap_up(v, align)` is a multiple of
/// `align`, strictly exceeds the source dimension `v`, and is the smallest
/// multiple of `align` strictly greater than `(v / align) * align`.
pub proof fn lemma_snap_up_is_next_multiple(v: int, align: int)
    requires
        align >= 1,
        v >= 0,
    ensures
        snap_up(v, align) % align == 0,
        snap_up(v, align) > v,
        snap_up(v, align) <= v + align,
        forall|m: int| #[trigger] (m % align) == 0 && m > snap_down(v, align) ==> m >= snap_up(
            v,
            align,
        ),
{
    let q = v / align;
    lemma_fundamental_div_mod(v, align);
    lemma_mod_division_less_than_divisor(v, align);
    assert((q + 1) * align == align * q + align) by (nonlinear_arith);
    assert(q * align == align * q) by (nonlinear_arith);
    lemma_mod_multiples_basic(q + 1, align);
    assert(((q + 1) * align) % align == 0);
    assert forall|m: int|
        #[trigger] (m % align) == 0 && m > snap_down(v, align) implies m >= snap_up(v, align) by {
        lemma_fundamental_div_mod(m, align);
        let k = m / align;
        assert(m == align * k);
        assert(align * k > align * q ==> k > q) by (nonlinear_arith)
            requires align >= 1;
        assert(k >= q + 1);
        assert(align * k >= align * (q + 1)) by (nonlinear_arith)
            requires align >= 1 && k >= q + 1;
    }
}

/// Law: aligning a requested dimension never yields zero, yields a multiple
/// of `align`, and — whenever the request was at least one alignment unit —
/// yields the largest multiple of `align` not exceeding the request.
pub proof fn lemma_aligned_request_props(v: int, align: int)
    requires
        align >= 1,
        v >= 0,
    ensures
        aligned_request(v, align) >= align,
        aligned_request(v, align) % align == 0,
        aligned_request(v, align) <= v + align,
        v >= align ==> aligned_request(v, align) <= v,
        v >= align ==> forall|m: int|
            #[trigger] (m % align) == 0 && m <= v ==> m <= aligned_request(v, align),
{
    let q = v / align;
    lemma_fundamental_div_mod(v, align);
    lemma_mod_division_less_than_divisor(v, align);
    lemma_mod_multiples_basic(q, align);
    vstd::arithmetic::div_mod::lemma_mod_self_0(align);
    assert(q * align == align * q) by (nonlinear_arith);
    vstd::arithmetic::div_mod::lemma_div_pos_is_pos(v, align);
    if q == 0 {
        assert(align * 0 == 0) by (nonlinear_arith);
        assert(snap_down(v, align) == 0);
    } else {
        assert(q >= 1);
        assert(align * q >= align * 1) by (nonlinear_arith)
            requires align >= 1 && q >= 1;
        assert(snap_down(v, align) >= align);
    }
    if v >= align {
        assert(q >= 1) by {
            if q <= 0 {
                assert(align * q <= 0) by (nonlinear_arith)
                    requires align >= 1 && q <= 0;
            }
        }
        assert(snap_down(v, align) != 0);
        assert forall|m: int|
            #[trigger] (m % align) == 0 && m <= v implies m <= aligned_request(v, align) by {
            lemma_fundamental_div_mod(m, align);
            let k = m / align;
            assert(m == align * k);
            assert(align * k <= align * q + (align - 1) && align >= 1 ==> k <= q) by (nonlinear_arith);
            assert(align * k <= align * q) by (nonlinear_arith)
                requires align >= 1 && k <= q;
        }
    }
}

/// Resolve one model dimension: derive it from the source dimension when the
/// request is absent (zero), otherwise align the request down (clamping up to
/// one alignment unit when the request was below it).
pub fn resolve_dim(source: u32, requested: u32, align: u32) -> (r: u32)
    requires
        align >= 1,
        requested == 0 ==> source + align <= u32::MAX,
    ensures
        requested == 0 ==> r == snap_up(source as int, align as int),
        requested != 0 ==> r == aligned_request(requested as int, align as int),
        r >= 1,
        r as int % align as int == 0,
{
    proof {
        lemma_snap_up_is_next_multiple(source as int, align as int);
        lemma_aligned_request_props(requested as int, align as int);
    }
    if requested == 0 {
        proof {
            lemma_fundamental_div_mod(source as int, align as int);
            lemma_mod_division_less_than_divisor(source as int, align as int);
            assert((source as int / align as int + 1) * (align as int) == (align as int) * (
            source as int / align as int) + align) by (nonlinear_arith);
        }
        (source / align + 1) * align
    } else {
        proof {
            lemma_fundamental_div_mod(requested as int, align as int);
            lemma_mod_division_less_than_divisor(requested as int, align as int);
            assert((requested as int / align as int) * (align as int) == (align as int) * (
            requested as int / align as int)) by (nonlinear_arith);
        }
        let snapped = (requested / align) * align;
        if snapped == 0 {
            align
        } else {
            snapped
        }
    }
}

/// The model resolution that the resolver yields: derived by snapping the
/// source dimensions up when no dimension was requested (both zero),
/// otherwise each requested dimension aligned down (and clamped up to one
/// alignment unit), a missing half of the request falling back to the unit.
pub open spec fn resolved_dims(sw: int, sh: int, rw: int, rh: int, align: int) -> (int, int) {
    if rw == 0 && rh == 0 {
        (snap_up(sw, align), snap_up(sh, align))
    } else {
        (
            if rw == 0 {
                align
            } else {
                aligned_request(rw, align)
            },
            if rh == 0 {
                align
            } else {
                aligned_request(rh, align)
            },
        )
    }
}

/// Resolve the full model resolution from the source resolution and an
/// optional explicit request (both zero means "derive from the source").
pub fn resolve_resolution(
    source_w: u32,
    source_h: u32,
    requested_w: u32,
    requested_h: u32,
    align: u32,
) -> (r: (u32, u32))
    requires
        align >= 1,
        requested_w == 0 && requested_h == 0 ==> source_w + align <= u32::MAX && source_h + align
            <= u32::MAX,
    ensures
        (r.0 as int, r.1 as int) == resolved_dims(
            source_w as int,
            source_h as int,
            requested_w as int,
            requested_h as int,
            align as int,
        ),
        r.0 >= 1 && r.1 >= 1,
        r.0 as int % align as int == 0,
        r.1 as int % align as int == 0,
{
    proof {
        vstd::arithmetic::div_mod::lemma_mod_self_0(align as int);
    }
    if requested_w == 0 && requested_h == 0 {
        let w = resolve_dim(source_w, 0, align);
        let h = resolve_dim(source_h, 0, align);
        (w, h)
    } else {
        let w = if requested_w == 0 {
            align
        } else {
            resolve_dim(source_w, requested_w, align)
        };
        let h = if requested_h == 0 {
            align
        } else {
            resolve_dim(source_h, requested_h, align)
        };
        (w, h)
    }
}

} // verus!
