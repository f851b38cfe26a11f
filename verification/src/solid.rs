//! When a solid reports that a ray meets it.
//!
//! The caller solves the ray equation of a plane or a sphere; the rules here
//! take the solved quantities as bit patterns and decide whether a hit is
//! reported, and at which of two roots.

use vstd::prelude::*;
use crate::scalar::{is_zero, le, lemma_constants, less, less_eq, lt, zero, ZERO};

verus! {

/// Bit pattern of 1e-6, the distance that a hit on a plane must exceed.
pub const GRAZE: u32 = 0x3586_37bd;

/// A plane reports a hit when the ray is not parallel to it and the solved
/// distance exceeds `GRAZE`.
pub open spec fn plane_reports(denom: u32, t: u32) -> bool {
    !is_zero(denom) && less(GRAZE, t)
}

/// Decides whether a plane reports a hit. `denom` is the dot product of the
/// plane's normal with the ray's direction, `t` the solved distance along the
/// ray.
pub fn plane_hit(denom: u32, t: u32) -> (r: bool)
    ensures
        r == plane_reports(denom, t),
        is_zero(denom) ==> !r,
        r ==> less(ZERO, t),
{
    proof {
        lemma_graze_is_positive();
    }
    !zero(denom) && lt(GRAZE, t)
}

/// `GRAZE` is a number above zero.
pub proof fn lemma_graze_is_positive()
    ensures
        less(ZERO, GRAZE),
{
    lemma_constants();
    assert(0x3586_37bdu32 & 0x7fff_ffffu32 == 0x3586_37bdu32) by (bit_vector);
    assert(0x3586_37bdu32 & 0x8000_0000u32 == 0) by (bit_vector);
}

/// A sphere's quadratic has real roots unless its discriminant is below zero.
pub open spec fn discriminant_admits(dscr: u32) -> bool {
    !less(dscr, ZERO)
}

/// Decides whether the ray can meet the sphere at all. `dscr` is the squared
/// radius less the squared distance of the ray's closest approach to the
/// center.
pub fn has_roots(dscr: u32) -> (r: bool)
    ensures
        r == discriminant_admits(dscr),
        less(dscr, ZERO) ==> !r,
{
    !lt(dscr, ZERO)
}

/// Decides by which of two formulas the first root is computed: whether the
/// center of the sphere lies ahead of the ray's origin, so that the root of
/// the discriminant is added to the projection and not taken from it. `ddp`
/// is the projection of the way to the center onto the ray's direction.
pub fn center_is_ahead(ddp: u32) -> (r: bool)
    ensures
        r == less_eq(ZERO, ddp),
{
    le(ZERO, ddp)
}

/// The lesser of the two roots, the first wherever neither is less.
pub open spec fn lesser_root(t1: u32, t2: u32) -> u32 {
    if less(t2, t1) {
        t2
    } else {
        t1
    }
}

/// Chooses the distance that a sphere reports from the two roots of its
/// quadratic: none where both lie behind the ray's origin, else the lesser.
pub fn sphere_root(t1: u32, t2: u32) -> (r: Option<u32>)
    ensures
        r is None <==> less(t1, ZERO) && less(t2, ZERO),
        r is Some ==> r->Some_0 == lesser_root(t1, t2),
{
    let lo = if lt(t2, t1) { t2 } else { t1 };
    if lt(t1, ZERO) && lt(t2, ZERO) {
        None
    } else {
        Some(lo)
    }
}

/// Where neither root lies behind the ray's origin, the reported distance
/// does not either.
pub proof fn lemma_forward_roots_report_forward(t1: u32, t2: u32)
    requires
        less_eq(ZERO, t1),
        less_eq(ZERO, t2),
    ensures
        less_eq(ZERO, lesser_root(t1, t2)),
        !(less(t1, ZERO) && less(t2, ZERO)),
{
}

} // verus!
