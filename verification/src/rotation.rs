//! The case distinctions of the quaternion conversions.
//!
//! Turning a rotation matrix into a quaternion divides by a square root that
//! must not come out near zero; which of four formulas is safe depends on
//! the matrix's diagonal. Turning a quaternion into a matrix divides by its
//! norm, which a degenerate quaternion does not have.

use vstd::prelude::*;
use crate::scalar::{le, less, less_eq, lt, ZERO};

verus! {

/// The formula by which a rotation matrix yields its quaternion, named by
/// the component that the formula takes from a square root.
#[derive(Clone, Copy, Debug, PartialEq, Eq, Structural)]
pub enum QuatBranch {
    /// The trace is not below zero: `w` comes from `1 + trace`.
    W,
    /// The first diagonal entry is the largest: `x` comes from the root.
    X,
    /// The second diagonal entry is the largest: `y` comes from the root.
    Y,
    /// The third diagonal entry is the largest: `z` comes from the root.
    Z,
}

/// The branch for a matrix with the given trace and diagonal: by the trace
/// where it is not below zero, else by the largest diagonal entry, the
/// earlier one of two that are equal.
pub open spec fn quat_branch_of(trace: u32, m00: u32, m11: u32, m22: u32) -> QuatBranch {
    if less_eq(ZERO, trace) {
        QuatBranch::W
    } else if less_eq(m11, m00) && less_eq(m22, m00) {
        QuatBranch::X
    } else if less_eq(m22, m11) {
        QuatBranch::Y
    } else {
        QuatBranch::Z
    }
}

/// Chooses the formula by which a rotation matrix is turned into a
/// quaternion. `trace` is the sum of the three diagonal entries.
pub fn quat_branch(trace: u32, m00: u32, m11: u32, m22: u32) -> (r: QuatBranch)
    ensures
        r == quat_branch_of(trace, m00, m11, m22),
{
    if le(ZERO, trace) {
        QuatBranch::W
    } else if le(m11, m00) && le(m22, m00) {
        QuatBranch::X
    } else if le(m22, m11) {
        QuatBranch::Y
    } else {
        QuatBranch::Z
    }
}

/// Decides whether a quaternion of the given norm is a rotation. One whose
/// norm is not above zero is degenerate, and its matrix gets a scale of zero
/// in place of a division by the norm.
pub fn has_rotation(norm: u32) -> (r: bool)
    ensures
        r == less(ZERO, norm),
{
    lt(ZERO, norm)
}

} // verus!
