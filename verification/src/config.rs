//! The fixed state enumeration that the tracker core depends on.
//!
//! The core never reads display metadata; it only needs the number of states
//! and which index is the designated emergency state. The descriptor type is
//! defined here so that presentation layers can carry one table of labels for
//! the same enumeration.

use vstd::prelude::*;

verus! {

/// Number of states in the fixed enumeration; valid state identifiers are
/// `0 .. STATE_COUNT - 1`.
pub const STATE_COUNT: usize = 15;

/// Index of the designated emergency state, an interrupt category with
/// special UI treatment and no special storage semantics.
pub const EMERGENCY_STATE_INDEX: usize = 14;

/// Display metadata for one state of the enumeration. The core stores and
/// aggregates by state identifier only; this descriptor exists for the
/// presentation layer that renders the same enumeration.
#[derive(Clone, Copy)]
pub struct StateDetail<'a> {
    pub emoji: &'a str,
    pub name: &'a str,
    pub description: &'a str,
    pub colour: &'a str,
}

/// Whether a state identifier is a valid member of the enumeration.
pub open spec fn spec_state_valid(state: u8) -> bool {
    (state as int) < STATE_COUNT
}

/// Whether `state` denotes the designated emergency state.
pub fn is_emergency_state(state: u8) -> (r: bool)
    ensures
        r == (state as int == EMERGENCY_STATE_INDEX),
{
    state as usize == EMERGENCY_STATE_INDEX
}

} // verus!
