//! The fixed-capacity ring buffer that keeps the bot's recent state.
use vstd::prelude::*;

verus! {

/// `circular_buffer::FixedCircularBuffer`, a ring buffer of capacity `N`,
/// carried as an opaque value.
#[verifier::external_type_specification]
#[verifier::external_body]
#[verifier::reject_recursive_types(T)]
pub struct ExFixedCircularBuffer<T, const N: usize>(circular_buffer::FixedCircularBuffer<T, N>);

} // verus!
