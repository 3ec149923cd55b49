//! The cross-thread sample exchange: one triple-buffered single-writer /
//! single-reader channel per direction, giving the reader the latest
//! fully-written sample without blocking either side.  Writes that are not
//! read before the next write are silently superseded.
//!
//! The channel itself comes from the `triple_buffer` crate; what a read
//! returns depends on the writer thread's progress, so the contracts here
//! promise nothing about the value, and everything the library computes
//! from an exchanged sample is verified for every possible value of it.

use vstd::prelude::*;

verus! {

/// The writer endpoint of a `triple_buffer` channel.
#[verifier::external_type_specification]
#[verifier::external_body]
#[verifier::reject_recursive_types(T)]
pub struct ExInput<T: Send>(triple_buffer::Input<T>);

/// The reader endpoint of a `triple_buffer` channel.
#[verifier::external_type_specification]
#[verifier::external_body]
#[verifier::reject_recursive_types(T)]
pub struct ExOutput<T: Send>(triple_buffer::Output<T>);

/// Relies on triple_buffer::triple_buffer: builds the two endpoints of a
/// fresh channel seeded with a clone of `initial`, which is what a read
/// before any write yields.
#[verifier::external_body]
pub fn exchange_new<T: Clone + Send>(initial: &T) -> (triple_buffer::Input<T>, triple_buffer::Output<
    T,
>) {
    triple_buffer::triple_buffer(initial)
}

/// Relies on triple_buffer::Input::write: publishes `value` as the newest
/// sample, superseding any unread one; never blocks.
#[verifier::external_body]
pub fn exchange_write<T: Send>(input: &mut triple_buffer::Input<T>, value: T) {
    input.write(value);
}

/// Relies on triple_buffer::Output::read: fetches the newest sample the
/// writer has published, or the seed if none yet; which value comes back
/// depends on the writer thread, so nothing is promised of it.  The
/// sample is handed out by clone.
#[verifier::external_body]
pub fn exchange_read<T: Clone + Send>(output: &mut triple_buffer::Output<T>) -> T {
    output.read().clone()
}

} // verus!
