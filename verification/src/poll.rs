//! The outcome of asking for something that may not be there yet.
use vstd::prelude::*;

verus! {

/// Whether a piece of work is done. The caller of one that is [`Poll::Pending`] is woken when it is
/// worth asking again.
#[derive(Debug)]
pub enum Poll<T> {
    Ready(T),
    Pending,
}

} // verus!
