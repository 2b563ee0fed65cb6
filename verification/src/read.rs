//! An extension of byte-level reading with a blocking line primitive.

use vstd::prelude::*;

verus! {

/// Trait for readers that can block until a whole line has arrived.
///
/// The crate itself does not implement it: it is meant for the I/O layer
/// that pairs a [`crate::state::State`] with a connection and drains the
/// cleaned payload as it arrives.
pub trait Read {
    /// The error type of the underlying reader.
    type Err;

    /// Reads one line, waiting for input as long as no `'\n'` has been
    /// seen, so that the result is always a non-empty line ending in
    /// `'\n'`.
    fn read_line_waiting(&mut self) -> (r: Result<String, Self::Err>)
        ensures
            r matches Ok(line) ==> line@.len() > 0 && line@.last() == '\n',
    ;
}

} // verus!
