use vstd::prelude::*;

verus! {

/// A failure while moving bytes from a source to its sinks.
#[derive(Debug)]
pub enum IoFault {
    /// An underlying read, write or flush failed; carries the stream's own
    /// error message for diagnostics.
    Stream(String),
    /// The running byte count no longer fits in `usize`.
    CountOverflow,
}

} // verus!
