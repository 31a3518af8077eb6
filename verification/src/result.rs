//! The errors of the runtime around the codec.

use crate::protocol::Error;
use vstd::prelude::*;
use vstd::std_specs::convert::FromSpecImpl;

verus! {

#[derive(Debug, PartialEq, Eq)]
pub enum ThrustError {
    /// A request that the runtime cannot serve: a frame that cannot be
    /// decoded, or a resource that it does not hold.
    Other,
    /// The socket has nothing to give yet.
    NotReady,
    Str(String),
    IO,
    ByteOrder,
    PoisonError,
    RecvError,
    SendError,
    NotifyError,
}

pub type ThrustResult<T> = Result<T, ThrustError>;

impl From<Error> for ThrustError {
    /// Every failure of the codec is `Other` to the runtime.
    fn from(val: Error) -> (e: ThrustError) {
        ThrustError::Other
    }
}

impl FromSpecImpl<Error> for ThrustError {
    open spec fn obeys_from_spec() -> bool {
        true
    }

    open spec fn from_spec(val: Error) -> ThrustError {
        ThrustError::Other
    }
}

} // verus!
