//! Frames that travel to a network and back, and the storage that they live in.
use vstd::prelude::*;

pub mod effects;
pub mod frame;
pub mod handle;
pub mod laws;
pub mod pdu_loop;
pub mod probe;
pub mod sender;
pub mod storage;
pub mod waker;
pub mod wakes;

verus! {

/// What a frame asks of the devices that it passes.
#[derive(Debug)]
pub enum Command {
    Whatever,
}

/// What can go wrong.
#[derive(Clone, Copy, Debug, PartialEq, Eq, Structural)]
pub enum Error {
    /// The data does not fit the buffer of a frame.
    DataTooLong,
    /// The frame is not in the state that it would have to be in.
    SwapState,
    /// There is no frame to wait for.
    NoFrame,
    /// The frame is in a state that it cannot be awaited or completed in.
    InvalidFrameState,
    /// The frame could not be sent.
    SendFailed,
    /// The packet does not fit the buffer that it is to be written to.
    BufferTooShort,
}

} // verus!
