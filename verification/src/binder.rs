//! Bridge rules: how one DataChannel is pumped to and from one stream
//! socket.
//!
//! The bridge is transparent: every chunk read from the socket is handed to
//! the channel unchanged, and the pump stops exactly on end of file, on a
//! read error, or when the channel goes away.

use vstd::prelude::*;

verus! {

/// Bytes read from the socket per pump iteration.
pub const BUFFER_SIZE: usize = 4096;

/// What one socket read produced.
#[derive(Debug, Clone)]
pub enum SocketRead {
    /// Bytes were read.
    Data { bytes: Vec<u8> },
    /// The peer closed its write half.
    Eof,
    /// The read failed.
    Failed,
}

/// What the pump does next.
#[derive(Debug, Clone)]
pub enum PumpAction {
    /// Hand exactly these bytes to the DataChannel.
    Send { bytes: Vec<u8> },
    /// Close the DataChannel and stop pumping.
    Close,
}

/// One step of the socket-to-channel pump.  Every non-empty read is
/// forwarded byte for byte; an empty read, end of file, or a failed read
/// closes the channel, so no accepted socket is ever silently kept open.
pub fn socket_pump_step(r: SocketRead) -> (a: PumpAction)
    ensures
        r matches SocketRead::Data { bytes } ==> {
            &&& bytes@.len() > 0 ==> (a matches PumpAction::Send { bytes: out } && out@
                == bytes@)
            &&& bytes@.len() == 0 ==> a == PumpAction::Close
        },
        r is Eof ==> a == PumpAction::Close,
        r is Failed ==> a == PumpAction::Close,
{
    match r {
        SocketRead::Data { bytes } => {
            if bytes.len() == 0 {
                PumpAction::Close
            } else {
                PumpAction::Send { bytes }
            }
        },
        SocketRead::Eof => PumpAction::Close,
        SocketRead::Failed => PumpAction::Close,
    }
}

} // verus!
