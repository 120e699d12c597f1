use vstd::prelude::*;

use crate::frame::WindowSize;

verus! {

/// Largest flow-control window, `2^31 - 1`.
pub const MAX_WINDOW_SIZE: WindowSize = 0x7fff_ffff;

/// How many locally reset streams are remembered.
pub const DEFAULT_RESET_STREAM_MAX: usize = 32;

/// How long locally reset streams are remembered, in seconds.
pub const DEFAULT_RESET_STREAM_SECS: u16 = 30;

/// Flow-control window of a connection.
pub const DEFAULT_CONNECTION_WINDOW_SIZE: WindowSize = 1_048_576;

/// How many bytes of a header block are accepted.
pub const DEFAULT_SETTINGS_MAX_HEADER_LIST_SIZE: u32 = 49_152;

/// How many CONTINUATION frames a header block may have.
pub const DEFAULT_MAX_COUNTINUATIONS: usize = 5;

/// Length of the connection preface.
pub const PREFACE_LEN: usize = 24;

/// The text that a client opens a connection with.
pub open spec fn preface() -> Seq<u8> {
    crate::http::text_bytes("PRI * HTTP/2.0\r\n\r\nSM\r\n\r\n"@)
}

} // verus!
