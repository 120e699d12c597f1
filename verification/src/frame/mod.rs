//! HTTP/2 frames and their wire format.
use vstd::prelude::*;

pub mod block;
pub mod data;
pub mod error;
pub mod go_away;
pub mod head;
pub mod headers;
pub mod ping;
pub mod priority;
pub mod protocol;
pub mod pseudo;
pub mod reason;
pub mod reset;
pub mod settings;
pub mod stream_id;
pub mod util;
pub mod window_update;
pub mod wire;

pub use self::data::{Data, DataFlags};
pub use self::error::{ContinuationError, FrameError};
pub use self::go_away::GoAway;
pub use self::head::{Head, Kind};
pub use self::headers::{HeaderBlock, Headers, HeadersFlag};
pub use self::ping::Ping;
pub use self::priority::{Priority, StreamDependency};
pub use self::protocol::Protocol;
pub use self::pseudo::{PseudoHeaders, UriParts};
pub use self::reason::Reason;
pub use self::reset::Reset;
pub use self::settings::{
    Settings, DEFAULT_INITIAL_WINDOW_SIZE, DEFAULT_MAX_FRAME_SIZE,
    DEFAULT_SETTINGS_HEADER_TABLE_SIZE, MAX_INITIAL_WINDOW_SIZE, MAX_MAX_FRAME_SIZE,
};
pub use self::stream_id::StreamId;
pub use self::window_update::WindowUpdate;

verus! {

/// Size of a flow-control window, in bytes.
pub type WindowSize = u32;

/// Size of a frame payload, in bytes.
pub type FrameSize = u32;

/// Length of a frame header, in bytes.
pub const HEADER_LEN: usize = 9;

/// An HTTP/2 frame.
pub enum Frame {
    Data(Data),
    Headers(Headers),
    Priority(Priority),
    Reset(Reset),
    Settings(Settings),
    Ping(Ping),
    GoAway(GoAway),
    WindowUpdate(WindowUpdate),
}

/// What a frame says.
#[verifier::ext_equal]
pub enum FrameView {
    Data(data::DataView),
    Headers(headers::HeadersView),
    Priority(Priority),
    Reset(Reset),
    Settings(Settings),
    Ping(ping::PingView),
    GoAway(go_away::GoAwayView),
    WindowUpdate(WindowUpdate),
}

impl View for Frame {
    type V = FrameView;

    open spec fn view(&self) -> FrameView {
        match self {
            Frame::Data(v) => FrameView::Data(v@),
            Frame::Headers(v) => FrameView::Headers(v@),
            Frame::Priority(v) => FrameView::Priority(*v),
            Frame::Reset(v) => FrameView::Reset(*v),
            Frame::Settings(v) => FrameView::Settings(*v),
            Frame::Ping(v) => FrameView::Ping(v@),
            Frame::GoAway(v) => FrameView::GoAway(v@),
            Frame::WindowUpdate(v) => FrameView::WindowUpdate(*v),
        }
    }
}

impl FrameView {
    /// A frame whose numbers are within their ranges and whose fields have values,
    /// as frames off the wire are.
    pub open spec fn valid(self) -> bool {
        match self {
            FrameView::Headers(v) => v.stream_id.wf() && v.stream_id.0 != 0 && crate::http::valued(
                v.block.fields,
            ),
            FrameView::Settings(v) => v.wf(),
            FrameView::WindowUpdate(v) => v.wf(),
            _ => true,
        }
    }
}

} // verus!
