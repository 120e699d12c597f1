use vstd::prelude::*;

use crate::frame::headers::HeadersView;
use crate::frame::{Headers, StreamId};

verus! {

/// A header block whose last frame has not come yet.
pub struct Partial {
    /// The frame without its headers
    pub frame: Headers,
    /// The header block as far as it has come
    pub buf: Vec<u8>,
    /// The number of CONTINUATION frames so far
    pub continuations: usize,
}

/// What has come of a header block.
#[verifier::ext_equal]
pub struct PartialView {
    pub frame: HeadersView,
    pub buf: Seq<u8>,
    pub continuations: nat,
}

impl View for Partial {
    type V = PartialView;

    open spec fn view(&self) -> PartialView {
        PartialView {
            frame: self.frame@,
            buf: self.buf@,
            continuations: self.continuations as nat,
        }
    }
}

impl Partial {
    pub fn stream_id(&self) -> (r: StreamId)
        ensures
            r == self@.frame.stream_id,
    {
        self.frame.stream_id()
    }
}

} // verus!
