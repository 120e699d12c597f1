use vstd::prelude::*;

use crate::frame::{FrameError, Head, StreamId};

verus! {

/// PRIORITY frame. It is read and otherwise ignored.
#[derive(Debug, Copy, Clone, Eq, PartialEq, Structural)]
pub struct Priority {
    pub stream_id: StreamId,
    pub dependency: StreamDependency,
}

/// What a stream depends on.
#[derive(Debug, Copy, Clone, Eq, PartialEq, Structural)]
pub struct StreamDependency {
    /// The ID of the stream dependency target
    pub dependency_id: StreamId,
    /// The weight for the stream, one less than the number that it stands for.
    pub weight: u8,
    /// True if the stream dependency is exclusive.
    pub is_exclusive: bool,
}

impl Priority {
    /// The frame that belongs to a head and the payload behind it.
    pub open spec fn loaded(head: Head, payload: Seq<u8>) -> Result<Priority, FrameError> {
        match StreamDependency::loaded(payload) {
            Err(e) => Err(e),
            Ok(dependency) => if dependency.dependency_id == head.stream_id {
                Err(FrameError::InvalidDependencyId)
            } else {
                Ok(Priority { stream_id: head.stream_id, dependency })
            },
        }
    }

    /// Builds the frame from its head and the bytes behind the head.
    pub fn load(head: Head, payload: &[u8]) -> (r: Result<Priority, FrameError>)
        ensures
            r == Priority::loaded(head, payload@),
    {
        let dependency = match StreamDependency::load(payload) {
            Ok(dependency) => dependency,
            Err(e) => return Err(e),
        };
        if dependency.dependency_id() == head.stream_id() {
            return Err(FrameError::InvalidDependencyId);
        }
        Ok(Priority { stream_id: head.stream_id(), dependency })
    }
}

impl StreamDependency {
    /// The dependency that five bytes stand for.
    pub open spec fn loaded(src: Seq<u8>) -> Result<StreamDependency, FrameError> {
        if src.len() != 5 {
            Err(FrameError::InvalidPayloadLength)
        } else {
            Ok(
                StreamDependency {
                    dependency_id: StreamId::parsed(src),
                    weight: src[4],
                    is_exclusive: crate::frame::wire::be32(src) >= 0x8000_0000,
                },
            )
        }
    }

    pub fn load(src: &[u8]) -> (r: Result<StreamDependency, FrameError>)
        ensures
            r == StreamDependency::loaded(src@),
    {
        if src.len() != 5 {
            return Err(FrameError::InvalidPayloadLength);
        }
        // Parse the stream ID and exclusive flag
        let (dependency_id, is_exclusive) = StreamId::parse(src);

        Ok(StreamDependency { dependency_id, weight: src[4], is_exclusive })
    }

    pub fn dependency_id(&self) -> (r: StreamId)
        ensures
            r == self.dependency_id,
    {
        self.dependency_id
    }
}

} // verus!
