use vstd::prelude::*;

use crate::frame::FrameError;

verus! {

/// A result with the value taken by its view.
pub open spec fn viewed<T: View, E>(r: Result<T, E>) -> Result<T::V, E> {
    match r {
        Ok(v) => Ok(v@),
        Err(e) => Err(e),
    }
}

/// The payload of a padded frame: the first byte tells how many of the last
/// bytes are padding.
pub open spec fn unpadded(payload: Seq<u8>) -> Result<Seq<u8>, FrameError> {
    if payload.len() == 0 || payload[0] >= payload.len() {
        Err(FrameError::TooMuchPadding)
    } else {
        Ok(payload.subrange(1, payload.len() - payload[0]))
    }
}

/// Takes the pad length and the padding off a payload.
pub fn strip_padding(payload: &[u8]) -> (r: Result<Vec<u8>, FrameError>)
    ensures
        viewed(r) == unpadded(payload@),
{
    let len: usize = payload.len();
    if len == 0 {
        return Err(FrameError::TooMuchPadding);
    }
    let pad: usize = payload[0] as usize;
    if pad >= len {
        return Err(FrameError::TooMuchPadding);
    }
    Ok(copy(&payload[1..len - pad]))
}

/// The bytes in a vector of their own.
pub fn copy(src: &[u8]) -> (r: Vec<u8>)
    ensures
        r@ == src@,
{
    let mut r: Vec<u8> = Vec::new();
    r.extend_from_slice(src);
    assert(r@ =~= src@);
    r
}

} // verus!
