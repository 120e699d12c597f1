use vstd::prelude::*;

use crate::control::{Control, ControlAck};

verus! {

/// Default control service
#[derive(Copy, Clone, Debug)]
pub struct DefaultControlService;

impl DefaultControlService {
    /// Answers each message with its default.
    pub fn call<E>(&self, msg: Control<E>) -> (r: ControlAck)
        ensures
            r@ == msg@.ack(),
    {
        msg.ack()
    }
}

} // verus!
