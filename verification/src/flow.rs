use vstd::prelude::*;

use crate::frame::{Reason, WindowSize};

verus! {

/// What a window of `size` bytes lacks to `max_size`. More than 32 bits hold is
/// counted without the part that they cannot hold.
pub open spec fn unclaimed(size: int, max_size: u32) -> int {
    if max_size - size <= u32::MAX {
        max_size - size
    } else {
        max_size - size - 0x1_0000_0000
    }
}

/// Flow control of one direction of a stream or of a connection.
#[derive(Copy, Clone, Debug)]
pub struct FlowControl {
    /// Window the peer knows about.
    ///
    /// This can go negative if a SETTINGS_INITIAL_WINDOW_SIZE is received.
    ///
    /// For example, say the peer sends a request and uses 32kb of the window.
    /// We send a SETTINGS_INITIAL_WINDOW_SIZE of 16kb. The peer has to adjust
    /// its understanding of the capacity of the window, and that would be:
    ///
    /// ```notrust
    /// default (64kb) - used (32kb) - settings_diff (64kb - 16kb): -16kb
    /// ```
    pub window_size: Window,
}

impl View for FlowControl {
    type V = int;

    open spec fn view(&self) -> int {
        self.window_size.0 as int
    }
}

impl FlowControl {
    pub fn new(sz: i32) -> (r: FlowControl)
        ensures
            r@ == sz,
    {
        FlowControl { window_size: Window(sz) }
    }

    /// Returns the window size as known by the peer
    pub fn window_size(&self) -> (r: WindowSize)
        ensures
            r == (if self@ < 0 {
                0
            } else {
                self@
            }),
    {
        self.window_size.as_size()
    }

    /// If a WINDOW_UPDATE frame should be sent, returns a positive number
    /// representing the increment to be used.
    ///
    /// If there is no available bytes to be reclaimed, or the number of
    /// available bytes does not reach the threshold, this returns `None`.
    ///
    /// This represents pending outbound WINDOW_UPDATE frames.
    pub fn need_update_window(&self, max_size: WindowSize, threshold_size: WindowSize) -> (r: Option<
        WindowSize,
    >)
        ensures
            ({
                let n = unclaimed(self@, max_size);
                r == (if n <= 0 || n < threshold_size {
                    None::<WindowSize>
                } else {
                    Some(n as u32)
                })
            }),
    {
        let mut unclaimed: i64 = max_size as i64 - self.window_size.0 as i64;
        if unclaimed > u32::MAX as i64 {
            unclaimed = unclaimed - 0x1_0000_0000;
        }
        if unclaimed <= 0 || unclaimed < threshold_size as i64 {
            None
        } else {
            Some(unclaimed as u32)
        }
    }

    /// Increase the window size.
    ///
    /// This is called after receiving a WINDOW_UPDATE frame
    pub fn inc_window(&mut self, sz: WindowSize) -> (r: Result<(), Reason>)
        ensures
            if old(self)@ + sz <= i32::MAX {
                r is Ok && final(self)@ == old(self)@ + sz
            } else {
                r == Err::<(), Reason>(Reason::FLOW_CONTROL_ERROR) && final(self)@ == old(self)@
            },
    {
        let val: i64 = self.window_size.0 as i64 + sz as i64;
        if val > i32::MAX as i64 {
            return Err(Reason::FLOW_CONTROL_ERROR);
        }
        self.window_size = Window(val as i32);
        Ok(())
    }

    /// Decrement the window size.
    ///
    /// This is called after receiving a SETTINGS frame with a lower
    /// INITIAL_WINDOW_SIZE value.
    pub fn dec_window(&mut self, sz: WindowSize)
        requires
            i32::MIN <= old(self)@ - sz,
        ensures
            final(self)@ == old(self)@ - sz,
    {
        self.window_size = Window((self.window_size.0 as i64 - sz as i64) as i32);
    }

    /// Decrements the window reflecting data has actually been sent. The caller
    /// must ensure that the window has capacity.
    pub fn send_data(&mut self, sz: WindowSize)
        requires
            sz <= old(self)@,
        ensures
            final(self)@ == old(self)@ - sz,
    {
        self.dec_window(sz);
    }
}

/// The current capacity of a flow-controlled Window.
///
/// This number can go negative when either side has used a certain amount
/// of capacity when the other side advertises a reduction in size.
#[derive(Clone, Copy, Debug, PartialEq, Structural)]
pub struct Window(pub i32);

impl Window {
    /// The capacity, or zero where it is negative.
    pub fn as_size(&self) -> (r: WindowSize)
        ensures
            r == (if self.0 < 0 {
                0
            } else {
                self.0 as int
            }),
    {
        if self.0 < 0 {
            0
        } else {
            self.0 as WindowSize
        }
    }

    /// The capacity of a window that is not negative.
    pub fn checked_size(&self) -> (r: WindowSize)
        requires
            self.0 >= 0,
        ensures
            r == self.0,
    {
        self.0 as WindowSize
    }
}

/// A window is as large as its capacity, and a negative one is not of any size.
impl PartialEq<usize> for Window {
    fn eq(&self, other: &usize) -> (r: bool) {
        if self.0 < 0 {
            false
        } else {
            self.checked_size() as usize == *other
        }
    }
}

impl vstd::std_specs::cmp::PartialEqSpecImpl<usize> for Window {
    open spec fn obeys_eq_spec() -> bool {
        true
    }

    open spec fn eq_spec(&self, other: &usize) -> bool {
        self.0 == *other
    }
}

/// Windows are ordered by their capacity, and a negative one is below any size.
impl PartialOrd<usize> for Window {
    fn partial_cmp(&self, other: &usize) -> (r: Option<std::cmp::Ordering>) {
        if self.below(other) {
            Some(std::cmp::Ordering::Less)
        } else if *self == *other {
            Some(std::cmp::Ordering::Equal)
        } else {
            Some(std::cmp::Ordering::Greater)
        }
    }
}

impl vstd::std_specs::cmp::PartialOrdSpecImpl<usize> for Window {
    open spec fn obeys_partial_cmp_spec() -> bool {
        true
    }

    open spec fn partial_cmp_spec(&self, other: &usize) -> Option<std::cmp::Ordering> {
        if self.0 < *other {
            Some(std::cmp::Ordering::Less)
        } else if self.0 == *other {
            Some(std::cmp::Ordering::Equal)
        } else {
            Some(std::cmp::Ordering::Greater)
        }
    }
}

impl Window {
    fn below(&self, other: &usize) -> (r: bool)
        ensures
            r == (self.0 < *other),
    {
        self.0 < 0 || (self.checked_size() as usize) < *other
    }
}

impl From<Window> for isize {
    fn from(w: Window) -> (r: isize) {
        w.0 as isize
    }
}

impl vstd::std_specs::convert::FromSpecImpl<Window> for isize {
    open spec fn obeys_from_spec() -> bool {
        true
    }

    open spec fn from_spec(w: Window) -> isize {
        w.0 as isize
    }
}

} // verus!
