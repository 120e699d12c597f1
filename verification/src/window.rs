use vstd::prelude::*;

use crate::frame::WindowSize;

verus! {

/// A flow-control window that the peer knows about.
///
/// This can go negative if a `SETTINGS_INITIAL_WINDOW_SIZE` is received.
///
/// For example, say the peer sends a request and uses 32kb of the window.
/// We send a `SETTINGS_INITIAL_WINDOW_SIZE` of 16kb. The peer has to adjust
/// its understanding of the capacity of the window, and that would be:
///
/// ```notrust
/// default (64kb) - used (32kb) - settings_diff (64kb - 16kb): -16kb
/// ```
#[derive(Copy, Clone, Debug, PartialEq, Eq, Structural)]
pub struct Window {
    pub window_size: i32,
}

impl Window {
    /// The bytes that the window admits.
    pub open spec fn size(self) -> int {
        if self.window_size < 0 {
            0
        } else {
            self.window_size as int
        }
    }

    /// The increment that `update` announces: what is missing to `max_size`,
    /// less the capacity that is still in use, where there is any and it reaches
    /// the threshold.
    pub open spec fn increment(self, cap: int, max_size: int, threshold: int) -> Option<int> {
        let available = max_size - self.window_size - cap;
        if self.window_size >= max_size || available <= 0 || available < threshold {
            None
        } else {
            Some(available)
        }
    }

    pub fn new(sz: i32) -> (r: Window)
        ensures
            r.window_size == sz,
    {
        Window { window_size: sz }
    }

    /// Returns the window size as known by the peer
    pub fn window_size(self) -> (r: WindowSize)
        ensures
            r == self.size(),
    {
        if self.window_size < 0 {
            0
        } else {
            self.window_size as WindowSize
        }
    }

    /// Whether the window admits anything.
    pub fn available(self) -> (r: bool)
        ensures
            r == (self.size() > 0),
    {
        self.window_size > 0
    }

    /// If a `WINDOW_UPDATE` frame should be sent, returns a positive number
    /// representing the increment to be used.
    ///
    /// If there is no available bytes to be reclaimed, or the number of
    /// available bytes does not reach the threshold, this returns `None`.
    ///
    /// This represents pending outbound `WINDOW_UPDATE` frames.
    pub fn update(&mut self, cap: WindowSize, max_size: i32, threshold_size: WindowSize) -> (r: Option<
        WindowSize,
    >)
        requires
            cap <= i32::MAX,
            threshold_size <= i32::MAX,
            max_size - old(self).window_size <= i32::MAX,
        ensures
            match old(self).increment(cap as int, max_size as int, threshold_size as int) {
                None => r == None::<WindowSize> && *final(self) == *old(self),
                Some(n) => r == Some(n as u32) && 0 < n <= i32::MAX && final(self).window_size
                    == old(self).window_size + n,
            },
            final(self).window_size <= max_size || *final(self) == *old(self),
    {
        if self.window_size >= max_size {
            return None;
        }
        let available: i32 = max_size - self.window_size - (cap as i32);
        if available <= 0 || available < threshold_size as i32 {
            None
        } else {
            self.window_size = self.window_size + available;
            Some(available as WindowSize)
        }
    }

    /// Increase the window size.
    ///
    /// This is called after receiving a `WINDOW_UPDATE` frame
    pub fn inc(self, sz: i32) -> (r: Result<Window, ()>)
        ensures
            if i32::MIN <= self.window_size + sz <= i32::MAX {
                r == Ok::<Window, ()>(Window { window_size: (self.window_size + sz) as i32 })
            } else {
                r == Err::<Window, ()>(())
            },
    {
        match self.window_size.checked_add(sz) {
            Some(val) => Ok(Window::new(val)),
            None => Err(()),
        }
    }

    /// Decrement the window size.
    ///
    /// This is called after receiving a `SETTINGS` frame with a lower
    /// `INITIAL_WINDOW_SIZE` value.
    pub fn dec(self, sz: WindowSize) -> (r: Window)
        requires
            sz <= i32::MAX,
            self.window_size - sz >= i32::MIN,
        ensures
            r.window_size == self.window_size - sz,
    {
        Window::new(self.window_size - (sz as i32))
    }
}

/// What is announced brings a window to its full size, together with what is still in
/// use. Nothing is announced of a window that is full, and nothing below the threshold.
pub proof fn windows_are_filled(w: Window, cap: int, max_size: int, threshold: int)
    requires
        cap >= 0,
    ensures
        match w.increment(cap, max_size, threshold) {
            Some(n) => n > 0 && n >= threshold && w.window_size + cap + n == max_size,
            None => w.window_size >= max_size || w.window_size + cap >= max_size || max_size
                - w.window_size - cap < threshold,
        },
{
}

} // verus!
