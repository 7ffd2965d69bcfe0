//! The events of the terminal loop and its pace (reading the terminal is left to the
//! caller).
use vstd::prelude::*;
use crate::keys::KeyEvent;

verus! {

/// Declares `crossterm::event::MouseEvent`, carried through as read.
#[verifier::external_type_specification]
#[verifier::external_body]
pub struct ExMouseEvent(crossterm::event::MouseEvent);

/// An event of the terminal loop: a key press, a mouse event, a new size, or a tick when
/// nothing happened in time.
#[derive(Debug)]
pub enum Event {
    Key(KeyEvent),
    Mouse(crossterm::event::MouseEvent),
    Resize(u16, u16),
    Tick,
}

/// The event loop's settings: how long to wait for an event before a tick.
pub struct EventLoop {
    tick_rate_ms: u64,
}

impl EventLoop {
    /// A loop that ticks every `tick_rate_ms` milliseconds without events.
    pub fn new(tick_rate_ms: u64) -> (s: Self)
        ensures
            s.tick_rate() == tick_rate_ms,
    {
        EventLoop { tick_rate_ms }
    }

    /// The tick interval, in milliseconds.
    pub closed spec fn tick_rate(&self) -> u64 {
        self.tick_rate_ms
    }

    /// The tick interval, in milliseconds.
    pub fn tick_rate_ms(&self) -> (r: u64)
        ensures
            r == self.tick_rate(),
    {
        self.tick_rate_ms
    }
}

} // verus!
