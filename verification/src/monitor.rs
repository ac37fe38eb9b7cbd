//! The polling schedule of the volume monitor: how long to wait before the
//! next trades request, and which replies are shown.

use vstd::prelude::*;

use crate::tick::Tick;

verus! {

/// How many trades one request asks for.
pub const TICK_FETCH_ELEMENTS: u64 = 2000;

/// The pause, in milliseconds, at start and the shortest pause after new trades.
pub const TICK_FETCH_INIT_DELAY: u32 = 2000;

/// How much the pause grows, in milliseconds, after a reply without new trades.
pub const TICK_FETCH_DELAY_DELTA: u32 = 500;

/// The longest pause, in milliseconds.
pub const TICK_FETCH_DELAY_LIMIT: u32 = 30000;

/// The pause after a reply without new trades: `TICK_FETCH_DELAY_DELTA` longer,
/// at most `TICK_FETCH_DELAY_LIMIT`.
pub open spec fn grown_delay(delay: u32) -> u32 {
    if delay + TICK_FETCH_DELAY_DELTA > TICK_FETCH_DELAY_LIMIT {
        TICK_FETCH_DELAY_LIMIT
    } else {
        (delay + TICK_FETCH_DELAY_DELTA) as u32
    }
}

/// The pause after a reply without new trades.
pub fn get_new_delay(delay: u32) -> (r: u32)
    requires
        delay + TICK_FETCH_DELAY_DELTA <= u32::MAX,
    ensures
        r == grown_delay(delay),
{
    let delay = delay + TICK_FETCH_DELAY_DELTA;
    if delay > TICK_FETCH_DELAY_LIMIT {
        return TICK_FETCH_DELAY_LIMIT;
    }
    delay
}

/// The pause after a reply with `count` new trades: the old pause shared out
/// over them, rounded down to a multiple of 100 ms, at least
/// `TICK_FETCH_INIT_DELAY`. `count` is taken modulo 2^32, as a `u32`.
pub open spec fn shared_delay(delay: u32, count: nat) -> u32 {
    let n = (count % 0x1_0000_0000) as u32;
    let d = (delay / n) / 100 * 100;
    if d < TICK_FETCH_INIT_DELAY {
        TICK_FETCH_INIT_DELAY
    } else {
        d as u32
    }
}

/// The state of the volume monitor: the newest trade shown, and the pause
/// before the next request.
pub struct VolumeMonitor {
    last_tid: u64,
    delay: u32,
}

/// The mathematical view of a [`VolumeMonitor`].
pub struct MonitorView {
    pub last_tid: u64,
    pub delay: u32,
}

impl View for VolumeMonitor {
    type V = MonitorView;

    closed spec fn view(&self) -> MonitorView {
        MonitorView { last_tid: self.last_tid, delay: self.delay }
    }
}

/// The state the monitor moves to after a reply, and whether it shows it.
pub open spec fn after_reply(s: MonitorView, fetched: Seq<Tick>) -> (MonitorView, bool) {
    if fetched.len() == 0 || fetched[0].tid == s.last_tid {
        (MonitorView { last_tid: s.last_tid, delay: grown_delay(s.delay) }, false)
    } else {
        (MonitorView { last_tid: fetched[0].tid, delay: shared_delay(s.delay, fetched.len()) }, true)
    }
}

impl VolumeMonitor {
    #[verifier::type_invariant]
    spec fn delay_in_range(self) -> bool {
        TICK_FETCH_INIT_DELAY <= self.delay <= TICK_FETCH_DELAY_LIMIT
    }

    /// Starts after the first request: the newest trade then seen, if any,
    /// counts as shown.
    pub fn new(first: &Vec<Tick>) -> (m: VolumeMonitor)
        ensures
            m@.last_tid == (if first@.len() > 0 {
                first@[0].tid
            } else {
                0
            }),
            m@.delay == TICK_FETCH_INIT_DELAY,
    {
        let last_tid = if first.len() > 0 {
            first[0].tid
        } else {
            0
        };
        VolumeMonitor { last_tid, delay: TICK_FETCH_INIT_DELAY }
    }

    /// The newest trade shown so far.
    pub fn last_tid(&self) -> (r: u64)
        ensures
            r == self@.last_tid,
    {
        self.last_tid
    }

    /// The pause, in milliseconds, before the next request.
    pub fn delay(&self) -> (r: u32)
        ensures
            r == self@.delay,
            TICK_FETCH_INIT_DELAY <= r <= TICK_FETCH_DELAY_LIMIT,
    {
        proof {
            use_type_invariant(self);
        }
        self.delay
    }

    /// Takes the trades of a reply (those newer than the last shown); returns
    /// whether they are to be shown.
    pub fn on_reply(&mut self, fetched: &Vec<Tick>) -> (show: bool)
        requires
            !(fetched@.len() > 0 && fetched@[0].tid != old(self)@.last_tid && fetched@.len()
                % 0x1_0000_0000 == 0),
        ensures
            (final(self)@, show) == after_reply(old(self)@, fetched@),
            TICK_FETCH_INIT_DELAY <= final(self)@.delay <= TICK_FETCH_DELAY_LIMIT,
    {
        proof {
            use_type_invariant(&*self);
        }
        if fetched.len() == 0 || fetched[0].tid == self.last_tid {
            self.delay = get_new_delay(self.delay);
            return false;
        }
        let n = (fetched.len() as u64 % 0x1_0000_0000) as u32;
        let mut delay = (self.delay / n) / 100 * 100;
        if delay < TICK_FETCH_INIT_DELAY {
            delay = TICK_FETCH_INIT_DELAY;
        }
        self.last_tid = fetched[0].tid;
        self.delay = delay;
        true
    }
}

} // verus!
