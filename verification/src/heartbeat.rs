//! The heartbeat of a running embed call.
//!
//! A call that is stuck and one that is merely slow look the same from
//! outside. So while one runs, a second thread waits for its end, one interval
//! at a time, and reports every interval that passes without it. What that
//! thread does next is decided here.
use vstd::prelude::*;

use crate::interval::Interval;

verus! {

/// What a wait of one interval ended with.
#[derive(Debug, Clone, Copy)]
pub enum HeartbeatEvent {
    /// The embed call said that it is done.
    Done,
    /// The embed call is gone without saying so.
    Disconnected,
    /// The interval passed.
    TimedOut,
}

/// What to do after a wait.
#[derive(Debug, Clone, Copy)]
pub enum HeartbeatAction {
    /// Stop waiting.
    Stop,
    /// Warn that `n_texts` texts are still being embedded, after `elapsed_ms`
    /// milliseconds; then wait again.
    Warn { n_texts: usize, elapsed_ms: u64 },
}

/// The heartbeat of one embed call.
#[derive(Debug)]
pub struct Heartbeat {
    n_texts: usize,
    interval: Interval,
    elapsed: Interval,
}

/// The contents of a [`Heartbeat`], spans in nanoseconds.
pub struct HeartbeatView {
    pub n_texts: usize,
    pub interval: int,
    pub elapsed: int,
}

impl View for Heartbeat {
    type V = HeartbeatView;

    closed spec fn view(&self) -> HeartbeatView {
        HeartbeatView {
            n_texts: self.n_texts,
            interval: self.interval.total_nanos(),
            elapsed: self.elapsed.total_nanos(),
        }
    }
}

impl HeartbeatView {
    /// Another interval can be added to the time that has passed.
    pub open spec fn can_tick(self) -> bool {
        self.elapsed + self.interval <= Interval::max_nanos()
    }

    /// The heartbeat after an event.
    pub open spec fn after(self, event: HeartbeatEvent) -> HeartbeatView {
        match event {
            HeartbeatEvent::TimedOut => HeartbeatView {
                elapsed: self.elapsed + self.interval,
                ..self
            },
            _ => self,
        }
    }

    /// The heartbeat after `k` intervals have passed.
    pub open spec fn after_timeouts(self, k: nat) -> HeartbeatView
        decreases k,
    {
        if k == 0 {
            self
        } else {
            self.after_timeouts((k - 1) as nat).after(HeartbeatEvent::TimedOut)
        }
    }
}

impl Heartbeat {
    /// A heartbeat for an embed call on `n_texts` texts that starts now.
    pub fn new(n_texts: usize, interval: Interval) -> (r: Self)
        ensures
            r@ == (HeartbeatView { n_texts, interval: interval.total_nanos(), elapsed: 0 }),
    {
        Heartbeat { n_texts, interval, elapsed: Interval::from_secs(0) }
    }

    /// How long to wait for the end of the embed call.
    pub fn interval(&self) -> (r: Interval)
        ensures
            r.total_nanos() == self@.interval,
    {
        self.interval
    }

    /// Whether the time that has passed still has room for another interval.
    pub fn can_tick(&self) -> (r: bool)
        ensures
            r == self@.can_tick(),
    {
        self.elapsed.checked_add(&self.interval).is_some()
    }

    /// What to do now that a wait has ended with `event`. The time reported is
    /// the sum of the intervals that have passed, this one included.
    pub fn on_event(&mut self, event: HeartbeatEvent) -> (r: HeartbeatAction)
        requires
            event is TimedOut ==> old(self)@.can_tick(),
        ensures
            final(self)@ == old(self)@.after(event),
            final(self)@.n_texts == old(self)@.n_texts,
            final(self)@.interval == old(self)@.interval,
            final(self)@.elapsed == old(self)@.elapsed + if event is TimedOut {
                old(self)@.interval
            } else {
                0
            },
            match event {
                HeartbeatEvent::TimedOut => r == (HeartbeatAction::Warn {
                    n_texts: final(self)@.n_texts,
                    elapsed_ms: (final(self)@.elapsed / 1_000_000) as u64,
                }),
                _ => r is Stop,
            },
    {
        match event {
            HeartbeatEvent::Done | HeartbeatEvent::Disconnected => HeartbeatAction::Stop,
            HeartbeatEvent::TimedOut => {
                if let Some(elapsed) = self.elapsed.checked_add(&self.interval) {
                    self.elapsed = elapsed;
                }
                let millis: u128 = self.elapsed.as_millis();
                HeartbeatAction::Warn {
                    n_texts: self.n_texts,
                    elapsed_ms: #[verifier::truncate]
                    (millis as u64),
                }
            },
        }
    }
}

/// The `k`-th warning reports `k` intervals, and the number of texts never changes.
pub proof fn law_elapsed_is_whole_intervals(start: HeartbeatView, k: nat)
    requires
        start.elapsed == 0,
    ensures
        start.after_timeouts(k).elapsed == k * start.interval,
        start.after_timeouts(k).interval == start.interval,
        start.after_timeouts(k).n_texts == start.n_texts,
    decreases k,
{
    if k > 0 {
        law_elapsed_is_whole_intervals(start, (k - 1) as nat);
        assert(k * start.interval == (k - 1) * start.interval + start.interval)
            by (nonlinear_arith);
    } else {
        assert(0 * start.interval == 0);
    }
}

/// Only an interval that passes counts, and it counts in full; whatever
/// happens, the number of texts and the interval stay as they are.
pub proof fn law_only_timeouts_count(heartbeat: HeartbeatView, event: HeartbeatEvent)
    ensures
        heartbeat.after(event).n_texts == heartbeat.n_texts,
        heartbeat.after(event).interval == heartbeat.interval,
        event is TimedOut ==> heartbeat.after(event).elapsed - heartbeat.elapsed
            == heartbeat.interval,
        !(event is TimedOut) ==> heartbeat.after(event).elapsed == heartbeat.elapsed,
        heartbeat.can_tick() <==> heartbeat.elapsed + heartbeat.interval <= u64::MAX
            * 1_000_000_000 + 999_999_999,
{
}

} // verus!
