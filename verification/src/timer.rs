//! A one-shot timer that counts microseconds up to its duration and then
//! stays finished until it is reset.

use vstd::prelude::*;

verus! {

/// A one-shot timer.
#[derive(Clone, Copy, Debug, PartialEq, Eq, Structural)]
pub struct Timer {
    /// Microseconds the timer runs for.
    pub duration: u64,
    /// Microseconds counted so far, never more than `duration`.
    pub elapsed: u64,
    /// Whether a tick has carried `elapsed` up to `duration`.
    pub finished: bool,
}

impl Timer {
    /// The timer is in a state that `new`, `tick` and `reset` can leave it
    /// in.
    pub open spec fn wf(self) -> bool {
        &&& self.elapsed <= self.duration
        &&& self.finished ==> self.elapsed == self.duration
        &&& !self.finished ==> (self.elapsed < self.duration || self.elapsed == 0)
    }

    /// A timer of the given duration that has not started.
    pub open spec fn fresh(duration: u64) -> Timer {
        Timer { duration, elapsed: 0, finished: false }
    }

    /// The timer after `delta` more microseconds. A finished timer stays as
    /// it is; another finishes as soon as the time counted reaches its
    /// duration, and then holds exactly its duration.
    pub open spec fn ticked(self, delta: u64) -> Timer {
        if self.finished {
            self
        } else if self.elapsed + delta >= self.duration {
            Timer { duration: self.duration, elapsed: self.duration, finished: true }
        } else {
            Timer {
                duration: self.duration,
                elapsed: (self.elapsed + delta) as u64,
                finished: false,
            }
        }
    }

    /// The timer after the ticks `deltas`, one after the other.
    pub open spec fn ticked_through(self, deltas: Seq<u64>) -> Timer
        decreases deltas.len(),
    {
        if deltas.len() == 0 {
            self
        } else {
            self.ticked_through(deltas.drop_last()).ticked(deltas.last())
        }
    }

    /// A timer of the given duration that has not started.
    pub fn new(duration: u64) -> (t: Timer)
        ensures
            t == Timer::fresh(duration),
            t.wf(),
    {
        Timer { duration, elapsed: 0, finished: false }
    }

    /// Advances the timer by `delta` microseconds.
    pub fn tick(&mut self, delta: u64)
        ensures
            *final(self) == old(self).ticked(delta),
            old(self).wf() ==> final(self).wf(),
    {
        if !self.finished {
            let counted: u64 = self.elapsed.saturating_add(delta);
            if counted >= self.duration {
                self.elapsed = self.duration;
                self.finished = true;
            } else {
                self.elapsed = counted;
            }
        }
    }

    /// Whether the timer has run its full duration.
    pub fn finished(&self) -> (b: bool)
        ensures
            b == self.finished,
    {
        self.finished
    }

    /// Microseconds counted so far.
    pub fn elapsed(&self) -> (e: u64)
        ensures
            e == self.elapsed,
    {
        self.elapsed
    }

    /// Starts the timer over.
    pub fn reset(&mut self)
        ensures
            *final(self) == Timer::fresh(old(self).duration),
            final(self).wf(),
    {
        self.elapsed = 0;
        self.finished = false;
    }
}

/// Sum of the ticks `deltas`.
pub open spec fn total(deltas: Seq<u64>) -> int
    decreases deltas.len(),
{
    if deltas.len() == 0 {
        0
    } else {
        total(deltas.drop_last()) + deltas.last()
    }
}

/// A timer that started fresh holds the time that has passed, capped at its
/// duration, and is finished exactly when at least one tick has come and the
/// ticks add up to its duration or more.
pub proof fn lemma_timer_counts(duration: u64, deltas: Seq<u64>)
    ensures
        Timer::fresh(duration).ticked_through(deltas).wf(),
        Timer::fresh(duration).ticked_through(deltas).duration == duration,
        Timer::fresh(duration).ticked_through(deltas).finished <==> (deltas.len() > 0 && total(
            deltas,
        ) >= duration),
        Timer::fresh(duration).ticked_through(deltas).elapsed == if total(deltas) >= duration {
            duration as int
        } else {
            total(deltas)
        },
        total(deltas) >= 0,
    decreases deltas.len(),
{
    if deltas.len() > 0 {
        lemma_timer_counts(duration, deltas.drop_last());
    }
}

/// A timer finishes no earlier than its duration and no later than its
/// duration plus one tick: if the tick `deltas.last()` is the one that
/// finishes a timer that started fresh, then the time passed up to and
/// including that tick is at least the duration, and, for a timer of some
/// duration, less than the duration plus that tick.
pub proof fn lemma_timer_finishes_within_one_tick(duration: u64, deltas: Seq<u64>)
    requires
        deltas.len() > 0,
        Timer::fresh(duration).ticked_through(deltas).finished,
        !Timer::fresh(duration).ticked_through(deltas.drop_last()).finished,
    ensures
        duration <= total(deltas),
        total(deltas) <= duration + deltas.last(),
        duration > 0 ==> total(deltas) < duration + deltas.last(),
{
    lemma_timer_counts(duration, deltas);
    lemma_timer_counts(duration, deltas.drop_last());
}

} // verus!
