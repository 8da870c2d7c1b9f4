//! The idle countdown: it completes once a full duration has passed without
//! a reset, and every reset in time starts the duration over.
//!
//! Time is a count of milliseconds on a clock that the caller reads; the
//! countdown never reads a clock itself.

use vstd::prelude::*;

verus! {

/// The capability to reset the countdowns of one trigger. It may be used
/// any number of times, also after the countdown has completed.
#[derive(Debug, Clone, Copy, PartialEq, Eq, Structural)]
pub struct ResetGuard {
    /// The trigger that this guard belongs to.
    pub signal: u64,
}

/// A reset trigger. Countdowns started from it listen to its guards only.
/// Two triggers are the same trigger exactly when their numbers are equal:
/// whoever makes one names it, or takes it from a `SignalSource`.
#[derive(Debug, Clone, Copy, PartialEq, Eq, Structural)]
pub struct ResetSignal {
    /// The number that tells this trigger from others.
    pub id: u64,
}

/// Hands out triggers, none of which shares its number, and so its guards,
/// with one that this source handed out before.
#[derive(Debug)]
pub struct SignalSource {
    next: u64,
}

/// What the owner of a countdown does after looking at it.
#[derive(Debug, Clone, Copy, PartialEq, Eq, Structural)]
pub enum TimerAction {
    /// Not yet: look again after this many milliseconds, or at a reset.
    Sleep(u64),
    /// The duration passed without a reset. Reported exactly once.
    Fire,
    /// The countdown completed earlier.
    Done,
}

/// The state of one running countdown.
#[derive(Debug, Clone, Copy, PartialEq, Eq, Structural)]
pub struct Countdown {
    /// The trigger whose guards reset this countdown.
    pub signal: u64,
    /// The time without a reset after which the countdown completes.
    pub duration: u64,
    /// When the countdown was started or last reset.
    pub armed_at: u64,
    /// Whether completion was already reported.
    pub fired: bool,
}

impl ResetGuard {
    /// Restarts `timer` at `now`, if this guard belongs to the timer's
    /// trigger and the timer has not run out by `now`. Otherwise nothing
    /// changes: a late reset, or one meant for another timer, is lost.
    pub fn reset(&self, timer: &mut Countdown, now: u64)
        ensures
            *final(timer) == old(timer).after_reset(self.signal, now),
    {
        if timer.signal == self.signal && !timer.fired && now >= timer.armed_at && now
            - timer.armed_at < timer.duration {
            timer.armed_at = now;
        }
    }
}

impl SignalSource {
    /// How many triggers this source has handed out.
    pub closed spec fn count(&self) -> nat {
        self.next as nat
    }

    /// The numbers of the triggers that this source has handed out.
    pub open spec fn issued(&self) -> Set<u64> {
        Set::new(|id: u64| (id as nat) < self.count())
    }

    /// A source that has handed out nothing yet.
    pub fn new() -> (source: SignalSource)
        ensures
            source.count() == 0,
    {
        SignalSource { next: 0 }
    }

    /// Hands out a trigger that is none of those handed out before. Only
    /// a source that has used up every number has none to give.
    pub fn fresh(&mut self) -> (signal: Option<ResetSignal>)
        ensures
            signal.is_some() == (old(self).count() < u64::MAX),
            match signal {
                Some(made) => {
                    &&& made.id == old(self).count()
                    &&& !old(self).issued().contains(made.id)
                    &&& final(self).count() == old(self).count() + 1
                    &&& final(self).issued() == old(self).issued().insert(made.id)
                },
                None => final(self).count() == old(self).count(),
            },
    {
        if self.next == u64::MAX {
            None
        } else {
            let id: u64 = self.next;
            self.next = id + 1;
            assert(self.issued() =~= old(self).issued().insert(id));
            Some(ResetSignal { id })
        }
    }
}

impl ResetSignal {
    /// The trigger numbered `id`.
    pub fn new(id: u64) -> (signal: ResetSignal)
        ensures
            signal.id == id,
    {
        ResetSignal { id }
    }

    /// A guard for this trigger.
    pub fn get_guard(&self) -> (guard: ResetGuard)
        ensures
            guard.signal == self.id,
    {
        ResetGuard { signal: self.id }
    }

    /// Starts a countdown of `duration` at `now`, and hands out a guard
    /// that can reset it.
    pub fn run_after(&self, duration: u64, now: u64) -> (started: (ResetGuard, Countdown))
        ensures
            started.0.signal == self.id,
            started.1 == Countdown::armed(self.id, duration, now),
    {
        (self.get_guard(), Countdown { signal: self.id, duration, armed_at: now, fired: false })
    }
}

impl Countdown {
    /// A countdown of `duration` for trigger `signal`, started at `now`.
    pub open spec fn armed(signal: u64, duration: u64, now: u64) -> Countdown {
        Countdown { signal, duration, armed_at: now, fired: false }
    }

    /// The time that has passed at `now` since the countdown was armed. A
    /// reading from before that counts as no time at all.
    pub open spec fn elapsed(&self, now: u64) -> int {
        if now >= self.armed_at {
            now - self.armed_at
        } else {
            0
        }
    }

    /// Whether the full duration has passed at `now`.
    pub open spec fn run_out(&self, now: u64) -> bool {
        self.elapsed(now) >= self.duration
    }

    /// The countdown after a reset at `now` through a guard of `signal`.
    pub open spec fn after_reset(&self, signal: u64, now: u64) -> Countdown {
        if self.signal == signal && !self.fired && now >= self.armed_at && now - self.armed_at
            < self.duration {
            Countdown { armed_at: now, ..*self }
        } else {
            *self
        }
    }

    /// The countdown after one reset at each of `times`, in order, through
    /// a guard of `signal`.
    pub open spec fn after_resets(&self, signal: u64, times: Seq<u64>) -> Countdown
        decreases times.len(),
    {
        if times.len() == 0 {
            *self
        } else {
            self.after_resets(signal, times.drop_last()).after_reset(signal, times.last())
        }
    }

    /// The countdown after its owner looked at it at `now`, and what the
    /// owner is told.
    pub open spec fn after_poll(&self, now: u64) -> (Countdown, TimerAction) {
        if self.fired {
            (*self, TimerAction::Done)
        } else if self.run_out(now) {
            (Countdown { fired: true, ..*self }, TimerAction::Fire)
        } else {
            (*self, TimerAction::Sleep((self.duration - self.elapsed(now)) as u64))
        }
    }

    /// Looks at the countdown at `now`: it fires if the duration has run
    /// out, once; before that it says how long is left.
    pub fn poll(&mut self, now: u64) -> (action: TimerAction)
        ensures
            (*final(self), action) == old(self).after_poll(now),
    {
        if self.fired {
            TimerAction::Done
        } else {
            let elapsed: u64 = if now >= self.armed_at {
                now - self.armed_at
            } else {
                0
            };
            if elapsed >= self.duration {
                self.fired = true;
                TimerAction::Fire
            } else {
                TimerAction::Sleep(self.duration - elapsed)
            }
        }
    }

    /// Whether the countdown has completed and said so.
    pub fn is_finished(&self) -> (done: bool)
        ensures
            done == self.fired,
    {
        self.fired
    }
}

/// Whether each of `times` comes less than `duration` after the one before
/// it, the first of them after `start`, and none earlier than the one
/// before.
pub open spec fn closely_spaced(start: u64, duration: u64, times: Seq<u64>) -> bool {
    forall|i: int|
        0 <= i < times.len() ==> {
            let before = if i == 0 {
                start
            } else {
                times[i - 1]
            };
            before <= #[trigger] times[i] && times[i] - before < duration
        }
}

/// Resets that follow each other closely keep the countdown from firing:
/// after them it runs out exactly one full duration after the last reset,
/// and not before.
pub proof fn lemma_resets_postpone_expiry(
    signal: ResetSignal,
    duration: u64,
    start: u64,
    resets: Seq<u64>,
)
    requires
        resets.len() > 0,
        closely_spaced(start, duration, resets),
    ensures
        ({
            let timer = Countdown::armed(signal.id, duration, start).after_resets(
                signal.id,
                resets,
            );
            &&& timer == Countdown::armed(signal.id, duration, resets.last())
            &&& forall|now: u64| #[trigger] timer.run_out(now) <==> now >= resets.last() + duration
            &&& forall|now: u64|
                now < resets.last() + duration ==> (#[trigger] timer.after_poll(now)).1
                    != TimerAction::Fire
            &&& forall|now: u64|
                now >= resets.last() + duration ==> (#[trigger] timer.after_poll(now)).1
                    == TimerAction::Fire
        }),
    decreases resets.len(),
{
    let fresh = Countdown::armed(signal.id, duration, start);
    let earlier = resets.drop_last();
    let before = fresh.after_resets(signal.id, earlier);
    if earlier.len() == 0 {
        assert(before == fresh);
    } else {
        assert forall|i: int| 0 <= i < earlier.len() implies ({
            let b = if i == 0 {
                start
            } else {
                earlier[i - 1]
            };
            b <= #[trigger] earlier[i] && earlier[i] - b < duration
        }) by {
            assert(earlier[i] == resets[i]);
            if i > 0 {
                assert(earlier[i - 1] == resets[i - 1]);
            }
        }
        lemma_resets_postpone_expiry(signal, duration, start, earlier);
        assert(earlier.last() == resets[resets.len() - 2]);
    }
    let last = resets.len() - 1;
    assert(resets[last] == resets.last());
}

/// Triggers do not share guards: a reset through the guard of another
/// trigger is never observed, whenever it comes and however often, so the
/// countdown runs out as if it had been left alone.
pub proof fn lemma_other_trigger_resets_nothing(
    timer: Countdown,
    other: ResetSignal,
    resets: Seq<u64>,
)
    requires
        other.id != timer.signal,
    ensures
        timer.after_resets(other.id, resets) == timer,
    decreases resets.len(),
{
    if resets.len() > 0 {
        lemma_other_trigger_resets_nothing(timer, other, resets.drop_last());
    }
}

/// Left alone, a countdown fires once: not while less than the duration
/// has passed since its start, at the first look from then on, and never
/// again after that.
pub proof fn lemma_unreset_countdown_fires_once(
    signal: ResetSignal,
    duration: u64,
    start: u64,
    early: u64,
    due: u64,
    later: u64,
)
    requires
        start <= early < start + duration,
        due >= start + duration,
    ensures
        ({
            let timer = Countdown::armed(signal.id, duration, start);
            &&& timer.after_poll(early) == (
                timer,
                TimerAction::Sleep((start + duration - early) as u64),
            )
            &&& timer.after_poll(due).1 == TimerAction::Fire
            &&& timer.after_poll(due).0.after_poll(later).1 == TimerAction::Done
        }),
{
}

} // verus!
