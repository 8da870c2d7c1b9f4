//! The process supervisor: which children are believed alive, and what each
//! timer wake-up and each proxy event does to them.
//!
//! The supervisor decides and the caller acts: `step` takes one input and
//! answers with the actions to perform, in order.

use vstd::prelude::*;
use crate::child::{ChildProcess, DelayedGroupSignal, GroupSignal, Signal, Stage, Teardown};
use crate::proxy::ProxyEvent;
use crate::timer::{Countdown, ResetSignal, TimerAction};

verus! {

/// One thing that happened, as the supervisor's loop sees it.
#[derive(Debug, Clone, Copy, PartialEq, Eq, Structural)]
pub enum SupervisorInput {
    /// The loop woke up to look at the idle countdown.
    Tick,
    /// The latest event from the proxy.
    Event(ProxyEvent),
    /// A launch that the supervisor asked for gave the process `pid`.
    ChildSpawned { pid: u32 },
    /// A launch that the supervisor asked for failed.
    SpawnFailed,
}

/// One thing for the caller to do.
#[derive(Debug, Clone, Copy, PartialEq, Eq, Structural)]
pub enum SupervisorAction {
    /// Launch the command, and answer with `ChildSpawned` or `SpawnFailed`.
    Spawn,
    /// Stop a child: signal its group, schedule the forced stop, collect
    /// its exit status. A failure of any of the three is reported and the
    /// teardown goes on.
    Teardown(Teardown),
    /// Release every connection that is held back until a child is up.
    WakeHeld,
    /// Stop supervising and fail: the error is fatal for the program.
    Halt,
}

/// The supervisor's state as plain values.
pub struct SupervisorState {
    pub idle_timeout: u64,
    pub grace_period: u64,
    pub children: Seq<ChildProcess>,
    pub timer: Countdown,
    pub cycle: u64,
    pub halted: bool,
}

/// The number of the supervision cycle that follows cycle `cycle`.
pub open spec fn next_cycle(cycle: u64) -> u64 {
    if cycle == u64::MAX {
        0
    } else {
        (cycle + 1) as u64
    }
}

/// The teardown of each of `children`, in the order in which they were
/// tracked.
pub open spec fn teardown_all(children: Seq<ChildProcess>, grace_period: u64) -> Seq<
    SupervisorAction,
> {
    children.map_values(|c: ChildProcess| SupervisorAction::Teardown(c.teardown(grace_period)))
}

/// The child that a launch with process id `pid` gives, if `pid` can name a
/// process group.
pub open spec fn launched(pid: u32) -> Option<ChildProcess> {
    if 0 < pid <= i32::MAX {
        Some(ChildProcess { pid, session: pid as i32, stage: Stage::Running })
    } else {
        None
    }
}

/// The state's invariant: the countdown is the current cycle's, runs for
/// the idle timeout and has not fired; every tracked child is valid and
/// running.
pub open spec fn wf(s: SupervisorState) -> bool {
    &&& s.timer.signal == s.cycle
    &&& s.timer.duration == s.idle_timeout
    &&& !s.timer.fired
    &&& forall|i: int|
        0 <= i < s.children.len() ==> (#[trigger] s.children[i]).wf() && s.children[i].stage
            == Stage::Running
}

/// The supervisor's transition: the state after `input` arrived at `now`,
/// and the actions that it calls for.
pub open spec fn step(s: SupervisorState, input: SupervisorInput, now: u64) -> (
    SupervisorState,
    Seq<SupervisorAction>,
) {
    if s.halted {
        (s, seq![SupervisorAction::Halt])
    } else {
        match input {
            SupervisorInput::Tick => {
                if s.timer.after_poll(now).1 == TimerAction::Fire {
                    (
                        SupervisorState {
                            children: Seq::empty(),
                            timer: Countdown::armed(next_cycle(s.cycle), s.idle_timeout, now),
                            cycle: next_cycle(s.cycle),
                            ..s
                        },
                        teardown_all(s.children, s.grace_period),
                    )
                } else {
                    (s, Seq::empty())
                }
            },
            SupervisorInput::Event(ProxyEvent::GotPacket) => (
                SupervisorState { timer: s.timer.after_reset(s.cycle, now), ..s },
                Seq::empty(),
            ),
            SupervisorInput::Event(ProxyEvent::DestinationNotResponding) => (
                s,
                seq![SupervisorAction::Spawn],
            ),
            SupervisorInput::Event(ProxyEvent::UnknownError) => (
                SupervisorState { halted: true, ..s },
                seq![SupervisorAction::Halt],
            ),
            SupervisorInput::Event(ProxyEvent::Nothing) => (s, Seq::empty()),
            SupervisorInput::ChildSpawned { pid } => match launched(pid) {
                Some(child) => (
                    SupervisorState { children: s.children.push(child), ..s },
                    seq![SupervisorAction::WakeHeld],
                ),
                None => (SupervisorState { halted: true, ..s }, seq![SupervisorAction::Halt]),
            },
            SupervisorInput::SpawnFailed => (
                SupervisorState { halted: true, ..s },
                seq![SupervisorAction::Halt],
            ),
        }
    }
}

/// The state after each of `inputs` arrived, in order, at the time that
/// comes with it.
pub open spec fn run(s: SupervisorState, inputs: Seq<(SupervisorInput, u64)>) -> SupervisorState
    decreases inputs.len(),
{
    if inputs.len() == 0 {
        s
    } else {
        step(run(s, inputs.drop_last()), inputs.last().0, inputs.last().1).0
    }
}

/// The supervisor of one command's children.
pub struct Supervisor {
    idle_timeout: u64,
    grace_period: u64,
    children: Vec<ChildProcess>,
    timer: Countdown,
    cycle: u64,
    halted: bool,
}

impl View for Supervisor {
    type V = SupervisorState;

    closed spec fn view(&self) -> SupervisorState {
        SupervisorState {
            idle_timeout: self.idle_timeout,
            grace_period: self.grace_period,
            children: self.children@,
            timer: self.timer,
            cycle: self.cycle,
            halted: self.halted,
        }
    }
}

impl Supervisor {
    /// Begins supervising at `now` with the child that was launched first,
    /// and starts the first idle countdown.
    pub fn new(idle_timeout: u64, grace_period: u64, first: ChildProcess, now: u64) -> (sup:
        Supervisor)
        requires
            first.wf(),
            first.stage == Stage::Running,
        ensures
            wf(sup@),
            sup@ == (SupervisorState {
                idle_timeout,
                grace_period,
                children: seq![first],
                timer: Countdown::armed(0, idle_timeout, now),
                cycle: 0,
                halted: false,
            }),
    {
        let (_, timer) = ResetSignal::new(0).run_after(idle_timeout, now);
        let mut children: Vec<ChildProcess> = Vec::new();
        children.push(first);
        proof {
            assert(children@ =~= seq![first]);
        }
        Supervisor { idle_timeout, grace_period, children, timer, cycle: 0, halted: false }
    }

    /// Takes one input at `now` and answers with what to do, in order.
    pub fn step(&mut self, input: SupervisorInput, now: u64) -> (actions: Vec<SupervisorAction>)
        requires
            wf(old(self)@),
        ensures
            wf(final(self)@),
            (final(self)@, actions@) == step(old(self)@, input, now),
    {
        let mut actions: Vec<SupervisorAction> = Vec::new();
        if self.halted {
            actions.push(SupervisorAction::Halt);
            assert(actions@ =~= seq![SupervisorAction::Halt]);
            return actions;
        }
        match input {
            SupervisorInput::Tick => {
                match self.timer.poll(now) {
                    TimerAction::Fire => {
                        actions = self.drain_children();
                        let next: u64 = if self.cycle == u64::MAX {
                            0
                        } else {
                            self.cycle + 1
                        };
                        let (_, timer) = ResetSignal::new(next).run_after(self.idle_timeout, now);
                        self.timer = timer;
                        self.cycle = next;
                    },
                    _ => {},
                }
            },
            SupervisorInput::Event(ProxyEvent::GotPacket) => {
                ResetSignal::new(self.cycle).get_guard().reset(&mut self.timer, now);
            },
            SupervisorInput::Event(ProxyEvent::DestinationNotResponding) => {
                actions.push(SupervisorAction::Spawn);
            },
            SupervisorInput::Event(ProxyEvent::UnknownError) => {
                self.halted = true;
                actions.push(SupervisorAction::Halt);
            },
            SupervisorInput::Event(ProxyEvent::Nothing) => {},
            SupervisorInput::ChildSpawned { pid } => match ChildProcess::new(pid) {
                Some(child) => {
                    self.children.push(child);
                    actions.push(SupervisorAction::WakeHeld);
                },
                None => {
                    self.halted = true;
                    actions.push(SupervisorAction::Halt);
                },
            },
            SupervisorInput::SpawnFailed => {
                self.halted = true;
                actions.push(SupervisorAction::Halt);
            },
        }
        proof {
            let expected = step(old(self)@, input, now);
            assert(actions@ =~= expected.1);
            assert(self@.children =~= expected.0.children);
        }
        actions
    }

    /// Empties the tracked set, and answers with the teardown of each child
    /// that was in it.
    fn drain_children(&mut self) -> (actions: Vec<SupervisorAction>)
        requires
            forall|i: int|
                0 <= i < old(self).children@.len() ==> (#[trigger] old(self).children@[i]).wf()
                    && old(self).children@[i].stage == Stage::Running,
        ensures
            actions@ == teardown_all(old(self).children@, old(self).grace_period),
            final(self).children@ == Seq::<ChildProcess>::empty(),
            final(self).idle_timeout == old(self).idle_timeout,
            final(self).grace_period == old(self).grace_period,
            final(self).timer == old(self).timer,
            final(self).cycle == old(self).cycle,
            final(self).halted == old(self).halted,
    {
        let mut actions: Vec<SupervisorAction> = Vec::new();
        let mut i: usize = 0;
        while i < self.children.len()
            invariant
                *self == *old(self),
                i <= self.children@.len(),
                actions@.len() == i,
                forall|k: int|
                    0 <= k < self.children@.len() ==> (#[trigger] self.children@[k]).wf()
                        && self.children@[k].stage == Stage::Running,
                forall|k: int|
                    0 <= k < i ==> #[trigger] actions@[k] == SupervisorAction::Teardown(
                        self.children@[k].teardown(self.grace_period),
                    ),
            decreases self.children@.len() - i,
        {
            let mut child = self.children[i];
            let plan = child.terminate(self.grace_period);
            actions.push(SupervisorAction::Teardown(plan));
            i += 1;
        }
        assert(actions@ =~= teardown_all(self.children@, self.grace_period));
        self.children = Vec::new();
        actions
    }

    /// How long the loop may wait at `now` before it has to look at the
    /// countdown again: what is left of the idle timeout, and nothing once
    /// supervision has halted.
    pub fn time_left(&self, now: u64) -> (left: Option<u64>)
        requires
            wf(self@),
        ensures
            left == (if self@.halted {
                None
            } else if self@.timer.run_out(now) {
                Some(0u64)
            } else {
                Some((self@.idle_timeout - self@.timer.elapsed(now)) as u64)
            }),
    {
        if self.halted {
            None
        } else {
            let mut probe = self.timer;
            match probe.poll(now) {
                TimerAction::Sleep(left) => Some(left),
                _ => Some(0),
            }
        }
    }

    /// Whether supervision has ended with a fatal error.
    pub fn is_halted(&self) -> (halted: bool)
        ensures
            halted == self@.halted,
    {
        self.halted
    }

    /// The children that are tracked, oldest first.
    pub fn children(&self) -> (alive: &Vec<ChildProcess>)
        ensures
            alive@ == self@.children,
    {
        &self.children
    }
}

/// Every step keeps the state valid: whatever arrives, the tracked
/// children are running processes with a session of their own, and the
/// countdown is the current cycle's and has not fired.
pub proof fn lemma_step_keeps_wf(s: SupervisorState, input: SupervisorInput, now: u64)
    requires
        wf(s),
    ensures
        wf(step(s, input, now).0),
{
}

/// Once halted, supervision stays halted and nothing changes any more,
/// whatever arrives and however much of it.
pub proof fn lemma_halt_is_final(s: SupervisorState, inputs: Seq<(SupervisorInput, u64)>)
    requires
        s.halted,
    ensures
        run(s, inputs) == s,
    decreases inputs.len(),
{
    if inputs.len() > 0 {
        lemma_halt_is_final(s, inputs.drop_last());
    }
}

/// An unknown error ends supervision for good: the step that sees it
/// halts, and every input after it changes nothing and answers with the
/// halt again.
pub proof fn lemma_unknown_error_is_terminal(
    s: SupervisorState,
    now: u64,
    next: SupervisorInput,
    later: u64,
)
    ensures
        ({
            let (halted, actions) = step(s, SupervisorInput::Event(ProxyEvent::UnknownError), now);
            &&& halted.halted
            &&& actions == seq![SupervisorAction::Halt]
            &&& step(halted, next, later) == (halted, seq![SupervisorAction::Halt])
        }),
{
}

/// The idle cycle. Before the idle timeout has run out a wake-up does
/// nothing. Once it has, every child's process group is asked to stop, the
/// forced stop is scheduled for the end of the grace period, the exit
/// status is collected, and nothing is left. A destination that does not
/// respond then calls for a launch, and the launched child is kept and
/// the held connections are woken.
pub proof fn lemma_idle_cycle(s: SupervisorState, now: u64, knock: u64, pid: u32, up: u64)
    requires
        wf(s),
        !s.halted,
        launched(pid).is_some(),
    ensures
        !s.timer.run_out(now) ==> step(s, SupervisorInput::Tick, now) == (
            s,
            Seq::<SupervisorAction>::empty(),
        ),
        s.timer.run_out(now) ==> ({
            let (idle, stops) = step(s, SupervisorInput::Tick, now);
            let (asked, launches) = step(
                idle,
                SupervisorInput::Event(ProxyEvent::DestinationNotResponding),
                knock,
            );
            let (serving, wakes) = step(asked, SupervisorInput::ChildSpawned { pid }, up);
            &&& wf(idle)
            &&& idle.children.len() == 0
            &&& stops.len() == s.children.len()
            &&& forall|i: int|
                0 <= i < stops.len() ==> #[trigger] stops[i] == SupervisorAction::Teardown(
                    Teardown {
                        terminate: GroupSignal {
                            group: s.children[i].session,
                            signal: Some(Signal::Term),
                        },
                        escalate: DelayedGroupSignal {
                            group: s.children[i].session,
                            signal: Signal::Kill,
                            delay_ms: s.grace_period,
                        },
                        reap: s.children[i].pid,
                    },
                )
            &&& asked == idle
            &&& launches == seq![SupervisorAction::Spawn]
            &&& wf(serving)
            &&& serving.children == seq![launched(pid).unwrap()]
            &&& wakes == seq![SupervisorAction::WakeHeld]
        }),
{
    if s.timer.run_out(now) {
        let idle = step(s, SupervisorInput::Tick, now).0;
        let serving = step(idle, SupervisorInput::ChildSpawned { pid }, up).0;
        assert(serving.children =~= seq![launched(pid).unwrap()]);
    }
}

/// Traffic keeps the child: a packet seen before the idle timeout has run
/// out starts the countdown over, so that it runs out one full timeout
/// after the packet and not before.
pub proof fn lemma_packet_restarts_countdown(s: SupervisorState, now: u64)
    requires
        wf(s),
        !s.halted,
        s.timer.armed_at <= now,
        !s.timer.run_out(now),
    ensures
        ({
            let (kept, actions) = step(s, SupervisorInput::Event(ProxyEvent::GotPacket), now);
            &&& wf(kept)
            &&& actions.len() == 0
            &&& kept.children == s.children
            &&& kept.timer == Countdown::armed(s.cycle, s.idle_timeout, now)
            &&& forall|t: u64| #[trigger] kept.timer.run_out(t) <==> t >= now + s.idle_timeout
        }),
{
}

} // verus!
