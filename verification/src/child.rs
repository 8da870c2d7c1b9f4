//! The supervised child: how its command line becomes a launch plan, and
//! which signals its process group is sent on the way down.

use vstd::prelude::*;

verus! {

/// The error of `shell_words::split`; it carries nothing.
#[verifier::external_type_specification]
#[verifier::external_body]
pub struct ExParseError(shell_words::ParseError);

/// The words into which `shell_words::split` cuts `line`, or `None` where it
/// reports an error (a quote that is never closed).
pub uninterp spec fn shell_split(line: Seq<char>) -> Option<Seq<Seq<char>>>;

/// Each string of `words` as its sequence of characters.
pub open spec fn words_of(words: Seq<String>) -> Seq<Seq<char>> {
    words.map_values(|w: String| w@)
}

/// Calls `shell_words::split`, which tokenises a command line by the POSIX
/// shell's quoting rules without expanding anything. Trusted: the result is
/// the function's own, named `shell_split`, and depends on `line` alone.
#[verifier::external_body]
fn split_words(line: &str) -> (r: Result<Vec<String>, shell_words::ParseError>)
    ensures
        match r {
            Ok(words) => shell_split(line@) == Some(words_of(words@)),
            Err(_) => shell_split(line@).is_none(),
        },
{
    shell_words::split(line)
}

/// The signals that the supervisor sends.
#[derive(Debug, Clone, Copy, PartialEq, Eq, Structural)]
pub enum Signal {
    /// The request to stop.
    Term,
    /// The forced stop.
    Kill,
}

/// How far a child is on its way from launch to collected exit status.
#[derive(Debug, Clone, Copy, PartialEq, Eq, Structural)]
pub enum Stage {
    Running,
    SignaledTerm,
    Reaped,
}

/// A signal to deliver to a whole process group now. With no signal, the
/// delivery only probes whether the group exists.
#[derive(Debug, Clone, Copy, PartialEq, Eq, Structural)]
pub struct GroupSignal {
    pub group: i32,
    pub signal: Option<Signal>,
}

/// A signal to deliver to a whole process group once `delay_ms` has passed,
/// whatever became of the group in between.
#[derive(Debug, Clone, Copy, PartialEq, Eq, Structural)]
pub struct DelayedGroupSignal {
    pub group: i32,
    pub signal: Signal,
    pub delay_ms: u64,
}

/// Why a command line gives no launch plan.
#[derive(Debug, Clone, Copy, PartialEq, Eq, Structural)]
pub enum SpawnError {
    /// A quote in the command line is never closed.
    UnmatchedQuote,
    /// The command line holds no word, so there is nothing to execute.
    EmptyCommand,
}

/// Everything needed to launch the child.
#[derive(Debug, Clone, PartialEq, Eq)]
pub struct SpawnPlan {
    /// The executable: the command line's first word.
    pub program: String,
    /// The remaining words, in order.
    pub args: Vec<String>,
    /// The child starts a session of its own and so leads its process group.
    pub new_session: bool,
    /// The signal that the system sends the child if its parent dies first.
    pub parent_death_signal: Signal,
    /// Standard output and standard error are piped and relayed.
    pub relay_output: bool,
}

/// Whether `plan` is the launch plan for the command words `words`.
pub open spec fn plan_launches(plan: SpawnPlan, words: Seq<Seq<char>>) -> bool {
    &&& words.len() > 0
    &&& plan.program@ == words[0]
    &&& words_of(plan.args@) == words.skip(1)
    &&& plan.new_session
    &&& plan.parent_death_signal == Signal::Term
    &&& plan.relay_output
}

/// Builds the launch plan from the words of a command line: the first word
/// is the program, the others are its arguments.
pub fn plan_from_words(words: Vec<String>) -> (r: Result<SpawnPlan, SpawnError>)
    ensures
        match r {
            Ok(plan) => plan_launches(plan, words_of(words@)),
            Err(e) => e == SpawnError::EmptyCommand && words@.len() == 0,
        },
{
    let mut words = words;
    if words.len() == 0 {
        return Err(SpawnError::EmptyCommand);
    }
    let ghost all = words@;
    let program = words.remove(0);
    proof {
        assert(words@ == all.remove(0));
        assert(words_of(words@) =~= words_of(all).skip(1));
    }
    Ok(
        SpawnPlan {
            program,
            args: words,
            new_session: true,
            parent_death_signal: Signal::Term,
            relay_output: true,
        },
    )
}

/// Turns a shell-style command line into the plan by which the child is
/// launched. Fails where a quote stays open or no word is left.
pub fn spawn_child(cmd: &str) -> (r: Result<SpawnPlan, SpawnError>)
    ensures
        match r {
            Ok(plan) => shell_split(cmd@).is_some() && plan_launches(
                plan,
                shell_split(cmd@).unwrap(),
            ),
            Err(SpawnError::UnmatchedQuote) => shell_split(cmd@).is_none(),
            Err(SpawnError::EmptyCommand) => shell_split(cmd@) == Some(Seq::<Seq<char>>::empty()),
        },
{
    match split_words(cmd) {
        Ok(words) => {
            proof {
                if words@.len() == 0 {
                    assert(words_of(words@) =~= Seq::<Seq<char>>::empty());
                }
            }
            plan_from_words(words)
        },
        Err(_) => Err(SpawnError::UnmatchedQuote),
    }
}

/// Signalling a child's process group.
pub trait LinuxChild {
    /// The id of the session, and so of the process group, that the child
    /// leads.
    spec fn session(&self) -> i32;

    /// The child's session id.
    fn get_session_id(&self) -> (sid: i32)
        ensures
            sid == self.session(),
    ;

    /// The request to signal the child's whole process group now.
    fn kill_process_group(&self, signal: Option<Signal>) -> (request: GroupSignal)
        ensures
            request == (GroupSignal { group: self.session(), signal }),
    ;

    /// The request to signal the child's whole process group after `t_ms`
    /// milliseconds. It is handed over and forgotten: nothing cancels it.
    fn try_kill_process_group_after(&self, t_ms: u64, signal: Signal) -> (request:
        DelayedGroupSignal)
        ensures
            request == (DelayedGroupSignal { group: self.session(), signal, delay_ms: t_ms }),
    ;
}

/// One supervised process.
#[derive(Debug, Clone, Copy, PartialEq, Eq, Structural)]
pub struct ChildProcess {
    pub pid: u32,
    pub session: i32,
    pub stage: Stage,
}

/// What tearing one child down asks of the system, in this order.
#[derive(Debug, Clone, Copy, PartialEq, Eq, Structural)]
pub struct Teardown {
    /// First the request to stop, to the whole group.
    pub terminate: GroupSignal,
    /// Then, scheduled at once, the forced stop after the grace period.
    pub escalate: DelayedGroupSignal,
    /// Last, the process whose exit status is waited for.
    pub reap: u32,
}

impl ChildProcess {
    /// A child is valid when its session id is its own process id, and that
    /// id can name a process group.
    pub open spec fn wf(&self) -> bool {
        0 < self.session && self.session == self.pid
    }

    /// The teardown of this child with `grace_ms` between the two signals.
    pub open spec fn teardown(&self, grace_ms: u64) -> Teardown {
        Teardown {
            terminate: GroupSignal { group: self.session, signal: Some(Signal::Term) },
            escalate: DelayedGroupSignal {
                group: self.session,
                signal: Signal::Kill,
                delay_ms: grace_ms,
            },
            reap: self.pid,
        }
    }

    /// Records a freshly launched process, which leads the session named
    /// by its own id. A `pid` that no process group can have gives `None`.
    pub fn new(pid: u32) -> (child: Option<ChildProcess>)
        ensures
            child == (if 0 < pid <= i32::MAX {
                Some(ChildProcess { pid, session: pid as i32, stage: Stage::Running })
            } else {
                None
            }),
            child.is_some() ==> child.unwrap().wf(),
    {
        if 0 < pid && pid <= 0x7fff_ffff {
            Some(ChildProcess { pid, session: pid as i32, stage: Stage::Running })
        } else {
            None
        }
    }

    /// Takes a running child all the way down: it is asked to stop, the
    /// forced stop is scheduled in the same step, and its exit status is
    /// collected. No child is ever left signalled without its escalation.
    /// A child that was collected is gone and cannot be taken down again.
    pub fn terminate(&mut self, grace_ms: u64) -> (plan: Teardown)
        requires
            old(self).wf(),
            old(self).stage == Stage::Running,
        ensures
            plan == old(self).teardown(grace_ms),
            *final(self) == (ChildProcess { stage: Stage::Reaped, ..*old(self) }),
    {
        let terminate = self.kill_process_group(Some(Signal::Term));
        self.stage = Stage::SignaledTerm;
        let escalate = self.try_kill_process_group_after(grace_ms, Signal::Kill);
        self.stage = Stage::Reaped;
        Teardown { terminate, escalate, reap: self.pid }
    }
}

impl LinuxChild for ChildProcess {
    open spec fn session(&self) -> i32 {
        self.session
    }

    fn get_session_id(&self) -> (sid: i32) {
        self.session
    }

    fn kill_process_group(&self, signal: Option<Signal>) -> (request: GroupSignal) {
        GroupSignal { group: self.get_session_id(), signal }
    }

    fn try_kill_process_group_after(&self, t_ms: u64, signal: Signal) -> (request:
        DelayedGroupSignal) {
        DelayedGroupSignal { group: self.get_session_id(), signal, delay_ms: t_ms }
    }
}

} // verus!
