//! The TCP data plane: what becomes of an accepted connection once the
//! dial to the destination has succeeded or failed, and how one direction
//! of an open connection moves its bytes.

use vstd::prelude::*;
use super::ProxyEvent;
use super::udp::Endpoint;

verus! {

/// The size of the buffer that each forwarding direction copies through,
/// chosen to hold one frame of a typical link.
pub const BUFFER_SIZE: usize = 1536;

/// Why a dial to the destination failed.
#[derive(Debug, Clone, Copy, PartialEq, Eq, Structural)]
pub enum DialFailure {
    ConnectionRefused,
    ConnectionReset,
    ConnectionAborted,
    BrokenPipe,
    TimedOut,
    /// Any failure that is none of the above.
    Other,
}

/// The two kinds of dial failure.
#[derive(Debug, Clone, Copy, PartialEq, Eq, Structural)]
pub enum FailureClass {
    /// The destination is down for now: the child is asked for again.
    Unavailable,
    /// Anything else: fatal for the proxy.
    Unexpected,
}

/// What the accept loop does with a connection after a dial.
#[derive(Debug, Clone, Copy, PartialEq, Eq, Structural)]
pub enum NextStep {
    /// Split both sockets and start the two forwarding directions.
    Pipe,
    /// Park until the readiness gate opens, then dial again.
    AwaitReadiness,
    /// Drop this connection and go on accepting others.
    Abandon,
    /// Return the dial error: the proxy ends.
    Fail,
}

/// The answer to one dial: the event to publish, if any, and how to go on.
#[derive(Debug, Clone, Copy, PartialEq, Eq, Structural)]
pub struct DialDecision {
    pub event: Option<ProxyEvent>,
    pub next: NextStep,
}

/// What one forwarding direction does after a read.
#[derive(Debug, Clone, Copy, PartialEq, Eq, Structural)]
pub enum RelayStep {
    /// Write the first `len` bytes of the buffer, in order; once they are
    /// written, publish `event` and read again. A failed write ends this
    /// direction as a failed read does.
    Forward { len: usize, event: ProxyEvent },
    /// The peer closed: end this direction without an error.
    Finish,
    /// End this direction with the error. The other direction and other
    /// connections go on.
    Fail,
}

/// The class of each dial failure.
pub open spec fn class_of(failure: DialFailure) -> FailureClass {
    match failure {
        DialFailure::Other => FailureClass::Unexpected,
        _ => FailureClass::Unavailable,
    }
}

/// The decision after a dial that ended as `outcome`, with or without a
/// readiness gate to hold connections on.
pub open spec fn dial_decision(outcome: Result<(), DialFailure>, hold: bool) -> DialDecision {
    match outcome {
        Ok(()) => DialDecision { event: None, next: NextStep::Pipe },
        Err(failure) => match class_of(failure) {
            FailureClass::Unavailable => DialDecision {
                event: Some(ProxyEvent::DestinationNotResponding),
                next: if hold {
                    NextStep::AwaitReadiness
                } else {
                    NextStep::Abandon
                },
            },
            FailureClass::Unexpected => DialDecision {
                event: Some(ProxyEvent::UnknownError),
                next: NextStep::Fail,
            },
        },
    }
}

/// The step after a read that returned `read`: a count of bytes, or an
/// error.
pub open spec fn relay_step_of(read: Result<usize, ()>) -> RelayStep {
    match read {
        Ok(n) => if n == 0 {
            RelayStep::Finish
        } else {
            RelayStep::Forward { len: n, event: ProxyEvent::GotPacket }
        },
        Err(_) => RelayStep::Fail,
    }
}

/// The bytes that one direction writes when its reads return `reads`, one
/// after the other: every chunk up to the first empty one, which is the
/// peer's close.
pub open spec fn relayed_bytes(reads: Seq<Seq<u8>>) -> Seq<u8>
    decreases reads.len(),
{
    if reads.len() == 0 {
        Seq::empty()
    } else {
        match relay_step_of(Ok(reads.first().len() as usize)) {
            RelayStep::Forward { len, .. } => reads.first().subrange(0, len as int)
                + relayed_bytes(reads.drop_first()),
            _ => Seq::empty(),
        }
    }
}

/// How often one direction publishes `GotPacket` on those reads.
pub open spec fn relayed_events(reads: Seq<Seq<u8>>) -> nat
    decreases reads.len(),
{
    if reads.len() == 0 {
        0
    } else {
        match relay_step_of(Ok(reads.first().len() as usize)) {
            RelayStep::Forward { .. } => 1 + relayed_events(reads.drop_first()),
            _ => 0,
        }
    }
}

/// Each buffer of `reads` as its sequence of bytes.
pub open spec fn chunks_of(reads: Seq<Vec<u8>>) -> Seq<Seq<u8>> {
    reads.map_values(|chunk: Vec<u8>| chunk@)
}

/// The classification of a dial failure: refused, reset, aborted, broken
/// pipe and timed out mean that the destination is unavailable; anything
/// else is unexpected.
pub fn classify(failure: DialFailure) -> (class: FailureClass)
    ensures
        class == class_of(failure),
        class == FailureClass::Unavailable <==> failure != DialFailure::Other,
{
    match failure {
        DialFailure::ConnectionRefused => FailureClass::Unavailable,
        DialFailure::ConnectionReset => FailureClass::Unavailable,
        DialFailure::ConnectionAborted => FailureClass::Unavailable,
        DialFailure::BrokenPipe => FailureClass::Unavailable,
        DialFailure::TimedOut => FailureClass::Unavailable,
        DialFailure::Other => FailureClass::Unexpected,
    }
}

/// Decides what one forwarding direction does after a read.
pub fn relay_step(read: Result<usize, ()>) -> (step: RelayStep)
    ensures
        step == relay_step_of(read),
{
    match read {
        Ok(n) => {
            if n == 0 {
                RelayStep::Finish
            } else {
                RelayStep::Forward { len: n, event: ProxyEvent::GotPacket }
            }
        },
        Err(_) => RelayStep::Fail,
    }
}

/// Plays one forwarding direction on recorded reads: answers with the
/// bytes written, in order, and with how many times `GotPacket` was
/// published.
pub fn relay(reads: &Vec<Vec<u8>>) -> (out: (Vec<u8>, usize))
    ensures
        out.0@ == relayed_bytes(chunks_of(reads@)),
        out.1 == relayed_events(chunks_of(reads@)),
{
    let ghost all = chunks_of(reads@);
    let mut written: Vec<u8> = Vec::new();
    let mut events: usize = 0;
    let mut i: usize = 0;
    assert(all.skip(0) =~= all);
    while i < reads.len()
        invariant
            all == chunks_of(reads@),
            i <= reads@.len(),
            events <= i,
            relayed_bytes(all) == written@ + relayed_bytes(all.skip(i as int)),
            relayed_events(all) == events + relayed_events(all.skip(i as int)),
        decreases reads@.len() - i,
    {
        let chunk = &reads[i];
        let ghost rest = all.skip(i as int);
        assert(rest.first() == chunk@);
        assert(rest.drop_first() =~= all.skip(i + 1));
        match relay_step(Ok(chunk.len())) {
            RelayStep::Forward { len, .. } => {
                let ghost before = written@;
                let mut k: usize = 0;
                while k < len
                    invariant
                        len == chunk@.len(),
                        k <= len,
                        written@ == before + chunk@.subrange(0, k as int),
                    decreases len - k,
                {
                    written.push(chunk[k]);
                    k += 1;
                    assert(written@ =~= before + chunk@.subrange(0, k as int));
                }
                events += 1;
                assert(written@ + relayed_bytes(all.skip(i + 1)) =~= before + relayed_bytes(rest));
            },
            _ => {
                assert(relayed_bytes(rest) =~= Seq::<u8>::empty());
                assert(written@ + Seq::<u8>::empty() =~= written@);
                return (written, events);
            },
        }
        i += 1;
    }
    assert(written@ + Seq::<u8>::empty() =~= written@);
    (written, events)
}

/// The TCP proxy's configuration.
#[derive(Debug, Clone, Copy, PartialEq, Eq, Structural)]
pub struct TCPProxy {
    pub destination: Endpoint,
    pub listen_addr: Endpoint,
    /// Whether connections are held while the destination is down.
    pub hold: bool,
}

impl TCPProxy {
    /// A proxy from `listen_addr` to `destination` that holds nothing back.
    pub fn new(destination: Endpoint, listen_addr: Endpoint) -> (proxy: TCPProxy)
        ensures
            proxy == (TCPProxy { destination, listen_addr, hold: false }),
    {
        TCPProxy { destination, listen_addr, hold: false }
    }

    /// Begins a run, with a readiness gate to hold connections on or
    /// without one, and names the address on which to accept.
    pub fn start(&mut self, readiness_gate: bool) -> (bind: Endpoint)
        ensures
            bind == old(self).listen_addr,
            *final(self) == (TCPProxy { hold: readiness_gate, ..*old(self) }),
    {
        self.hold = readiness_gate;
        self.listen_addr
    }

    /// Decides what becomes of an accepted connection after a dial to the
    /// destination ended as `outcome`.
    pub fn on_dial(&self, outcome: Result<(), DialFailure>) -> (decision: DialDecision)
        ensures
            decision == dial_decision(outcome, self.hold),
    {
        match outcome {
            Ok(()) => DialDecision { event: None, next: NextStep::Pipe },
            Err(failure) => match classify(failure) {
                FailureClass::Unavailable => DialDecision {
                    event: Some(ProxyEvent::DestinationNotResponding),
                    next: if self.hold {
                        NextStep::AwaitReadiness
                    } else {
                        NextStep::Abandon
                    },
                },
                FailureClass::Unexpected => DialDecision {
                    event: Some(ProxyEvent::UnknownError),
                    next: NextStep::Fail,
                },
            },
        }
    }
}

/// Byte fidelity: while the peer has not closed, what one direction writes
/// is exactly what it read, in order, however the bytes were cut into
/// reads; and if there was any byte at all, `GotPacket` was published.
pub proof fn lemma_relay_keeps_bytes(reads: Seq<Seq<u8>>)
    requires
        forall|i: int| 0 <= i < reads.len() ==> 0 < (#[trigger] reads[i]).len() <= usize::MAX,
    ensures
        relayed_bytes(reads) == reads.flatten(),
        relayed_events(reads) == reads.len(),
        reads.flatten().len() > 0 ==> relayed_events(reads) >= 1,
    decreases reads.len(),
{
    if reads.len() > 0 {
        let rest = reads.drop_first();
        assert forall|i: int| 0 <= i < rest.len() implies 0 < (#[trigger] rest[i]).len()
            <= usize::MAX by {
            assert(rest[i] == reads[i + 1]);
        }
        lemma_relay_keeps_bytes(rest);
        assert(reads.first() == reads[0]);
        assert(reads.first().subrange(0, reads.first().len() as int) =~= reads.first());
    }
}

/// Chunking does not matter: two ways of cutting the same bytes into
/// non-empty reads give the same bytes at the other end.
pub proof fn lemma_relay_ignores_chunking(a: Seq<Seq<u8>>, b: Seq<Seq<u8>>)
    requires
        forall|i: int| 0 <= i < a.len() ==> 0 < (#[trigger] a[i]).len() <= usize::MAX,
        forall|i: int| 0 <= i < b.len() ==> 0 < (#[trigger] b[i]).len() <= usize::MAX,
        a.flatten() == b.flatten(),
    ensures
        relayed_bytes(a) == relayed_bytes(b),
{
    lemma_relay_keeps_bytes(a);
    lemma_relay_keeps_bytes(b);
}

/// A refused dial never counts as an unknown error, and without a gate the
/// accept loop goes on.
pub proof fn lemma_refused_dial_is_not_fatal(hold: bool)
    ensures
        dial_decision(Err(DialFailure::ConnectionRefused), hold).event == Some(
            ProxyEvent::DestinationNotResponding,
        ),
        dial_decision(Err(DialFailure::ConnectionRefused), hold).next != NextStep::Fail,
        !hold ==> dial_decision(Err(DialFailure::ConnectionRefused), hold).next
            == NextStep::Abandon,
{
}

} // verus!
