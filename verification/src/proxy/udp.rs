//! The UDP data plane: one backend session per client address, so that
//! what the destination answers finds its way back to the client that asked.

use vstd::prelude::*;
use super::ProxyEvent;

verus! {

/// Room for the largest datagram either IP version can carry.
pub const UDP_MAX_PACKET_SIZE: usize = 64 * 1024;

/// How many payloads a session's queue, or the shared reply queue, holds
/// before its producer has to wait.
pub const QUEUE_CAPACITY: usize = 512;

/// A socket address as plain numbers. An IPv4 address sits in the low 32
/// bits of `ip`, with `flowinfo` and `scope_id` zero.
#[derive(Debug, Clone, Copy, PartialEq, Eq, Structural)]
pub struct Endpoint {
    pub v6: bool,
    pub ip: u128,
    pub port: u16,
    pub flowinfo: u32,
    pub scope_id: u32,
}

/// One client's backend session: the socket to open for it and the client
/// that its replies belong to.
#[derive(Debug, Clone, Copy, PartialEq, Eq, Structural)]
pub struct ClientSession {
    /// The client address that owns the session.
    pub client: Endpoint,
    /// Where the backend-facing socket binds: the listen host, any port.
    pub local: Endpoint,
    /// The peer that the backend-facing socket is fixed to.
    pub peer: Endpoint,
}

/// Where a received datagram goes.
#[derive(Debug, Clone, Copy, PartialEq, Eq, Structural)]
pub enum Route {
    /// It came from the destination itself: a stray echo, dropped.
    Ignore,
    /// Queue it on `session`; where `created` is set, open the session's
    /// socket and start its two forwarding tasks first.
    Forward { session: ClientSession, created: bool },
}

/// What the receive loop does with one datagram.
#[derive(Debug, Clone, Copy, PartialEq, Eq, Structural)]
pub struct DatagramDecision {
    /// The event to publish before forwarding, if any.
    pub event: Option<ProxyEvent>,
    pub route: Route,
}

/// `addr` with its port replaced by zero, which asks the system for an
/// ephemeral port.
pub open spec fn any_port(addr: Endpoint) -> Endpoint {
    Endpoint { port: 0, ..addr }
}

/// The session that a proxy between `listen_addr` and `destination` keeps
/// for `client`.
pub open spec fn session_for(listen_addr: Endpoint, destination: Endpoint, client: Endpoint)
    -> ClientSession {
    ClientSession { client, local: any_port(listen_addr), peer: destination }
}

/// The client that a datagram received on `session`'s backend socket is
/// written back to.
pub open spec fn reply_target(session: ClientSession) -> Endpoint {
    session.client
}

/// The datagram that a receive left in `buf`: its first `read` bytes, or
/// all of `buf` where `read` claims more than there is.
pub open spec fn received(buf: Seq<u8>, read: int) -> Seq<u8> {
    buf.subrange(
        0,
        if 0 <= read <= buf.len() {
            read
        } else {
            buf.len() as int
        },
    )
}

/// Each recorded datagram as its sender and its bytes.
pub open spec fn trace_of(datagrams: Seq<(Endpoint, Vec<u8>)>) -> Seq<(Endpoint, Seq<u8>)> {
    datagrams.map_values(|d: (Endpoint, Vec<u8>)| (d.0, d.1@))
}

/// Each queued payload as its session and its bytes.
pub open spec fn queue_of(queued: Seq<(ClientSession, Vec<u8>)>) -> Seq<
    (ClientSession, Seq<u8>),
> {
    queued.map_values(|q: (ClientSession, Vec<u8>)| (q.0, q.1@))
}

/// What a proxy between `listen_addr` and `destination` hands on when the
/// datagrams of `trace` arrive in this order: each one whole, on its
/// sender's session, but for those that came from the destination.
pub open spec fn forwarded(
    listen_addr: Endpoint,
    destination: Endpoint,
    trace: Seq<(Endpoint, Seq<u8>)>,
) -> Seq<(ClientSession, Seq<u8>)>
    decreases trace.len(),
{
    if trace.len() == 0 {
        Seq::empty()
    } else {
        let earlier = forwarded(listen_addr, destination, trace.drop_last());
        if trace.last().0 == destination {
            earlier
        } else {
            earlier.push((session_for(listen_addr, destination, trace.last().0), trace.last().1))
        }
    }
}

/// The clients that have a session after the datagrams of `trace` arrived,
/// where `clients` had one before.
pub open spec fn clients_after(
    clients: Set<Endpoint>,
    destination: Endpoint,
    trace: Seq<(Endpoint, Seq<u8>)>,
) -> Set<Endpoint>
    decreases trace.len(),
{
    if trace.len() == 0 {
        clients
    } else {
        let earlier = clients_after(clients, destination, trace.drop_last());
        if trace.last().0 == destination {
            earlier
        } else {
            earlier.insert(trace.last().0)
        }
    }
}

/// The datagrams of `trace` that `client` sent, in order.
pub open spec fn sent_by(trace: Seq<(Endpoint, Seq<u8>)>, client: Endpoint) -> Seq<Seq<u8>>
    decreases trace.len(),
{
    if trace.len() == 0 {
        Seq::empty()
    } else if trace.last().0 == client {
        sent_by(trace.drop_last(), client).push(trace.last().1)
    } else {
        sent_by(trace.drop_last(), client)
    }
}

/// The payloads of `queued` that are on `session`, in order.
pub open spec fn payloads_on(queued: Seq<(ClientSession, Seq<u8>)>, session: ClientSession)
    -> Seq<Seq<u8>>
    decreases queued.len(),
{
    if queued.len() == 0 {
        Seq::empty()
    } else if queued.last().0 == session {
        payloads_on(queued.drop_last(), session).push(queued.last().1)
    } else {
        payloads_on(queued.drop_last(), session)
    }
}

/// Copies a received datagram out of the receive buffer.
pub fn datagram_payload(buf: &[u8], read: usize) -> (payload: Vec<u8>)
    ensures
        payload@ == received(buf@, read as int),
{
    let n: usize = if read <= buf.len() {
        read
    } else {
        buf.len()
    };
    let mut payload: Vec<u8> = Vec::new();
    let mut k: usize = 0;
    while k < n
        invariant
            k <= n <= buf@.len(),
            payload@ == buf@.subrange(0, k as int),
        decreases n - k,
    {
        payload.push(buf[k]);
        k += 1;
        assert(payload@ =~= buf@.subrange(0, k as int));
    }
    payload
}

/// The UDP proxy's session table and the addresses it works between.
pub struct UDPProxy {
    destination: Endpoint,
    listen_addr: Endpoint,
    sessions: Vec<ClientSession>,
}

impl UDPProxy {
    /// The address that traffic is forwarded to.
    pub closed spec fn destination(&self) -> Endpoint {
        self.destination
    }

    /// The address that clients send to.
    pub closed spec fn listen_addr(&self) -> Endpoint {
        self.listen_addr
    }

    /// The client addresses that have a session.
    pub closed spec fn clients(&self) -> Set<Endpoint> {
        Set::new(|c: Endpoint| self.holds(c))
    }

    /// The session kept for `client`.
    pub open spec fn session_of(&self, client: Endpoint) -> ClientSession {
        session_for(self.listen_addr(), self.destination(), client)
    }

    spec fn holds(&self, client: Endpoint) -> bool {
        exists|i: int| 0 <= i < self.sessions@.len() && #[trigger] self.sessions@[i].client == client
    }

    /// The table's invariant: at most one session per client address, none
    /// for the destination, and each session built from the proxy's own
    /// addresses.
    pub closed spec fn wf(&self) -> bool {
        &&& forall|i: int, j: int|
            0 <= i < j < self.sessions@.len() ==> #[trigger] self.sessions@[i].client
                != #[trigger] self.sessions@[j].client
        &&& forall|i: int|
            0 <= i < self.sessions@.len() ==> #[trigger] self.sessions@[i] == self.session_of(
                self.sessions@[i].client,
            )
        &&& !self.holds(self.destination)
    }

    /// A proxy from `listen_addr` to `destination` with no session yet.
    pub fn new(destination: Endpoint, listen_addr: Endpoint) -> (proxy: UDPProxy)
        ensures
            proxy.wf(),
            proxy.destination() == destination,
            proxy.listen_addr() == listen_addr,
            proxy.clients() == Set::<Endpoint>::empty(),
    {
        let proxy = UDPProxy { destination, listen_addr, sessions: Vec::new() };
        assert(proxy.clients() =~= Set::<Endpoint>::empty());
        proxy
    }

    /// Begins a run: forgets every session and names the address on which
    /// the listen socket is to be bound.
    pub fn start(&mut self) -> (bind: Endpoint)
        ensures
            bind == old(self).listen_addr(),
            final(self).wf(),
            final(self).destination() == old(self).destination(),
            final(self).listen_addr() == old(self).listen_addr(),
            final(self).clients() == Set::<Endpoint>::empty(),
    {
        self.sessions = Vec::new();
        assert(self.clients() =~= Set::<Endpoint>::empty());
        self.listen_addr
    }

    /// The address on which a session's backend-facing socket binds.
    pub fn backend_bind_addr(&self) -> (addr: Endpoint)
        ensures
            addr == any_port(self.listen_addr()),
    {
        Endpoint {
            v6: self.listen_addr.v6,
            ip: self.listen_addr.ip,
            port: 0,
            flowinfo: self.listen_addr.flowinfo,
            scope_id: self.listen_addr.scope_id,
        }
    }

    /// How many sessions the table holds. Nothing ever expires one: a
    /// session leaves only through `on_queue_closed`.
    pub fn session_count(&self) -> (n: usize)
        requires
            self.wf(),
        ensures
            n == self.clients().len(),
            self.clients().finite(),
    {
        proof {
            self.lemma_clients_len();
        }
        self.sessions.len()
    }

    /// Whether `client` has a session.
    pub fn has_session(&self, client: Endpoint) -> (found: bool)
        ensures
            found == self.clients().contains(client),
    {
        self.position(client).is_some()
    }

    fn position(&self, client: Endpoint) -> (at: Option<usize>)
        ensures
            match at {
                Some(i) => i < self.sessions@.len() && self.sessions@[i as int].client == client,
                None => !self.holds(client),
            },
            at.is_some() == self.clients().contains(client),
    {
        let mut i: usize = 0;
        while i < self.sessions.len()
            invariant
                i <= self.sessions@.len(),
                forall|k: int| 0 <= k < i ==> (#[trigger] self.sessions@[k]).client != client,
            decreases self.sessions@.len() - i,
        {
            if self.sessions[i].client == client {
                return Some(i);
            }
            i += 1;
        }
        None
    }

    /// Decides what happens to a datagram that arrived from `src`.
    ///
    /// One from the destination is dropped and publishes nothing. Any other
    /// publishes `GotPacket` and is forwarded on the sender's session, which
    /// is created when the sender is new.
    pub fn on_datagram(&mut self, src: Endpoint) -> (decision: DatagramDecision)
        requires
            old(self).wf(),
        ensures
            final(self).wf(),
            final(self).destination() == old(self).destination(),
            final(self).listen_addr() == old(self).listen_addr(),
            src == old(self).destination() ==> decision == (DatagramDecision {
                event: None,
                route: Route::Ignore,
            }) && final(self).clients() == old(self).clients(),
            src != old(self).destination() ==> decision == (DatagramDecision {
                event: Some(ProxyEvent::GotPacket),
                route: Route::Forward {
                    session: old(self).session_of(src),
                    created: !old(self).clients().contains(src),
                },
            }) && final(self).clients() == old(self).clients().insert(src),
    {
        if src == self.destination {
            return DatagramDecision { event: None, route: Route::Ignore };
        }
        let session = ClientSession {
            client: src,
            local: self.backend_bind_addr(),
            peer: self.destination,
        };
        let created = match self.position(src) {
            Some(_) => false,
            None => {
                self.sessions.push(session);
                true
            },
        };
        proof {
            let before = old(self).sessions@;
            let after = self.sessions@;
            if created {
                assert(after == before.push(session));
                assert forall|c: Endpoint| #[trigger]
                    self.clients().contains(c) == old(self).clients().insert(src).contains(
                        c,
                    ) by {
                    if old(self).holds(c) {
                        let i = choose|i: int|
                            0 <= i < before.len() && #[trigger] before[i].client == c;
                        assert(after[i].client == c);
                    }
                    if c == src {
                        assert(after[before.len() as int].client == c);
                    }
                }
                assert(!self.holds(self.destination)) by {
                    if self.holds(self.destination) {
                        let i = choose|i: int|
                            0 <= i < after.len() && #[trigger] after[i].client
                                == self.destination;
                        assert(before[i].client == self.destination);
                    }
                }
            }
            assert(self.clients() =~= old(self).clients().insert(src));
        }
        DatagramDecision {
            event: Some(ProxyEvent::GotPacket),
            route: Route::Forward { session, created },
        }
    }

    /// Plays the receive loop on recorded datagrams: answers with what is
    /// queued, on which session, in order. Every datagram is handed on
    /// whole, its bytes unchanged, but for those that the destination sent.
    pub fn forward_all(&mut self, datagrams: &Vec<(Endpoint, Vec<u8>)>) -> (queued: Vec<
        (ClientSession, Vec<u8>),
    >)
        requires
            old(self).wf(),
        ensures
            final(self).wf(),
            final(self).destination() == old(self).destination(),
            final(self).listen_addr() == old(self).listen_addr(),
            queue_of(queued@) == forwarded(
                old(self).listen_addr(),
                old(self).destination(),
                trace_of(datagrams@),
            ),
            final(self).clients() == clients_after(
                old(self).clients(),
                old(self).destination(),
                trace_of(datagrams@),
            ),
    {
        let ghost trace = trace_of(datagrams@);
        let mut queued: Vec<(ClientSession, Vec<u8>)> = Vec::new();
        let mut i: usize = 0;
        assert(queue_of(queued@) =~= Seq::<(ClientSession, Seq<u8>)>::empty());
        assert(trace.take(0) =~= Seq::<(Endpoint, Seq<u8>)>::empty());
        while i < datagrams.len()
            invariant
                trace == trace_of(datagrams@),
                i <= datagrams@.len(),
                self.wf(),
                self.destination() == old(self).destination(),
                self.listen_addr() == old(self).listen_addr(),
                queue_of(queued@) == forwarded(
                    self.listen_addr(),
                    self.destination(),
                    trace.take(i as int),
                ),
                self.clients() == clients_after(
                    old(self).clients(),
                    self.destination(),
                    trace.take(i as int),
                ),
            decreases datagrams@.len() - i,
        {
            let datagram = &datagrams[i];
            let src = datagram.0;
            let ghost before = queued@;
            proof {
                let upto = trace.take(i + 1);
                assert(upto.drop_last() =~= trace.take(i as int));
                assert(upto.last() == (src, datagram.1@));
            }
            match self.on_datagram(src).route {
                Route::Ignore => {},
                Route::Forward { session, .. } => {
                    let payload = datagram_payload(datagram.1.as_slice(), datagram.1.len());
                    assert(payload@ =~= datagram.1@);
                    queued.push((session, payload));
                    assert(queue_of(queued@) =~= queue_of(before).push((session, payload@)));
                },
            }
            i += 1;
        }
        assert(trace.take(i as int) =~= trace);
        queued
    }

    /// Reacts to a failed hand-over to `client`'s queue: its forwarding
    /// tasks are gone, so the session is dropped and the destination is
    /// reported as not responding.
    pub fn on_queue_closed(&mut self, client: Endpoint) -> (event: ProxyEvent)
        requires
            old(self).wf(),
        ensures
            final(self).wf(),
            final(self).destination() == old(self).destination(),
            final(self).listen_addr() == old(self).listen_addr(),
            final(self).clients() == old(self).clients().remove(client),
            event == ProxyEvent::DestinationNotResponding,
    {
        match self.position(client) {
            Some(i) => {
                self.sessions.remove(i);
                proof {
                    let before = old(self).sessions@;
                    let after = self.sessions@;
                    assert(after == before.remove(i as int));
                    assert forall|c: Endpoint| #[trigger]
                        self.clients().contains(c) == old(self).clients().remove(
                            client,
                        ).contains(c) by {
                        if self.holds(c) {
                            let k = choose|k: int|
                                0 <= k < after.len() && #[trigger] after[k].client == c;
                            let k0 = if k < i { k } else { k + 1 };
                            assert(before[k0].client == c);
                        }
                        if old(self).holds(c) && c != client {
                            let k = choose|k: int|
                                0 <= k < before.len() && #[trigger] before[k].client == c;
                            let k1 = if k < i { k } else { k - 1 };
                            assert(after[k1].client == c);
                        }
                    }
                    assert forall|a: int, b: int| 0 <= a < b < after.len() implies #[trigger]
                        after[a].client != #[trigger] after[b].client by {
                        let a0 = if a < i { a } else { a + 1 };
                        let b0 = if b < i { b } else { b + 1 };
                        assert(before[a0].client != before[b0].client);
                    }
                    assert forall|a: int| 0 <= a < after.len() implies #[trigger] after[a]
                        == self.session_of(after[a].client) by {
                        let a0 = if a < i { a } else { a + 1 };
                        assert(before[a0] == old(self).session_of(before[a0].client));
                    }
                    assert(!self.holds(self.destination)) by {
                        if self.holds(self.destination) {
                            let k = choose|k: int|
                                0 <= k < after.len() && #[trigger] after[k].client
                                    == self.destination;
                            let k0 = if k < i { k } else { k + 1 };
                            assert(before[k0].client == self.destination);
                        }
                    }
                }
            },
            None => {},
        }
        assert(self.clients() =~= old(self).clients().remove(client));
        ProxyEvent::DestinationNotResponding
    }

    /// The client to which a datagram that came back on `session`'s backend
    /// socket is written, through the listen socket.
    pub fn route_reply(session: &ClientSession) -> (client: Endpoint)
        ensures
            client == reply_target(*session),
    {
        session.client
    }

    proof fn lemma_clients_len(&self)
        requires
            self.wf(),
        ensures
            self.clients().finite(),
            self.clients().len() == self.sessions@.len(),
    {
        let keys = self.sessions@.map_values(|s: ClientSession| s.client);
        assert(keys.no_duplicates());
        assert(keys.to_set() =~= self.clients()) by {
            assert forall|c: Endpoint| keys.to_set().contains(c) == self.clients().contains(
                c,
            ) by {
                if keys.contains(c) {
                    let i = choose|i: int| 0 <= i < keys.len() && keys[i] == c;
                    assert(self.sessions@[i].client == c);
                }
                if self.holds(c) {
                    let i = choose|i: int|
                        0 <= i < self.sessions@.len() && #[trigger] self.sessions@[i].client == c;
                    assert(keys[i] == c);
                }
            }
        }
        keys.unique_seq_to_set();
    }
}

/// No cross-delivery: two different clients of one proxy have different
/// sessions, and what comes back on a client's session goes to that client
/// and not to the other. The destination itself never has a session.
pub proof fn lemma_replies_reach_their_own_client(proxy: UDPProxy, a: Endpoint, b: Endpoint)
    requires
        proxy.wf(),
        a != b,
    ensures
        !proxy.clients().contains(proxy.destination()),
        proxy.session_of(a) != proxy.session_of(b),
        reply_target(proxy.session_of(a)) == a,
        reply_target(proxy.session_of(b)) == b,
        reply_target(proxy.session_of(a)) != b,
        reply_target(proxy.session_of(b)) != a,
{
}

/// Datagram fidelity: what is queued on a client's session is exactly
/// what that client sent, datagram by datagram, in order, whatever other
/// clients and the destination sent in between. So the bytes that reach
/// the destination from the client's backend socket are the client's
/// bytes, however they were cut into datagrams.
pub proof fn lemma_datagrams_arrive_whole(
    listen_addr: Endpoint,
    destination: Endpoint,
    trace: Seq<(Endpoint, Seq<u8>)>,
    client: Endpoint,
)
    requires
        client != destination,
    ensures
        payloads_on(
            forwarded(listen_addr, destination, trace),
            session_for(listen_addr, destination, client),
        ) == sent_by(trace, client),
        payloads_on(
            forwarded(listen_addr, destination, trace),
            session_for(listen_addr, destination, client),
        ).flatten() == sent_by(trace, client).flatten(),
    decreases trace.len(),
{
    if trace.len() > 0 {
        let earlier = forwarded(listen_addr, destination, trace.drop_last());
        lemma_datagrams_arrive_whole(listen_addr, destination, trace.drop_last(), client);
        if trace.last().0 != destination {
            let item = (session_for(listen_addr, destination, trace.last().0), trace.last().1);
            assert(earlier.push(item).drop_last() =~= earlier);
            assert(earlier.push(item).last() == item);
        }
    }
}

} // verus!
