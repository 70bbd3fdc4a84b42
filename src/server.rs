use vstd::prelude::*;
use std::collections::VecDeque;

use crate::addr::PeerAddr;
use crate::broadcast::{BroadcastClientList, Broadcaster};
use crate::client::{
    outgoing, private_msg, Client, ClientRXMessage, OutgoingClientMessage, PrivateMsg,
    SessionModel,
};

verus! {

/// The whole relay, as a value.
pub struct RelayModel {
    /// Payloads waiting in the shared publish queue, oldest first.
    pub publish: Seq<Seq<u8>>,
    /// For each registry entry, the payloads waiting in its mailbox.
    pub mailboxes: Seq<Seq<Seq<u8>>>,
    /// The sessions, in order of creation.
    pub sessions: Seq<SessionModel>,
    /// Outbound actions waiting for the writer, oldest first.
    pub outbound: Seq<(PeerAddr, Seq<u8>)>,
}

/// Well-formedness: session `i` subscribes through registry entry `i`, and
/// no two sessions serve the same peer.
pub open spec fn relay_wf(m: RelayModel) -> bool {
    &&& m.mailboxes.len() == m.sessions.len()
    &&& forall|i: int| 0 <= i < m.sessions.len() ==> #[trigger] m.sessions[i].subscription == i
    &&& forall|i: int, j: int|
        0 <= i < m.sessions.len() && 0 <= j < m.sessions.len() && i != j
            ==> #[trigger] m.sessions[i].addr != #[trigger] m.sessions[j].addr
}

/// Whether some session serves peer `a`.
pub open spec fn has_session(m: RelayModel, a: PeerAddr) -> bool {
    exists|i: int| 0 <= i < m.sessions.len() && #[trigger] m.sessions[i].addr == a
}

/// The position of the session that serves peer `a`.
pub open spec fn session_index(m: RelayModel, a: PeerAddr) -> int
    recommends
        has_session(m, a),
{
    choose|i: int| 0 <= i < m.sessions.len() && #[trigger] m.sessions[i].addr == a
}

/// In a well-formed relay, the session that serves a peer is the only one
/// with that address.
pub proof fn lemma_session_index_unique(m: RelayModel, a: PeerAddr, i: int)
    requires
        relay_wf(m),
        0 <= i < m.sessions.len(),
        m.sessions[i].addr == a,
    ensures
        has_session(m, a),
        session_index(m, a) == i,
{
    assert(has_session(m, a));
    let j = session_index(m, a);
    assert(m.sessions[j].addr == a);
}

/// Well-formedness survives any change that keeps the number of mailboxes
/// and each session's peer and subscription.
pub proof fn lemma_wf_same_shape(m: RelayModel, m2: RelayModel)
    requires
        relay_wf(m),
        m2.mailboxes.len() == m.mailboxes.len(),
        m2.sessions.len() == m.sessions.len(),
        forall|i: int| 0 <= i < m.sessions.len() ==> (#[trigger] m2.sessions[i]).addr == m.sessions[i].addr
            && m2.sessions[i].subscription == m.sessions[i].subscription,
    ensures
        relay_wf(m2),
{
    assert forall|a: int, b: int|
        0 <= a < m2.sessions.len() && 0 <= b < m2.sessions.len() && a != b
            implies #[trigger] m2.sessions[a].addr != #[trigger] m2.sessions[b].addr by {
        assert(m2.sessions[a].addr == m.sessions[a].addr);
        assert(m2.sessions[b].addr == m.sessions[b].addr);
    }
    assert forall|a: int| 0 <= a < m2.sessions.len()
        implies #[trigger] m2.sessions[a].subscription == a by {
        assert(m2.sessions[a].subscription == m.sessions[a].subscription);
    }
}

/// The relay with no session, no subscriber and empty queues.
pub open spec fn empty_relay() -> RelayModel {
    RelayModel {
        publish: Seq::empty(),
        mailboxes: Seq::empty(),
        sessions: Seq::empty(),
        outbound: Seq::empty(),
    }
}

/// A datagram `p` from peer `a` arrives. An active session of `a` gets it in
/// its private mailbox; a closed one drops it. A peer without a session gets
/// a new session and a new subscription; that first datagram only creates the
/// session and is not forwarded.
pub open spec fn receive(m: RelayModel, a: PeerAddr, p: Seq<u8>) -> RelayModel {
    if has_session(m, a) {
        let i = session_index(m, a);
        if m.sessions[i].closed {
            m
        } else {
            RelayModel {
                sessions: m.sessions.update(
                    i,
                    SessionModel { inbox: m.sessions[i].inbox.push(PrivateMsg::Datagram(p)), ..m.sessions[i] },
                ),
                ..m
            }
        }
    } else {
        RelayModel {
            mailboxes: m.mailboxes.push(Seq::empty()),
            sessions: m.sessions.push(
                SessionModel {
                    addr: a,
                    inbox: Seq::empty(),
                    subscription: m.mailboxes.len(),
                    closed: false,
                },
            ),
            ..m
        }
    }
}

/// A close directive is queued for the active session of peer `a`, if any.
pub open spec fn request_close(m: RelayModel, a: PeerAddr) -> RelayModel {
    if has_session(m, a) && !m.sessions[session_index(m, a)].closed {
        let i = session_index(m, a);
        RelayModel {
            sessions: m.sessions.update(
                i,
                SessionModel { inbox: m.sessions[i].inbox.push(PrivateMsg::Close), ..m.sessions[i] },
            ),
            ..m
        }
    } else {
        m
    }
}

/// The broadcaster takes the oldest published payload and appends it to
/// every mailbox.
pub open spec fn broadcast_step(m: RelayModel) -> RelayModel {
    if m.publish.len() == 0 {
        m
    } else {
        RelayModel {
            publish: m.publish.drop_first(),
            mailboxes: Seq::new(m.mailboxes.len(), |k: int| m.mailboxes[k].push(m.publish[0])),
            ..m
        }
    }
}

/// `n` successive broadcaster passes.
pub open spec fn broadcast_steps(m: RelayModel, n: nat) -> RelayModel
    decreases n,
{
    if n == 0 {
        m
    } else {
        broadcast_steps(broadcast_step(m), (n - 1) as nat)
    }
}

/// Session `i` processes the oldest message of its private mailbox: a
/// datagram is published, a close directive closes the session. A closed
/// session processes nothing.
pub open spec fn private_step(m: RelayModel, i: int) -> RelayModel {
    let s = m.sessions[i];
    if s.closed || s.inbox.len() == 0 {
        m
    } else {
        let rest = SessionModel { inbox: s.inbox.drop_first(), ..s };
        match s.inbox[0] {
            PrivateMsg::Datagram(p) => RelayModel {
                publish: m.publish.push(p),
                sessions: m.sessions.update(i, rest),
                ..m
            },
            PrivateMsg::Close => RelayModel {
                sessions: m.sessions.update(i, SessionModel { closed: true, ..rest }),
                ..m
            },
        }
    }
}

/// Session `i` takes the oldest payload of its subscription mailbox and
/// queues it for its peer. A closed session processes nothing.
pub open spec fn subscription_step(m: RelayModel, i: int) -> RelayModel {
    let s = m.sessions[i];
    let q = m.mailboxes[s.subscription as int];
    if s.closed || q.len() == 0 {
        m
    } else {
        RelayModel {
            mailboxes: m.mailboxes.update(s.subscription as int, q.drop_first()),
            outbound: m.outbound.push((s.addr, q[0])),
            ..m
        }
    }
}

/// The writer takes the oldest outbound action.
pub open spec fn write_step(m: RelayModel) -> RelayModel {
    if m.outbound.len() == 0 {
        m
    } else {
        RelayModel { outbound: m.outbound.drop_first(), ..m }
    }
}

/// What the dispatch loop did with a datagram.
#[derive(Clone, Copy, Debug, PartialEq, Eq, Structural)]
pub enum Dispatch {
    /// Queued in the private mailbox of the session at this position.
    Forwarded(usize),
    /// Dropped: the session at this position is closed.
    Undeliverable(usize),
    /// A new session was created at this position.
    Created(usize),
}

/// The relay: the broadcaster with its registry, the sessions (which also
/// serve as the map from peer address to private mailbox), and the shared
/// outbound queue read by the writer.
pub struct Server {
    broadcaster: Broadcaster,
    client_tx_list: Vec<Client>,
    tx: VecDeque<OutgoingClientMessage>,
}

impl Server {
    pub closed spec fn view(&self) -> RelayModel {
        RelayModel {
            publish: self.broadcaster.publish_view(),
            mailboxes: self.broadcaster.clients_view(),
            sessions: self.client_tx_list@.map_values(|c: Client| c.view()),
            outbound: self.tx@.map_values(|o: OutgoingClientMessage| outgoing(o)),
        }
    }

    /// A relay with no session.
    pub fn new() -> (s: Server)
        ensures
            s.view() == empty_relay(),
            relay_wf(s.view()),
    {
        let s = Server {
            broadcaster: Broadcaster::new(BroadcastClientList::new()),
            client_tx_list: Vec::new(),
            tx: VecDeque::new(),
        };
        assert(s.view().sessions =~= Seq::<SessionModel>::empty());
        assert(s.view().outbound =~= Seq::<(PeerAddr, Seq<u8>)>::empty());
        s
    }

    /// The number of sessions.
    pub fn session_count(&self) -> (n: usize)
        ensures
            n == self.view().sessions.len(),
    {
        self.client_tx_list.len()
    }

    /// The position of the session that serves `src`, if any.
    pub fn find_session(&self, src: &PeerAddr) -> (r: Option<usize>)
        requires
            relay_wf(self.view()),
        ensures
            r is None <==> !has_session(self.view(), *src),
            r is Some ==> r->0 == session_index(self.view(), *src),
    {
        let n = self.client_tx_list.len();
        let mut i: usize = 0;
        while i < n
            invariant
                n == self.client_tx_list@.len(),
                relay_wf(self.view()),
                0 <= i <= n,
                forall|j: int| 0 <= j < i ==> (#[trigger] self.view().sessions[j]).addr != *src,
            decreases n - i,
        {
            assert(self.view().sessions[i as int] == self.client_tx_list@[i as int].view());
            if self.client_tx_list[i].addr() == *src {
                proof {
                    lemma_session_index_unique(self.view(), *src, i as int);
                }
                return Some(i);
            }
            i = i + 1;
        }
        None
    }

    /// The dispatch loop's handling of one received datagram `payload` from
    /// `src`: queue it for the peer's session, or, on first contact, register
    /// a subscription and create the peer's session. The datagram that
    /// creates a session is not forwarded to it.
    pub fn on_datagram(&mut self, src: PeerAddr, payload: Vec<u8>) -> (d: Dispatch)
        requires
            relay_wf(old(self).view()),
            old(self).view().sessions.len() < usize::MAX,
        ensures
            relay_wf(final(self).view()),
            final(self).view() == receive(old(self).view(), src, payload@),
            has_session(old(self).view(), src) ==> {
                let i = session_index(old(self).view(), src);
                if old(self).view().sessions[i].closed {
                    d == Dispatch::Undeliverable(i as usize)
                } else {
                    d == Dispatch::Forwarded(i as usize)
                }
            },
            !has_session(old(self).view(), src) ==> d == Dispatch::Created(
                old(self).view().sessions.len() as usize,
            ),
    {
        let ghost m = self.view();
        match self.find_session(&src) {
            Some(i) => {
                assert(self.client_tx_list@[i as int].view() == m.sessions[i as int]);
                if self.client_tx_list[i].is_closed() {
                    Dispatch::Undeliverable(i)
                } else {
                    let ghost p = payload@;
                    self.client_tx_list[i].send(ClientRXMessage::Datagram(payload));
                    assert(self.view().sessions =~= receive(m, src, p).sessions);
                    proof {
                        lemma_wf_same_shape(m, self.view());
                    }
                    Dispatch::Forwarded(i)
                }
            },
            None => {
                let sub = self.broadcaster.new_client();
                self.client_tx_list.push(Client::new(src, sub));
                proof {
                    let m2 = self.view();
                    assert(m2.sessions =~= receive(m, src, payload@).sessions);
                    assert forall|a: int, b: int|
                        0 <= a < m2.sessions.len() && 0 <= b < m2.sessions.len() && a != b
                            implies #[trigger] m2.sessions[a].addr != #[trigger] m2.sessions[b].addr by {
                        if a < m.sessions.len() && b < m.sessions.len() {
                            assert(m2.sessions[a] == m.sessions[a]);
                            assert(m2.sessions[b] == m.sessions[b]);
                        } else if a < m.sessions.len() {
                            assert(m2.sessions[a] == m.sessions[a]);
                        } else {
                            assert(m2.sessions[b] == m.sessions[b]);
                        }
                    }
                    assert forall|a: int| 0 <= a < m2.sessions.len()
                        implies #[trigger] m2.sessions[a].subscription == a by {
                        if a < m.sessions.len() {
                            assert(m2.sessions[a] == m.sessions[a]);
                        }
                    }
                }
                Dispatch::Created(sub)
            },
        }
    }

    /// The open hook for ending a session: queues a close directive in the
    /// private mailbox of `src`'s session, if it has one and it is active.
    /// Returns whether a directive was queued.
    pub fn close_session(&mut self, src: &PeerAddr) -> (queued: bool)
        requires
            relay_wf(old(self).view()),
        ensures
            relay_wf(final(self).view()),
            final(self).view() == request_close(old(self).view(), *src),
            queued == (has_session(old(self).view(), *src)
                && !old(self).view().sessions[session_index(old(self).view(), *src)].closed),
    {
        let ghost m = self.view();
        match self.find_session(src) {
            Some(i) => {
                assert(self.client_tx_list@[i as int].view() == m.sessions[i as int]);
                if self.client_tx_list[i].is_closed() {
                    false
                } else {
                    self.client_tx_list[i].send(ClientRXMessage::ShouldClose);
                    assert(self.view().sessions =~= request_close(m, *src).sessions);
                    proof {
                        lemma_wf_same_shape(m, self.view());
                    }
                    true
                }
            },
            None => false,
        }
    }

    /// One pass of the broadcaster (see `Broadcaster::run_once`). Returns
    /// whether a published message was delivered.
    pub fn step_broadcaster(&mut self) -> (progressed: bool)
        requires
            relay_wf(old(self).view()),
        ensures
            relay_wf(final(self).view()),
            final(self).view() == broadcast_step(old(self).view()),
            progressed == (old(self).view().publish.len() > 0),
    {
        let ghost m = self.view();
        let progressed = self.broadcaster.run_once();
        proof {
            assert(self.view().mailboxes =~= broadcast_step(m).mailboxes);
            lemma_wf_same_shape(m, self.view());
        }
        progressed
    }

    /// Session `i` processes the oldest message of its private mailbox (see
    /// `Client::on_private`); a datagram goes to the publish queue. Returns
    /// whether a message was processed.
    pub fn step_private(&mut self, i: usize) -> (progressed: bool)
        requires
            relay_wf(old(self).view()),
            i < old(self).view().sessions.len(),
        ensures
            relay_wf(final(self).view()),
            final(self).view() == private_step(old(self).view(), i as int),
            progressed == (!old(self).view().sessions[i as int].closed
                && old(self).view().sessions[i as int].inbox.len() > 0),
    {
        let ghost m = self.view();
        let (progressed, published) = self.client_tx_list[i].on_private();
        assert(self.view().sessions =~= private_step(m, i as int).sessions);
        match published {
            Some(msg) => {
                self.broadcaster.publish(msg);
            },
            None => {},
        }
        proof {
            lemma_wf_same_shape(m, self.view());
        }
        progressed
    }

    /// Session `i` takes the oldest message of its subscription mailbox and
    /// queues it for its peer on the outbound queue. A closed session takes
    /// nothing. Returns whether a message was taken.
    pub fn step_subscription(&mut self, i: usize) -> (progressed: bool)
        requires
            relay_wf(old(self).view()),
            i < old(self).view().sessions.len(),
        ensures
            relay_wf(final(self).view()),
            final(self).view() == subscription_step(old(self).view(), i as int),
            progressed == (!old(self).view().sessions[i as int].closed
                && old(self).view().mailboxes[i as int].len() > 0),
    {
        let ghost m = self.view();
        assert(self.client_tx_list@[i as int].view() == m.sessions[i as int]);
        if self.client_tx_list[i].is_closed() {
            return false;
        }
        let sub = self.client_tx_list[i].subscription();
        match self.broadcaster.take(sub) {
            None => false,
            Some(msg) => {
                match self.client_tx_list[i].on_broadcast(&msg) {
                    Some(out) => {
                        self.tx.push_back(out);
                    },
                    None => {},
                }
                proof {
                    assert(self.view().outbound =~= subscription_step(m, i as int).outbound);
                    assert(self.view().sessions =~= m.sessions);
                    lemma_wf_same_shape(m, self.view());
                }
                true
            },
        }
    }

    /// The writer's side: takes the oldest outbound action, to be sent to its
    /// destination.
    pub fn next_outgoing(&mut self) -> (r: Option<OutgoingClientMessage>)
        requires
            relay_wf(old(self).view()),
        ensures
            relay_wf(final(self).view()),
            final(self).view() == write_step(old(self).view()),
            old(self).view().outbound.len() == 0 ==> r is None,
            old(self).view().outbound.len() > 0 ==> r is Some
                && outgoing(r->0) == old(self).view().outbound[0],
    {
        let ghost m = self.view();
        let r = self.tx.pop_front();
        proof {
            if r is Some {
                assert(self.view().outbound =~= m.outbound.drop_first());
            }
        }
        r
    }
}

} // verus!
