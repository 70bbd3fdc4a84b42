use vstd::prelude::*;

use crate::addr::PeerAddr;
use crate::client::{PrivateMsg, SessionModel};
use crate::server::{
    broadcast_step, broadcast_steps, has_session, lemma_session_index_unique, lemma_wf_same_shape,
    private_step, receive, relay_wf, session_index, subscription_step, RelayModel,
};

verus! {

/// The broadcaster delivers in publish order, one copy each: after `n`
/// passes, every mailbox that was registered holds exactly the `n` oldest
/// published payloads appended, in the order they were published, and
/// nothing else has changed but the publish queue.
pub proof fn lemma_fan_out_in_order(m: RelayModel, n: nat)
    requires
        n <= m.publish.len(),
    ensures
        broadcast_steps(m, n).publish == m.publish.skip(n as int),
        broadcast_steps(m, n).mailboxes.len() == m.mailboxes.len(),
        forall|k: int| 0 <= k < m.mailboxes.len()
            ==> #[trigger] broadcast_steps(m, n).mailboxes[k] == m.mailboxes[k] + m.publish.take(n as int),
        broadcast_steps(m, n).sessions == m.sessions,
        broadcast_steps(m, n).outbound == m.outbound,
    decreases n,
{
    if n == 0 {
        assert(m.publish.skip(0) =~= m.publish);
        assert forall|k: int| 0 <= k < m.mailboxes.len()
            implies #[trigger] broadcast_steps(m, n).mailboxes[k] == m.mailboxes[k] + m.publish.take(0) by {
            assert(m.mailboxes[k] + m.publish.take(0) =~= m.mailboxes[k]);
        }
    } else {
        let m1 = broadcast_step(m);
        lemma_fan_out_in_order(m1, (n - 1) as nat);
        assert(m1.publish.skip((n - 1) as int) =~= m.publish.skip(n as int));
        assert forall|k: int| 0 <= k < m.mailboxes.len()
            implies #[trigger] broadcast_steps(m, n).mailboxes[k] == m.mailboxes[k] + m.publish.take(n as int) by {
            assert(m1.mailboxes[k] + m1.publish.take((n - 1) as int)
                =~= m.mailboxes[k] + m.publish.take(n as int));
        }
    }
}

/// Receiving a datagram keeps the relay well-formed.
pub proof fn lemma_receive_wf(m: RelayModel, a: PeerAddr, p: Seq<u8>)
    requires
        relay_wf(m),
    ensures
        relay_wf(receive(m, a, p)),
{
    let m2 = receive(m, a, p);
    if has_session(m, a) {
        lemma_wf_same_shape(m, m2);
    } else {
        assert forall|x: int, y: int|
            0 <= x < m2.sessions.len() && 0 <= y < m2.sessions.len() && x != y
                implies #[trigger] m2.sessions[x].addr != #[trigger] m2.sessions[y].addr by {
            if x < m.sessions.len() && y < m.sessions.len() {
                assert(m2.sessions[x] == m.sessions[x]);
                assert(m2.sessions[y] == m.sessions[y]);
            } else if x < m.sessions.len() {
                assert(m2.sessions[x] == m.sessions[x]);
            } else {
                assert(m2.sessions[y] == m.sessions[y]);
            }
        }
        assert forall|x: int| 0 <= x < m2.sessions.len()
            implies #[trigger] m2.sessions[x].subscription == x by {
            if x < m.sessions.len() {
                assert(m2.sessions[x] == m.sessions[x]);
            }
        }
    }
}

/// A session that takes a close directive from the front of its private
/// mailbox is closed from then on: it processes nothing more from either
/// mailbox, and the messages still queued in its private mailbox stay
/// unprocessed; datagrams its peer sends later are dropped.
pub proof fn lemma_close_stops_session(m: RelayModel, i: int, p: Seq<u8>)
    requires
        relay_wf(m),
        0 <= i < m.sessions.len(),
        !m.sessions[i].closed,
        m.sessions[i].inbox.len() > 0,
        m.sessions[i].inbox[0] == PrivateMsg::Close,
    ensures
        ({
            let m1 = private_step(m, i);
            &&& m1.sessions[i].closed
            &&& m1.sessions[i].inbox == m.sessions[i].inbox.drop_first()
            &&& private_step(m1, i) == m1
            &&& subscription_step(m1, i) == m1
            &&& receive(m1, m.sessions[i].addr, p) == m1
        }),
{
    let m1 = private_step(m, i);
    lemma_wf_same_shape(m, m1);
    lemma_session_index_unique(m1, m.sessions[i].addr, i);
}

/// Datagrams from two distinct peers that have no session yet create two
/// sessions, one for each peer, and the relay stays well-formed: no session
/// serves two peers, and no peer has two sessions.
pub proof fn lemma_distinct_peers_get_distinct_sessions(
    m: RelayModel,
    a: PeerAddr,
    b: PeerAddr,
    p: Seq<u8>,
    q: Seq<u8>,
)
    requires
        relay_wf(m),
        a != b,
        !has_session(m, a),
        !has_session(m, b),
    ensures
        ({
            let n = m.sessions.len() as int;
            let m2 = receive(receive(m, a, p), b, q);
            &&& relay_wf(m2)
            &&& m2.sessions.len() == n + 2
            &&& m2.sessions[n].addr == a
            &&& m2.sessions[n + 1].addr == b
            &&& has_session(m2, a) && session_index(m2, a) == n
            &&& has_session(m2, b) && session_index(m2, b) == n + 1
        }),
{
    let n = m.sessions.len() as int;
    let m1 = receive(m, a, p);
    lemma_receive_wf(m, a, p);
    assert(m1.sessions[n].addr == a);
    assert forall|j: int| 0 <= j < m1.sessions.len() implies #[trigger] m1.sessions[j].addr != b by {
        if j < n {
            assert(m1.sessions[j] == m.sessions[j]);
        }
    }
    let m2 = receive(m1, b, q);
    lemma_receive_wf(m1, b, p);
    lemma_receive_wf(m1, b, q);
    assert(m2.sessions[n] == m1.sessions[n]);
    lemma_session_index_unique(m2, a, n);
    lemma_session_index_unique(m2, b, n + 1);
}

/// A datagram from a peer with an active session goes to the end of that
/// session's private mailbox; no session is created and nothing else changes.
pub proof fn lemma_known_peer_is_routed(m: RelayModel, a: PeerAddr, p: Seq<u8>)
    requires
        relay_wf(m),
        has_session(m, a),
        !m.sessions[session_index(m, a)].closed,
    ensures
        ({
            let i = session_index(m, a);
            let m2 = receive(m, a, p);
            &&& relay_wf(m2)
            &&& m2.sessions.len() == m.sessions.len()
            &&& m2.mailboxes == m.mailboxes
            &&& m2.publish == m.publish
            &&& m2.sessions[i] == (SessionModel {
                inbox: m.sessions[i].inbox.push(PrivateMsg::Datagram(p)),
                ..m.sessions[i]
            })
            &&& forall|j: int| 0 <= j < m.sessions.len() && j != i ==> #[trigger] m2.sessions[j] == m.sessions[j]
            &&& has_session(m2, a) && session_index(m2, a) == i
        }),
{
    let i = session_index(m, a);
    lemma_receive_wf(m, a, p);
    lemma_session_index_unique(receive(m, a, p), a, i);
}

/// A datagram `d` from a peer whose active session has nothing else queued
/// is, once that session has published it and the broadcaster has worked
/// through the publish queue, in the mailbox of every subscriber registered
/// at that time, the sender's own included, after exactly what was queued
/// before.
pub proof fn lemma_round_trip(m: RelayModel, a: PeerAddr, d: Seq<u8>)
    requires
        relay_wf(m),
        has_session(m, a),
        !m.sessions[session_index(m, a)].closed,
        m.sessions[session_index(m, a)].inbox.len() == 0,
    ensures
        ({
            let i = session_index(m, a);
            let m2 = private_step(receive(m, a, d), i);
            let m3 = broadcast_steps(m2, m2.publish.len());
            &&& m3.publish.len() == 0
            &&& m3.mailboxes.len() == m.mailboxes.len()
            &&& forall|k: int| 0 <= k < m.mailboxes.len()
                ==> #[trigger] m3.mailboxes[k] == m.mailboxes[k] + m.publish.push(d)
            &&& m3.mailboxes[i].last() == d
        }),
{
    let i = session_index(m, a);
    let m1 = receive(m, a, d);
    assert(m1.sessions[i].inbox =~= seq![PrivateMsg::Datagram(d)]);
    let m2 = private_step(m1, i);
    assert(m2.publish == m.publish.push(d));
    lemma_fan_out_in_order(m2, m2.publish.len());
    assert(m2.publish.take(m2.publish.len() as int) =~= m2.publish);
    let m3 = broadcast_steps(m2, m2.publish.len());
    assert(m3.mailboxes[i] == m.mailboxes[i] + m.publish.push(d));
}

} // verus!
