use vstd::prelude::*;
use std::collections::VecDeque;

use crate::addr::PeerAddr;
use crate::broadcast::{new_message, payload_of, BroadcastEnum, BroadcastMessage};

verus! {

/// A message in a session's private mailbox.
pub enum ClientRXMessage {
    /// A datagram the session's peer sent.
    Datagram(Vec<u8>),
    /// Ends the session.
    ShouldClose,
}

/// The payload of an outbound action.
pub enum ClientTXMessage {
    Datagram(Vec<u8>),
}

/// One payload to be sent to one destination.
pub struct OutgoingClientMessage {
    pub addr: PeerAddr,
    pub message: ClientTXMessage,
}

/// A private mailbox message, as a value.
pub enum PrivateMsg {
    Datagram(Seq<u8>),
    Close,
}

pub open spec fn private_msg(m: ClientRXMessage) -> PrivateMsg {
    match m {
        ClientRXMessage::Datagram(v) => PrivateMsg::Datagram(v@),
        ClientRXMessage::ShouldClose => PrivateMsg::Close,
    }
}

/// An outbound action, as a value: destination and payload.
pub open spec fn outgoing(m: OutgoingClientMessage) -> (PeerAddr, Seq<u8>) {
    match m.message {
        ClientTXMessage::Datagram(v) => (m.addr, v@),
    }
}

/// A session, as a value: its peer, the messages waiting in its private
/// mailbox (oldest first), the registry entry of its subscription mailbox,
/// and whether it has been closed.
pub struct SessionModel {
    pub addr: PeerAddr,
    pub inbox: Seq<PrivateMsg>,
    pub subscription: nat,
    pub closed: bool,
}

/// The lifecycle of a session.
#[derive(Clone, Copy, Debug, PartialEq, Eq, Structural)]
pub enum SessionState {
    Active,
    Closed,
}

/// The session actor of one peer: its private mailbox, the handle of its
/// subscription mailbox in the registry, and its lifecycle state.
pub struct Client {
    addr: PeerAddr,
    rx: VecDeque<ClientRXMessage>,
    broadcast_rx: usize,
    state: SessionState,
}

impl Client {
    pub closed spec fn view(&self) -> SessionModel {
        SessionModel {
            addr: self.addr,
            inbox: self.rx@.map_values(|m: ClientRXMessage| private_msg(m)),
            subscription: self.broadcast_rx as nat,
            closed: self.state == SessionState::Closed,
        }
    }

    /// An active session for the peer at `addr`, subscribed through registry
    /// entry `broadcast_rx`, with an empty private mailbox.
    pub fn new(addr: PeerAddr, broadcast_rx: usize) -> (c: Client)
        ensures
            c.view() == (SessionModel {
                addr,
                inbox: Seq::empty(),
                subscription: broadcast_rx as nat,
                closed: false,
            }),
    {
        let c = Client { addr, rx: VecDeque::new(), broadcast_rx, state: SessionState::Active };
        assert(c.view().inbox =~= Seq::<PrivateMsg>::empty());
        c
    }

    /// The peer this session serves.
    pub fn addr(&self) -> (a: PeerAddr)
        ensures
            a == self.view().addr,
    {
        self.addr
    }

    /// The registry entry of this session's subscription mailbox.
    pub fn subscription(&self) -> (id: usize)
        ensures
            id == self.view().subscription,
    {
        self.broadcast_rx
    }

    /// Whether the session has processed a close directive.
    pub fn is_closed(&self) -> (r: bool)
        ensures
            r == self.view().closed,
    {
        self.state == SessionState::Closed
    }

    /// Appends `m` to the private mailbox.
    pub fn send(&mut self, m: ClientRXMessage)
        ensures
            final(self).view() == (SessionModel {
                inbox: old(self).view().inbox.push(private_msg(m)),
                ..old(self).view()
            }),
    {
        self.rx.push_back(m);
        assert(final(self).view().inbox =~= old(self).view().inbox.push(private_msg(m)));
    }

    /// Reacts to a message from the subscription mailbox: an active session
    /// turns it into an outbound action addressed to its peer; a closed one
    /// produces nothing.
    pub fn on_broadcast(&self, m: &BroadcastMessage) -> (r: Option<OutgoingClientMessage>)
        ensures
            self.view().closed ==> r is None,
            !self.view().closed ==> r is Some && outgoing(r->0) == (self.view().addr, payload_of(*m)),
    {
        if self.state == SessionState::Closed {
            None
        } else {
            let BroadcastEnum::Datagram(v) = &**m;
            Some(OutgoingClientMessage { addr: self.addr, message: ClientTXMessage::Datagram(v.clone()) })
        }
    }

    /// Processes the oldest message of the private mailbox, if the session is
    /// active and the mailbox is not empty: a datagram becomes a message to
    /// publish; a close directive closes the session. A closed session
    /// processes nothing. Returns whether a message was processed, and what
    /// to publish.
    pub fn on_private(&mut self) -> (r: (bool, Option<BroadcastMessage>))
        ensures
            r.0 == (!old(self).view().closed && old(self).view().inbox.len() > 0),
            !r.0 ==> final(self).view() == old(self).view() && r.1 is None,
            r.0 ==> final(self).view().addr == old(self).view().addr
                && final(self).view().subscription == old(self).view().subscription
                && final(self).view().inbox == old(self).view().inbox.drop_first()
                && match old(self).view().inbox[0] {
                    PrivateMsg::Datagram(p) => !final(self).view().closed && r.1 is Some
                        && payload_of(r.1->0) == p,
                    PrivateMsg::Close => final(self).view().closed && r.1 is None,
                },
    {
        if self.state == SessionState::Closed {
            return (false, None);
        }
        match self.rx.pop_front() {
            None => (false, None),
            Some(m) => {
                assert(self.view().inbox =~= old(self).view().inbox.drop_first());
                match m {
                    ClientRXMessage::Datagram(v) => (true, Some(new_message(v))),
                    ClientRXMessage::ShouldClose => {
                        self.state = SessionState::Closed;
                        (true, None)
                    },
                }
            },
        }
    }
}

} // verus!
