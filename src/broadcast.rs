use vstd::prelude::*;
use std::collections::VecDeque;
use std::sync::Arc;

verus! {

/// What the broadcaster fans out to every subscriber.
pub enum BroadcastEnum {
    Datagram(Vec<u8>),
}

/// A published message, shared by every mailbox it is delivered to.
pub type BroadcastMessage = Arc<BroadcastEnum>;

/// The bytes a broadcast message carries.
pub open spec fn payload_of(m: BroadcastMessage) -> Seq<u8> {
    match *m {
        BroadcastEnum::Datagram(v) => v@,
    }
}

/// Wraps a datagram's bytes as a broadcast message.
pub fn new_message(bytes: Vec<u8>) -> (m: BroadcastMessage)
    ensures
        payload_of(m) == bytes@,
{
    Arc::new(BroadcastEnum::Datagram(bytes))
}

/// The bytes of a queue of messages, in order.
pub open spec fn payloads(q: Seq<BroadcastMessage>) -> Seq<Seq<u8>> {
    q.map_values(|m: BroadcastMessage| payload_of(m))
}

/// The registry of subscriber mailboxes. Each entry is an unbounded FIFO
/// queue of broadcast messages; entries are only ever added.
pub struct BroadcastClientList {
    clients: Vec<VecDeque<BroadcastMessage>>,
}

impl BroadcastClientList {
    /// For each subscriber, in order of registration, the payloads waiting
    /// in its mailbox, oldest first.
    pub closed spec fn view(&self) -> Seq<Seq<Seq<u8>>> {
        Seq::new(self.clients@.len(), |k: int| payloads(self.clients@[k]@))
    }

    /// A registry with no subscriber.
    pub fn new() -> (r: Self)
        ensures
            r.view() == Seq::<Seq<Seq<u8>>>::empty(),
    {
        let r = BroadcastClientList { clients: Vec::new() };
        assert(r.view() =~= Seq::<Seq<Seq<u8>>>::empty());
        r
    }

    /// The number of registered subscribers.
    pub fn len(&self) -> (n: usize)
        ensures
            n == self.view().len(),
    {
        self.clients.len()
    }

    /// Registers a new subscriber with an empty mailbox and returns its
    /// handle: the position of its entry.
    pub fn new_client(&mut self) -> (id: usize)
        requires
            old(self).view().len() < usize::MAX,
        ensures
            id == old(self).view().len(),
            final(self).view() == old(self).view().push(Seq::<Seq<u8>>::empty()),
    {
        let id = self.clients.len();
        self.clients.push(VecDeque::new());
        assert(payloads(self.clients@[id as int]@) =~= Seq::<Seq<u8>>::empty());
        assert(self.view() =~= old(self).view().push(Seq::<Seq<u8>>::empty()));
        id
    }

    /// Appends one shared copy of `m` to every registered mailbox.
    pub fn deliver(&mut self, m: &BroadcastMessage)
        ensures
            final(self).view() == Seq::new(
                old(self).view().len(),
                |k: int| old(self).view()[k].push(payload_of(*m)),
            ),
    {
        let n = self.clients.len();
        let mut k: usize = 0;
        while k < n
            invariant
                n == old(self).clients@.len(),
                self.clients@.len() == n,
                0 <= k <= n,
                forall|j: int| 0 <= j < k ==> payloads(#[trigger] self.clients@[j]@) == payloads(old(self).clients@[j]@).push(payload_of(*m)),
                forall|j: int| k <= j < n ==> #[trigger] self.clients@[j] == old(self).clients@[j],
            decreases n - k,
        {
            self.clients[k].push_back(m.clone());
            assert(payloads(self.clients@[k as int]@) =~= payloads(old(self).clients@[k as int]@).push(payload_of(*m)));
            k = k + 1;
        }
        assert(self.view() =~= Seq::new(
                old(self).view().len(),
                |k: int| old(self).view()[k].push(payload_of(*m)),
            ));
    }

    /// Takes the oldest message from subscriber `id`'s mailbox, if any.
    pub fn take(&mut self, id: usize) -> (r: Option<BroadcastMessage>)
        requires
            id < old(self).view().len(),
        ensures
            old(self).view()[id as int].len() == 0 ==> r is None && final(self).view() == old(self).view(),
            old(self).view()[id as int].len() > 0 ==> r is Some
                && payload_of(r->0) == old(self).view()[id as int][0]
                && final(self).view() == old(self).view().update(id as int, old(self).view()[id as int].drop_first()),
    {
        let r = self.clients[id].pop_front();
        proof {
            if r is Some {
                assert(payloads(self.clients@[id as int]@) =~= payloads(old(self).clients@[id as int]@).drop_first());
            }
        }
        assert(self.view() =~= old(self).view().update(id as int, payloads(self.clients@[id as int]@)));
        r
    }
}

} // verus!

verus! {

/// The single fan-out worker: it owns the shared publish queue and the
/// registry, and hands each published message, in publish order, to every
/// mailbox registered at the moment of delivery.
pub struct Broadcaster {
    rx: VecDeque<BroadcastMessage>,
    client_tx_mutexed: BroadcastClientList,
}

impl Broadcaster {
    /// The payloads waiting in the publish queue, oldest first.
    pub closed spec fn publish_view(&self) -> Seq<Seq<u8>> {
        payloads(self.rx@)
    }

    /// The registry's mailboxes (see `BroadcastClientList::view`).
    pub closed spec fn clients_view(&self) -> Seq<Seq<Seq<u8>>> {
        self.client_tx_mutexed.view()
    }

    /// A broadcaster over the registry `client_tx_mutexed`, with an empty
    /// publish queue.
    pub fn new(client_tx_mutexed: BroadcastClientList) -> (b: Broadcaster)
        ensures
            b.publish_view() == Seq::<Seq<u8>>::empty(),
            b.clients_view() == client_tx_mutexed.view(),
    {
        let b = Broadcaster { rx: VecDeque::new(), client_tx_mutexed };
        assert(b.publish_view() =~= Seq::<Seq<u8>>::empty());
        b
    }

    /// Appends `m` to the publish queue.
    pub fn publish(&mut self, m: BroadcastMessage)
        ensures
            final(self).publish_view() == old(self).publish_view().push(payload_of(m)),
            final(self).clients_view() == old(self).clients_view(),
    {
        self.rx.push_back(m);
        assert(self.publish_view() =~= old(self).publish_view().push(payload_of(m)));
    }

    /// Registers a new subscriber (see `BroadcastClientList::new_client`).
    pub fn new_client(&mut self) -> (id: usize)
        requires
            old(self).clients_view().len() < usize::MAX,
        ensures
            id == old(self).clients_view().len(),
            final(self).clients_view() == old(self).clients_view().push(Seq::<Seq<u8>>::empty()),
            final(self).publish_view() == old(self).publish_view(),
    {
        self.client_tx_mutexed.new_client()
    }

    /// Takes the oldest message from subscriber `id`'s mailbox, if any.
    pub fn take(&mut self, id: usize) -> (r: Option<BroadcastMessage>)
        requires
            id < old(self).clients_view().len(),
        ensures
            final(self).publish_view() == old(self).publish_view(),
            old(self).clients_view()[id as int].len() == 0 ==> r is None
                && final(self).clients_view() == old(self).clients_view(),
            old(self).clients_view()[id as int].len() > 0 ==> r is Some
                && payload_of(r->0) == old(self).clients_view()[id as int][0]
                && final(self).clients_view() == old(self).clients_view().update(
                    id as int,
                    old(self).clients_view()[id as int].drop_first(),
                ),
    {
        self.client_tx_mutexed.take(id)
    }

    /// One pass of the broadcaster: takes the oldest published message, if
    /// any, and appends one copy of it to every registered mailbox. Returns
    /// whether a message was taken.
    pub fn run_once(&mut self) -> (progressed: bool)
        ensures
            progressed == (old(self).publish_view().len() > 0),
            !progressed ==> final(self).publish_view() == old(self).publish_view()
                && final(self).clients_view() == old(self).clients_view(),
            progressed ==> final(self).publish_view() == old(self).publish_view().drop_first()
                && final(self).clients_view() == Seq::new(
                    old(self).clients_view().len(),
                    |k: int| old(self).clients_view()[k].push(old(self).publish_view()[0]),
                ),
    {
        match self.rx.pop_front() {
            None => false,
            Some(m) => {
                assert(payloads(self.rx@) =~= payloads(old(self).rx@).drop_first());
                self.client_tx_mutexed.deliver(&m);
                true
            },
        }
    }
}

} // verus!
