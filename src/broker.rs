use vstd::prelude::*;
use crate::auth::{authenticate, token_principal, AuthError};

verus! {

/// How many undelivered messages a connection holds at most. A message that
/// finds the queue full is dropped for that connection (drop-newest).
pub const QUEUE_CAPACITY: usize = 64;

/// A notification pushed to every live subscriber.
#[derive(Debug)]
pub enum NotifyMessage {
    GameCreated { id: u64, name: String },
    GameDeleted { id: u64 },
}

impl NotifyMessage {
    /// A message announcing a new game.
    pub fn new_game(id: u64, name: String) -> (m: NotifyMessage)
        ensures
            m == (NotifyMessage::GameCreated { id, name }),
    {
        NotifyMessage::GameCreated { id, name }
    }

    /// A message announcing that a game was deleted.
    pub fn delete_game(id: u64) -> (m: NotifyMessage)
        ensures
            m == (NotifyMessage::GameDeleted { id }),
    {
        NotifyMessage::GameDeleted { id }
    }

    /// An equal copy of the message.
    pub fn duplicate(&self) -> (m: NotifyMessage)
        ensures
            m == *self,
    {
        match self {
            NotifyMessage::GameCreated { id, name } => NotifyMessage::GameCreated {
                id: *id,
                name: name.clone(),
            },
            NotifyMessage::GameDeleted { id } => NotifyMessage::GameDeleted { id: *id },
        }
    }
}

/// A registered subscriber connection and its outbound queue.
pub struct Subscriber {
    pub id: u64,
    pub principal: u64,
    pub queue: Vec<NotifyMessage>,
}

/// The registry of live, authenticated subscriber connections.
pub struct Broker {
    subs: Vec<Subscriber>,
}

/// `i` is the position of the subscriber with connection id `id`.
pub open spec fn sub_at(subs: Seq<Subscriber>, id: u64, i: int) -> bool {
    0 <= i < subs.len() && subs[i].id == id
}

/// Whether a subscriber with connection id `id` is registered.
pub open spec fn registered(subs: Seq<Subscriber>, id: u64) -> bool {
    exists|i: int| sub_at(subs, id, i)
}

/// The queue of one subscriber after `m` is offered to it.
pub open spec fn offered(q: Seq<NotifyMessage>, m: NotifyMessage) -> Seq<NotifyMessage> {
    if q.len() < QUEUE_CAPACITY {
        q.push(m)
    } else {
        q
    }
}

/// `after` is the registry `before` once `m` has been offered to each
/// subscriber: same connections in the same order, each queue offered `m`.
pub open spec fn delivered(
    before: Seq<Subscriber>,
    after: Seq<Subscriber>,
    m: NotifyMessage,
) -> bool {
    &&& after.len() == before.len()
    &&& forall|i: int|
        0 <= i < before.len() ==> {
            &&& (#[trigger] after[i]).id == before[i].id
            &&& after[i].principal == before[i].principal
            &&& after[i].queue@ == offered(before[i].queue@, m)
        }
}

impl Broker {
    /// The registered subscribers, in the order they registered.
    pub closed spec fn subscribers(&self) -> Seq<Subscriber> {
        self.subs@
    }

    /// Connection ids are distinct and every queue is within its capacity.
    pub closed spec fn wf(&self) -> bool {
        &&& forall|i: int, j: int|
            0 <= i < j < self.subs@.len() ==> self.subs@[i].id != self.subs@[j].id
        &&& forall|i: int| 0 <= i < self.subs@.len() ==> self.subs@[i].queue@.len() <= QUEUE_CAPACITY
    }

    /// A broker with no subscribers.
    pub fn new() -> (b: Broker)
        ensures
            b.wf(),
            b.subscribers().len() == 0,
    {
        Broker { subs: Vec::new() }
    }

    /// The number of registered subscribers.
    pub fn len(&self) -> (n: usize)
        ensures
            n == self.subscribers().len(),
    {
        self.subs.len()
    }

    /// The position of the subscriber with connection id `id`.
    fn position(&self, id: u64) -> (r: Option<usize>)
        ensures
            match r {
                Some(i) => sub_at(self.subscribers(), id, i as int),
                None => !registered(self.subscribers(), id),
            },
    {
        let mut i: usize = 0;
        while i < self.subs.len()
            invariant
                i <= self.subs@.len(),
                forall|j: int| 0 <= j < i ==> self.subs@[j].id != id,
            decreases self.subs@.len() - i,
        {
            if self.subs[i].id == id {
                return Some(i);
            }
            i = i + 1;
        }
        proof {
            if registered(self.subs@, id) {
                let k = choose|k: int| sub_at(self.subs@, id, k);
                assert(self.subs@[k].id != id);
            }
        }
        None
    }

    /// Whether a subscriber with connection id `id` is registered.
    pub fn is_registered(&self, id: u64) -> (r: bool)
        ensures
            r == registered(self.subscribers(), id),
    {
        self.position(id).is_some()
    }

    /// Adds an authenticated connection with an empty queue; registering an
    /// id that is already present changes nothing.
    pub fn register(&mut self, id: u64, principal: u64)
        requires
            old(self).wf(),
        ensures
            final(self).wf(),
            registered(old(self).subscribers(), id) ==> *final(self) == *old(self),
            !registered(old(self).subscribers(), id) ==> {
                &&& final(self).subscribers().len() == old(self).subscribers().len() + 1
                &&& final(self).subscribers().drop_last() == old(self).subscribers()
                &&& final(self).subscribers().last().id == id
                &&& final(self).subscribers().last().principal == principal
                &&& final(self).subscribers().last().queue@.len() == 0
            },
    {
        if self.position(id).is_some() {
            return;
        }
        self.subs.push(Subscriber { id, principal, queue: Vec::new() });
        proof {
            assert(self.subs@.drop_last() =~= old(self).subs@);
            assert forall|i: int, j: int|
                0 <= i < j < self.subs@.len() implies self.subs@[i].id != self.subs@[j].id by {
                if j == self.subs@.len() - 1 {
                    assert(!sub_at(old(self).subs@, id, i));
                }
            }
        }
    }

    /// Removes the connection `id`; an unknown id changes nothing.
    pub fn deregister(&mut self, id: u64)
        requires
            old(self).wf(),
        ensures
            final(self).wf(),
            !registered(final(self).subscribers(), id),
            !registered(old(self).subscribers(), id) ==> *final(self) == *old(self),
            registered(old(self).subscribers(), id) ==> exists|i: int|
                sub_at(old(self).subscribers(), id, i) && final(self).subscribers() == old(
                    self,
                ).subscribers().remove(i),
    {
        match self.position(id) {
            None => {},
            Some(i) => {
                let ghost before = self.subs@;
                self.subs.remove(i);
                proof {
                    assert forall|k: int| 0 <= k < self.subs@.len() implies self.subs@[k].id
                        != id by {
                        if k >= i {
                            assert(self.subs@[k] == before[k + 1]);
                        }
                    }
                    assert forall|a: int, b: int|
                        0 <= a < b < self.subs@.len() implies self.subs@[a].id
                        != self.subs@[b].id by {
                        let a2 = if a < i { a } else { a + 1 };
                        let b2 = if b < i { b } else { b + 1 };
                        assert(self.subs@[a] == before[a2]);
                        assert(self.subs@[b] == before[b2]);
                    }
                    assert forall|k: int| 0 <= k < self.subs@.len() implies self.subs@[k].queue@.len()
                        <= QUEUE_CAPACITY by {
                        if k >= i {
                            assert(self.subs@[k] == before[k + 1]);
                        }
                    }
                    if registered(self.subs@, id) {
                        let k = choose|k: int| sub_at(self.subs@, id, k);
                        assert(self.subs@[k].id != id);
                    }
                }
            },
        }
    }

    /// Authenticates a new connection and registers it under `id`. A token
    /// that is malformed, badly signed or expired leaves the registry as it
    /// was.
    pub fn connect(&mut self, id: u64, secret: &[u8], token: &[u8], now: u64) -> (r: Result<
        u64,
        AuthError,
    >)
        requires
            old(self).wf(),
        ensures
            final(self).wf(),
            match token_principal(secret@, token@, now) {
                Some(p) => {
                    &&& r == Ok::<u64, AuthError>(p)
                    &&& registered(final(self).subscribers(), id)
                    &&& registered(old(self).subscribers(), id) ==> *final(self) == *old(self)
                    &&& !registered(old(self).subscribers(), id) ==> {
                        &&& final(self).subscribers().drop_last() == old(self).subscribers()
                        &&& final(self).subscribers().last().id == id
                        &&& final(self).subscribers().last().principal == p
                        &&& final(self).subscribers().last().queue@.len() == 0
                    }
                },
                None => {
                    &&& r == Err::<u64, AuthError>(AuthError::Unauthorized)
                    &&& *final(self) == *old(self)
                },
            },
    {
        match authenticate(secret, token, now) {
            Ok(p) => {
                self.register(id, p);
                proof {
                    if !registered(old(self).subs@, id) {
                        assert(sub_at(self.subs@, id, self.subs@.len() - 1));
                    }
                }
                Ok(p)
            },
            Err(e) => Err(e),
        }
    }

    /// Offers `m` to every registered subscriber without blocking: each queue
    /// with room receives it at its end, a full queue drops it.
    pub fn publish(&mut self, m: &NotifyMessage)
        requires
            old(self).wf(),
        ensures
            final(self).wf(),
            delivered(old(self).subscribers(), final(self).subscribers(), *m),
    {
        let n = self.subs.len();
        let mut i: usize = 0;
        while i < n
            invariant
                n == self.subs@.len(),
                n == old(self).subs@.len(),
                i <= n,
                forall|k: int|
                    0 <= k < n ==> {
                        &&& (#[trigger] self.subs@[k]).id == old(self).subs@[k].id
                        &&& self.subs@[k].principal == old(self).subs@[k].principal
                        &&& self.subs@[k].queue@ == if k < i {
                            offered(old(self).subs@[k].queue@, *m)
                        } else {
                            old(self).subs@[k].queue@
                        }
                    },
                old(self).wf(),
            decreases n - i,
        {
            if self.subs[i].queue.len() < QUEUE_CAPACITY {
                let copy = m.duplicate();
                self.subs[i].queue.push(copy);
            }
            i = i + 1;
        }
    }

    /// Hands out the messages queued for connection `id`, oldest first, and
    /// empties its queue. An unknown id yields nothing.
    pub fn take_pending(&mut self, id: u64) -> (r: Vec<NotifyMessage>)
        requires
            old(self).wf(),
        ensures
            final(self).wf(),
            final(self).subscribers().len() == old(self).subscribers().len(),
            !registered(old(self).subscribers(), id) ==> r@.len() == 0 && *final(self) == *old(
                self,
            ),
            forall|i: int|
                0 <= i < old(self).subscribers().len() ==> {
                    &&& (#[trigger] final(self).subscribers()[i]).id == old(
                        self,
                    ).subscribers()[i].id
                    &&& final(self).subscribers()[i].principal == old(
                        self,
                    ).subscribers()[i].principal
                    &&& old(self).subscribers()[i].id == id ==> r@ == old(
                        self,
                    ).subscribers()[i].queue@ && final(self).subscribers()[i].queue@.len() == 0
                    &&& old(self).subscribers()[i].id != id ==> final(self).subscribers()[i].queue@
                        == old(self).subscribers()[i].queue@
                },
    {
        match self.position(id) {
            None => {
                proof {
                    assert forall|k: int| 0 <= k < self.subs@.len() implies self.subs@[k].id
                        != id by {
                        if self.subs@[k].id == id {
                            assert(sub_at(self.subs@, id, k));
                        }
                    }
                }
                Vec::new()
            },
            Some(i) => {
                let ghost before = self.subs@;
                let mut out: Vec<NotifyMessage> = Vec::new();
                std::mem::swap(&mut out, &mut self.subs[i].queue);
                proof {
                    assert forall|k: int| 0 <= k < before.len() && k != i implies self.subs@[k]
                        == before[k] && before[k].id != id by {
                        if k < i {
                            assert(before[k].id != before[i as int].id);
                        } else {
                            assert(before[i as int].id != before[k].id);
                        }
                    }
                }
                out
            },
        }
    }
}

/// One publish reaches every registered subscriber whose queue has room, and
/// each of them receives the message exactly once, at the end of its queue.
pub proof fn lemma_publish_reaches_each_once(
    before: Seq<Subscriber>,
    after: Seq<Subscriber>,
    m: NotifyMessage,
)
    requires
        delivered(before, after, m),
        forall|i: int| 0 <= i < before.len() ==> #[trigger] before[i].queue@.len() < QUEUE_CAPACITY,
    ensures
        after.len() == before.len(),
        forall|i: int|
            0 <= i < before.len() ==> (#[trigger] after[i]).id == before[i].id && after[i].queue@
                == before[i].queue@.push(m),
{
    assert forall|i: int| 0 <= i < before.len() implies (#[trigger] after[i]).id == before[i].id
        && after[i].queue@ == before[i].queue@.push(m) by {
        assert(before[i].queue@.len() < QUEUE_CAPACITY);
    }
}

/// Two publishes in a row reach each subscriber with room for both in the
/// order they were published.
pub proof fn lemma_publish_keeps_order(
    s0: Seq<Subscriber>,
    s1: Seq<Subscriber>,
    s2: Seq<Subscriber>,
    m1: NotifyMessage,
    m2: NotifyMessage,
)
    requires
        delivered(s0, s1, m1),
        delivered(s1, s2, m2),
        forall|i: int| 0 <= i < s0.len() ==> #[trigger] s0[i].queue@.len() + 2 <= QUEUE_CAPACITY,
    ensures
        s2.len() == s0.len(),
        forall|i: int|
            0 <= i < s0.len() ==> (#[trigger] s2[i]).id == s0[i].id && s2[i].queue@ == s0[i].queue@
                + seq![m1, m2],
{
    assert forall|i: int| 0 <= i < s0.len() implies (#[trigger] s2[i]).id == s0[i].id
        && s2[i].queue@ == s0[i].queue@ + seq![m1, m2] by {
        assert(s0[i].queue@.len() + 2 <= QUEUE_CAPACITY);
        assert(s1[i].queue@ == s0[i].queue@.push(m1));
        assert(s2[i].queue@ == s1[i].queue@.push(m2));
        assert(s2[i].queue@ =~= s0[i].queue@ + seq![m1, m2]);
    }
}

/// Publishing to an empty registry leaves it empty.
pub proof fn lemma_publish_to_nobody(before: Seq<Subscriber>, after: Seq<Subscriber>, m: NotifyMessage)
    requires
        delivered(before, after, m),
        before.len() == 0,
    ensures
        after == before,
{
    assert(after =~= before);
}

/// Publishing neither adds nor removes connections: one that was not
/// registered receives nothing and stays unregistered.
pub proof fn lemma_publish_keeps_membership(
    before: Seq<Subscriber>,
    after: Seq<Subscriber>,
    m: NotifyMessage,
    id: u64,
)
    requires
        delivered(before, after, m),
    ensures
        registered(after, id) == registered(before, id),
{
    if registered(after, id) {
        let i = choose|i: int| sub_at(after, id, i);
        assert(after[i].id == before[i].id);
        assert(sub_at(before, id, i));
    }
    if registered(before, id) {
        let i = choose|i: int| sub_at(before, id, i);
        assert(after[i].id == before[i].id);
        assert(sub_at(after, id, i));
    }
}

} // verus!
