use std::collections::hash_map::Entry;
use std::collections::{HashMap, VecDeque};
use vstd::prelude::*;
use vstd::std_specs::hash::*;
use vstd::std_specs::iter::IteratorSpec;

verus! {

broadcast use vstd::std_specs::hash::group_hash_axioms;

/// The number under which a bus knows one of its subscribers.
pub type ChannelId = usize;

/// What a subscriber buffers after `value` was pushed to it: the value is
/// appended, and where the buffer already held `backlog` values the oldest
/// one leaves first. With a backlog of zero nothing is ever buffered.
pub open spec fn spec_push<T>(pending: Seq<T>, value: T, backlog: nat) -> Seq<T> {
    if backlog == 0 {
        pending
    } else if pending.len() >= backlog {
        pending.drop_first().push(value)
    } else {
        pending.push(value)
    }
}

/// What a subscriber that starts from `pending` buffers after every value
/// of `values` was pushed to it, in order.
pub open spec fn spec_push_all<T>(pending: Seq<T>, values: Seq<T>, backlog: nat) -> Seq<T>
    decreases values.len(),
{
    if values.len() == 0 {
        pending
    } else {
        spec_push(spec_push_all(pending, values.drop_last(), backlog), values.last(), backlog)
    }
}

/// `after` is `before` with one copy of `value` pushed to it.
pub open spec fn spec_delivered<T: Clone>(before: Seq<T>, after: Seq<T>, value: T, backlog: nat) -> bool {
    exists|copy: T| #[trigger] cloned(value, copy) && after == spec_push(before, copy, backlog)
}

/// One consumer of a bus: its number and the values published since it last
/// drained them, oldest first, bounded by its backlog.
pub struct Subscriber<T> {
    id: ChannelId,
    buf: VecDeque<T>,
    backlog: usize,
}

impl<T> Subscriber<T> {
    pub closed spec fn spec_id(&self) -> ChannelId {
        self.id
    }

    pub closed spec fn spec_backlog(&self) -> usize {
        self.backlog
    }

    /// The values waiting to be drained, oldest first.
    pub closed spec fn pending(&self) -> Seq<T> {
        self.buf@
    }

    /// The buffer holds no more than the backlog allows.
    pub open spec fn wf(&self) -> bool {
        self.pending().len() <= self.spec_backlog()
    }

    pub(crate) fn new(id: ChannelId, backlog: usize) -> (subscriber: Self)
        ensures
            subscriber.wf(),
            subscriber.spec_id() == id,
            subscriber.spec_backlog() == backlog,
            subscriber.pending() == Seq::<T>::empty(),
    {
        Subscriber { id, buf: VecDeque::new(), backlog }
    }

    pub(crate) fn push(&mut self, value: T)
        requires
            old(self).wf(),
        ensures
            final(self).wf(),
            final(self).spec_id() == old(self).spec_id(),
            final(self).spec_backlog() == old(self).spec_backlog(),
            final(self).pending() == spec_push(old(self).pending(), value, old(self).spec_backlog() as nat),
    {
        if self.backlog == 0 {
            // Nothing may wait: the value is dropped at once.
        } else if self.buf.len() >= self.backlog {
            let _ = self.buf.pop_front();
            self.buf.push_back(value);
        } else {
            self.buf.push_back(value);
        }
        assert(self.buf@ =~= spec_push(old(self).buf@, value, self.backlog as nat));
    }

    /// Takes everything that waits, oldest first, and leaves the buffer
    /// empty.
    pub fn pop(&mut self) -> (batch: VecDeque<T>)
        ensures
            batch@ == old(self).pending(),
            final(self).pending() == Seq::<T>::empty(),
            final(self).spec_id() == old(self).spec_id(),
            final(self).spec_backlog() == old(self).spec_backlog(),
            final(self).wf(),
    {
        let mut buf: VecDeque<T> = VecDeque::new();
        std::mem::swap(&mut buf, &mut self.buf);
        buf
    }

    #[verifier::when_used_as_spec(spec_id)]
    pub fn id(&self) -> (id: ChannelId)
        ensures
            id == self.spec_id(),
    {
        self.id
    }

    #[verifier::when_used_as_spec(spec_backlog)]
    pub fn backlog(&self) -> (backlog: usize)
        ensures
            backlog == self.spec_backlog(),
    {
        self.backlog
    }

    /// How many values wait to be drained.
    pub fn len(&self) -> (len: usize)
        ensures
            len == self.pending().len(),
    {
        self.buf.len()
    }

    /// Whether nothing waits, so that a consumer has to wait for the next
    /// publish.
    pub fn is_empty(&self) -> (empty: bool)
        ensures
            empty == (self.pending().len() == 0),
    {
        self.buf.len() == 0
    }
}

/// A publish/subscribe hub: every value published goes to each subscriber
/// registered at that moment, into a buffer of its own.
pub struct PubSub<T> {
    counter: ChannelId,
    channels: HashMap<ChannelId, Subscriber<T>>,
    backlog: usize,
}

/// What waits for each subscriber of a map of channels.
pub closed spec fn spec_pending<T>(channels: Map<ChannelId, Subscriber<T>>) -> Map<ChannelId, Seq<T>> {
    Map::new(|id: ChannelId| channels.contains_key(id), |id: ChannelId| channels[id].buf@)
}

impl<T> PubSub<T> {
    /// The number that the next subscriber gets.
    pub closed spec fn spec_next_id(&self) -> ChannelId {
        self.counter
    }

    pub closed spec fn spec_backlog(&self) -> usize {
        self.backlog
    }

    /// The subscribers: for each number registered, what waits for it.
    pub closed spec fn view(&self) -> Map<ChannelId, Seq<T>> {
        spec_pending(self.channels@)
    }

    /// Every subscriber stands under its own number, which is below the
    /// counter, and buffers within the bus's backlog.
    pub closed spec fn wf(&self) -> bool {
        forall|id: ChannelId| #[trigger]
            self.channels@.contains_key(id) ==> {
                &&& self.channels@[id].id == id
                &&& id < self.counter
                &&& self.channels@[id].backlog == self.backlog
                &&& self.channels@[id].wf()
            }
    }

    /// Every number in use is below the counter, and no buffer holds more
    /// than the backlog.
    pub proof fn lemma_bounded(&self, id: ChannelId)
        requires
            self.wf(),
            self@.contains_key(id),
        ensures
            id < self.spec_next_id(),
            self@[id].len() <= self.spec_backlog(),
    {
        assert(self.channels@.contains_key(id));
    }

    /// A bus without subscribers.
    pub fn new(backlog: usize) -> (bus: Self)
        ensures
            bus.wf(),
            bus@ == Map::<ChannelId, Seq<T>>::empty(),
            bus.spec_next_id() == 0,
            bus.spec_backlog() == backlog,
    {
        let bus = PubSub { counter: 0, channels: HashMap::new(), backlog };
        assert(bus@ =~= Map::<ChannelId, Seq<T>>::empty());
        bus
    }

    #[verifier::when_used_as_spec(spec_next_id)]
    pub fn next_id(&self) -> (id: ChannelId)
        ensures
            id == self.spec_next_id(),
    {
        self.counter
    }

    #[verifier::when_used_as_spec(spec_backlog)]
    pub fn backlog(&self) -> (backlog: usize)
        ensures
            backlog == self.spec_backlog(),
    {
        self.backlog
    }

    /// How many subscribers are registered.
    pub fn subscriber_count(&self) -> (count: usize)
        ensures
            count == self@.dom().len(),
    {
        assert(self@.dom() =~= self.channels@.dom());
        self.channels.len()
    }

    /// Whether a subscriber of that number is registered.
    pub fn contains(&self, id: ChannelId) -> (found: bool)
        ensures
            found == self@.contains_key(id),
    {
        self.channels.contains_key(&id)
    }

    /// Registers a subscriber under the next number, with nothing waiting.
    pub fn subscribe(&mut self) -> (id: ChannelId)
        requires
            old(self).wf(),
            old(self).spec_next_id() < usize::MAX,
        ensures
            final(self).wf(),
            id == old(self).spec_next_id(),
            !old(self)@.contains_key(id),
            final(self)@ == old(self)@.insert(id, Seq::<T>::empty()),
            final(self).spec_next_id() == id + 1,
            final(self).spec_backlog() == old(self).spec_backlog(),
    {
        let id = self.counter;
        let ch: Subscriber<T> = Subscriber::new(id, self.backlog);
        proof {
            if self.channels@.contains_key(id) {
                assert(id < self.counter);
            }
        }
        let _ = self.channels.insert(id, ch);
        self.counter += 1;
        proof {
            assert(self.wf()) by {
                assert forall|k: ChannelId| #[trigger] self.channels@.contains_key(k) implies {
                    &&& self.channels@[k].id == k
                    &&& k < self.counter
                    &&& self.channels@[k].backlog == self.backlog
                    &&& self.channels@[k].wf()
                } by {
                    if k != id {
                        assert(old(self).channels@.contains_key(k));
                    }
                }
            }
            assert(self@ =~= old(self)@.insert(id, Seq::<T>::empty()));
        }
        id
    }

    /// Takes the subscriber of that number off the bus and hands it back,
    /// with whatever still waited for it: nothing published later reaches
    /// it. `None` where no such subscriber is registered.
    pub fn unsubscribe(&mut self, id: ChannelId) -> (removed: Option<Subscriber<T>>)
        requires
            old(self).wf(),
        ensures
            final(self).wf(),
            match removed {
                Some(subscriber) => {
                    &&& old(self)@.contains_key(id)
                    &&& subscriber.wf()
                    &&& subscriber.spec_id() == id
                    &&& subscriber.spec_backlog() == old(self).spec_backlog()
                    &&& subscriber.pending() == old(self)@[id]
                },
                None => !old(self)@.contains_key(id),
            },
            final(self)@ == old(self)@.remove(id),
            final(self).spec_next_id() == old(self).spec_next_id(),
            final(self).spec_backlog() == old(self).spec_backlog(),
    {
        let removed = self.channels.remove(&id);
        proof {
            if old(self).channels@.contains_key(id) {
                assert(old(self).channels@[id].id == id);
            }
            assert(self.wf()) by {
                assert forall|k: ChannelId| #[trigger] self.channels@.contains_key(k) implies {
                    &&& self.channels@[k].id == k
                    &&& k < self.counter
                    &&& self.channels@[k].backlog == self.backlog
                    &&& self.channels@[k].wf()
                } by {
                    assert(old(self).channels@.contains_key(k));
                }
            }
            assert(self@ =~= old(self)@.remove(id));
        }
        removed
    }

    /// The numbers of the subscribers registered, each once.
    pub fn ids(&self) -> (ids: Vec<ChannelId>)
        ensures
            ids@.no_duplicates(),
            ids@.to_set() == self@.dom(),
    {
        let mut ids: Vec<ChannelId> = Vec::new();
        let ghost all = spec_keys_iter(&self.channels).remaining();
        for id in iter: self.channels.keys()
            invariant
                iter.seq() == all,
                all == spec_keys_iter(&self.channels).remaining(),
                ids@ == all.take(iter.index() as int).unref(),
        {
            ids.push(*id);
        }
        proof {
            assert(all.take(all.len() as int) =~= all);
            assert(self@.dom() =~= self.channels@.dom());
        }
        ids
    }

    /// The subscriber of that number, if one is registered.
    pub fn subscriber(&self, id: ChannelId) -> (found: Option<&Subscriber<T>>)
        requires
            self.wf(),
        ensures
            match found {
                Some(subscriber) => {
                    &&& self@.contains_key(id)
                    &&& subscriber.wf()
                    &&& subscriber.spec_id() == id
                    &&& subscriber.spec_backlog() == self.spec_backlog()
                    &&& subscriber.pending() == self@[id]
                },
                None => !self@.contains_key(id),
            },
    {
        let found = self.channels.get(&id);
        proof {
            if self.channels@.contains_key(id) {
                assert(self.channels@[id].id == id);
            }
        }
        found
    }

    /// Whether something waits for the subscriber of that number.
    pub fn has_pending(&self, id: ChannelId) -> (waiting: bool)
        ensures
            waiting == (self@.contains_key(id) && self@[id].len() > 0),
    {
        match self.channels.get(&id) {
            Some(subscriber) => !subscriber.is_empty(),
            None => false,
        }
    }

    /// The subscriber of that number, if one is registered, to be changed
    /// where it stands.
    fn channel_mut(&mut self, id: ChannelId) -> (found: Option<&mut Subscriber<T>>)
        ensures
            final(self).counter == old(self).counter,
            final(self).backlog == old(self).backlog,
            match found {
                Some(subscriber) => {
                    &&& old(self).channels@.contains_key(id)
                    &&& *subscriber == old(self).channels@[id]
                    &&& final(self).channels@ == old(self).channels@.insert(id, *final(subscriber))
                },
                None => !old(self).channels@.contains_key(id) && final(self).channels@ == old(self).channels@,
            },
    {
        match self.channels.entry(id) {
            Entry::Occupied(entry) => Some(entry.into_mut()),
            Entry::Vacant(_) => {
                assert(old(self).channels@.remove(id) =~= old(self).channels@);
                None
            },
        }
    }

    /// A bus that differs from a well-formed one in the buffer of one
    /// subscriber alone is well formed, and differs for that subscriber
    /// alone.
    proof fn lemma_updated_at(&self, before: Self, id: ChannelId, subscriber: Subscriber<T>)
        requires
            before.wf(),
            before.channels@.contains_key(id),
            self.counter == before.counter,
            self.backlog == before.backlog,
            self.channels@ == before.channels@.insert(id, subscriber),
            subscriber.id == before.channels@[id].id,
            subscriber.backlog == before.channels@[id].backlog,
            subscriber.wf(),
        ensures
            self.wf(),
            self@ == before@.insert(id, subscriber.buf@),
    {
        assert(before.channels@[id].id == id);
        assert forall|k: ChannelId| #[trigger] self.channels@.contains_key(k) implies {
            &&& self.channels@[k].id == k
            &&& k < self.counter
            &&& self.channels@[k].backlog == self.backlog
            &&& self.channels@[k].wf()
        } by {
            assert(before.channels@.contains_key(k));
        }
        assert(self@ =~= before@.insert(id, subscriber.buf@));
    }

    /// Drains the subscriber of that number: everything that waited for it,
    /// oldest first. `None` where no such subscriber is registered.
    pub fn pop(&mut self, id: ChannelId) -> (batch: Option<VecDeque<T>>)
        requires
            old(self).wf(),
        ensures
            final(self).wf(),
            final(self).spec_next_id() == old(self).spec_next_id(),
            final(self).spec_backlog() == old(self).spec_backlog(),
            match batch {
                Some(batch) => old(self)@.contains_key(id) && batch@ == old(self)@[id] && final(self)@
                    == old(self)@.insert(id, Seq::<T>::empty()),
                None => !old(self)@.contains_key(id) && final(self)@ == old(self)@,
            },
    {
        let batch = match self.channel_mut(id) {
            Some(subscriber) => Some(subscriber.pop()),
            None => None,
        };
        proof {
            if old(self).channels@.contains_key(id) {
                self.lemma_updated_at(*old(self), id, self.channels@[id]);
            } else {
                assert(self@ =~= old(self)@);
            }
        }
        batch
    }
}

impl<T: Clone> PubSub<T> {
    /// Hands a copy of `value` to every subscriber registered. Nobody
    /// joins or leaves, and nothing fails.
    pub fn publish(&mut self, value: &T)
        requires
            old(self).wf(),
        ensures
            final(self).wf(),
            final(self).spec_next_id() == old(self).spec_next_id(),
            final(self).spec_backlog() == old(self).spec_backlog(),
            final(self)@.dom() == old(self)@.dom(),
            forall|id: ChannelId| #[trigger]
                old(self)@.contains_key(id) ==> spec_delivered(
                    old(self)@[id],
                    final(self)@[id],
                    *value,
                    old(self).spec_backlog() as nat,
                ),
    {
        let ids = self.ids();
        let n = ids.len();
        let mut i: usize = 0;
        while i < n
            invariant
                old(self).wf(),
                self.wf(),
                i <= n,
                n == ids@.len(),
                ids@.no_duplicates(),
                ids@.to_set() == old(self).channels@.dom(),
                self.counter == old(self).counter,
                self.backlog == old(self).backlog,
                self.channels@.dom() == old(self).channels@.dom(),
                forall|j: int| i <= j < n ==> self.channels@[#[trigger] ids@[j]] == old(self).channels@[ids@[j]],
                forall|j: int|
                    0 <= j < i ==> spec_delivered(
                        old(self).channels@[#[trigger] ids@[j]].buf@,
                        self.channels@[ids@[j]].buf@,
                        *value,
                        self.backlog as nat,
                    ),
            decreases n - i,
        {
            let id = ids[i];
            let ghost before = *self;
            proof {
                assert(ids@.to_set().contains(ids@[i as int]));
                assert(before.channels@.contains_key(id));
            }
            match self.channel_mut(id) {
                Some(subscriber) => {
                    let copy = value.clone();
                    assert(cloned(*value, copy));
                    subscriber.push(copy);
                },
                None => {},
            }
            proof {
                let now = self.channels@[id];
                self.lemma_updated_at(before, id, now);
                assert(self.channels@.dom() =~= before.channels@.dom());
                assert(spec_delivered(
                    old(self).channels@[id].buf@,
                    now.buf@,
                    *value,
                    self.backlog as nat,
                ));
                assert forall|j: int| i + 1 <= j < n implies self.channels@[#[trigger] ids@[j]] == old(self).channels@[ids@[j]] by {
                    assert(ids@[j] != ids@[i as int]);
                }
                assert forall|j: int| 0 <= j < i + 1 implies spec_delivered(
                    old(self).channels@[#[trigger] ids@[j]].buf@,
                    self.channels@[ids@[j]].buf@,
                    *value,
                    self.backlog as nat,
                ) by {
                    if j < i {
                        assert(ids@[j] != ids@[i as int]);
                    }
                }
            }
            i += 1;
        }
        proof {
            assert(self@.dom() =~= old(self)@.dom());
            assert forall|id: ChannelId| #[trigger] old(self)@.contains_key(id) implies spec_delivered(
                old(self)@[id],
                self@[id],
                *value,
                old(self).spec_backlog() as nat,
            ) by {
                assert(ids@.to_set().contains(id));
                let j = choose|j: int| 0 <= j < ids@.len() && ids@[j] == id;
                assert(spec_delivered(
                    old(self).channels@[ids@[j]].buf@,
                    self.channels@[ids@[j]].buf@,
                    *value,
                    self.backlog as nat,
                ));
            }
        }
    }
}

/// A push never leaves more in the buffer than the backlog. With a backlog
/// of at least one the value pushed is the newest there; with a backlog of
/// zero the buffer stays as it was.
pub proof fn lemma_push_bounded<T>(pending: Seq<T>, value: T, backlog: nat)
    requires
        pending.len() <= backlog,
    ensures
        spec_push(pending, value, backlog).len() <= backlog,
        backlog >= 1 ==> spec_push(pending, value, backlog).len() > 0 && spec_push(
            pending,
            value,
            backlog,
        ).last() == value,
        backlog == 0 ==> spec_push(pending, value, backlog) == pending,
{
}

/// A push to a full buffer evicts exactly the oldest value: the others keep
/// their order, each one place nearer the front.
pub proof fn lemma_push_evicts_oldest<T>(pending: Seq<T>, value: T, backlog: nat)
    requires
        backlog >= 1,
        pending.len() == backlog,
    ensures
        spec_push(pending, value, backlog) == pending.subrange(1, pending.len() as int).push(value),
        spec_push(pending, value, backlog).len() == backlog,
{
    assert(pending.drop_first() =~= pending.subrange(1, pending.len() as int));
}

/// A subscriber that never drains buffers the latest values published, at
/// most as many as its backlog: after any sequence of publishes to an empty
/// buffer it holds the last `backlog` of them, or all where they are
/// fewer, in the order published.
pub proof fn lemma_backlog_keeps_latest<T>(values: Seq<T>, backlog: nat)
    ensures
        spec_push_all(Seq::<T>::empty(), values, backlog).len() <= backlog,
        spec_push_all(Seq::<T>::empty(), values, backlog).len() == if values.len() <= backlog {
            values.len()
        } else {
            backlog
        },
        spec_push_all(Seq::<T>::empty(), values, backlog) == if values.len() <= backlog {
            values
        } else {
            values.subrange(values.len() - backlog, values.len() as int)
        },
    decreases values.len(),
{
    let empty = Seq::<T>::empty();
    if values.len() == 0 {
        assert(spec_push_all(empty, values, backlog) =~= values);
    } else {
        let head = values.drop_last();
        lemma_backlog_keeps_latest(head, backlog);
        let kept = spec_push_all(empty, head, backlog);
        let after = spec_push(kept, values.last(), backlog);
        if values.len() <= backlog {
            assert(after =~= values);
        } else {
            assert(after =~= values.subrange(values.len() - backlog, values.len() as int));
        }
    }
}

/// A subscriber that joins and leaves at once leaves no trace but the
/// number it used up: the subscribers are who they were, with what waited
/// for them.
pub proof fn lemma_subscribe_then_leave<T>(before: Map<ChannelId, Seq<T>>, id: ChannelId)
    requires
        !before.contains_key(id),
    ensures
        !before.insert(id, Seq::<T>::empty()).remove(id).contains_key(id),
        before.insert(id, Seq::<T>::empty()).remove(id) == before,
{
    assert(before.insert(id, Seq::<T>::empty()).remove(id) =~= before);
}

} // verus!
