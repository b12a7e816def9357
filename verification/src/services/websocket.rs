use crate::models::event::Event;
use crate::models::session::SessionId;
use crate::repositories::auth::spec_check_auth_key;
use crate::repositories::error::RepositoryError;
use crate::repositories::session::{spec_key_of, SessionRepository};
use crate::utils::sync::{spec_push, ChannelId, PubSub, Subscriber};
use std::collections::VecDeque;
use vstd::prelude::*;

verus! {

/// Why the bus service could not answer.
#[derive(Debug)]
pub enum WebSocketError {
    /// The store failed.
    Other(RepositoryError),
}

impl WebSocketError {
    pub open spec fn spec_message(&self) -> Seq<char> {
        match self {
            WebSocketError::Other(e) => e.spec_message(),
        }
    }

    pub fn to_string(&self) -> (text: String)
        ensures
            text@ == self.spec_message(),
    {
        match self {
            WebSocketError::Other(e) => e.to_string(),
        }
    }
}

/// What waits for each subscriber after `event` went to all of them.
pub open spec fn spec_broadcast(before: Map<ChannelId, Seq<Event>>, event: Event, backlog: nat) -> Map<
    ChannelId,
    Seq<Event>,
> {
    Map::new(
        |id: ChannelId| before.contains_key(id),
        |id: ChannelId| spec_push(before[id], event, backlog),
    )
}

/// The broadcast bus of one session: observers subscribe to it, and every
/// event of the session is published on it.
pub struct WebSocketService {
    pubsub: PubSub<Event>,
}

impl WebSocketService {
    pub closed spec fn wf(&self) -> bool {
        self.pubsub.wf()
    }

    /// The subscribers: for each number registered, the events that wait
    /// for it, oldest first.
    pub closed spec fn view(&self) -> Map<ChannelId, Seq<Event>> {
        self.pubsub@
    }

    pub closed spec fn spec_backlog(&self) -> usize {
        self.pubsub.spec_backlog()
    }

    pub closed spec fn spec_next_id(&self) -> ChannelId {
        self.pubsub.spec_next_id()
    }

    /// Every number in use is below the counter, and nobody has more
    /// waiting than the backlog.
    pub proof fn lemma_bounded(&self, id: ChannelId)
        requires
            self.wf(),
            self@.contains_key(id),
        ensures
            id < self.spec_next_id(),
            self@[id].len() <= self.spec_backlog(),
    {
        self.pubsub.lemma_bounded(id);
    }

    /// A bus without subscribers.
    pub fn new(backlog: usize) -> (service: Self)
        ensures
            service.wf(),
            service@ == Map::<ChannelId, Seq<Event>>::empty(),
            service.spec_next_id() == 0,
            service.spec_backlog() == backlog,
    {
        WebSocketService { pubsub: PubSub::new(backlog) }
    }

    #[verifier::when_used_as_spec(spec_backlog)]
    pub fn backlog(&self) -> (backlog: usize)
        ensures
            backlog == self.spec_backlog(),
    {
        self.pubsub.backlog()
    }

    #[verifier::when_used_as_spec(spec_next_id)]
    pub fn next_id(&self) -> (id: ChannelId)
        ensures
            id == self.spec_next_id(),
    {
        self.pubsub.next_id()
    }

    /// Registers an observer under the next number, with nothing waiting.
    pub fn subscribe(&mut self) -> (id: ChannelId)
        requires
            old(self).wf(),
            old(self).spec_next_id() < usize::MAX,
        ensures
            final(self).wf(),
            id == old(self).spec_next_id(),
            !old(self)@.contains_key(id),
            final(self)@ == old(self)@.insert(id, Seq::<Event>::empty()),
            final(self).spec_next_id() == id + 1,
            final(self).spec_backlog() == old(self).spec_backlog(),
    {
        self.pubsub.subscribe()
    }

    /// Takes the observer of that number off the bus and hands it back,
    /// with whatever still waited for it: nothing published later reaches
    /// it. `None` where no such observer is registered.
    pub fn unsubscribe(&mut self, id: ChannelId) -> (removed: Option<Subscriber<Event>>)
        requires
            old(self).wf(),
        ensures
            final(self).wf(),
            match removed {
                Some(subscriber) => {
                    &&& old(self)@.contains_key(id)
                    &&& subscriber.wf()
                    &&& subscriber.spec_id() == id
                    &&& subscriber.spec_backlog() == old(self).spec_backlog()
                    &&& subscriber.pending() == old(self)@[id]
                },
                None => !old(self)@.contains_key(id),
            },
            final(self)@ == old(self)@.remove(id),
            final(self).spec_next_id() == old(self).spec_next_id(),
            final(self).spec_backlog() == old(self).spec_backlog(),
    {
        self.pubsub.unsubscribe(id)
    }

    /// Hands the event to every observer registered.
    pub fn publish(&mut self, event: Event)
        requires
            old(self).wf(),
        ensures
            final(self).wf(),
            final(self)@ == spec_broadcast(old(self)@, event, old(self).spec_backlog() as nat),
            final(self).spec_next_id() == old(self).spec_next_id(),
            final(self).spec_backlog() == old(self).spec_backlog(),
    {
        self.pubsub.publish(&event);
        proof {
            let target = spec_broadcast(old(self)@, event, old(self).spec_backlog() as nat);
            assert(self@.dom() =~= target.dom());
            assert forall|id: ChannelId| #[trigger] self@.contains_key(id) implies self@[id] == target[id] by {
                assert(old(self).pubsub@.contains_key(id));
                let copy = choose|copy: Event| #[trigger]
                    cloned(event, copy) && self.pubsub@[id] == spec_push(
                        old(self).pubsub@[id],
                        copy,
                        old(self).spec_backlog() as nat,
                    );
                assert(copy == event);
            }
            assert(self@ =~= target);
        }
    }

    /// The numbers of the observers registered, each once.
    pub fn ids(&self) -> (ids: Vec<ChannelId>)
        ensures
            ids@.no_duplicates(),
            ids@.to_set() == self@.dom(),
    {
        self.pubsub.ids()
    }

    /// Whether something waits for the observer of that number.
    pub fn has_pending(&self, id: ChannelId) -> (waiting: bool)
        requires
            self.wf(),
        ensures
            waiting == (self@.contains_key(id) && self@[id].len() > 0),
    {
        self.pubsub.has_pending(id)
    }

    /// Drains the observer of that number: the events that waited for it,
    /// oldest first. `None` where no such observer is registered.
    pub fn pop(&mut self, id: ChannelId) -> (batch: Option<VecDeque<Event>>)
        requires
            old(self).wf(),
        ensures
            final(self).wf(),
            final(self).spec_next_id() == old(self).spec_next_id(),
            final(self).spec_backlog() == old(self).spec_backlog(),
            match batch {
                Some(batch) => old(self)@.contains_key(id) && batch@ == old(self)@[id] && final(self)@
                    == old(self)@.insert(id, Seq::<Event>::empty()),
                None => !old(self)@.contains_key(id) && final(self)@ == old(self)@,
            },
    {
        self.pubsub.pop(id)
    }

    /// Whether the key opens the session, as its store says.
    pub fn auth<R: SessionRepository>(&self, repository: &R, sid: &SessionId, auth_key: &[u8]) -> (verdict:
        Result<bool, WebSocketError>)
        requires
            repository.wf(),
        ensures
            verdict matches Ok(opens) ==> spec_check_auth_key(
                spec_key_of(repository.auth_keys(), *sid),
                auth_key@,
            ) == Some(opens),
            // The store was asked about that session and that key, and its
            // answer is handed on, a failure as the store's.
            exists|answer: Result<bool, RepositoryError>|
                {
                    &&& #[trigger] call_ensures(R::auth, (repository, sid, auth_key), answer)
                    &&& verdict == spec_store_verdict(answer)
                },
    {
        match repository.auth(sid, auth_key) {
            Ok(opens) => Ok(opens),
            Err(e) => Err(WebSocketError::Other(e)),
        }
    }
}

/// An event reaches exactly those who are subscribed when it is published:
/// nobody joins or leaves by it, each subscriber has it as the newest of
/// what waits, unless the backlog is zero and nothing may wait, and who
/// left before has nothing of it.
pub proof fn lemma_broadcast_reaches_subscribers(
    before: Map<ChannelId, Seq<Event>>,
    event: Event,
    backlog: nat,
    id: ChannelId,
)
    ensures
        spec_broadcast(before, event, backlog).dom() == before.dom(),
        before.contains_key(id) && backlog >= 1 ==> spec_broadcast(before, event, backlog)[id].len() > 0
            && spec_broadcast(before, event, backlog)[id].last() == event,
        spec_broadcast(before.remove(id), event, backlog) == spec_broadcast(before, event, backlog).remove(
            id,
        ),
{
    assert(spec_broadcast(before, event, backlog).dom() =~= before.dom());
    assert(spec_broadcast(before.remove(id), event, backlog) =~= spec_broadcast(
        before,
        event,
        backlog,
    ).remove(id));
}

/// How the store's verdict on a key shows at the bus service: the verdict
/// as it is, and the store's failure as `Other`.
pub open spec fn spec_store_verdict(answer: Result<bool, RepositoryError>) -> Result<bool, WebSocketError> {
    match answer {
        Ok(opens) => Ok(opens),
        Err(e) => Err(WebSocketError::Other(e)),
    }
}

} // verus!
