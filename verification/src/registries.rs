use crate::models::session::SessionId;
use crate::utils::idmap::{spec_offer, IdMap};
use vstd::prelude::*;

verus! {

/// The services of one kind that sessions have built so far: at most one
/// per session. A service is built on first use (`get_or_create`, or
/// `insert_if_absent` where it was built elsewhere) and dropped when its
/// session is deleted (`remove`).
pub type SessionRegistry<T> = IdMap<T>;

/// An empty registry for services of one kind.
pub fn register<T>() -> (registry: SessionRegistry<T>)
    ensures
        registry@ == Map::<SessionId, T>::empty(),
{
    IdMap::new()
}

/// The cache after each of `candidates` was offered for the session, in
/// order.
pub open spec fn spec_offer_all<T>(cache: Map<SessionId, T>, sid: SessionId, candidates: Seq<T>) -> Map<
    SessionId,
    T,
>
    decreases candidates.len(),
{
    if candidates.len() == 0 {
        cache
    } else {
        spec_offer(spec_offer_all(cache, sid, candidates.drop_last()), sid, candidates.last())
    }
}

/// However many services are built for one session and offered to the
/// registry, the session ends up with one: the one it had, or else the one
/// offered first. Every later offer is turned down, and no other session's
/// entry changes.
pub proof fn lemma_first_offer_wins<T>(cache: Map<SessionId, T>, sid: SessionId, candidates: Seq<T>)
    requires
        candidates.len() > 0,
    ensures
        spec_offer_all(cache, sid, candidates) == spec_offer(cache, sid, candidates[0]),
        spec_offer_all(cache, sid, candidates).contains_key(sid),
        spec_offer_all(cache, sid, candidates)[sid] == if cache.contains_key(sid) {
            cache[sid]
        } else {
            candidates[0]
        },
        spec_offer_all(cache, sid, candidates).remove(sid) == cache.remove(sid),
    decreases candidates.len(),
{
    if candidates.len() == 1 {
        assert(candidates.drop_last().len() == 0);
        assert(spec_offer_all(cache, sid, candidates.drop_last()) == cache);
    } else {
        lemma_first_offer_wins(cache, sid, candidates.drop_last());
        assert(candidates.drop_last()[0] == candidates[0]);
    }
    assert(spec_offer(cache, sid, candidates[0]).remove(sid) =~= cache.remove(sid));
}

/// A session that was evicted has no service; the next offer for it is
/// taken, whatever the session held before, and no other session's entry
/// changes.
pub proof fn lemma_offer_after_evict<T>(cache: Map<SessionId, T>, sid: SessionId, fresh: T)
    ensures
        !cache.remove(sid).contains_key(sid),
        spec_offer(cache.remove(sid), sid, fresh)[sid] == fresh,
        spec_offer(cache.remove(sid), sid, fresh) == cache.insert(sid, fresh),
{
    assert(spec_offer(cache.remove(sid), sid, fresh) =~= cache.insert(sid, fresh));
}

} // verus!
