use super::auth::{AuthKeyExtractor, AuthParams};
use super::status::StatusCode;
use crate::models::event::{Event, EventName};
use crate::models::session::SessionId;
use crate::models::timestamp::Timestamp;
use crate::repositories::auth::spec_check_auth_key;
use crate::repositories::session::{spec_key_of, SessionRepository};
use crate::services::websocket::{WebSocketError, WebSocketService};
use std::collections::VecDeque;
use vstd::prelude::*;

verus! {

/// What goes to an observer of one batch, and whether its connection
/// closes after that.
#[derive(Debug)]
pub struct Delivery {
    /// The events to send, in this order.
    pub messages: Vec<Event>,
    /// Close the connection once the messages are sent.
    pub close: bool,
}

/// A list in order of time with one more event in it: the event stands
/// behind every one that is no later than it.
pub open spec fn spec_insert(sorted: Seq<Event>, event: Event) -> Seq<Event>
    decreases sorted.len(),
{
    if sorted.len() == 0 {
        seq![event]
    } else if sorted.last().timestamp.spec_not_after(&event.timestamp) {
        sorted.push(event)
    } else {
        spec_insert(sorted.drop_last(), event).push(sorted.last())
    }
}

/// The events in order of time; events of one time keep the order they
/// came in.
pub open spec fn spec_sort(events: Seq<Event>) -> Seq<Event>
    decreases events.len(),
{
    if events.len() == 0 {
        Seq::<Event>::empty()
    } else {
        spec_insert(spec_sort(events.drop_last()), events.last())
    }
}

/// No event of the list is later than one behind it.
pub open spec fn spec_ordered(events: Seq<Event>) -> bool {
    forall|i: int, j: int|
        0 <= i < j < events.len() ==> (#[trigger] events[i]).timestamp.spec_not_after(
            &(#[trigger] events[j]).timestamp,
        )
}

/// How many events of a list are sent: all up to the first
/// `SessionDeleted`, that one included, and all where there is none.
pub open spec fn spec_send_count(events: Seq<Event>) -> nat
    decreases events.len(),
{
    if events.len() == 0 {
        0
    } else if events[0].name == EventName::SessionDeleted {
        1
    } else {
        1 + spec_send_count(events.drop_first())
    }
}

/// Some event of the list is `SessionDeleted`.
pub open spec fn spec_has_session_deleted(events: Seq<Event>) -> bool {
    exists|i: int| 0 <= i < events.len() && (#[trigger] events[i]).name == EventName::SessionDeleted
}

/// The events of a batch that are sent: the batch in order of time, up to
/// its first `SessionDeleted`.
pub open spec fn spec_messages(batch: Seq<Event>) -> Seq<Event> {
    spec_sort(batch).take(spec_send_count(spec_sort(batch)) as int)
}

/// Where `event` goes into a list in order of time, counted from the
/// front: `p` is that place if every event from `p` on is later than
/// `event` and the one before `p`, if there is one, is not.
proof fn lemma_insert_at(sorted: Seq<Event>, event: Event, p: int)
    requires
        0 <= p <= sorted.len(),
        forall|k: int| p <= k < sorted.len() ==> !(#[trigger] sorted[k]).timestamp.spec_not_after(&event.timestamp),
        p > 0 ==> sorted[p - 1].timestamp.spec_not_after(&event.timestamp),
    ensures
        spec_insert(sorted, event) == sorted.insert(p, event),
    decreases sorted.len() - p,
{
    if sorted.len() == 0 {
        assert(sorted.insert(p, event) =~= seq![event]);
    } else if p == sorted.len() {
        assert(sorted.insert(p, event) =~= sorted.push(event));
    } else {
        let head = sorted.drop_last();
        assert(!sorted[sorted.len() - 1].timestamp.spec_not_after(&event.timestamp));
        assert forall|k: int| p <= k < head.len() implies !(#[trigger] head[k]).timestamp.spec_not_after(
            &event.timestamp,
        ) by {
            assert(head[k] == sorted[k]);
        }
        if p > 0 {
            assert(head[p - 1] == sorted[p - 1]);
        }
        lemma_insert_at(head, event, p);
        assert(head.insert(p, event).push(sorted.last()) =~= sorted.insert(p, event));
    }
}

/// Inserting into a list in order of time keeps the order, and adds the
/// event and nothing else.
pub proof fn lemma_insert_ordered(sorted: Seq<Event>, event: Event)
    requires
        spec_ordered(sorted),
    ensures
        spec_ordered(spec_insert(sorted, event)),
        spec_insert(sorted, event).len() == sorted.len() + 1,
        spec_insert(sorted, event).to_multiset() == sorted.to_multiset().insert(event),
    decreases sorted.len(),
{
    broadcast use vstd::seq_lib::group_to_multiset_ensures;

    let result = spec_insert(sorted, event);
    if sorted.len() == 0 {
        assert(sorted =~= Seq::<Event>::empty());
        assert(result =~= Seq::<Event>::empty().push(event));
    } else if sorted.last().timestamp.spec_not_after(&event.timestamp) {
        assert forall|i: int, j: int| 0 <= i < j < result.len() implies (
        #[trigger] result[i]).timestamp.spec_not_after(&(#[trigger] result[j]).timestamp) by {
            if j == sorted.len() {
                if i < sorted.len() - 1 {
                    assert(sorted[i].timestamp.spec_not_after(&sorted[sorted.len() - 1].timestamp));
                }
                Timestamp::lemma_total_order(result[i].timestamp, sorted.last().timestamp, event.timestamp);
            } else {
                assert(sorted[i].timestamp.spec_not_after(&sorted[j].timestamp));
            }
        }
    } else {
        let head = sorted.drop_last();
        let last = sorted.last();
        assert forall|i: int, j: int| 0 <= i < j < head.len() implies (
        #[trigger] head[i]).timestamp.spec_not_after(&(#[trigger] head[j]).timestamp) by {
            assert(sorted[i].timestamp.spec_not_after(&sorted[j].timestamp));
        }
        lemma_insert_ordered(head, event);
        let inner = spec_insert(head, event);
        assert(result == inner.push(last));
        assert(sorted =~= head.push(last));
        assert(result.to_multiset() =~= sorted.to_multiset().insert(event));
        assert forall|i: int, j: int| 0 <= i < j < result.len() implies (
        #[trigger] result[i]).timestamp.spec_not_after(&(#[trigger] result[j]).timestamp) by {
            if j == result.len() - 1 {
                // Every event of `inner` is one of `head` or is `event`.
                assert(inner.to_multiset().count(inner[i]) > 0);
                if inner[i] == event {
                    Timestamp::lemma_total_order(event.timestamp, last.timestamp, last.timestamp);
                } else {
                    assert(head.to_multiset().count(inner[i]) > 0);
                    let k = choose|k: int| 0 <= k < head.len() && head[k] == inner[i];
                    assert(sorted[k].timestamp.spec_not_after(&sorted[sorted.len() - 1].timestamp));
                }
            } else {
                assert(inner[i].timestamp.spec_not_after(&inner[j].timestamp));
            }
        }
    }
}

/// Sorting puts the events in order of time, and loses and adds none.
pub proof fn lemma_sort_ordered(events: Seq<Event>)
    ensures
        spec_ordered(spec_sort(events)),
        spec_sort(events).len() == events.len(),
        spec_sort(events).to_multiset() == events.to_multiset(),
    decreases events.len(),
{
    broadcast use vstd::seq_lib::group_to_multiset_ensures;

    if events.len() == 0 {
        assert(events =~= Seq::<Event>::empty());
    } else {
        lemma_sort_ordered(events.drop_last());
        lemma_insert_ordered(spec_sort(events.drop_last()), events.last());
        assert(events =~= events.drop_last().push(events.last()));
    }
}

/// Those of the events that were made at time `at`.
pub open spec fn spec_made_at(events: Seq<Event>, at: Timestamp) -> Seq<Event> {
    events.filter(|e: Event| e.timestamp == at)
}

proof fn lemma_insert_stable(sorted: Seq<Event>, event: Event, at: Timestamp)
    ensures
        spec_made_at(spec_insert(sorted, event), at) == if event.timestamp == at {
            spec_made_at(sorted, at).push(event)
        } else {
            spec_made_at(sorted, at)
        },
    decreases sorted.len(),
{
    reveal(Seq::filter);
    let pred = |e: Event| e.timestamp == at;
    if sorted.len() == 0 {
        assert(seq![event].drop_last() =~= Seq::<Event>::empty());
        assert(sorted =~= Seq::<Event>::empty());
    } else if sorted.last().timestamp.spec_not_after(&event.timestamp) {
        assert(sorted.push(event).drop_last() =~= sorted);
    } else {
        lemma_insert_stable(sorted.drop_last(), event, at);
        let inner = spec_insert(sorted.drop_last(), event);
        assert(inner.push(sorted.last()).drop_last() =~= inner);
    }
}

/// Sorting is stable: the events of any one time stand in the order they
/// came in.
pub proof fn lemma_sort_stable(events: Seq<Event>, at: Timestamp)
    ensures
        spec_made_at(spec_sort(events), at) == spec_made_at(events, at),
    decreases events.len(),
{
    reveal(Seq::filter);
    if events.len() > 0 {
        lemma_sort_stable(events.drop_last(), at);
        lemma_insert_stable(spec_sort(events.drop_last()), events.last(), at);
    }
}

/// As long as no `SessionDeleted` has come, every event is sent.
proof fn lemma_send_count_skip(events: Seq<Event>, i: int)
    requires
        0 <= i <= events.len(),
        forall|k: int| 0 <= k < i ==> (#[trigger] events[k]).name != EventName::SessionDeleted,
    ensures
        spec_send_count(events) == i + spec_send_count(events.skip(i)),
    decreases i,
{
    if i == 0 {
        assert(events.skip(0) =~= events);
    } else {
        let tail = events.drop_first();
        assert forall|k: int| 0 <= k < i - 1 implies (#[trigger] tail[k]).name
            != EventName::SessionDeleted by {
            assert(tail[k] == events[k + 1]);
        }
        lemma_send_count_skip(tail, i - 1);
        assert(tail.skip(i - 1) =~= events.skip(i));
        assert(events[0].name != EventName::SessionDeleted);
    }
}

/// What is sent of a batch ends with the batch's first `SessionDeleted`,
/// if it has one, and holds no other; nothing of the batch is sent after
/// that event.
pub proof fn lemma_session_deleted_is_last(events: Seq<Event>)
    ensures
        spec_send_count(events) <= events.len(),
        forall|k: int|
            0 <= k < spec_send_count(events) - 1 ==> (#[trigger] events[k]).name != EventName::SessionDeleted,
        spec_has_session_deleted(events) <==> spec_send_count(events) > 0 && events[spec_send_count(events)
            - 1].name == EventName::SessionDeleted,
        !spec_has_session_deleted(events) ==> spec_send_count(events) == events.len(),
    decreases events.len(),
{
    if events.len() == 0 {
    } else if events[0].name == EventName::SessionDeleted {
        assert(spec_has_session_deleted(events));
    } else {
        let tail = events.drop_first();
        lemma_session_deleted_is_last(tail);
        let n = spec_send_count(events);
        assert forall|k: int| 0 <= k < n - 1 implies (#[trigger] events[k]).name
            != EventName::SessionDeleted by {
            if k > 0 {
                assert(tail[k - 1] == events[k]);
            }
        }
        if spec_has_session_deleted(events) {
            let i = choose|i: int| 0 <= i < events.len() && (#[trigger] events[i]).name
                == EventName::SessionDeleted;
            assert(tail[i - 1].name == EventName::SessionDeleted);
            assert(spec_has_session_deleted(tail));
        }
        if spec_has_session_deleted(tail) {
            let i = choose|i: int| 0 <= i < tail.len() && (#[trigger] tail[i]).name
                == EventName::SessionDeleted;
            assert(events[i + 1].name == EventName::SessionDeleted);
        }
        if n > 0 && events[n - 1].name == EventName::SessionDeleted {
            assert(tail[n - 2] == events[n - 1]);
        }
    }
}

/// The events in order of time; events of one time keep the order they
/// came in.
pub fn sort_by_timestamp(events: &VecDeque<Event>) -> (sorted: Vec<Event>)
    ensures
        sorted@ == spec_sort(events@),
{
    let mut sorted: Vec<Event> = Vec::new();
    let n = events.len();
    let mut i: usize = 0;
    while i < n
        invariant
            i <= n,
            n == events@.len(),
            sorted@ == spec_sort(events@.take(i as int)),
            sorted@.len() == i,
        decreases n - i,
    {
        let event = events[i];
        let mut p: usize = sorted.len();
        while p > 0 && !sorted[p - 1].timestamp.not_after(&event.timestamp)
            invariant
                p <= sorted@.len(),
                forall|k: int|
                    p <= k < sorted@.len() ==> !(#[trigger] sorted@[k]).timestamp.spec_not_after(
                        &event.timestamp,
                    ),
            decreases p,
        {
            p -= 1;
        }
        proof {
            lemma_insert_at(sorted@, event, p as int);
            assert(events@.take(i + 1).drop_last() =~= events@.take(i as int));
            assert(events@.take(i + 1).last() == event);
        }
        sorted.insert(p, event);
        i += 1;
    }
    assert(events@.take(n as int) =~= events@);
    sorted
}

/// Plans what an observer gets of one batch: the events in order of time,
/// up to the first `SessionDeleted`; and the connection closes exactly
/// where that event is among them.
pub fn plan_delivery(batch: &VecDeque<Event>) -> (delivery: Delivery)
    ensures
        delivery.messages@ == spec_messages(batch@),
        delivery.close == spec_has_session_deleted(batch@),
{
    let sorted = sort_by_timestamp(batch);
    let mut messages: Vec<Event> = Vec::new();
    let mut close = false;
    let n = sorted.len();
    let mut i: usize = 0;
    while i < n && !close
        invariant
            i <= n,
            n == sorted@.len(),
            messages@ == sorted@.take(i as int),
            forall|k: int|
                0 <= k < i - (if close { 1int } else { 0int }) ==> (#[trigger] sorted@[k]).name
                    != EventName::SessionDeleted,
            close ==> i > 0 && sorted@[i - 1].name == EventName::SessionDeleted,
        decreases n - i,
    {
        let event = sorted[i];
        messages.push(event);
        assert(sorted@.take(i + 1) =~= sorted@.take(i as int).push(event));
        if event.name.is_session_deleted() {
            close = true;
        }
        i += 1;
    }
    proof {
        lemma_sort_ordered(batch@);
        broadcast use vstd::seq_lib::group_to_multiset_ensures;

        if close {
            lemma_send_count_skip(sorted@, i - 1);
            assert(sorted@.skip(i - 1)[0] == sorted@[i - 1]);
            assert(spec_send_count(sorted@) == i);
            assert(batch@.to_multiset().count(sorted@[i - 1]) > 0);
            let k = choose|k: int| 0 <= k < batch@.len() && batch@[k] == sorted@[i - 1];
            assert(batch@[k].name == EventName::SessionDeleted);
        } else {
            lemma_send_count_skip(sorted@, i as int);
            assert(sorted@.skip(i as int).len() == 0);
            if spec_has_session_deleted(batch@) {
                let k = choose|k: int| 0 <= k < batch@.len() && (#[trigger] batch@[k]).name
                    == EventName::SessionDeleted;
                assert(sorted@.to_multiset().count(batch@[k]) > 0);
                let j = choose|j: int| 0 <= j < sorted@.len() && sorted@[j] == batch@[k];
                assert(sorted@[j].name != EventName::SessionDeleted);
            }
        }
    }
    Delivery { messages, close }
}

/// Whether an observer may connect, by what the bus service said of its
/// key.
pub open spec fn spec_gate(verdict: Result<bool, WebSocketError>) -> Result<(), StatusCode> {
    match verdict {
        Ok(true) => Ok(()),
        Ok(false) => Err(StatusCode::Unauthorized),
        Err(_) => Err(StatusCode::InternalServerError),
    }
}

pub fn gate(verdict: Result<bool, WebSocketError>) -> (pass: Result<(), StatusCode>)
    ensures
        pass == spec_gate(verdict),
{
    match verdict {
        Ok(opens) => {
            if opens {
                Ok(())
            } else {
                Err(StatusCode::Unauthorized)
            }
        },
        Err(_) => Err(StatusCode::InternalServerError),
    }
}

/// Checks the key that an observer shows in its query against the
/// session's secret: the observer connects where the key opens the
/// session, is unauthorized where it does not, and meets an internal error
/// where the store could not tell; where the key cannot be decoded, the
/// request is a bad one.
pub fn check_auth_key<R: SessionRepository>(
    service: &WebSocketService,
    repository: &R,
    sid: &SessionId,
    params: &AuthParams,
) -> (pass: Result<(), StatusCode>)
    requires
        repository.wf(),
    ensures
        match params.spec_auth_key() {
            Err(status) => pass == Err::<(), StatusCode>(status),
            Ok(key) => spec_asked(service, repository, sid, key, pass) && match pass {
                Ok(_) => spec_check_auth_key(spec_key_of(repository.auth_keys(), *sid), key) == Some(true),
                Err(StatusCode::Unauthorized) => spec_check_auth_key(
                    spec_key_of(repository.auth_keys(), *sid),
                    key,
                ) == Some(false),
                Err(StatusCode::InternalServerError) => true,
                Err(_) => false,
            },
        },
{
    match params.extract_auth_key() {
        Ok(auth_key) => gate(service.auth(repository, sid, auth_key.as_slice())),
        Err(status) => Err(status),
    }
}

/// The bus service was asked whether `key` opens the session, and the
/// observer connects or is turned down by its verdict, as `spec_gate` has
/// it.
pub open spec fn spec_asked<R: SessionRepository>(
    service: &WebSocketService,
    repository: &R,
    sid: &SessionId,
    key: Seq<u8>,
    pass: Result<(), StatusCode>,
) -> bool {
    exists|auth_key: &[u8], verdict: Result<bool, WebSocketError>|
        {
            &&& auth_key@ == key
            &&& #[trigger] call_ensures(
                WebSocketService::auth::<R>,
                (service, repository, sid, auth_key),
                verdict,
            )
            &&& pass == spec_gate(verdict)
        }
}

} // verus!
