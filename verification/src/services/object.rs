use super::websocket::{spec_broadcast, WebSocketService};
use crate::models::event::{Event, EventName};
use crate::models::object::{Object, ObjectId, Upload};
use crate::models::session::spec_without;
use crate::models::timestamp::Timestamp;
use crate::repositories::auth::spec_check_auth_key;
use crate::repositories::error::RepositoryError;
use crate::repositories::object::{spec_find, spec_has, spec_put, ObjectRepository};
use crate::utils::sync::ChannelId;
use vstd::prelude::*;
use vstd::string::*;

verus! {

/// Why the object service could not do what it was asked.
#[derive(Debug)]
pub enum ObjectError {
    /// There is no such object.
    NotFound,
    /// The store failed.
    Other(RepositoryError),
}

impl ObjectError {
    pub open spec fn spec_message(&self) -> Seq<char> {
        match self {
            ObjectError::NotFound => "Object not found"@,
            ObjectError::Other(e) => e.spec_message(),
        }
    }

    pub fn to_string(&self) -> (text: String)
        ensures
            text@ == self.spec_message(),
    {
        match self {
            ObjectError::NotFound => String::from_str("Object not found"),
            ObjectError::Other(e) => e.to_string(),
        }
    }
}

/// How a store's failure shows at the object service: absence as
/// `NotFound`, anything else as it is.
pub open spec fn spec_normalize_error(err: RepositoryError) -> ObjectError {
    match err {
        RepositoryError::NotFound => ObjectError::NotFound,
        RepositoryError::Other(message) => ObjectError::Other(RepositoryError::Other(message)),
    }
}

pub fn normalize_error(err: RepositoryError) -> (error: ObjectError)
    ensures
        error == spec_normalize_error(err),
{
    match err {
        RepositoryError::NotFound => ObjectError::NotFound,
        RepositoryError::Other(message) => ObjectError::Other(RepositoryError::Other(message)),
    }
}

pub fn normalize_result<T>(res: Result<T, RepositoryError>) -> (result: Result<T, ObjectError>)
    ensures
        result == spec_normalize_result(res),
{
    match res {
        Ok(value) => Ok(value),
        Err(e) => Err(normalize_error(e)),
    }
}

/// The event that tells a session's observers of a new object.
pub open spec fn spec_object_created(oid: ObjectId, timestamp: Timestamp) -> Event {
    Event { name: EventName::ObjectCreated, data: Some(oid), timestamp }
}

/// The event that tells a session's observers that an object is gone.
pub open spec fn spec_object_deleted(oid: ObjectId, timestamp: Timestamp) -> Event {
    Event { name: EventName::ObjectDeleted, data: Some(oid), timestamp }
}

/// The lifecycle of one session's objects. What changes the objects is
/// published on the session's bus, once it has succeeded.
pub struct ObjectService<O> {
    repository: O,
}

impl<O: ObjectRepository> ObjectService<O> {
    pub closed spec fn spec_repository(&self) -> O {
        self.repository
    }

    pub open spec fn wf(&self) -> bool {
        self.spec_repository().wf()
    }

    pub fn new(repository: O) -> (service: Self)
        ensures
            service.spec_repository() == repository,
    {
        ObjectService { repository }
    }

    pub fn repository(&self) -> (repository: &O)
        ensures
            *repository == self.spec_repository(),
    {
        &self.repository
    }

    /// The session's objects, the most recently added first.
    pub fn list(&self) -> (objects: Result<Vec<Object>, ObjectError>)
        requires
            self.wf(),
        ensures
            objects matches Ok(objects) ==> objects@ == self.spec_repository().objects(),
            // The store was asked for its list, and its answer is handed
            // on, a failure as the service shows it.
            exists|answer: Result<Vec<Object>, RepositoryError>|
                {
                    &&& #[trigger] call_ensures(O::list, (&self.spec_repository(),), answer)
                    &&& objects == spec_normalize_result(answer)
                },
    {
        normalize_result(self.repository.list())
    }

    pub fn get(&self, oid: &ObjectId) -> (object: Result<Object, ObjectError>)
        requires
            self.wf(),
        ensures
            object matches Ok(object) ==> spec_find(self.spec_repository().objects(), *oid) == Some(object),
            !spec_has(self.spec_repository().objects(), *oid) ==> object is Err,
            // The store was asked for that object, and its answer is
            // handed on, a failure as the service shows it.
            exists|answer: Result<Object, RepositoryError>|
                {
                    &&& #[trigger] call_ensures(O::get, (&self.spec_repository(), oid), answer)
                    &&& object == spec_normalize_result(answer)
                },
    {
        normalize_result(self.repository.get(oid))
    }

    /// The payload of an object. Fails where the object is not there, and
    /// where it has no payload.
    pub fn download(&self, oid: &ObjectId) -> (payload: Result<Vec<u8>, ObjectError>)
        requires
            self.wf(),
        ensures
            payload matches Ok(payload) ==> spec_has(self.spec_repository().objects(), *oid)
                && self.spec_repository().payloads().contains_key(*oid) && payload@
                == self.spec_repository().payloads()[*oid],
            !spec_has(self.spec_repository().objects(), *oid)
                || !self.spec_repository().payloads().contains_key(*oid) ==> payload is Err,
            // The store was asked for that payload, and its answer is
            // handed on, a failure as the service shows it.
            exists|answer: Result<Vec<u8>, RepositoryError>|
                {
                    &&& #[trigger] call_ensures(O::download, (&self.spec_repository(), oid), answer)
                    &&& payload == spec_normalize_result(answer)
                },
    {
        normalize_result(self.repository.download(oid))
    }

    /// Whether the key opens the session, as the store says.
    pub fn auth(&self, auth_key: &[u8]) -> (verdict: Result<bool, ObjectError>)
        requires
            self.wf(),
        ensures
            match verdict {
                Ok(opens) => spec_check_auth_key(self.spec_repository().auth_key(), auth_key@) == Some(opens),
                Err(e) => e is Other,
            },
            // The store was asked about that key, and its answer is handed
            // on, a failure as the store's.
            exists|answer: Result<bool, RepositoryError>|
                {
                    &&& #[trigger] call_ensures(O::auth, (&self.spec_repository(), auth_key), answer)
                    &&& verdict == spec_finish_auth(answer)
                },
    {
        finish_auth(self.repository.auth(auth_key))
    }

    /// Makes an object without payload of the upload and, once the store
    /// has it, publishes `ObjectCreated` with its identifier. Where the
    /// store fails, nothing is published.
    pub fn put(&mut self, websocket: &mut WebSocketService, upload: Upload) -> (object: Result<
        Object,
        ObjectError,
    >)
        requires
            old(self).wf(),
            old(websocket).wf(),
        ensures
            final(self).wf(),
            final(websocket).wf(),
            final(websocket).spec_next_id() == old(websocket).spec_next_id(),
            final(websocket).spec_backlog() == old(websocket).spec_backlog(),
            match object {
                Ok(object) => {
                    &&& object == upload.spec_object(object.id, object.timestamp)
                    &&& !spec_has(old(self).spec_repository().objects(), object.id)
                    &&& final(self).spec_repository().objects() == spec_put(
                        old(self).spec_repository().objects(),
                        object,
                    )
                    &&& final(self).spec_repository().payloads() == old(self).spec_repository().payloads()
                    &&& final(self).spec_repository().auth_key() == old(self).spec_repository().auth_key()
                    &&& exists|timestamp: Timestamp|
                        final(websocket)@ == spec_broadcast(
                            old(websocket)@,
                            #[trigger] spec_object_created(object.id, timestamp),
                            old(websocket).spec_backlog() as nat,
                        )
                },
                Err(_) => final(websocket)@ == old(websocket)@,
            },
            // The store was asked once, with the upload as it came; what
            // is returned and what is published go by its answer.
            exists|store: &mut O, answer: Result<Object, RepositoryError>|
                {
                    &&& *store == old(self).spec_repository()
                    &&& *final(store) == final(self).spec_repository()
                    &&& #[trigger] call_ensures(O::put, (store, upload), answer)
                    &&& spec_put_finished(
                        old(websocket)@,
                        final(websocket)@,
                        old(websocket).spec_backlog() as nat,
                        answer,
                        object,
                    )
                },
    {
        finish_put(websocket, self.repository.put(upload))
    }

    /// Makes an object of the upload with those bytes as its payload and,
    /// once the store has both, publishes `ObjectCreated` with its
    /// identifier. Where the store fails, nothing is published.
    pub fn upload(&mut self, websocket: &mut WebSocketService, upload: Upload, payload: Vec<u8>) -> (object:
        Result<Object, ObjectError>)
        requires
            old(self).wf(),
            old(websocket).wf(),
        ensures
            final(self).wf(),
            final(websocket).wf(),
            final(websocket).spec_next_id() == old(websocket).spec_next_id(),
            final(websocket).spec_backlog() == old(websocket).spec_backlog(),
            match object {
                Ok(object) => {
                    &&& object == upload.spec_object(object.id, object.timestamp)
                    &&& !spec_has(old(self).spec_repository().objects(), object.id)
                    &&& final(self).spec_repository().objects() == spec_put(
                        old(self).spec_repository().objects(),
                        object,
                    )
                    &&& !old(self).spec_repository().payloads().contains_key(object.id)
                    &&& final(self).spec_repository().payloads() == old(self).spec_repository().payloads().insert(object.id, payload@)
                    &&& final(self).spec_repository().auth_key() == old(self).spec_repository().auth_key()
                    &&& exists|timestamp: Timestamp|
                        final(websocket)@ == spec_broadcast(
                            old(websocket)@,
                            #[trigger] spec_object_created(object.id, timestamp),
                            old(websocket).spec_backlog() as nat,
                        )
                },
                Err(_) => final(websocket)@ == old(websocket)@,
            },
            // The store was asked once, with the upload and the payload as
            // they came; what is returned and what is published go by its
            // answer.
            exists|store: &mut O, answer: Result<Object, RepositoryError>|
                {
                    &&& *store == old(self).spec_repository()
                    &&& *final(store) == final(self).spec_repository()
                    &&& #[trigger] call_ensures(O::upload, (store, upload, payload), answer)
                    &&& spec_put_finished(
                        old(websocket)@,
                        final(websocket)@,
                        old(websocket).spec_backlog() as nat,
                        answer,
                        object,
                    )
                },
    {
        finish_put(websocket, self.repository.upload(upload, payload))
    }

    /// Removes an object and its payload and, once the store has done so,
    /// publishes `ObjectDeleted` with its identifier. Where the store
    /// fails, nothing is published.
    pub fn delete(&mut self, websocket: &mut WebSocketService, oid: &ObjectId) -> (done: Result<
        (),
        ObjectError,
    >)
        requires
            old(self).wf(),
            old(websocket).wf(),
        ensures
            final(self).wf(),
            final(websocket).wf(),
            final(websocket).spec_next_id() == old(websocket).spec_next_id(),
            final(websocket).spec_backlog() == old(websocket).spec_backlog(),
            match done {
                Ok(_) => {
                    &&& spec_has(old(self).spec_repository().objects(), *oid)
                    &&& final(self).spec_repository().objects() == spec_without(
                        old(self).spec_repository().objects(),
                        *oid,
                    )
                    &&& final(self).spec_repository().payloads() == old(self).spec_repository().payloads().remove(*oid)
                    &&& final(self).spec_repository().auth_key() == old(self).spec_repository().auth_key()
                    &&& exists|timestamp: Timestamp|
                        final(websocket)@ == spec_broadcast(
                            old(websocket)@,
                            #[trigger] spec_object_deleted(*oid, timestamp),
                            old(websocket).spec_backlog() as nat,
                        )
                },
                Err(_) => final(websocket)@ == old(websocket)@,
            },
            !spec_has(old(self).spec_repository().objects(), *oid) ==> done is Err,
            // The store was asked once to remove that object; what is
            // returned and what is published go by its answer.
            exists|store: &mut O, answer: Result<(), RepositoryError>|
                {
                    &&& *store == old(self).spec_repository()
                    &&& *final(store) == final(self).spec_repository()
                    &&& #[trigger] call_ensures(O::delete, (store, oid), answer)
                    &&& spec_delete_finished(
                        old(websocket)@,
                        final(websocket)@,
                        old(websocket).spec_backlog() as nat,
                        *oid,
                        answer,
                        done,
                    )
                },
    {
        finish_delete(websocket, oid, self.repository.delete(oid))
    }
}

/// Tells a session's observers of an object that its store has just taken
/// in: publishes `ObjectCreated` with the object's identifier, and hands
/// the object on.
pub fn publish_object_created(websocket: &mut WebSocketService, obj: Object) -> (object: Object)
    requires
        old(websocket).wf(),
    ensures
        object == obj,
        final(websocket).wf(),
        final(websocket).spec_next_id() == old(websocket).spec_next_id(),
        final(websocket).spec_backlog() == old(websocket).spec_backlog(),
        exists|timestamp: Timestamp|
            final(websocket)@ == spec_broadcast(
                old(websocket)@,
                #[trigger] spec_object_created(obj.id, timestamp),
                old(websocket).spec_backlog() as nat,
            ),
{
    let event = Event::new(EventName::ObjectCreated, Some(obj.id));
    assert(event == spec_object_created(obj.id, event.timestamp));
    websocket.publish(event);
    obj
}

/// What a put or an upload comes to, once the store has answered: where it
/// took the object in, `ObjectCreated` is published with the object's
/// identifier; where it failed, nothing is published and the failure is
/// handed on as the service shows it.
pub fn finish_put(websocket: &mut WebSocketService, stored: Result<Object, RepositoryError>) -> (object:
    Result<Object, ObjectError>)
    requires
        old(websocket).wf(),
    ensures
        final(websocket).wf(),
        final(websocket).spec_next_id() == old(websocket).spec_next_id(),
        final(websocket).spec_backlog() == old(websocket).spec_backlog(),
        spec_put_finished(
            old(websocket)@,
            final(websocket)@,
            old(websocket).spec_backlog() as nat,
            stored,
            object,
        ),
{
    match stored {
        Ok(obj) => Ok(publish_object_created(websocket, obj)),
        Err(e) => Err(normalize_error(e)),
    }
}

/// What a delete comes to, once the store has answered: where it removed
/// the object, `ObjectDeleted` is published with the object's identifier;
/// where it failed, nothing is published and the failure is handed on as
/// the service shows it.
pub fn finish_delete(websocket: &mut WebSocketService, oid: &ObjectId, removed: Result<
    (),
    RepositoryError,
>) -> (done: Result<(), ObjectError>)
    requires
        old(websocket).wf(),
    ensures
        final(websocket).wf(),
        final(websocket).spec_next_id() == old(websocket).spec_next_id(),
        final(websocket).spec_backlog() == old(websocket).spec_backlog(),
        spec_delete_finished(
            old(websocket)@,
            final(websocket)@,
            old(websocket).spec_backlog() as nat,
            *oid,
            removed,
            done,
        ),
{
    match removed {
        Ok(_) => {
            let event = Event::new(EventName::ObjectDeleted, Some(*oid));
            assert(event == spec_object_deleted(*oid, event.timestamp));
            websocket.publish(event);
            Ok(())
        },
        Err(e) => Err(normalize_error(e)),
    }
}

/// What the store's verdict on a key comes to at the service: the verdict
/// itself, or the store's failure, which is no absence here.
pub fn finish_auth(verdict: Result<bool, RepositoryError>) -> (result: Result<bool, ObjectError>)
    ensures
        result == spec_finish_auth(verdict),
{
    match verdict {
        Ok(opens) => Ok(opens),
        Err(e) => Err(ObjectError::Other(e)),
    }
}

/// How a store's answer shows at the object service: what it gave as it
/// is, and a failure as `spec_normalize_error` has it.
pub open spec fn spec_normalize_result<T>(res: Result<T, RepositoryError>) -> Result<T, ObjectError> {
    match res {
        Ok(value) => Ok(value),
        Err(e) => Err(spec_normalize_error(e)),
    }
}

/// What a put or an upload comes to by the store's answer. Where the store
/// took the object in, the object is returned and `ObjectCreated` with its
/// identifier has gone to every observer. Where the store failed, its
/// failure is returned as the service shows it, and nothing was published.
pub open spec fn spec_put_finished(
    before: Map<ChannelId, Seq<Event>>,
    after: Map<ChannelId, Seq<Event>>,
    backlog: nat,
    stored: Result<Object, RepositoryError>,
    object: Result<Object, ObjectError>,
) -> bool {
    match stored {
        Ok(obj) => {
            &&& object == Ok::<Object, ObjectError>(obj)
            &&& exists|timestamp: Timestamp|
                after == spec_broadcast(before, #[trigger] spec_object_created(obj.id, timestamp), backlog)
        },
        Err(e) => {
            &&& object == Err::<Object, ObjectError>(spec_normalize_error(e))
            &&& after == before
        },
    }
}

/// What a delete comes to by the store's answer. Where the store removed
/// the object, `ObjectDeleted` with its identifier has gone to every
/// observer. Where the store failed, its failure is returned as the service
/// shows it, and nothing was published.
pub open spec fn spec_delete_finished(
    before: Map<ChannelId, Seq<Event>>,
    after: Map<ChannelId, Seq<Event>>,
    backlog: nat,
    oid: ObjectId,
    removed: Result<(), RepositoryError>,
    done: Result<(), ObjectError>,
) -> bool {
    match removed {
        Ok(_) => {
            &&& done is Ok
            &&& exists|timestamp: Timestamp|
                after == spec_broadcast(before, #[trigger] spec_object_deleted(oid, timestamp), backlog)
        },
        Err(e) => {
            &&& done == Err::<(), ObjectError>(spec_normalize_error(e))
            &&& after == before
        },
    }
}

/// How the store's verdict on a key shows at the object service: the
/// verdict as it is, and the store's failure as `Other`.
pub open spec fn spec_finish_auth(verdict: Result<bool, RepositoryError>) -> Result<bool, ObjectError> {
    match verdict {
        Ok(opens) => Ok(opens),
        Err(e) => Err(ObjectError::Other(e)),
    }
}

} // verus!
