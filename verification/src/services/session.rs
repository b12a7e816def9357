use super::websocket::{spec_broadcast, WebSocketService};
use crate::models::event::{Event, EventName};
use crate::models::session::{CreateSession, SessionDto, SessionId};
use crate::models::timestamp::Timestamp;
use crate::registries::SessionRegistry;
use crate::repositories::auth::spec_check_auth_key;
use crate::repositories::error::RepositoryError;
use crate::repositories::session::{
    spec_key_of, spec_opened, spec_requested_key, spec_with_key, SessionRepository,
};
use crate::utils::sync::ChannelId;
use vstd::prelude::*;
use vstd::string::*;

verus! {

/// Why the session service could not do what it was asked.
#[derive(Debug)]
pub enum SessionError {
    /// There is no such session.
    NotFound,
    /// The key shown does not open the session.
    AuthFail,
    /// The store failed.
    Other(RepositoryError),
}

impl SessionError {
    pub open spec fn spec_message(&self) -> Seq<char> {
        match self {
            SessionError::NotFound => "Session not found"@,
            SessionError::AuthFail => "Authentication failed"@,
            SessionError::Other(e) => e.spec_message(),
        }
    }

    pub fn to_string(&self) -> (text: String)
        ensures
            text@ == self.spec_message(),
    {
        match self {
            SessionError::NotFound => String::from_str("Session not found"),
            SessionError::AuthFail => String::from_str("Authentication failed"),
            SessionError::Other(e) => e.to_string(),
        }
    }
}

/// How a store's failure shows at the session service: absence as
/// `NotFound`, anything else as it is.
pub open spec fn spec_normalize_error(err: RepositoryError) -> SessionError {
    match err {
        RepositoryError::NotFound => SessionError::NotFound,
        RepositoryError::Other(message) => SessionError::Other(RepositoryError::Other(message)),
    }
}

pub fn normalize_error(err: RepositoryError) -> (error: SessionError)
    ensures
        error == spec_normalize_error(err),
{
    match err {
        RepositoryError::NotFound => SessionError::NotFound,
        RepositoryError::Other(message) => SessionError::Other(RepositoryError::Other(message)),
    }
}

pub fn normalize_result<T>(res: Result<T, RepositoryError>) -> (result: Result<T, SessionError>)
    ensures
        result == spec_normalize_result(res),
{
    match res {
        Ok(value) => Ok(value),
        Err(e) => Err(normalize_error(e)),
    }
}

/// The event that tells a session's observers that the session is gone.
pub open spec fn spec_session_deleted(timestamp: Timestamp) -> Event {
    Event { name: EventName::SessionDeleted, data: None, timestamp }
}

/// What waits for the observers of a session's bus, as far as the registry
/// knows one: nobody is subscribed where it knows none.
pub open spec fn spec_observers(buses: Map<SessionId, WebSocketService>, sid: SessionId) -> Map<
    ChannelId,
    Seq<Event>,
> {
    if buses.contains_key(sid) {
        buses[sid]@
    } else {
        Map::empty()
    }
}

/// Every bus of the registry is well formed.
pub open spec fn spec_buses_wf(buses: Map<SessionId, WebSocketService>) -> bool {
    forall|sid: SessionId| #[trigger] buses.contains_key(sid) ==> buses[sid].wf()
}

/// The registry as resolving a session's bus leaves it: the session has a
/// bus, the one it had or else a new one without subscribers and with that
/// backlog, and every other session's bus is untouched.
pub open spec fn spec_resolved(
    before: Map<SessionId, WebSocketService>,
    after: Map<SessionId, WebSocketService>,
    sid: SessionId,
    backlog: usize,
) -> bool {
    &&& after.contains_key(sid)
    &&& after.remove(sid) == before.remove(sid)
    &&& if before.contains_key(sid) {
        after[sid] == before[sid]
    } else {
        &&& after[sid].wf()
        &&& after[sid]@ == Map::<ChannelId, Seq<Event>>::empty()
        &&& after[sid].spec_next_id() == 0
        &&& after[sid].spec_backlog() == backlog
    }
}

/// The first step of deleting a session: its bus is resolved in the
/// registry, and built with that backlog where the session had none, so
/// that the farewell goes out on the bus that observers are attached to.
pub fn resolve_bus(websockets: &mut SessionRegistry<WebSocketService>, sid: &SessionId, backlog: usize)
    requires
        spec_buses_wf(old(websockets)@),
    ensures
        spec_buses_wf(final(websockets)@),
        spec_resolved(old(websockets)@, final(websockets)@, *sid, backlog),
        spec_observers(final(websockets)@, *sid) == spec_observers(old(websockets)@, *sid),
{
    if !websockets.contains(sid) {
        let _ = websockets.insert_if_absent(sid, WebSocketService::new(backlog));
    }
    proof {
        assert(websockets@.remove(*sid) =~= old(websockets)@.remove(*sid));
        assert(spec_observers(websockets@, *sid) =~= spec_observers(old(websockets)@, *sid));
        assert(old(websockets)@.contains_key(*sid) ==> websockets@ =~= old(websockets)@);
    }
}

/// The last steps of deleting a session, once its store has answered.
/// Where the store removed the session: `SessionDeleted` is published on
/// the session's bus, if the registry holds one, and then the session's
/// entries leave both registries; the bus comes back to the caller with
/// what still waits for its observers. Where the store failed: nothing is
/// published, nothing is evicted, and the failure is handed on as the
/// service shows it.
pub fn finish_delete<O>(
    sid: &SessionId,
    removed: Result<(), RepositoryError>,
    websockets: &mut SessionRegistry<WebSocketService>,
    objects: &mut SessionRegistry<O>,
) -> (detached: Result<Option<WebSocketService>, SessionError>)
    requires
        spec_buses_wf(old(websockets)@),
    ensures
        spec_buses_wf(final(websockets)@),
        match removed {
            Ok(_) => {
                &&& detached matches Ok(bus)
                &&& bus is Some == old(websockets)@.contains_key(*sid)
                &&& bus matches Some(bus) ==> {
                    &&& bus.wf()
                    &&& bus.spec_backlog() == old(websockets)@[*sid].spec_backlog()
                    &&& bus.spec_next_id() == old(websockets)@[*sid].spec_next_id()
                    &&& exists|timestamp: Timestamp|
                        bus@ == spec_broadcast(
                            old(websockets)@[*sid]@,
                            #[trigger] spec_session_deleted(timestamp),
                            bus.spec_backlog() as nat,
                        )
                }
                &&& final(websockets)@ == old(websockets)@.remove(*sid)
                &&& final(objects)@ == old(objects)@.remove(*sid)
            },
            Err(e) => {
                &&& detached == Err::<Option<WebSocketService>, SessionError>(spec_normalize_error(e))
                &&& final(websockets)@ == old(websockets)@
                &&& final(objects)@ == old(objects)@
            },
        },
{
    match removed {
        Ok(_) => {
            match websockets.get_mut(sid) {
                Some(bus) => {
                    let event = EventName::SessionDeleted.into_event();
                    assert(event == spec_session_deleted(event.timestamp));
                    bus.publish(event);
                },
                None => {},
            }
            let _ = objects.remove(sid);
            let detached = websockets.remove(sid);
            proof {
                assert(websockets@ =~= old(websockets)@.remove(*sid));
            }
            Ok(detached)
        },
        Err(e) => Err(normalize_error(e)),
    }
}

/// What the store's verdict on a key comes to at the service: `Ok` where
/// the key opens the session, `AuthFail` where it does not, and the
/// store's failure, which is no absence here.
pub open spec fn spec_authorize(verdict: Result<bool, RepositoryError>) -> Result<(), SessionError> {
    match verdict {
        Ok(true) => Ok(()),
        Ok(false) => Err(SessionError::AuthFail),
        Err(e) => Err(SessionError::Other(e)),
    }
}

pub fn authorize(verdict: Result<bool, RepositoryError>) -> (result: Result<(), SessionError>)
    ensures
        result == spec_authorize(verdict),
{
    match verdict {
        Ok(opens) => {
            if opens {
                Ok(())
            } else {
                Err(SessionError::AuthFail)
            }
        },
        Err(e) => Err(SessionError::Other(e)),
    }
}

/// The lifecycle of sessions: opening, looking up, authenticating and
/// deleting them.
pub struct SessionService<R> {
    repository: R,
    backlog: usize,
}

impl<R: SessionRepository> SessionService<R> {
    pub closed spec fn spec_repository(&self) -> R {
        self.repository
    }

    /// The backlog that a session's bus is built with.
    pub closed spec fn spec_backlog(&self) -> usize {
        self.backlog
    }

    pub open spec fn wf(&self) -> bool {
        self.spec_repository().wf()
    }

    /// A service over that store, which builds buses with that backlog.
    pub fn new(repository: R, backlog: usize) -> (service: Self)
        ensures
            service.spec_repository() == repository,
            service.spec_backlog() == backlog,
    {
        SessionService { repository, backlog }
    }

    pub fn repository(&self) -> (repository: &R)
        ensures
            *repository == self.spec_repository(),
    {
        &self.repository
    }

    /// Opens a session, with the secret asked for if one is.
    pub fn create(&mut self, req: Option<CreateSession>) -> (session: Result<SessionDto, SessionError>)
        requires
            old(self).wf(),
        ensures
            final(self).wf(),
            final(self).spec_backlog() == old(self).spec_backlog(),
            session matches Ok(dto) ==> {
                &&& !old(self).spec_repository().sessions().contains_key(dto.id)
                &&& dto == spec_opened(dto.id, req, dto.creation_time)
                &&& final(self).spec_repository().sessions() == old(self).spec_repository().sessions().insert(dto.id, dto)
                &&& final(self).spec_repository().auth_keys() == spec_with_key(
                    old(self).spec_repository().auth_keys(),
                    dto.id,
                    spec_requested_key(req),
                )
            },
            // The store was asked once, with the request as it came, and
            // its answer is handed on, a failure as the service shows it.
            exists|store: &mut R, answer: Result<SessionDto, RepositoryError>|
                {
                    &&& *store == old(self).spec_repository()
                    &&& *final(store) == final(self).spec_repository()
                    &&& #[trigger] call_ensures(R::create, (store, req), answer)
                    &&& session == spec_normalize_result(answer)
                },
    {
        normalize_result(self.repository.create(req))
    }

    pub fn get(&self, sid: &SessionId) -> (session: Result<SessionDto, SessionError>)
        requires
            self.wf(),
        ensures
            session matches Ok(dto) ==> self.spec_repository().sessions().contains_key(*sid) && dto
                == self.spec_repository().sessions()[*sid],
            !self.spec_repository().sessions().contains_key(*sid) ==> session is Err,
            // The store was asked for that session, and its answer is
            // handed on, a failure as the service shows it.
            exists|answer: Result<SessionDto, RepositoryError>|
                {
                    &&& #[trigger] call_ensures(R::get, (&self.spec_repository(), sid), answer)
                    &&& session == spec_normalize_result(answer)
                },
    {
        normalize_result(self.repository.get(sid))
    }

    pub fn session_exists(&self, sid: &SessionId) -> (found: Result<bool, SessionError>)
        requires
            self.wf(),
        ensures
            found matches Ok(found) ==> found == self.spec_repository().sessions().contains_key(*sid),
            // The store was asked for that session, and its answer is
            // handed on, a failure as the service shows it.
            exists|answer: Result<bool, RepositoryError>|
                {
                    &&& #[trigger] call_ensures(R::session_exists, (&self.spec_repository(), sid), answer)
                    &&& found == spec_normalize_result(answer)
                },
    {
        normalize_result(self.repository.session_exists(sid))
    }

    /// Deletes a session. In this order: the session's bus is resolved in
    /// the registry, and built if the session had none; the store removes
    /// the session; `SessionDeleted` is published on that bus; the
    /// session's entries leave both registries. The bus comes back to the
    /// caller, with what still waits for its observers: for each of them
    /// the newest of it is `SessionDeleted`, unless the backlog is zero,
    /// and nothing that is published for the session later reaches that
    /// bus.
    ///
    /// Where the store fails, nothing is published and nothing is evicted.
    pub fn delete<O>(
        &mut self,
        sid: &SessionId,
        websockets: &mut SessionRegistry<WebSocketService>,
        objects: &mut SessionRegistry<O>,
    ) -> (detached: Result<WebSocketService, SessionError>)
        requires
            old(self).wf(),
            spec_buses_wf(old(websockets)@),
        ensures
            final(self).wf(),
            spec_buses_wf(final(websockets)@),
            final(self).spec_backlog() == old(self).spec_backlog(),
            match detached {
                Ok(bus) => {
                    &&& final(self).spec_repository().sessions() == old(self).spec_repository().sessions().remove(*sid)
                    &&& final(self).spec_repository().auth_keys() == old(self).spec_repository().auth_keys().remove(*sid)
                    &&& bus.wf()
                    &&& exists|timestamp: Timestamp|
                        bus@ == spec_broadcast(
                            spec_observers(old(websockets)@, *sid),
                            #[trigger] spec_session_deleted(timestamp),
                            bus.spec_backlog() as nat,
                        )
                    &&& final(websockets)@ == old(websockets)@.remove(*sid)
                    &&& final(objects)@ == old(objects)@.remove(*sid)
                },
                Err(_) => {
                    &&& spec_resolved(old(websockets)@, final(websockets)@, *sid, old(self).spec_backlog())
                    &&& final(objects)@ == old(objects)@
                },
            },
            // The store was asked once to remove that session, and the
            // deletion succeeds exactly where it did; its failure is handed
            // on as the service shows it.
            exists|store: &mut R, answer: Result<(), RepositoryError>|
                {
                    &&& *store == old(self).spec_repository()
                    &&& *final(store) == final(self).spec_repository()
                    &&& #[trigger] call_ensures(R::delete, (store, sid), answer)
                    &&& match answer {
                        Ok(_) => detached is Ok,
                        Err(e) => detached matches Err(failure) && failure == spec_normalize_error(e),
                    }
                },
    {
        resolve_bus(websockets, sid, self.backlog);
        let removed = self.repository.delete(sid);
        match finish_delete(sid, removed, websockets, objects) {
            Ok(Some(bus)) => Ok(bus),
            Ok(None) => unreached(),
            Err(e) => Err(e),
        }
    }

    /// Whether the key opens the session: `Ok` where it does, `AuthFail`
    /// where it does not, `Other` where the store could not tell.
    pub fn auth(&self, sid: &SessionId, auth_key: &[u8]) -> (verdict: Result<(), SessionError>)
        requires
            self.wf(),
        ensures
            match verdict {
                Ok(_) => spec_check_auth_key(
                    spec_key_of(self.spec_repository().auth_keys(), *sid),
                    auth_key@,
                ) == Some(true),
                Err(SessionError::AuthFail) => spec_check_auth_key(
                    spec_key_of(self.spec_repository().auth_keys(), *sid),
                    auth_key@,
                ) == Some(false),
                Err(SessionError::Other(_)) => true,
                Err(SessionError::NotFound) => false,
            },
            // The store was asked about that session and that key, and
            // its answer decides.
            exists|answer: Result<bool, RepositoryError>|
                {
                    &&& #[trigger] call_ensures(R::auth, (&self.spec_repository(), sid, auth_key), answer)
                    &&& verdict == spec_authorize(answer)
                },
    {
        authorize(self.repository.auth(sid, auth_key))
    }
}

/// After a session was deleted, it is not in the store and the registry
/// holds no bus for it; the bus that is resolved for it next is a new one,
/// without any of the observers that were attached before.
pub proof fn lemma_deleted_session_is_gone(
    sessions: Map<SessionId, SessionDto>,
    buses: Map<SessionId, WebSocketService>,
    later: Map<SessionId, WebSocketService>,
    sid: SessionId,
    backlog: usize,
)
    requires
        spec_resolved(buses.remove(sid), later, sid, backlog),
    ensures
        !sessions.remove(sid).contains_key(sid),
        !buses.remove(sid).contains_key(sid),
        spec_observers(buses.remove(sid), sid) == Map::<ChannelId, Seq<Event>>::empty(),
        later[sid]@ == Map::<ChannelId, Seq<Event>>::empty(),
        later[sid].spec_next_id() == 0,
        later.remove(sid) == buses.remove(sid),
{
    assert(buses.remove(sid).remove(sid) =~= buses.remove(sid));
}

/// How a store's answer shows at the session service: what it gave as it
/// is, and a failure as `spec_normalize_error` has it.
pub open spec fn spec_normalize_result<T>(res: Result<T, RepositoryError>) -> Result<T, SessionError> {
    match res {
        Ok(value) => Ok(value),
        Err(e) => Err(spec_normalize_error(e)),
    }
}

} // verus!
