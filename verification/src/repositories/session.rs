use super::auth::{check_auth_key, spec_check_auth_key, spec_stored_key};
use super::error::RepositoryError;
use crate::models::session::{
    spec_crypto_dto, spec_requested_crypto, CreateSession, Session, SessionDto, SessionId,
};
use crate::models::timestamp::Timestamp;
use crate::utils::idmap::IdMap;
use crate::utils::text::clone_text_option;
use vstd::prelude::*;

verus! {

/// The secret that a request to open a session brings, as a store keeps it.
pub open spec fn spec_requested_key(req: Option<CreateSession>) -> Option<Seq<u8>> {
    match req {
        Some(req) => spec_stored_key(Some(req.auth_key)),
        None => None,
    }
}

/// The secrets of a store after a session was opened with that one, or
/// with none.
pub open spec fn spec_with_key(keys: Map<SessionId, Seq<u8>>, sid: SessionId, key: Option<Seq<u8>>) -> Map<
    SessionId,
    Seq<u8>,
> {
    match key {
        Some(key) => keys.insert(sid, key),
        None => keys.remove(sid),
    }
}

/// The secret that a store keeps for a session, if it keeps one.
pub open spec fn spec_key_of(keys: Map<SessionId, Seq<u8>>, sid: SessionId) -> Option<Seq<u8>> {
    if keys.contains_key(sid) {
        Some(keys[sid])
    } else {
        None
    }
}

/// The session that a request opens under that identifier at that time, as
/// observers see it.
pub open spec fn spec_opened(sid: SessionId, req: Option<CreateSession>, creation_time: Timestamp) -> SessionDto {
    SessionDto { id: sid, creation_time, crypto: spec_crypto_dto(spec_requested_crypto(req)) }
}

/// A store of sessions: one record for each session, and the session's
/// secret kept apart from it.
///
/// A store may fail for reasons of its own at any call. What is said of a
/// call that succeeds, and of the absence that a failure reports, binds
/// every store.
pub trait SessionRepository {
    spec fn wf(&self) -> bool;

    /// The record of each session in the store.
    spec fn sessions(&self) -> Map<SessionId, SessionDto>;

    /// The secret, as stored, of each session that has one.
    spec fn auth_keys(&self) -> Map<SessionId, Seq<u8>>;

    /// The sessions in the store, each once.
    fn list(&self) -> (ids: Result<Vec<SessionId>, RepositoryError>)
        requires
            self.wf(),
        ensures
            ids matches Ok(ids) ==> ids@.no_duplicates() && ids@.to_set() == self.sessions().dom(),
    ;

    /// Opens a session under a fresh identifier.
    fn create(&mut self, req: Option<CreateSession>) -> (session: Result<SessionDto, RepositoryError>)
        requires
            old(self).wf(),
        ensures
            final(self).wf(),
            session matches Ok(dto) ==> {
                &&& !old(self).sessions().contains_key(dto.id)
                &&& dto == spec_opened(dto.id, req, dto.creation_time)
                &&& final(self).sessions() == old(self).sessions().insert(dto.id, dto)
                &&& final(self).auth_keys() == spec_with_key(
                    old(self).auth_keys(),
                    dto.id,
                    spec_requested_key(req),
                )
            },
    ;

    fn session_exists(&self, sid: &SessionId) -> (found: Result<bool, RepositoryError>)
        requires
            self.wf(),
        ensures
            found matches Ok(found) ==> found == self.sessions().contains_key(*sid),
    ;

    fn get(&self, sid: &SessionId) -> (session: Result<SessionDto, RepositoryError>)
        requires
            self.wf(),
        ensures
            session matches Ok(dto) ==> self.sessions().contains_key(*sid) && dto == self.sessions()[*sid],
            !self.sessions().contains_key(*sid) ==> session is Err,
    ;

    /// Removes the session's record and its secret.
    fn delete(&mut self, sid: &SessionId) -> (done: Result<(), RepositoryError>)
        requires
            old(self).wf(),
        ensures
            final(self).wf(),
            done is Ok ==> {
                &&& final(self).sessions() == old(self).sessions().remove(*sid)
                &&& final(self).auth_keys() == old(self).auth_keys().remove(*sid)
            },
    ;

    /// Whether the key opens the session: see `spec_check_auth_key`.
    fn auth(&self, sid: &SessionId, auth_key: &[u8]) -> (verdict: Result<bool, RepositoryError>)
        requires
            self.wf(),
        ensures
            verdict matches Ok(opens) ==> spec_check_auth_key(spec_key_of(self.auth_keys(), *sid), auth_key@)
                == Some(opens),
    ;
}

/// What a store in memory keeps of one session.
pub struct SessionRecord {
    pub session: SessionDto,
    pub auth_key: Option<String>,
}

/// A store of sessions that lives in memory and is gone with the process.
pub struct SessionMemRepository {
    records: IdMap<SessionRecord>,
}

impl SessionMemRepository {
    /// A store without sessions.
    pub fn new() -> (repository: Self)
        ensures
            repository.wf(),
            repository.sessions() == Map::<SessionId, SessionDto>::empty(),
            repository.auth_keys() == Map::<SessionId, Seq<u8>>::empty(),
    {
        let repository = SessionMemRepository { records: IdMap::new() };
        assert(repository.sessions() =~= Map::<SessionId, SessionDto>::empty());
        assert(repository.auth_keys() =~= Map::<SessionId, Seq<u8>>::empty());
        repository
    }

    /// Opens a session under that identifier at that time. Fails, and
    /// changes nothing, exactly where the identifier is in use.
    pub fn create_at(&mut self, sid: SessionId, creation_time: Timestamp, req: Option<CreateSession>) -> (session:
        Result<SessionDto, RepositoryError>)
        requires
            old(self).wf(),
        ensures
            final(self).wf(),
            match session {
                Ok(dto) => {
                    &&& !old(self).sessions().contains_key(sid)
                    &&& dto == spec_opened(sid, req, creation_time)
                    &&& final(self).sessions() == old(self).sessions().insert(sid, dto)
                    &&& final(self).auth_keys() == spec_with_key(
                        old(self).auth_keys(),
                        sid,
                        spec_requested_key(req),
                    )
                },
                Err(e) => {
                    &&& old(self).sessions().contains_key(sid)
                    &&& e is Other
                    &&& final(self).sessions() == old(self).sessions()
                    &&& final(self).auth_keys() == old(self).auth_keys()
                },
            },
    {
        if self.records.contains(&sid) {
            return Err(RepositoryError::other("Session already exists"));
        }
        let sess = Session::opened_at(sid, req, creation_time);
        let auth_key = match &sess.crypto {
            Some(crypto) => Some(crypto.auth_key.clone()),
            None => None,
        };
        let dto = sess.into_dto();
        let record = SessionRecord { session: dto.clone(), auth_key };
        let _ = self.records.insert_if_absent(&sid, record);
        proof {
            assert(self.records@ == old(self).records@.insert(sid, record));
            assert(self.sessions() =~= old(self).sessions().insert(sid, dto));
            assert(self.auth_keys() =~= spec_with_key(
                old(self).auth_keys(),
                sid,
                spec_requested_key(req),
            ));
        }
        Ok(dto)
    }
}

impl SessionRepository for SessionMemRepository {
    /// A store in memory is well formed whatever it holds.
    closed spec fn wf(&self) -> bool {
        true
    }

    closed spec fn sessions(&self) -> Map<SessionId, SessionDto> {
        Map::new(|sid: SessionId| self.records@.contains_key(sid), |sid: SessionId| self.records@[sid].session)
    }

    closed spec fn auth_keys(&self) -> Map<SessionId, Seq<u8>> {
        Map::new(
            |sid: SessionId| self.records@.contains_key(sid) && self.records@[sid].auth_key is Some,
            |sid: SessionId| spec_stored_key(self.records@[sid].auth_key).unwrap(),
        )
    }

    fn list(&self) -> (ids: Result<Vec<SessionId>, RepositoryError>)
        ensures
            ids is Ok,
    {
        let ids = self.records.keys();
        assert(self.sessions().dom() =~= self.records@.dom());
        Ok(ids)
    }

    /// Fails only where no identifier could be had, or where the one drawn
    /// is in use; nothing changes then.
    fn create(&mut self, req: Option<CreateSession>) -> (session: Result<SessionDto, RepositoryError>)
        ensures
            session matches Err(e) ==> e is Other && final(self).sessions() == old(self).sessions()
                && final(self).auth_keys() == old(self).auth_keys(),
    {
        match SessionId::generate() {
            Ok(sid) => self.create_at(sid, Timestamp::now(), req),
            Err(_) => Err(RepositoryError::other("System time is before the identifier epoch")),
        }
    }

    fn session_exists(&self, sid: &SessionId) -> (found: Result<bool, RepositoryError>)
        ensures
            found is Ok,
    {
        Ok(self.records.contains(sid))
    }

    /// Fails exactly where the session is not in the store, with
    /// `NotFound`.
    fn get(&self, sid: &SessionId) -> (session: Result<SessionDto, RepositoryError>)
        ensures
            session matches Err(e) ==> e is NotFound && !self.sessions().contains_key(*sid),
    {
        match self.records.get(sid) {
            Some(record) => Ok(record.session.clone()),
            None => Err(RepositoryError::NotFound),
        }
    }

    /// Fails exactly where the session is not in the store, with
    /// `NotFound`; nothing changes then.
    fn delete(&mut self, sid: &SessionId) -> (done: Result<(), RepositoryError>)
        ensures
            done is Ok <==> old(self).sessions().contains_key(*sid),
            done matches Err(e) ==> e is NotFound && final(self).sessions() == old(self).sessions()
                && final(self).auth_keys() == old(self).auth_keys(),
    {
        match self.records.remove(sid) {
            Some(_) => {
                assert(self.sessions() =~= old(self).sessions().remove(*sid));
                assert(self.auth_keys() =~= old(self).auth_keys().remove(*sid));
                Ok(())
            },
            None => {
                assert(self.records@ =~= old(self).records@);
                assert(self.sessions() =~= old(self).sessions());
                assert(self.auth_keys() =~= old(self).auth_keys());
                Err(RepositoryError::NotFound)
            },
        }
    }

    /// Fails exactly where the stored secret cannot be decoded.
    fn auth(&self, sid: &SessionId, auth_key: &[u8]) -> (verdict: Result<bool, RepositoryError>)
        ensures
            verdict matches Err(e) ==> e is Other && spec_check_auth_key(
                spec_key_of(self.auth_keys(), *sid),
                auth_key@,
            ) is None,
    {
        match self.records.get(sid) {
            Some(record) => check_auth_key(record.auth_key.as_ref(), auth_key),
            None => {
                // Nothing is kept for the session: every key opens it.
                check_auth_key(None, auth_key)
            },
        }
    }
}

} // verus!
