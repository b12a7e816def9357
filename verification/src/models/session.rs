use super::crypto::KDFParams;
use super::object::{Object, ObjectId};
use super::snowflake::SnowflakeId;
use super::timestamp::Timestamp;
use std::collections::VecDeque;
use vstd::prelude::*;

verus! {

pub type SessionId = SnowflakeId;

/// A session as observers see it: without its objects and without its
/// secret.
#[derive(Debug)]
pub struct SessionDto {
    pub id: SessionId,
    pub creation_time: Timestamp,
    pub crypto: Option<SessionCryptoDto>,
}

/// A session: an ephemeral room and the objects dropped into it, the most
/// recently added first.
#[derive(Debug)]
pub struct Session {
    pub id: SessionId,
    pub objects: VecDeque<Object>,
    pub creation_time: Timestamp,
    pub crypto: Option<SessionCrypto>,
}

/// What a client hands in to open a session with a secret.
#[derive(Debug)]
pub struct CreateSession {
    pub auth_key: String,
    pub kdf_params: KDFParams,
}

/// The public part of a session's secret: how its keys are derived.
#[derive(Debug)]
pub struct SessionCryptoDto {
    pub kdf_params: KDFParams,
}

/// A session's secret, in the encoding the client sent it in, and how its
/// keys are derived.
#[derive(Debug)]
pub struct SessionCrypto {
    pub auth_key: String,
    pub kdf_params: KDFParams,
}

impl Clone for SessionCryptoDto {
    fn clone(&self) -> (copy: Self)
        ensures
            copy == *self,
    {
        SessionCryptoDto { kdf_params: self.kdf_params.clone() }
    }
}

impl Clone for SessionCrypto {
    fn clone(&self) -> (copy: Self)
        ensures
            copy == *self,
    {
        SessionCrypto { auth_key: self.auth_key.clone(), kdf_params: self.kdf_params.clone() }
    }
}

impl Clone for CreateSession {
    fn clone(&self) -> (copy: Self)
        ensures
            copy == *self,
    {
        CreateSession { auth_key: self.auth_key.clone(), kdf_params: self.kdf_params.clone() }
    }
}

impl Clone for SessionDto {
    fn clone(&self) -> (copy: Self)
        ensures
            copy == *self,
    {
        SessionDto {
            id: self.id,
            creation_time: self.creation_time,
            crypto: match &self.crypto {
                Some(crypto) => Some(crypto.clone()),
                None => None,
            },
        }
    }
}

impl SessionCrypto {
    pub open spec fn spec_dto(&self) -> SessionCryptoDto {
        SessionCryptoDto { kdf_params: self.kdf_params }
    }

    /// The public part: the secret stays behind.
    pub fn into_dto(self) -> (dto: SessionCryptoDto)
        ensures
            dto == self.spec_dto(),
    {
        SessionCryptoDto { kdf_params: self.kdf_params }
    }
}

impl CreateSession {
    pub open spec fn spec_crypto(&self) -> SessionCrypto {
        SessionCrypto { auth_key: self.auth_key, kdf_params: self.kdf_params }
    }

    pub fn into_crypto(self) -> (crypto: SessionCrypto)
        ensures
            crypto == self.spec_crypto(),
    {
        SessionCrypto { kdf_params: self.kdf_params, auth_key: self.auth_key }
    }
}

/// The secret that a request to open a session asks for, if any.
pub open spec fn spec_requested_crypto(req: Option<CreateSession>) -> Option<SessionCrypto> {
    match req {
        Some(req) => Some(req.spec_crypto()),
        None => None,
    }
}

/// What observers see of a session's secret.
pub open spec fn spec_crypto_dto(crypto: Option<SessionCrypto>) -> Option<SessionCryptoDto> {
    match crypto {
        Some(crypto) => Some(crypto.spec_dto()),
        None => None,
    }
}

/// Where the first object with that identifier stands in a list, if any
/// has it.
pub open spec fn spec_position(objects: Seq<Object>, oid: ObjectId) -> Option<int> {
    if exists|i: int| 0 <= i < objects.len() && objects[i].id == oid {
        Some(choose|i: int| spec_is_first(objects, oid, i))
    } else {
        None
    }
}

/// `i` is the first place in the list at which that identifier stands.
pub open spec fn spec_is_first(objects: Seq<Object>, oid: ObjectId, i: int) -> bool {
    &&& 0 <= i < objects.len()
    &&& objects[i].id == oid
    &&& forall|j: int| 0 <= j < i ==> (#[trigger] objects[j]).id != oid
}

/// The list without the first object of that identifier; the list itself
/// where none has it.
pub open spec fn spec_without(objects: Seq<Object>, oid: ObjectId) -> Seq<Object> {
    match spec_position(objects, oid) {
        Some(i) => objects.remove(i),
        None => objects,
    }
}

/// The first place at which an identifier stands is one place, whoever
/// looks for it.
pub proof fn lemma_first_is_position(objects: Seq<Object>, oid: ObjectId, i: int)
    requires
        spec_is_first(objects, oid, i),
    ensures
        spec_position(objects, oid) == Some(i),
{
    let p = choose|p: int| spec_is_first(objects, oid, p);
    assert(spec_is_first(objects, oid, p));
    if p < i {
        assert(objects[p].id != oid);
    } else if i < p {
        assert(objects[i].id != oid);
    }
}

impl Session {
    /// The objects of the session, the most recently added first.
    pub open spec fn spec_objects(&self) -> Seq<Object> {
        self.objects@
    }

    pub open spec fn spec_dto(&self) -> SessionDto {
        SessionDto { id: self.id, creation_time: self.creation_time, crypto: spec_crypto_dto(self.crypto) }
    }

    /// A session without objects, opened now, with the secret asked for.
    pub fn new(sid: SessionId, req: Option<CreateSession>) -> (session: Self)
        ensures
            session.id == sid,
            session.spec_objects() == Seq::<Object>::empty(),
            session.crypto == spec_requested_crypto(req),
    {
        Session::opened_at(sid, req, Timestamp::now())
    }

    /// A session without objects, opened at that time, with the secret
    /// asked for.
    pub fn opened_at(sid: SessionId, req: Option<CreateSession>, creation_time: Timestamp) -> (session:
        Self)
        ensures
            session.id == sid,
            session.creation_time == creation_time,
            session.spec_objects() == Seq::<Object>::empty(),
            session.crypto == spec_requested_crypto(req),
    {
        Session {
            id: sid,
            objects: VecDeque::new(),
            creation_time,
            crypto: match req {
                Some(req) => Some(req.into_crypto()),
                None => None,
            },
        }
    }

    /// Puts the object in front of the others.
    pub fn add_object(&mut self, obj: Object)
        ensures
            final(self).spec_objects() == seq![obj] + old(self).spec_objects(),
            final(self).id == old(self).id,
            final(self).creation_time == old(self).creation_time,
            final(self).crypto == old(self).crypto,
    {
        self.objects.push_front(obj);
    }

    /// Takes out the first object of that identifier, if there is one.
    pub fn remove_object(&mut self, oid: &ObjectId)
        ensures
            final(self).spec_objects() == spec_without(old(self).spec_objects(), *oid),
            final(self).id == old(self).id,
            final(self).creation_time == old(self).creation_time,
            final(self).crypto == old(self).crypto,
    {
        let n = self.objects.len();
        let mut i: usize = 0;
        while i < n
            invariant
                i <= n,
                n == self.objects@.len(),
                *self == *old(self),
                forall|j: int| 0 <= j < i ==> (#[trigger] self.objects@[j]).id != *oid,
            decreases n - i,
        {
            if self.objects[i].id.same(oid) {
                proof {
                    lemma_first_is_position(self.objects@, *oid, i as int);
                }
                let _ = self.objects.remove(i);
                return ;
            }
            i += 1;
        }
    }

    pub fn into_dto(self) -> (dto: SessionDto)
        ensures
            dto == self.spec_dto(),
    {
        SessionDto {
            id: self.id,
            creation_time: self.creation_time,
            crypto: match self.crypto {
                Some(crypto) => Some(crypto.into_dto()),
                None => None,
            },
        }
    }
}

} // verus!
