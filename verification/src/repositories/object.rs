use super::auth::{check_auth_key, spec_check_auth_key, spec_stored_key};
use super::error::RepositoryError;
use crate::models::object::{Object, ObjectId, Upload};
use crate::models::session::{spec_is_first, spec_position, spec_without, Session, SessionCrypto};
use crate::models::timestamp::Timestamp;
use crate::utils::idmap::IdMap;
use vstd::prelude::*;

verus! {

/// Some object of the list has that identifier.
pub open spec fn spec_has(objects: Seq<Object>, oid: ObjectId) -> bool {
    exists|i: int| 0 <= i < objects.len() && (#[trigger] objects[i]).id == oid
}

/// No two objects of the list share an identifier.
pub open spec fn spec_unique(objects: Seq<Object>) -> bool {
    forall|i: int, j: int|
        0 <= i < j < objects.len() ==> (#[trigger] objects[i]).id != (#[trigger] objects[j]).id
}

/// The first object of the list that has that identifier, if any has it.
pub open spec fn spec_find(objects: Seq<Object>, oid: ObjectId) -> Option<Object> {
    match spec_position(objects, oid) {
        Some(i) => Some(objects[i]),
        None => None,
    }
}

/// The list after an object was put into it: the newcomer stands first.
pub open spec fn spec_put(objects: Seq<Object>, object: Object) -> Seq<Object> {
    seq![object] + objects
}

/// The payloads with each byte string taken by its view.
pub open spec fn spec_payload_views(payloads: Map<ObjectId, Vec<u8>>) -> Map<ObjectId, Seq<u8>> {
    Map::new(|oid: ObjectId| payloads.contains_key(oid), |oid: ObjectId| payloads[oid]@)
}

/// The secret of a session, as a store keeps it.
pub open spec fn spec_session_key(crypto: Option<SessionCrypto>) -> Option<Seq<u8>> {
    match crypto {
        Some(crypto) => spec_stored_key(Some(crypto.auth_key)),
        None => None,
    }
}

/// An object that was put into a list is found under its identifier, with
/// every field as it was put; the objects that were there before stand
/// behind it, in their order.
pub proof fn lemma_put_then_get(objects: Seq<Object>, object: Object)
    ensures
        spec_find(spec_put(objects, object), object.id) == Some(object),
        spec_has(spec_put(objects, object), object.id),
        spec_put(objects, object).subrange(1, objects.len() as int + 1) == objects,
        spec_unique(objects) && !spec_has(objects, object.id) ==> spec_unique(spec_put(objects, object)),
{
    let list = spec_put(objects, object);
    assert(list[0] == object);
    assert(spec_is_first(list, object.id, 0));
    crate::models::session::lemma_first_is_position(list, object.id, 0);
    assert(list.subrange(1, objects.len() as int + 1) =~= objects);
    if spec_unique(objects) && !spec_has(objects, object.id) {
        assert forall|i: int, j: int| 0 <= i < j < list.len() implies (#[trigger] list[i]).id != (
        #[trigger] list[j]).id by {
            assert(list[j] == objects[j - 1]);
            if i > 0 {
                assert(list[i] == objects[i - 1]);
            }
        }
    }
}

/// Of a list without repeated identifiers, removing an object leaves none
/// under its identifier, leaves every other object to be found as before,
/// and leaves no identifier repeated.
pub proof fn lemma_delete_then_get(objects: Seq<Object>, oid: ObjectId, other: ObjectId)
    requires
        spec_unique(objects),
    ensures
        !spec_has(spec_without(objects, oid), oid),
        spec_find(spec_without(objects, oid), oid) is None,
        spec_unique(spec_without(objects, oid)),
        other != oid ==> spec_find(spec_without(objects, oid), other) == spec_find(objects, other),
        other != oid ==> spec_has(spec_without(objects, oid), other) == spec_has(objects, other),
        spec_has(objects, oid) ==> spec_without(objects, oid).len() + 1 == objects.len(),
        !spec_has(objects, oid) ==> spec_without(objects, oid) == objects,
{
    let rest = spec_without(objects, oid);
    if spec_has(objects, oid) {
        let w = choose|i: int| 0 <= i < objects.len() && (#[trigger] objects[i]).id == oid;
        assert(exists|i: int| 0 <= i < objects.len() && objects[i].id == oid);
        assert(spec_is_first(objects, oid, w)) by {
            assert forall|j: int| 0 <= j < w implies (#[trigger] objects[j]).id != oid by {}
        }
        crate::models::session::lemma_first_is_position(objects, oid, w);
        assert(rest == objects.remove(w));
        assert forall|i: int| 0 <= i < rest.len() implies (#[trigger] rest[i]) == objects[if i < w {
            i
        } else {
            i + 1
        }] by {}
        assert(!spec_has(rest, oid)) by {
            if spec_has(rest, oid) {
                let i = choose|i: int| 0 <= i < rest.len() && (#[trigger] rest[i]).id == oid;
                let i0 = if i < w { i } else { i + 1 };
                assert(objects[i0].id == oid);
                if i0 < w {
                    assert(objects[i0].id != objects[w].id);
                } else {
                    assert(objects[w].id != objects[i0].id);
                }
            }
        }
        assert(spec_unique(rest)) by {
            assert forall|i: int, j: int| 0 <= i < j < rest.len() implies (#[trigger] rest[i]).id != (
            #[trigger] rest[j]).id by {
                let i0 = if i < w { i } else { i + 1 };
                let j0 = if j < w { j } else { j + 1 };
                assert(objects[i0].id != objects[j0].id);
            }
        }
        if other != oid {
            if spec_has(objects, other) {
                let p = choose|i: int| 0 <= i < objects.len() && (#[trigger] objects[i]).id == other;
                assert(spec_is_first(objects, other, p)) by {
                    assert forall|j: int| 0 <= j < p implies (#[trigger] objects[j]).id != other by {}
                }
                crate::models::session::lemma_first_is_position(objects, other, p);
                let q = if p < w { p } else { p - 1 };
                assert(rest[q] == objects[p]);
                assert(spec_is_first(rest, other, q)) by {
                    assert forall|j: int| 0 <= j < q implies (#[trigger] rest[j]).id != other by {
                        let j0 = if j < w { j } else { j + 1 };
                        assert(rest[j] == objects[j0]);
                        if j0 < p {
                            assert(objects[j0].id != objects[p].id);
                        } else {
                            assert(objects[p].id != objects[j0].id);
                        }
                    }
                }
                crate::models::session::lemma_first_is_position(rest, other, q);
                assert(spec_has(rest, other));
            } else {
                assert(!spec_has(rest, other)) by {
                    if spec_has(rest, other) {
                        let i = choose|i: int| 0 <= i < rest.len() && (#[trigger] rest[i]).id == other;
                        let i0 = if i < w { i } else { i + 1 };
                        assert(objects[i0].id == other);
                    }
                }
                assert(!(exists|i: int| 0 <= i < objects.len() && objects[i].id == other)) by {
                    if exists|i: int| 0 <= i < objects.len() && objects[i].id == other {
                        let i = choose|i: int| 0 <= i < objects.len() && objects[i].id == other;
                        assert(objects[i].id == other);
                    }
                }
                assert(!(exists|i: int| 0 <= i < rest.len() && rest[i].id == other)) by {
                    if exists|i: int| 0 <= i < rest.len() && rest[i].id == other {
                        let i = choose|i: int| 0 <= i < rest.len() && rest[i].id == other;
                        assert(rest[i].id == other);
                    }
                }
            }
        }
    } else {
        assert(!(exists|i: int| 0 <= i < objects.len() && objects[i].id == oid)) by {
            if exists|i: int| 0 <= i < objects.len() && objects[i].id == oid {
                let i = choose|i: int| 0 <= i < objects.len() && objects[i].id == oid;
                assert(objects[i].id == oid);
            }
        }
        assert(rest == objects);
    }
    assert(!(exists|i: int| 0 <= i < rest.len() && rest[i].id == oid)) by {
        if exists|i: int| 0 <= i < rest.len() && rest[i].id == oid {
            let i = choose|i: int| 0 <= i < rest.len() && rest[i].id == oid;
            assert(rest[i].id == oid);
        }
    }
}

/// Once an object is removed, its payload is gone with it, and every other
/// payload stays as it was.
pub proof fn lemma_delete_then_download(payloads: Map<ObjectId, Seq<u8>>, oid: ObjectId, other: ObjectId)
    ensures
        !payloads.remove(oid).contains_key(oid),
        other != oid ==> payloads.remove(oid).contains_key(other) == payloads.contains_key(other),
        other != oid && payloads.contains_key(other) ==> payloads.remove(oid)[other] == payloads[other],
{
}

/// The store of one session's objects: the list of their metadata, the
/// most recently added first, the payload of each object that has one, and
/// the session's secret.
///
/// A store may fail for reasons of its own at any call. What is said of a
/// call that succeeds, and of the absence that a failure reports, binds
/// every store.
pub trait ObjectRepository {
    /// The list holds no identifier twice.
    spec fn wf(&self) -> bool;

    /// The metadata of the session's objects, the most recently added
    /// first.
    spec fn objects(&self) -> Seq<Object>;

    /// The payload of each object that has one.
    spec fn payloads(&self) -> Map<ObjectId, Seq<u8>>;

    /// The session's secret as stored, if it has one.
    spec fn auth_key(&self) -> Option<Seq<u8>>;

    proof fn lemma_unique(&self)
        requires
            self.wf(),
        ensures
            spec_unique(self.objects()),
    ;

    fn list(&self) -> (objects: Result<Vec<Object>, RepositoryError>)
        requires
            self.wf(),
        ensures
            objects matches Ok(objects) ==> objects@ == self.objects(),
    ;

    /// Makes an object without payload of the upload, under a fresh
    /// identifier.
    fn put(&mut self, upload: Upload) -> (object: Result<Object, RepositoryError>)
        requires
            old(self).wf(),
        ensures
            final(self).wf(),
            object matches Ok(object) ==> {
                &&& object == upload.spec_object(object.id, object.timestamp)
                &&& !spec_has(old(self).objects(), object.id)
                &&& final(self).objects() == spec_put(old(self).objects(), object)
                &&& final(self).payloads() == old(self).payloads()
                &&& final(self).auth_key() == old(self).auth_key()
            },
    ;

    /// Makes an object of the upload, under a fresh identifier, with those
    /// bytes as its payload.
    fn upload(&mut self, upload: Upload, payload: Vec<u8>) -> (object: Result<Object, RepositoryError>)
        requires
            old(self).wf(),
        ensures
            final(self).wf(),
            object matches Ok(object) ==> {
                &&& object == upload.spec_object(object.id, object.timestamp)
                &&& !spec_has(old(self).objects(), object.id)
                &&& final(self).objects() == spec_put(old(self).objects(), object)
                &&& !old(self).payloads().contains_key(object.id)
                &&& final(self).payloads() == old(self).payloads().insert(object.id, payload@)
                &&& final(self).auth_key() == old(self).auth_key()
            },
    ;

    /// Whether the key opens the session: see `spec_check_auth_key`.
    fn auth(&self, auth_key: &[u8]) -> (verdict: Result<bool, RepositoryError>)
        requires
            self.wf(),
        ensures
            verdict matches Ok(opens) ==> spec_check_auth_key(self.auth_key(), auth_key@) == Some(opens),
    ;

    fn get(&self, oid: &ObjectId) -> (object: Result<Object, RepositoryError>)
        requires
            self.wf(),
        ensures
            object matches Ok(object) ==> spec_find(self.objects(), *oid) == Some(object),
            !spec_has(self.objects(), *oid) ==> object is Err,
    ;

    /// The payload of an object. Fails where the object is not there, and
    /// where it has no payload.
    fn download(&self, oid: &ObjectId) -> (payload: Result<Vec<u8>, RepositoryError>)
        requires
            self.wf(),
        ensures
            payload matches Ok(payload) ==> spec_has(self.objects(), *oid) && self.payloads().contains_key(*oid)
                && payload@ == self.payloads()[*oid],
            !spec_has(self.objects(), *oid) || !self.payloads().contains_key(*oid) ==> payload is Err,
    ;

    /// Removes an object and its payload.
    fn delete(&mut self, oid: &ObjectId) -> (done: Result<(), RepositoryError>)
        requires
            old(self).wf(),
        ensures
            final(self).wf(),
            done is Ok ==> {
                &&& spec_has(old(self).objects(), *oid)
                &&& final(self).objects() == spec_without(old(self).objects(), *oid)
                &&& final(self).payloads() == old(self).payloads().remove(*oid)
                &&& final(self).auth_key() == old(self).auth_key()
            },
            !spec_has(old(self).objects(), *oid) ==> done is Err,
    ;
}

/// A store of one session's objects that lives in memory and is gone with
/// the process.
pub struct ObjectMemRepository {
    session: Session,
    payloads: IdMap<Vec<u8>>,
}

impl ObjectMemRepository {
    /// The store of that session, with no payloads yet.
    pub fn new(session: Session) -> (repository: Self)
        requires
            spec_unique(session.spec_objects()),
        ensures
            repository.wf(),
            repository.objects() == session.spec_objects(),
            repository.payloads() == Map::<ObjectId, Seq<u8>>::empty(),
            repository.auth_key() == spec_session_key(session.crypto),
    {
        let repository = ObjectMemRepository { session, payloads: IdMap::new() };
        assert(repository.payloads() =~= Map::<ObjectId, Seq<u8>>::empty());
        repository
    }

    fn position(&self, oid: &ObjectId) -> (found: Option<usize>)
        ensures
            match found {
                Some(i) => spec_position(self.session.objects@, *oid) == Some(i as int) && spec_is_first(
                    self.session.objects@,
                    *oid,
                    i as int,
                ) && spec_has(self.session.objects@, *oid),
                None => spec_position(self.session.objects@, *oid) is None && !spec_has(
                    self.session.objects@,
                    *oid,
                ),
            },
    {
        let n = self.session.objects.len();
        let mut i: usize = 0;
        while i < n
            invariant
                i <= n,
                n == self.session.objects@.len(),
                forall|j: int| 0 <= j < i ==> (#[trigger] self.session.objects@[j]).id != *oid,
            decreases n - i,
        {
            if self.session.objects[i].id.same(oid) {
                proof {
                    crate::models::session::lemma_first_is_position(self.session.objects@, *oid, i as int);
                }
                return Some(i);
            }
            i += 1;
        }
        None
    }

    /// Puts a finished object into the store, without payload. Fails, and
    /// changes nothing, exactly where its identifier is in use.
    pub fn put_object(&mut self, obj: Object) -> (object: Result<Object, RepositoryError>)
        requires
            old(self).wf(),
        ensures
            final(self).wf(),
            final(self).payloads() == old(self).payloads(),
            final(self).auth_key() == old(self).auth_key(),
            match object {
                Ok(object) => {
                    &&& object == obj
                    &&& !spec_has(old(self).objects(), obj.id)
                    &&& final(self).objects() == spec_put(old(self).objects(), obj)
                },
                Err(e) => {
                    &&& spec_has(old(self).objects(), obj.id)
                    &&& e is Other
                    &&& final(self).objects() == old(self).objects()
                },
            },
    {
        if self.position(&obj.id).is_some() || self.payloads.contains(&obj.id) {
            return Err(RepositoryError::other("Object already exists"));
        }
        self.session.add_object(obj.clone());
        proof {
            lemma_put_then_get(old(self).objects(), obj);
            assert forall|oid: ObjectId| #[trigger] self.payloads@.contains_key(oid) implies spec_has(
                self.session.objects@,
                oid,
            ) by {
                let i = choose|i: int|
                    0 <= i < old(self).session.objects@.len() && (#[trigger] old(self).session.objects@[i]).id == oid;
                assert(self.session.objects@[i + 1].id == oid);
            }
        }
        Ok(obj)
    }

    /// Puts a finished object into the store with those bytes as its
    /// payload. Fails, and changes nothing, exactly where its identifier is
    /// in use.
    pub fn upload_object(&mut self, obj: Object, payload: Vec<u8>) -> (object: Result<Object, RepositoryError>)
        requires
            old(self).wf(),
        ensures
            final(self).wf(),
            final(self).auth_key() == old(self).auth_key(),
            match object {
                Ok(object) => {
                    &&& object == obj
                    &&& !spec_has(old(self).objects(), obj.id)
                    &&& final(self).objects() == spec_put(old(self).objects(), obj)
                    &&& !old(self).payloads().contains_key(obj.id)
                    &&& final(self).payloads() == old(self).payloads().insert(obj.id, payload@)
                },
                Err(e) => {
                    &&& spec_has(old(self).objects(), obj.id)
                    &&& e is Other
                    &&& final(self).objects() == old(self).objects()
                    &&& final(self).payloads() == old(self).payloads()
                },
            },
    {
        if self.position(&obj.id).is_some() || self.payloads.contains(&obj.id) {
            return Err(RepositoryError::other("Object already exists"));
        }
        let oid = obj.id;
        let _ = self.payloads.insert_if_absent(&oid, payload);
        self.session.add_object(obj.clone());
        proof {
            lemma_put_then_get(old(self).objects(), obj);
            assert(self.session.objects@[0].id == oid);
            assert forall|k: ObjectId| #[trigger] self.payloads@.contains_key(k) implies spec_has(
                self.session.objects@,
                k,
            ) by {
                if k != oid {
                    let i = choose|i: int|
                        0 <= i < old(self).session.objects@.len() && (#[trigger] old(self).session.objects@[i]).id == k;
                    assert(self.session.objects@[i + 1].id == k);
                }
            }
            assert(self.payloads() =~= old(self).payloads().insert(oid, payload@));
        }
        Ok(obj)
    }
}

impl ObjectRepository for ObjectMemRepository {
    /// The list holds no identifier twice, and every payload belongs to an
    /// object of the list.
    closed spec fn wf(&self) -> bool {
        &&& spec_unique(self.session.objects@)
        &&& forall|oid: ObjectId| #[trigger]
            self.payloads@.contains_key(oid) ==> spec_has(self.session.objects@, oid)
    }

    closed spec fn objects(&self) -> Seq<Object> {
        self.session.objects@
    }

    closed spec fn payloads(&self) -> Map<ObjectId, Seq<u8>> {
        spec_payload_views(self.payloads@)
    }

    closed spec fn auth_key(&self) -> Option<Seq<u8>> {
        spec_session_key(self.session.crypto)
    }

    proof fn lemma_unique(&self) {
    }

    fn list(&self) -> (objects: Result<Vec<Object>, RepositoryError>)
        ensures
            objects is Ok,
    {
        let mut objects: Vec<Object> = Vec::new();
        let n = self.session.objects.len();
        let mut i: usize = 0;
        while i < n
            invariant
                i <= n,
                n == self.session.objects@.len(),
                objects@ == self.session.objects@.take(i as int),
            decreases n - i,
        {
            objects.push(self.session.objects[i].clone());
            assert(self.session.objects@.take(i + 1) =~= self.session.objects@.take(i as int).push(
                self.session.objects@[i as int],
            ));
            i += 1;
        }
        assert(self.session.objects@.take(n as int) =~= self.session.objects@);
        Ok(objects)
    }

    /// Fails only where no identifier could be had, or where the one drawn
    /// is in use; nothing changes then.
    fn put(&mut self, upload: Upload) -> (object: Result<Object, RepositoryError>)
        ensures
            object matches Err(e) ==> e is Other && final(self).objects() == old(self).objects()
                && final(self).payloads() == old(self).payloads() && final(self).auth_key() == old(self).auth_key(),
    {
        match upload.try_into_object() {
            Ok(obj) => self.put_object(obj),
            Err(_) => Err(RepositoryError::other("System time is before the identifier epoch")),
        }
    }

    /// Fails only where no identifier could be had, or where the one drawn
    /// is in use; nothing changes then.
    fn upload(&mut self, upload: Upload, payload: Vec<u8>) -> (object: Result<Object, RepositoryError>)
        ensures
            object matches Err(e) ==> e is Other && final(self).objects() == old(self).objects()
                && final(self).payloads() == old(self).payloads() && final(self).auth_key() == old(self).auth_key(),
    {
        match upload.try_into_object() {
            Ok(obj) => self.upload_object(obj, payload),
            Err(_) => Err(RepositoryError::other("System time is before the identifier epoch")),
        }
    }

    /// Fails exactly where the stored secret cannot be decoded.
    fn auth(&self, auth_key: &[u8]) -> (verdict: Result<bool, RepositoryError>)
        ensures
            verdict matches Err(e) ==> e is Other && spec_check_auth_key(self.auth_key(), auth_key@) is None,
    {
        match &self.session.crypto {
            Some(crypto) => check_auth_key(Some(&crypto.auth_key), auth_key),
            None => check_auth_key(None, auth_key),
        }
    }

    /// Fails exactly where no object has that identifier, with `NotFound`.
    fn get(&self, oid: &ObjectId) -> (object: Result<Object, RepositoryError>)
        ensures
            object matches Err(e) ==> e is NotFound && !spec_has(self.objects(), *oid),
    {
        match self.position(oid) {
            Some(i) => Ok(self.session.objects[i].clone()),
            None => Err(RepositoryError::NotFound),
        }
    }

    /// Fails exactly where no object has that identifier or the object has
    /// no payload, with `NotFound`.
    fn download(&self, oid: &ObjectId) -> (payload: Result<Vec<u8>, RepositoryError>)
        ensures
            payload matches Err(e) ==> e is NotFound && (!spec_has(self.objects(), *oid)
                || !self.payloads().contains_key(*oid)),
    {
        match self.position(oid) {
            Some(_) => match self.payloads.get(oid) {
                Some(bytes) => {
                    let copy = bytes.clone();
                    assert(copy@ =~= bytes@);
                    Ok(copy)
                },
                None => Err(RepositoryError::NotFound),
            },
            None => Err(RepositoryError::NotFound),
        }
    }

    /// Fails exactly where no object has that identifier, with `NotFound`;
    /// nothing changes then.
    fn delete(&mut self, oid: &ObjectId) -> (done: Result<(), RepositoryError>)
        ensures
            done matches Err(e) ==> e is NotFound && !spec_has(old(self).objects(), *oid) && final(self).objects() == old(self).objects() && final(self).payloads() == old(self).payloads()
                && final(self).auth_key() == old(self).auth_key(),
    {
        let _ = self.payloads.remove(oid);
        match self.position(oid) {
            Some(_) => {
                self.session.remove_object(oid);
                proof {
                    lemma_delete_then_get(old(self).objects(), *oid, *oid);
                    assert forall|k: ObjectId| #[trigger] self.payloads@.contains_key(k) implies spec_has(
                        self.session.objects@,
                        k,
                    ) by {
                        lemma_delete_then_get(old(self).objects(), *oid, k);
                    }
                    assert(self.payloads() =~= old(self).payloads().remove(*oid));
                }
                Ok(())
            },
            None => {
                proof {
                    assert(self.payloads@ =~= old(self).payloads@);
                    assert(self.payloads() =~= old(self).payloads());
                }
                Err(RepositoryError::NotFound)
            },
        }
    }
}

/// Whatever store keeps the objects: once it has taken an object in, any
/// answer it gives when asked for that object's identifier is a failure of
/// its own or the object itself, with every field as it was put.
pub proof fn lemma_store_get_after_put<O: ObjectRepository>(
    before: O,
    after: O,
    object: Object,
    answer: Result<Object, RepositoryError>,
)
    requires
        after.wf(),
        after.objects() == spec_put(before.objects(), object),
        call_ensures(O::get, (&after, &object.id), answer),
    ensures
        answer matches Ok(found) ==> found == object,
{
    lemma_put_then_get(before.objects(), object);
}

/// Whatever store keeps the objects: once it has removed an object, asking
/// it for that object or for its payload fails.
pub proof fn lemma_store_gone_after_delete<O: ObjectRepository>(
    before: O,
    after: O,
    oid: ObjectId,
    found: Result<Object, RepositoryError>,
    payload: Result<Vec<u8>, RepositoryError>,
)
    requires
        before.wf(),
        after.wf(),
        after.objects() == spec_without(before.objects(), oid),
        call_ensures(O::get, (&after, &oid), found),
        call_ensures(O::download, (&after, &oid), payload),
    ensures
        found is Err,
        payload is Err,
{
    before.lemma_unique();
    lemma_delete_then_get(before.objects(), oid, oid);
}

} // verus!
