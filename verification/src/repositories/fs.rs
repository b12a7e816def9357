use super::error::RepositoryError;
use crate::models::object::ObjectId;
use crate::models::session::SessionId;
use crate::models::snowflake::{
    lemma_decimal_digits, lemma_decimal_round_trip, spec_decimal, spec_digit_value,
};
use vstd::prelude::*;
use vstd::string::*;

verus! {

/// The file, in a session's directory, that holds the session's record.
pub const SESSION_FILE: &'static str = "session.json";

/// The file, in a session's directory, that holds the session's secret.
pub const SESSION_AUTH_KEY_FILE: &'static str = "authkey.txt";

/// The name of the file that holds an object's metadata.
pub open spec fn spec_metadata_name(oid: ObjectId) -> Seq<char> {
    spec_decimal(oid.spec_as_u64() as nat) + ".json"@
}

/// The name of the file that holds an object's payload, and of the
/// directory that holds a session: the identifier in decimal.
pub open spec fn spec_id_name(id: SessionId) -> Seq<char> {
    spec_decimal(id.spec_as_u64() as nat)
}

/// The name of a session's directory within the storage directory.
pub fn session_dir_name(sid: &SessionId) -> (name: String)
    ensures
        name@ == spec_id_name(*sid),
{
    sid.to_string()
}

/// The name of an object's payload file within its session's directory.
pub fn object_file_name(oid: &ObjectId) -> (name: String)
    ensures
        name@ == spec_id_name(*oid),
{
    oid.to_string()
}

/// The name of an object's metadata file within its session's directory.
pub fn object_metadata_name(oid: &ObjectId) -> (name: String)
    ensures
        name@ == spec_metadata_name(*oid),
{
    let mut name = oid.to_string();
    name.append(".json");
    name
}

/// The path of an entry of that name in that directory.
pub open spec fn spec_join(dir: Seq<char>, name: Seq<char>) -> Seq<char> {
    dir + seq!['/'] + name
}

fn join(dir: &str, name: &str) -> (path: String)
    ensures
        path@ == spec_join(dir@, name@),
{
    proof {
        reveal_strlit("/");
    }
    let mut path = String::from_str(dir);
    path.append("/");
    path.append(name);
    assert(path@ =~= spec_join(dir@, name@));
    path
}

/// Where the sessions of a storage directory are kept: each session in a
/// directory of its own, named by its identifier, which holds the
/// session's record and, if it has one, its secret.
#[derive(Debug)]
pub struct SessionFsRepository {
    dir: String,
}

impl SessionFsRepository {
    /// The storage directory.
    pub closed spec fn spec_dir(&self) -> Seq<char> {
        self.dir@
    }

    pub open spec fn spec_session_dir_path(&self, sid: SessionId) -> Seq<char> {
        spec_join(self.spec_dir(), spec_id_name(sid))
    }

    pub fn new(dir: &str) -> (repository: Self)
        ensures
            repository.spec_dir() == dir@,
    {
        SessionFsRepository { dir: String::from_str(dir) }
    }

    pub fn session_dir_path(&self, sid: &SessionId) -> (path: String)
        ensures
            path@ == self.spec_session_dir_path(*sid),
    {
        join(self.dir.as_str(), session_dir_name(sid).as_str())
    }

    pub fn session_file_path(&self, sid: &SessionId) -> (path: String)
        ensures
            path@ == spec_join(self.spec_session_dir_path(*sid), SESSION_FILE@),
    {
        join(self.session_dir_path(sid).as_str(), SESSION_FILE)
    }

    pub fn session_auth_key_path(&self, sid: &SessionId) -> (path: String)
        ensures
            path@ == spec_join(self.spec_session_dir_path(*sid), SESSION_AUTH_KEY_FILE@),
    {
        join(self.session_dir_path(sid).as_str(), SESSION_AUTH_KEY_FILE)
    }

    /// Where the objects of a session are kept: in the session's
    /// directory.
    pub fn object_repository(&self, sid: &SessionId) -> (objects: ObjectFsRepository)
        ensures
            objects.spec_dir() == self.spec_session_dir_path(*sid),
    {
        ObjectFsRepository { dir: self.session_dir_path(sid) }
    }
}

/// Where the objects of one session are kept: in the session's directory,
/// the metadata and the payload of each object in a file of its own, beside
/// the session's record and its secret.
#[derive(Debug)]
pub struct ObjectFsRepository {
    dir: String,
}

impl ObjectFsRepository {
    /// The session's directory.
    pub closed spec fn spec_dir(&self) -> Seq<char> {
        self.dir@
    }

    pub fn new(dir: &str) -> (repository: Self)
        ensures
            repository.spec_dir() == dir@,
    {
        ObjectFsRepository { dir: String::from_str(dir) }
    }

    pub fn session_file_path(&self) -> (path: String)
        ensures
            path@ == spec_join(self.spec_dir(), SESSION_FILE@),
    {
        join(self.dir.as_str(), SESSION_FILE)
    }

    pub fn session_auth_key_path(&self) -> (path: String)
        ensures
            path@ == spec_join(self.spec_dir(), SESSION_AUTH_KEY_FILE@),
    {
        join(self.dir.as_str(), SESSION_AUTH_KEY_FILE)
    }

    pub fn object_metadata_path(&self, oid: &ObjectId) -> (path: String)
        ensures
            path@ == spec_join(self.spec_dir(), spec_metadata_name(*oid)),
    {
        join(self.dir.as_str(), object_metadata_name(oid).as_str())
    }

    pub fn object_file_path(&self, oid: &ObjectId) -> (path: String)
        ensures
            path@ == spec_join(self.spec_dir(), spec_id_name(*oid)),
    {
        join(self.dir.as_str(), object_file_name(oid).as_str())
    }
}

/// Entries of different names in one directory have different paths.
pub proof fn lemma_join_keeps_names_apart(dir: Seq<char>, a: Seq<char>, b: Seq<char>)
    ensures
        spec_join(dir, a) == spec_join(dir, b) ==> a == b,
{
    if spec_join(dir, a) == spec_join(dir, b) {
        let pa = spec_join(dir, a);
        let pb = spec_join(dir, b);
        assert(pa.len() == dir.len() + 1 + a.len());
        assert(pb.len() == dir.len() + 1 + b.len());
        assert(a =~= b) by {
            assert forall|i: int| 0 <= i < a.len() implies a[i] == b[i] by {
                assert(pa[dir.len() + 1 + i] == a[i]);
                assert(pb[dir.len() + 1 + i] == b[i]);
            }
        }
    }
}

/// Whether a session is there, by what was learnt of its record file: it
/// is where the record is a file; it is not where nothing is at that place;
/// any other failure stands.
pub open spec fn spec_exists_from(metadata: Result<bool, RepositoryError>) -> Result<bool, RepositoryError> {
    match metadata {
        Ok(is_file) => Ok(is_file),
        Err(RepositoryError::NotFound) => Ok(false),
        Err(e) => Err(e),
    }
}

pub fn exists_from(metadata: Result<bool, RepositoryError>) -> (found: Result<bool, RepositoryError>)
    ensures
        found == spec_exists_from(metadata),
{
    match metadata {
        Ok(is_file) => Ok(is_file),
        Err(RepositoryError::NotFound) => Ok(false),
        Err(e) => Err(e),
    }
}

/// What removing an object's payload comes to: a payload that was not
/// there is no failure, since not every object has one.
pub open spec fn spec_payload_removed(removal: Result<(), RepositoryError>) -> Result<(), RepositoryError> {
    match removal {
        Ok(_) => Ok(()),
        Err(RepositoryError::NotFound) => Ok(()),
        Err(e) => Err(e),
    }
}

pub fn payload_removed(removal: Result<(), RepositoryError>) -> (done: Result<(), RepositoryError>)
    ensures
        done == spec_payload_removed(removal),
{
    match removal {
        Ok(_) => Ok(()),
        Err(RepositoryError::NotFound) => Ok(()),
        Err(e) => Err(e),
    }
}

/// No two identifiers share a name: two sessions never share a directory,
/// and two objects of a session never share a payload file or a metadata
/// file.
pub proof fn lemma_names_differ(a: ObjectId, b: ObjectId)
    ensures
        spec_id_name(a) == spec_id_name(b) ==> a == b,
        spec_metadata_name(a) == spec_metadata_name(b) ==> a == b,
{
    lemma_decimal_round_trip(a.spec_as_u64());
    lemma_decimal_round_trip(b.spec_as_u64());
    ObjectId::lemma_equal_by_value(a, b);
    let da = spec_decimal(a.spec_as_u64() as nat);
    let db = spec_decimal(b.spec_as_u64() as nat);
    if spec_metadata_name(a) == spec_metadata_name(b) {
        reveal_strlit(".json");
        assert(".json"@.len() == 5);
        assert(spec_metadata_name(a).len() == da.len() + 5);
        assert(spec_metadata_name(b).len() == db.len() + 5);
        assert(da.len() == db.len());
        assert(da =~= db) by {
            assert forall|i: int| 0 <= i < da.len() implies da[i] == db[i] by {
                assert(spec_metadata_name(a)[i] == da[i]);
                assert(spec_metadata_name(b)[i] == db[i]);
            }
        }
    }
}

/// Within a session's directory the files keep apart: no object's payload
/// file is an object's metadata file, and neither is the session's record
/// or its secret.
pub proof fn lemma_files_keep_apart(a: ObjectId, b: ObjectId)
    ensures
        spec_id_name(a) != spec_metadata_name(b),
        spec_id_name(a) != SESSION_FILE@,
        spec_id_name(a) != SESSION_AUTH_KEY_FILE@,
        spec_metadata_name(b) != SESSION_FILE@,
        spec_metadata_name(b) != SESSION_AUTH_KEY_FILE@,
{
    reveal_strlit(".json");
    reveal_strlit("session.json");
    reveal_strlit("authkey.txt");
    lemma_decimal_digits(a.spec_as_u64() as nat);
    lemma_decimal_digits(b.spec_as_u64() as nat);
    let da = spec_decimal(a.spec_as_u64() as nat);
    let db = spec_decimal(b.spec_as_u64() as nat);
    let meta = spec_metadata_name(b);
    // A name made of digits alone holds no dot and starts with no letter.
    assert(meta.len() == db.len() + 5);
    assert(meta[db.len() as int] == '.');
    assert(meta[0] == db[0]);
    assert(spec_digit_value(da[0]) is Some);
    assert(spec_digit_value(db[0]) is Some);
    if da == meta {
        assert(spec_digit_value(da[db.len() as int]) is Some);
    }
}

} // verus!
