use webdrop::models::crypto::KDFParams;
use webdrop::models::object::{Object, Upload};
use webdrop::models::session::{CreateSession, Session};
use webdrop::models::snowflake::SnowflakeId;
use webdrop::models::timestamp::Timestamp;
use webdrop::repositories::auth::{check_auth_key, match_decoded};
use webdrop::repositories::error::RepositoryError;
use webdrop::repositories::fs::{
    exists_from, object_file_name, object_metadata_name, payload_removed, session_dir_name,
    ObjectFsRepository, SessionFsRepository,
};
use webdrop::repositories::object::{ObjectMemRepository, ObjectRepository};
use webdrop::repositories::session::{SessionMemRepository, SessionRepository};

fn kdf() -> KDFParams {
    KDFParams { name: "PBKDF2".to_owned(), hash: "SHA-256".to_owned(), iterations: 1000, salt: "c2FsdA==".to_owned() }
}

fn secret(encoded: &str) -> Option<CreateSession> {
    Some(CreateSession { auth_key: encoded.to_owned(), kdf_params: kdf() })
}

fn object(id: u64, content: &str) -> Object {
    Object {
        id: SnowflakeId::from_u64(id),
        timestamp: Timestamp { secs: 1, nanos: 2 },
        content: content.to_owned(),
        mime: Some("text/plain".to_owned()),
    }
}

fn is_other(error: &RepositoryError) -> bool {
    matches!(error, RepositoryError::Other(_))
}

#[test]
fn create_and_get_session() {
    let mut repo = SessionMemRepository::new();
    let sid = repo.create(None).unwrap().id;
    assert!(repo.session_exists(&sid).unwrap());
    let sess = repo.get(&sid).unwrap();
    assert_eq!(sess.id, sid);
}

#[test]
fn put_and_get_object() {
    let mut sessions = SessionMemRepository::new();
    let sid = sessions.create(None).unwrap().id;
    let mut repo = ObjectMemRepository::new(Session::new(sid, None));
    let upload = Upload::default();
    let oid = repo.put(upload).unwrap().id;
    let obj = repo.get(&oid).unwrap();
    assert_eq!(obj.id, oid);
}

#[test]
fn check_auth_key_decodes_the_stored_secret() {
    let stored = "azE=".to_owned();
    assert_eq!(check_auth_key(Some(&stored), b"k1").unwrap(), true);
    assert_eq!(check_auth_key(Some(&stored), b"wrong").unwrap(), false);
    assert_eq!(check_auth_key(Some(&stored), b"azE=").unwrap(), false);
    assert_eq!(check_auth_key(Some(&stored), b"").unwrap(), false);
    let hello = "aGVsbG8gd29ybGR+Cg==".to_owned();
    assert_eq!(check_auth_key(Some(&hello), b"hello world~\n").unwrap(), true);
    let empty = "".to_owned();
    assert_eq!(check_auth_key(Some(&empty), b"").unwrap(), true);
}

#[test]
fn check_auth_key_without_a_secret_lets_everyone_in() {
    assert_eq!(check_auth_key(None, b"anything").unwrap(), true);
    assert_eq!(check_auth_key(None, b"").unwrap(), true);
}

#[test]
fn check_auth_key_fails_on_a_secret_that_is_not_base64() {
    for stored in ["k1", "azE", "az=E", "a\u{e9}==", "azE=\n"] {
        let error = check_auth_key(Some(&stored.to_owned()), b"k1").unwrap_err();
        assert!(is_other(&error));
    }
}

#[test]
fn session_store_lifecycle() {
    let mut repo = SessionMemRepository::new();
    let sid = SnowflakeId::from_u64(42);
    let at = Timestamp { secs: 100, nanos: 5 };
    assert_eq!(repo.session_exists(&sid).unwrap(), false);
    assert!(matches!(repo.get(&sid), Err(RepositoryError::NotFound)));
    assert!(repo.list().unwrap().is_empty());

    let dto = repo.create_at(sid, at, secret("azE=")).unwrap();
    assert_eq!(dto.id, sid);
    assert_eq!(dto.creation_time, at);
    assert_eq!(dto.crypto.as_ref().unwrap().kdf_params.iterations, 1000);
    assert_eq!(repo.session_exists(&sid).unwrap(), true);
    let got = repo.get(&sid).unwrap();
    assert_eq!(got.id, sid);
    assert_eq!(got.creation_time, at);
    assert_eq!(got.crypto.unwrap().kdf_params.salt, "c2FsdA==");
    assert_eq!(repo.list().unwrap(), vec![sid]);

    let clash = repo.create_at(sid, at, None).unwrap_err();
    assert!(is_other(&clash));
    assert_eq!(repo.get(&sid).unwrap().creation_time, at);
    assert_eq!(repo.auth(&sid, b"k1").unwrap(), true);

    assert!(repo.delete(&sid).is_ok());
    assert_eq!(repo.session_exists(&sid).unwrap(), false);
    assert!(matches!(repo.get(&sid), Err(RepositoryError::NotFound)));
    assert!(matches!(repo.delete(&sid), Err(RepositoryError::NotFound)));
    assert!(repo.list().unwrap().is_empty());
}

#[test]
fn session_store_auth() {
    let mut repo = SessionMemRepository::new();
    let locked = SnowflakeId::from_u64(1);
    let open = SnowflakeId::from_u64(2);
    let broken = SnowflakeId::from_u64(3);
    let at = Timestamp { secs: 0, nanos: 0 };
    repo.create_at(locked, at, secret("azE=")).unwrap();
    repo.create_at(open, at, None).unwrap();
    repo.create_at(broken, at, secret("not base64!")).unwrap();
    assert_eq!(repo.auth(&locked, b"k1").unwrap(), true);
    assert_eq!(repo.auth(&locked, b"wrong").unwrap(), false);
    assert_eq!(repo.auth(&locked, b"").unwrap(), false);
    assert_eq!(repo.auth(&open, b"").unwrap(), true);
    assert_eq!(repo.auth(&open, b"whatever").unwrap(), true);
    assert!(is_other(&repo.auth(&broken, b"k1").unwrap_err()));
    let unknown = SnowflakeId::from_u64(4);
    assert_eq!(repo.auth(&unknown, b"k1").unwrap(), true);
    repo.delete(&locked).unwrap();
    assert_eq!(repo.auth(&locked, b"wrong").unwrap(), true);
}

#[test]
fn session_store_keeps_sessions_apart() {
    let mut repo = SessionMemRepository::new();
    let a = repo.create(None).unwrap().id;
    let b = repo.create_at(SnowflakeId::from_u64(a.as_u64() ^ 1), Timestamp { secs: 0, nanos: 0 }, None).unwrap().id;
    assert_ne!(a, b);
    let mut listed: Vec<u64> = repo.list().unwrap().iter().map(|s| s.as_u64()).collect();
    listed.sort();
    let mut expected = vec![a.as_u64(), b.as_u64()];
    expected.sort();
    assert_eq!(listed, expected);
    repo.delete(&a).unwrap();
    assert_eq!(repo.session_exists(&a).unwrap(), false);
    assert_eq!(repo.session_exists(&b).unwrap(), true);
}

#[test]
fn object_store_put_get_round_trips_all_fields() {
    let mut repo = ObjectMemRepository::new(Session::new(SnowflakeId::from_u64(1), None));
    let put = repo.put_object(object(10, "{\"name\":\"a.txt\"}")).unwrap();
    assert_eq!(put.id.as_u64(), 10);
    let got = repo.get(&SnowflakeId::from_u64(10)).unwrap();
    assert_eq!(got.id.as_u64(), 10);
    assert_eq!(got.timestamp, Timestamp { secs: 1, nanos: 2 });
    assert_eq!(got.content, "{\"name\":\"a.txt\"}");
    assert_eq!(got.mime, Some("text/plain".to_owned()));
}

#[test]
fn object_store_lists_newest_first() {
    let mut repo = ObjectMemRepository::new(Session::new(SnowflakeId::from_u64(1), None));
    assert!(repo.list().unwrap().is_empty());
    repo.put_object(object(1, "a")).unwrap();
    repo.upload_object(object(2, "b"), b"bytes".to_vec()).unwrap();
    repo.put_object(object(3, "c")).unwrap();
    let listed: Vec<u64> = repo.list().unwrap().iter().map(|o| o.id.as_u64()).collect();
    assert_eq!(listed, vec![3, 2, 1]);
}

#[test]
fn object_store_rejects_an_identifier_in_use() {
    let mut repo = ObjectMemRepository::new(Session::new(SnowflakeId::from_u64(1), None));
    repo.put_object(object(1, "a")).unwrap();
    assert!(is_other(&repo.put_object(object(1, "b")).unwrap_err()));
    assert!(is_other(&repo.upload_object(object(1, "c"), vec![1]).unwrap_err()));
    assert_eq!(repo.list().unwrap().len(), 1);
    assert_eq!(repo.get(&SnowflakeId::from_u64(1)).unwrap().content, "a");
    assert!(matches!(repo.download(&SnowflakeId::from_u64(1)), Err(RepositoryError::NotFound)));
}

#[test]
fn object_store_download_needs_metadata_and_payload() {
    let mut repo = ObjectMemRepository::new(Session::new(SnowflakeId::from_u64(1), None));
    repo.put_object(object(1, "no payload")).unwrap();
    repo.upload_object(object(2, "payload"), b"hello".to_vec()).unwrap();
    assert!(matches!(repo.download(&SnowflakeId::from_u64(1)), Err(RepositoryError::NotFound)));
    assert_eq!(repo.download(&SnowflakeId::from_u64(2)).unwrap(), b"hello");
    assert!(matches!(repo.download(&SnowflakeId::from_u64(3)), Err(RepositoryError::NotFound)));
}

#[test]
fn object_store_delete_removes_metadata_and_payload() {
    let mut repo = ObjectMemRepository::new(Session::new(SnowflakeId::from_u64(1), None));
    repo.upload_object(object(1, "a"), b"one".to_vec()).unwrap();
    repo.upload_object(object(2, "b"), b"two".to_vec()).unwrap();
    assert!(repo.delete(&SnowflakeId::from_u64(1)).is_ok());
    assert!(matches!(repo.get(&SnowflakeId::from_u64(1)), Err(RepositoryError::NotFound)));
    assert!(matches!(repo.download(&SnowflakeId::from_u64(1)), Err(RepositoryError::NotFound)));
    assert!(matches!(repo.delete(&SnowflakeId::from_u64(1)), Err(RepositoryError::NotFound)));
    assert_eq!(repo.get(&SnowflakeId::from_u64(2)).unwrap().content, "b");
    assert_eq!(repo.download(&SnowflakeId::from_u64(2)).unwrap(), b"two");
    assert_eq!(repo.list().unwrap().len(), 1);
    repo.upload_object(object(1, "again"), b"new".to_vec()).unwrap();
    assert_eq!(repo.download(&SnowflakeId::from_u64(1)).unwrap(), b"new");
}

#[test]
fn object_store_put_and_upload_stamp_new_objects() {
    let mut repo = ObjectMemRepository::new(Session::new(SnowflakeId::from_u64(1), None));
    let a = repo.put(Upload::new("\"a\"".to_owned())).unwrap();
    assert_eq!(a.content, "\"a\"");
    assert_eq!(a.mime, None);
    let listed = repo.list().unwrap();
    assert_eq!(listed.len(), 1);
    assert_eq!(listed[0].id, a.id);
    assert_eq!(listed[0].timestamp, a.timestamp);
    match repo.upload(Upload::new("\"b\"".to_owned()), b"payload".to_vec()) {
        Ok(b) => {
            assert_ne!(b.id, a.id);
            assert_eq!(repo.download(&b.id).unwrap(), b"payload");
            assert_eq!(repo.list().unwrap()[0].id, b.id);
        }
        Err(e) => {
            assert!(is_other(&e));
            assert_eq!(repo.list().unwrap().len(), 1);
        }
    }
}

#[test]
fn object_store_auth_uses_the_session_secret() {
    let sid = SnowflakeId::from_u64(1);
    let locked = ObjectMemRepository::new(Session::new(sid, secret("azE=")));
    assert_eq!(locked.auth(b"k1").unwrap(), true);
    assert_eq!(locked.auth(b"wrong").unwrap(), false);
    let open = ObjectMemRepository::new(Session::new(sid, None));
    assert_eq!(open.auth(b"wrong").unwrap(), true);
    let broken = ObjectMemRepository::new(Session::new(sid, secret("***")));
    assert!(is_other(&broken.auth(b"k1").unwrap_err()));
}

#[test]
fn repository_errors_have_messages() {
    assert_eq!(RepositoryError::NotFound.to_string(), "Not found");
    assert_eq!(RepositoryError::other("disk full").to_string(), "disk full");
}

#[test]
fn storage_layout_names_entries_by_identifier() {
    let sessions = SessionFsRepository::new("storage");
    let sid = SnowflakeId::from_u64(1234);
    let oid = SnowflakeId::from_u64(99);
    assert_eq!(sessions.session_dir_path(&sid), "storage/1234");
    assert_eq!(sessions.session_file_path(&sid), "storage/1234/session.json");
    assert_eq!(sessions.session_auth_key_path(&sid), "storage/1234/authkey.txt");
    let objects = sessions.object_repository(&sid);
    assert_eq!(objects.session_file_path(), "storage/1234/session.json");
    assert_eq!(objects.session_auth_key_path(), "storage/1234/authkey.txt");
    assert_eq!(objects.object_metadata_path(&oid), "storage/1234/99.json");
    assert_eq!(objects.object_file_path(&oid), "storage/1234/99");
    let direct = ObjectFsRepository::new("storage/1234");
    assert_eq!(direct.object_file_path(&oid), objects.object_file_path(&oid));
    assert_eq!(session_dir_name(&sid), "1234");
    assert_eq!(object_file_name(&oid), "99");
    assert_eq!(object_metadata_name(&oid), "99.json");
}

#[test]
fn storage_decisions() {
    assert_eq!(exists_from(Ok(true)).unwrap(), true);
    assert_eq!(exists_from(Ok(false)).unwrap(), false);
    assert_eq!(exists_from(Err(RepositoryError::NotFound)).unwrap(), false);
    assert!(is_other(&exists_from(Err(RepositoryError::other("denied"))).unwrap_err()));
    assert!(payload_removed(Ok(())).is_ok());
    assert!(payload_removed(Err(RepositoryError::NotFound)).is_ok());
    assert!(is_other(&payload_removed(Err(RepositoryError::other("denied"))).unwrap_err()));
}

#[test]
fn match_decoded_compares_byte_for_byte() {
    assert_eq!(match_decoded(Some(b"k1".to_vec()), b"k1").unwrap(), true);
    assert_eq!(match_decoded(Some(b"k1".to_vec()), b"k2").unwrap(), false);
    assert_eq!(match_decoded(Some(b"k1".to_vec()), b"k1 ").unwrap(), false);
    assert_eq!(match_decoded(Some(vec![]), b"").unwrap(), true);
    assert!(is_other(&match_decoded(None, b"k1").unwrap_err()));
}

#[test]
fn object_store_upload_never_overwrites_a_payload() {
    let mut repo = ObjectMemRepository::new(Session::new(SnowflakeId::from_u64(1), None));
    repo.upload_object(object(5, "first"), b"old".to_vec()).unwrap();
    assert!(is_other(&repo.upload_object(object(5, "second"), b"new".to_vec()).unwrap_err()));
    assert_eq!(repo.download(&SnowflakeId::from_u64(5)).unwrap(), b"old");
    assert_eq!(repo.get(&SnowflakeId::from_u64(5)).unwrap().content, "first");
    assert_eq!(repo.list().unwrap().len(), 1);
}
