use webdrop::models::crypto::KDFParams;
use webdrop::models::event::{Event, EventName};
use webdrop::models::file::{FileUpload, Kind, UnknownKindError, UUID_V4_BITS, UUID_V4_MASK};
use webdrop::models::object::{Object, Upload};
use webdrop::models::session::{CreateSession, Session};
use webdrop::models::snowflake::SnowflakeId;
use webdrop::models::timestamp::Timestamp;

fn kdf() -> KDFParams {
    KDFParams { name: "PBKDF2".to_owned(), hash: "SHA-256".to_owned(), iterations: 1000, salt: "c2FsdA==".to_owned() }
}

fn object(id: u64, content: &str) -> Object {
    Object {
        id: SnowflakeId::from_u64(id),
        timestamp: Timestamp { secs: 1, nanos: 0 },
        content: content.to_owned(),
        mime: None,
    }
}

fn ids(session: &Session) -> Vec<u64> {
    session.objects.iter().map(|o| o.id.as_u64()).collect()
}

#[test]
fn event_names_have_their_texts() {
    assert_eq!(EventName::ObjectCreated.to_string(), "object.created");
    assert_eq!(EventName::ObjectDeleted.to_string(), "object.deleted");
    assert_eq!(EventName::SessionDeleted.to_string(), "session.deleted");
    assert_eq!(EventName::SessionDeleted.as_str(), "session.deleted");
    assert!(EventName::SessionDeleted.is_session_deleted());
    assert!(!EventName::ObjectCreated.is_session_deleted());
}

#[test]
fn events_carry_name_and_data() {
    let id = SnowflakeId::from_u64(17);
    let event = Event::new(EventName::ObjectCreated, Some(id));
    assert_eq!(event.name, EventName::ObjectCreated);
    assert_eq!(event.data, Some(id));
    assert!(event.timestamp.secs > 1_700_000_000);
    let event = EventName::SessionDeleted.into_event();
    assert_eq!(event.name, EventName::SessionDeleted);
    assert_eq!(event.data, None);
    let at = Timestamp { secs: 5, nanos: 6 };
    assert_eq!(
        Event::at(EventName::ObjectDeleted, Some(id), at),
        Event { name: EventName::ObjectDeleted, data: Some(id), timestamp: at }
    );
}

#[test]
fn timestamps_order_by_seconds_then_nanos() {
    let a = Timestamp { secs: 1, nanos: 999 };
    let b = Timestamp { secs: 2, nanos: 0 };
    let c = Timestamp { secs: 2, nanos: 1 };
    assert!(a.not_after(&b));
    assert!(!b.not_after(&a));
    assert!(b.not_after(&c));
    assert!(!c.not_after(&b));
    assert!(b.not_after(&b));
    let neg = Timestamp { secs: -1, nanos: 5 };
    assert!(neg.not_after(&a));
}

#[test]
fn kinds_round_trip_through_text() {
    for (kind, text) in [
        (Kind::Text, "text"),
        (Kind::Binary, "binary"),
        (Kind::Image, "image"),
        (Kind::Audio, "audio"),
        (Kind::Video, "video"),
    ] {
        assert_eq!(kind.to_string(), text);
        assert_eq!(Kind::from_str(text), Ok(kind));
        assert_eq!(Kind::from_str(&kind.to_string()), Ok(kind));
    }
}

#[test]
fn unknown_kinds_are_rejected() {
    for text in ["", "Text", "texts", "tex", "pdf", " text"] {
        assert_eq!(Kind::from_str(text), Err(UnknownKindError {}));
    }
}

#[test]
fn file_upload_becomes_a_file_with_a_v4_uuid() {
    let upload = FileUpload { name: "a.txt".to_owned(), mime: "text/plain".to_owned(), kind: Kind::Text };
    let file = upload.into_file();
    assert_eq!(file.name, "a.txt");
    assert_eq!(file.mime, "text/plain");
    assert_eq!(file.kind, Kind::Text);
    assert_eq!(file.id & UUID_V4_MASK, UUID_V4_BITS);
    assert_eq!((file.id >> 76) & 0xF, 4);
    assert_eq!((file.id >> 62) & 0x3, 2);
    let other = FileUpload { name: "b".to_owned(), mime: "x".to_owned(), kind: Kind::Binary }.into_file();
    assert_ne!(file.id, other.id);
    let fixed = FileUpload { name: "c".to_owned(), mime: "y".to_owned(), kind: Kind::Image }
        .into_file_with(9, Timestamp { secs: 3, nanos: 4 });
    assert_eq!(fixed.id, 9);
    assert_eq!(fixed.timestamp, Timestamp { secs: 3, nanos: 4 });
}

#[test]
fn upload_default_is_null() {
    assert_eq!(Upload::default().content, "null");
    assert_eq!(Upload::new("{\"name\":\"x\"}".to_owned()).content, "{\"name\":\"x\"}");
}

#[test]
fn upload_becomes_an_object() {
    let id = SnowflakeId::from_u64(5);
    let at = Timestamp { secs: 10, nanos: 20 };
    let object = Upload::new("\"c\"".to_owned()).into_object_with(id, at);
    assert_eq!(object.id, id);
    assert_eq!(object.timestamp, at);
    assert_eq!(object.content, "\"c\"");
    assert_eq!(object.mime, None);
    let made = Upload::new("1".to_owned()).try_into_object().unwrap();
    assert_eq!(made.content, "1");
    assert_eq!(made.mime, None);
    let dto = made.clone().into_dto();
    assert_eq!(dto.id, made.id);
    assert_eq!(dto.timestamp, made.timestamp);
    assert_eq!(dto.content, made.content);
    assert_eq!(dto.mime, made.mime);
}

#[test]
fn session_new_keeps_the_secret_and_has_no_objects() {
    let sid = SnowflakeId::from_u64(1);
    let session = Session::new(sid, None);
    assert_eq!(session.id, sid);
    assert!(session.objects.is_empty());
    assert!(session.crypto.is_none());
    let req = CreateSession { auth_key: "azE=".to_owned(), kdf_params: kdf() };
    let session = Session::new(sid, Some(req));
    let crypto = session.crypto.as_ref().unwrap();
    assert_eq!(crypto.auth_key, "azE=");
    assert_eq!(crypto.kdf_params.iterations, 1000);
    let dto = session.into_dto();
    assert_eq!(dto.id, sid);
    let crypto = dto.crypto.unwrap();
    assert_eq!(crypto.kdf_params.name, "PBKDF2");
    assert_eq!(crypto.kdf_params.hash, "SHA-256");
    assert_eq!(crypto.kdf_params.salt, "c2FsdA==");
}

#[test]
fn add_object_puts_the_newest_first() {
    let mut session = Session::opened_at(SnowflakeId::from_u64(1), None, Timestamp { secs: 0, nanos: 0 });
    session.add_object(object(1, "a"));
    session.add_object(object(2, "b"));
    session.add_object(object(3, "c"));
    assert_eq!(ids(&session), vec![3, 2, 1]);
}

#[test]
fn remove_object_takes_out_the_first_match_only() {
    let mut session = Session::opened_at(SnowflakeId::from_u64(1), None, Timestamp { secs: 0, nanos: 0 });
    session.add_object(object(1, "a"));
    session.add_object(object(2, "b"));
    session.add_object(object(1, "c"));
    session.remove_object(&SnowflakeId::from_u64(1));
    assert_eq!(ids(&session), vec![2, 1]);
    assert_eq!(session.objects[1].content, "a");
    session.remove_object(&SnowflakeId::from_u64(9));
    assert_eq!(ids(&session), vec![2, 1]);
    session.remove_object(&SnowflakeId::from_u64(2));
    session.remove_object(&SnowflakeId::from_u64(1));
    assert!(session.objects.is_empty());
    session.remove_object(&SnowflakeId::from_u64(1));
    assert!(session.objects.is_empty());
}
