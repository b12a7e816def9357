use webdrop::models::crypto::KDFParams;
use webdrop::models::event::{Event, EventName};
use webdrop::models::object::Upload;
use webdrop::models::session::{CreateSession, Session};
use webdrop::models::snowflake::SnowflakeId;
use webdrop::models::timestamp::Timestamp;
use webdrop::registries::{register, SessionRegistry};
use webdrop::repositories::error::RepositoryError;
use webdrop::repositories::object::ObjectMemRepository;
use webdrop::repositories::session::{SessionMemRepository, SessionRepository};
use webdrop::services::object::{self, ObjectError, ObjectService};
use webdrop::services::session::{self, SessionError, SessionService};
use webdrop::services::websocket::{WebSocketError, WebSocketService};

const BACKLOG: usize = 256;

fn kdf() -> KDFParams {
    KDFParams { name: "PBKDF2".to_owned(), hash: "SHA-256".to_owned(), iterations: 1000, salt: "c2FsdA==".to_owned() }
}

fn secret(encoded: &str) -> Option<CreateSession> {
    Some(CreateSession { auth_key: encoded.to_owned(), kdf_params: kdf() })
}

fn names(batch: std::collections::VecDeque<Event>) -> Vec<EventName> {
    batch.into_iter().map(|e| e.name).collect()
}

fn new_object_service(sid: SnowflakeId, req: Option<CreateSession>) -> ObjectService<ObjectMemRepository> {
    ObjectService::new(ObjectMemRepository::new(Session::new(sid, req)))
}

#[test]
fn end_to_end_scenario() {
    let mut sessions = SessionService::new(SessionMemRepository::new(), BACKLOG);
    let mut websockets: SessionRegistry<WebSocketService> = register();
    let mut objects: SessionRegistry<ObjectService<ObjectMemRepository>> = register();

    let s = sessions.create(secret("azE=")).unwrap().id;
    assert!(sessions.auth(&s, b"k1").is_ok());
    assert!(matches!(sessions.auth(&s, b"wrong"), Err(SessionError::AuthFail)));

    let observer = websockets
        .get_or_create(&s, || Ok::<_, ()>(WebSocketService::new(BACKLOG)))
        .unwrap()
        .subscribe();
    objects.get_or_create(&s, || Ok::<_, ()>(new_object_service(s, secret("azE=")))).unwrap();

    let uploaded = {
        let bus = websockets.get_mut(&s).unwrap();
        let service = objects.get_mut(&s).unwrap();
        service.upload(bus, Upload::new("{\"name\":\"hello.txt\"}".to_owned()), b"hello".to_vec()).unwrap()
    };
    let service = objects.get(&s).unwrap();
    let listed = service.list().unwrap();
    assert_eq!(listed.len(), 1);
    assert_eq!(listed[0].id, uploaded.id);
    assert_eq!(service.download(&uploaded.id).unwrap(), b"hello");

    {
        let bus = websockets.get_mut(&s).unwrap();
        let service = objects.get_mut(&s).unwrap();
        service.delete(bus, &uploaded.id).unwrap();
    }
    assert!(objects.get(&s).unwrap().list().unwrap().is_empty());

    let mut detached = sessions.delete(&s, &mut websockets, &mut objects).unwrap();
    let batch: Vec<Event> = detached.pop(observer).unwrap().into_iter().collect();
    assert_eq!(
        batch.iter().map(|e| e.name).collect::<Vec<_>>(),
        vec![EventName::ObjectCreated, EventName::ObjectDeleted, EventName::SessionDeleted]
    );
    assert_eq!(batch[0].data, Some(uploaded.id));
    assert_eq!(batch[1].data, Some(uploaded.id));
    assert_eq!(batch[2].data, None);
    assert_eq!(batch.last().unwrap().name, EventName::SessionDeleted);

    assert!(!websockets.contains(&s));
    assert!(!objects.contains(&s));
    assert_eq!(sessions.session_exists(&s).unwrap(), false);
    let fresh = websockets.get_or_create(&s, || Ok::<_, ()>(WebSocketService::new(BACKLOG))).unwrap();
    fresh.publish(Event::new(EventName::ObjectCreated, None));
    assert_eq!(fresh.pop(observer), None);
    assert!(detached.pop(observer).unwrap().is_empty());
}

#[test]
fn session_service_create_get_exists() {
    let mut sessions = SessionService::new(SessionMemRepository::new(), 8);
    let created = sessions.create(None).unwrap();
    assert!(created.crypto.is_none());
    assert_eq!(sessions.session_exists(&created.id).unwrap(), true);
    let got = sessions.get(&created.id).unwrap();
    assert_eq!(got.id, created.id);
    assert_eq!(got.creation_time, created.creation_time);
    let unknown = SnowflakeId::from_u64(created.id.as_u64() ^ 1);
    assert_eq!(sessions.session_exists(&unknown).unwrap(), false);
    assert!(matches!(sessions.get(&unknown), Err(SessionError::NotFound)));
    assert_eq!(sessions.repository().list().unwrap(), vec![created.id]);
}

#[test]
fn session_service_auth_without_secret_succeeds() {
    let mut sessions = SessionService::new(SessionMemRepository::new(), 8);
    let s = sessions.create(None).unwrap().id;
    assert!(sessions.auth(&s, b"").is_ok());
    assert!(sessions.auth(&s, b"anything").is_ok());
}

#[test]
fn session_service_auth_reports_a_failing_store() {
    let mut sessions = SessionService::new(SessionMemRepository::new(), 8);
    let s = sessions.create(secret("%%%")).unwrap().id;
    assert!(matches!(sessions.auth(&s, b"k1"), Err(SessionError::Other(RepositoryError::Other(_)))));
}

#[test]
fn session_delete_of_unknown_session_publishes_and_evicts_nothing() {
    let mut sessions = SessionService::new(SessionMemRepository::new(), 8);
    let mut websockets: SessionRegistry<WebSocketService> = register();
    let mut objects: SessionRegistry<u8> = register();
    let other = SnowflakeId::from_u64(1);
    let unknown = SnowflakeId::from_u64(2);
    let observer = websockets.insert_if_absent(&other, WebSocketService::new(8)).subscribe();
    let watcher = websockets.insert_if_absent(&unknown, WebSocketService::new(8)).subscribe();
    objects.insert_if_absent(&unknown, 5);
    let result = sessions.delete(&unknown, &mut websockets, &mut objects);
    assert!(matches!(result, Err(SessionError::NotFound)));
    assert!(websockets.contains(&unknown));
    assert!(objects.contains(&unknown));
    assert!(!websockets.get(&unknown).unwrap().has_pending(watcher));
    assert!(!websockets.get(&other).unwrap().has_pending(observer));
}

#[test]
fn session_delete_reaches_only_its_own_observers() {
    let mut sessions = SessionService::new(SessionMemRepository::new(), 8);
    let mut websockets: SessionRegistry<WebSocketService> = register();
    let mut objects: SessionRegistry<u8> = register();
    let at = Timestamp { secs: 0, nanos: 0 };
    let a = SnowflakeId::from_u64(1);
    let b = SnowflakeId::from_u64(2);
    let mut repo = SessionMemRepository::new();
    repo.create_at(a, at, None).unwrap();
    repo.create_at(b, at, None).unwrap();
    sessions = SessionService::new(repo, sessions.repository().list().unwrap().len() + 8);
    let on_a = websockets.insert_if_absent(&a, WebSocketService::new(8)).subscribe();
    let on_b = websockets.insert_if_absent(&b, WebSocketService::new(8)).subscribe();
    objects.insert_if_absent(&a, 1);
    objects.insert_if_absent(&b, 2);
    let mut detached = sessions.delete(&a, &mut websockets, &mut objects).unwrap();
    assert_eq!(names(detached.pop(on_a).unwrap()), vec![EventName::SessionDeleted]);
    assert!(!websockets.contains(&a));
    assert!(!objects.contains(&a));
    assert!(!websockets.get(&b).unwrap().has_pending(on_b));
    assert_eq!(objects.get(&b), Some(&2));
    assert_eq!(sessions.session_exists(&a).unwrap(), false);
    assert_eq!(sessions.session_exists(&b).unwrap(), true);
}

#[test]
fn session_delete_without_a_bus_builds_one_to_publish_on() {
    let mut sessions = SessionService::new(SessionMemRepository::new(), 3);
    let mut websockets: SessionRegistry<WebSocketService> = register();
    let mut objects: SessionRegistry<u8> = register();
    let s = sessions.create(None).unwrap().id;
    let detached = sessions.delete(&s, &mut websockets, &mut objects).unwrap();
    assert_eq!(detached.backlog(), 3);
    assert_eq!(detached.next_id(), 0);
    assert!(!websockets.contains(&s));
}

#[test]
fn object_service_put_get_delete() {
    let mut bus = WebSocketService::new(8);
    let observer = bus.subscribe();
    let mut service = new_object_service(SnowflakeId::from_u64(1), None);
    let put = service.put(&mut bus, Upload::new("{\"a\":1}".to_owned())).unwrap();
    let got = service.get(&put.id).unwrap();
    assert_eq!(got.id, put.id);
    assert_eq!(got.timestamp, put.timestamp);
    assert_eq!(got.content, "{\"a\":1}");
    assert_eq!(got.mime, None);
    assert!(matches!(service.download(&put.id), Err(ObjectError::NotFound)));

    service.delete(&mut bus, &put.id).unwrap();
    assert!(matches!(service.get(&put.id), Err(ObjectError::NotFound)));
    assert!(matches!(service.download(&put.id), Err(ObjectError::NotFound)));
    assert!(service.list().unwrap().is_empty());

    let batch: Vec<Event> = bus.pop(observer).unwrap().into_iter().collect();
    assert_eq!(batch.len(), 2);
    assert_eq!((batch[0].name, batch[0].data), (EventName::ObjectCreated, Some(put.id)));
    assert_eq!((batch[1].name, batch[1].data), (EventName::ObjectDeleted, Some(put.id)));
}

#[test]
fn object_service_failure_publishes_nothing() {
    let mut bus = WebSocketService::new(8);
    let observer = bus.subscribe();
    let mut service = new_object_service(SnowflakeId::from_u64(1), None);
    let unknown = SnowflakeId::from_u64(77);
    assert!(matches!(service.delete(&mut bus, &unknown), Err(ObjectError::NotFound)));
    assert!(!bus.has_pending(observer));
    assert!(bus.pop(observer).unwrap().is_empty());
}

#[test]
fn object_service_auth() {
    let locked = new_object_service(SnowflakeId::from_u64(1), secret("azE="));
    assert_eq!(locked.auth(b"k1").unwrap(), true);
    assert_eq!(locked.auth(b"wrong").unwrap(), false);
    let broken = new_object_service(SnowflakeId::from_u64(1), secret("?"));
    assert!(matches!(broken.auth(b"k1"), Err(ObjectError::Other(_))));
}

#[test]
fn websocket_service_publishes_to_subscribers() {
    let mut bus = WebSocketService::new(2);
    let a = bus.subscribe();
    let first = Event::at(EventName::ObjectCreated, None, Timestamp { secs: 1, nanos: 0 });
    let second = Event::at(EventName::ObjectDeleted, None, Timestamp { secs: 2, nanos: 0 });
    let third = Event::at(EventName::SessionDeleted, None, Timestamp { secs: 3, nanos: 0 });
    bus.publish(first);
    let b = bus.subscribe();
    bus.publish(second);
    bus.publish(third);
    let got_a: Vec<Event> = bus.pop(a).unwrap().into_iter().collect();
    let got_b: Vec<Event> = bus.pop(b).unwrap().into_iter().collect();
    assert_eq!(got_a, vec![second, third]);
    assert_eq!(got_b, vec![second, third]);
    assert!(bus.unsubscribe(a).is_some());
    bus.publish(first);
    assert_eq!(bus.pop(a), None);
    assert_eq!(names(bus.pop(b).unwrap()), vec![EventName::ObjectCreated]);
}

#[test]
fn websocket_service_auth_asks_the_session_store() {
    let mut repo = SessionMemRepository::new();
    let s = SnowflakeId::from_u64(1);
    let broken = SnowflakeId::from_u64(2);
    repo.create_at(s, Timestamp { secs: 0, nanos: 0 }, secret("azE=")).unwrap();
    repo.create_at(broken, Timestamp { secs: 0, nanos: 0 }, secret("!")).unwrap();
    let bus = WebSocketService::new(1);
    assert_eq!(bus.auth(&repo, &s, b"k1").unwrap(), true);
    assert_eq!(bus.auth(&repo, &s, b"k2").unwrap(), false);
    assert!(matches!(bus.auth(&repo, &broken, b"k1"), Err(WebSocketError::Other(_))));
}

#[test]
fn errors_normalize_and_describe_themselves() {
    assert!(matches!(session::normalize_error(RepositoryError::NotFound), SessionError::NotFound));
    assert!(matches!(
        session::normalize_error(RepositoryError::other("io")),
        SessionError::Other(RepositoryError::Other(_))
    ));
    assert!(matches!(object::normalize_error(RepositoryError::NotFound), ObjectError::NotFound));
    assert!(matches!(
        object::normalize_error(RepositoryError::other("io")),
        ObjectError::Other(RepositoryError::Other(_))
    ));
    assert_eq!(session::normalize_result(Ok::<u8, RepositoryError>(3)).unwrap(), 3);
    assert!(matches!(
        object::normalize_result(Err::<u8, RepositoryError>(RepositoryError::NotFound)),
        Err(ObjectError::NotFound)
    ));
    assert_eq!(SessionError::NotFound.to_string(), "Session not found");
    assert_eq!(SessionError::AuthFail.to_string(), "Authentication failed");
    assert_eq!(SessionError::Other(RepositoryError::other("disk full")).to_string(), "disk full");
    assert_eq!(ObjectError::NotFound.to_string(), "Object not found");
    assert_eq!(ObjectError::Other(RepositoryError::other("disk full")).to_string(), "disk full");
    assert_eq!(WebSocketError::Other(RepositoryError::NotFound).to_string(), "Not found");
}
