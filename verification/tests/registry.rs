use webdrop::models::snowflake::SnowflakeId;
use webdrop::registries::{register, SessionRegistry};
use webdrop::services::websocket::WebSocketService;

fn sid(value: u64) -> SnowflakeId {
    SnowflakeId::from_u64(value)
}

#[test]
fn register_gives_an_empty_registry() {
    let registry: SessionRegistry<u32> = register();
    assert_eq!(registry.len(), 0);
    assert!(!registry.contains(&sid(1)));
    assert_eq!(registry.get(&sid(1)), None);
    assert!(registry.keys().is_empty());
}

#[test]
fn get_or_create_builds_once() {
    let mut registry: SessionRegistry<u32> = register();
    let mut built = 0;
    for _ in 0..5 {
        let service = registry
            .get_or_create(&sid(7), || {
                built += 1;
                Ok::<u32, ()>(40 + built)
            })
            .unwrap();
        assert_eq!(*service, 41);
    }
    assert_eq!(built, 1);
    assert_eq!(registry.len(), 1);
    assert_eq!(registry.get(&sid(7)), Some(&41));
}

#[test]
fn get_or_create_keeps_nothing_when_the_constructor_fails() {
    let mut registry: SessionRegistry<u32> = register();
    let failed = registry.get_or_create(&sid(7), || Err::<u32, &str>("no directory"));
    assert_eq!(failed, Err("no directory"));
    assert!(!registry.contains(&sid(7)));
    assert_eq!(registry.len(), 0);
    let retried = registry.get_or_create(&sid(7), || Ok::<u32, &str>(3));
    assert_eq!(retried, Ok(&mut 3));
    assert!(registry.contains(&sid(7)));
}

#[test]
fn sessions_do_not_share_services() {
    let mut registry: SessionRegistry<u32> = register();
    registry.get_or_create(&sid(1), || Ok::<u32, ()>(10)).unwrap();
    registry.get_or_create(&sid(2), || Ok::<u32, ()>(20)).unwrap();
    assert_eq!(registry.get(&sid(1)), Some(&10));
    assert_eq!(registry.get(&sid(2)), Some(&20));
    let mut keys: Vec<u64> = registry.keys().iter().map(|k| k.as_u64()).collect();
    keys.sort();
    assert_eq!(keys, vec![1, 2]);
}

#[test]
fn first_offer_wins() {
    let mut registry: SessionRegistry<u32> = register();
    assert_eq!(*registry.insert_if_absent(&sid(1), 100), 100);
    assert_eq!(*registry.insert_if_absent(&sid(1), 200), 100);
    assert_eq!(*registry.insert_if_absent(&sid(1), 300), 100);
    assert_eq!(registry.len(), 1);
    assert_eq!(registry.get(&sid(1)), Some(&100));
}

#[test]
fn get_mut_changes_the_service_in_place() {
    let mut registry: SessionRegistry<u32> = register();
    registry.insert_if_absent(&sid(1), 1);
    registry.insert_if_absent(&sid(2), 2);
    *registry.get_mut(&sid(1)).unwrap() = 11;
    assert_eq!(registry.get(&sid(1)), Some(&11));
    assert_eq!(registry.get(&sid(2)), Some(&2));
    assert_eq!(registry.get_mut(&sid(3)), None);
}

#[test]
fn remove_evicts_one_session_only() {
    let mut registry: SessionRegistry<u32> = register();
    registry.insert_if_absent(&sid(1), 1);
    registry.insert_if_absent(&sid(2), 2);
    registry.insert_if_absent(&sid(3), 3);
    assert_eq!(registry.remove(&sid(2)), Some(2));
    assert_eq!(registry.remove(&sid(2)), None);
    assert!(!registry.contains(&sid(2)));
    assert_eq!(registry.get(&sid(1)), Some(&1));
    assert_eq!(registry.get(&sid(3)), Some(&3));
    assert_eq!(registry.len(), 2);
}

#[test]
fn a_service_built_after_eviction_is_new() {
    let mut registry: SessionRegistry<WebSocketService> = register();
    let observer = {
        let bus = registry
            .get_or_create(&sid(9), || Ok::<_, ()>(WebSocketService::new(4)))
            .unwrap();
        bus.subscribe()
    };
    let old_bus = registry.remove(&sid(9)).unwrap();
    assert!(old_bus.has_pending(observer) == false);
    let bus = registry
        .get_or_create(&sid(9), || Ok::<_, ()>(WebSocketService::new(4)))
        .unwrap();
    assert_eq!(bus.next_id(), 0);
    assert_eq!(bus.pop(observer), None);
}
