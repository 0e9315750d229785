use connector::registry::model::{ServiceEntry, ServiceInfo};
use connector::registry::store::{build_service_records, ConsistHashStore, ServiceData, Store};
use connector::result::ServiceError;
use connector::router::{pick_or_unaccessible, route_request};
use connector::codec::ReqMessage;
use connector::model::{CreateMessageReq, ListMessagesReq, RegisterUserReq};
use connector::upstream::{Service, UpstreamRouter};

fn record(id: &str, port: u16, extra: u32) -> ServiceData<u32> {
    ServiceData::new(
        ServiceEntry::new(ServiceInfo::new(
            id.to_string(),
            "svc".to_string(),
            "10.0.0.1".to_string(),
            port,
        )),
        extra,
    )
}

fn held_ids(store: &ConsistHashStore<u32>) -> Vec<String> {
    let mut ids: Vec<String> =
        store.list().iter().map(|d| d.entry().info().id().to_string()).collect();
    ids.sort();
    ids
}

#[test]
fn empty_store_picks_nothing() {
    let store: ConsistHashStore<u32> = ConsistHashStore::new(5);
    assert!(store.pick("k").is_none());
    assert!(store.list().is_empty());
}

#[test]
fn empty_store_reports_upstream_unaccessible() {
    let store: ConsistHashStore<u32> = ConsistHashStore::new(5);
    match pick_or_unaccessible(&store, "k") {
        Err(ServiceError::UpstreamUnaccesibleError) => {}
        other => panic!("expected UpstreamUnaccesibleError, got {:?}", other.is_ok()),
    }
}

#[test]
fn update_replaces_records_exactly() {
    let mut store: ConsistHashStore<u32> = ConsistHashStore::new(5);
    store.update(vec![record("a", 1, 10), record("b", 2, 20)]);
    assert_eq!(held_ids(&store), vec!["a".to_string(), "b".to_string()]);

    let picked = store.pick("some-key").expect("non-empty store must pick");
    let id = picked.entry().info().id().to_string();
    assert!(id == "a" || id == "b");

    // convergence after a refresh: the removed instance stops being returned
    store.update(vec![record("b", 2, 21), record("c", 3, 30)]);
    assert_eq!(held_ids(&store), vec!["b".to_string(), "c".to_string()]);
    for key in ["k1", "k2", "k3", "k4"] {
        let d = store.pick(key).unwrap();
        assert_ne!(d.entry().info().id(), "a");
    }
}

#[test]
fn repeated_id_in_one_batch_keeps_the_later_record() {
    let mut store: ConsistHashStore<u32> = ConsistHashStore::new(3);
    store.update(vec![record("a", 1, 10), record("a", 1, 11)]);
    let listed = store.list();
    assert_eq!(listed.len(), 1);
    assert_eq!(*listed[0].extra_data(), 11);
}

#[test]
fn clear_empties_the_store() {
    let mut store: ConsistHashStore<u32> = ConsistHashStore::new(3);
    store.update(vec![record("a", 1, 10)]);
    store.clear();
    assert!(store.pick("k").is_none());
    assert!(store.list().is_empty());
}

#[test]
fn build_service_records_pairs_in_order() {
    let entries = vec![
        ServiceEntry::new(ServiceInfo::new(
            "a".to_string(),
            "svc".to_string(),
            "h".to_string(),
            1,
        )),
        ServiceEntry::new(ServiceInfo::new(
            "b".to_string(),
            "svc".to_string(),
            "h".to_string(),
            2,
        )),
    ];
    let records = build_service_records(entries, vec![7u32, 8u32]);
    assert_eq!(records.len(), 2);
    assert_eq!(records[0].entry().info().id(), "a");
    assert_eq!(*records[0].extra_data(), 7);
    assert_eq!(records[1].entry().info().id(), "b");
    assert_eq!(*records[1].extra_data(), 8);
}

#[test]
fn upstream_router_pools_are_independent() {
    let mut router: UpstreamRouter<u32> = UpstreamRouter::new(3);
    assert!(router.pick_service(&Service::UserService, "k").is_none());
    router.update_service_list(&Service::UserService, vec![record("user-1", 1, 1)]);
    assert!(router.pick_service(&Service::UserService, "k").is_some());
    assert!(router.pick_service(&Service::ChannelService, "k").is_none());
    assert!(router.pick_service(&Service::MessageService, "k").is_none());
}

#[test]
fn route_request_follows_the_dispatch_table() {
    let (svc, key) = route_request(&ReqMessage::RegisterUser(RegisterUserReq {
        username: "alice".to_string(),
        password: "p".to_string(),
    }));
    assert_eq!(svc, Service::UserService);
    assert_eq!(key, "alice");

    let (svc, key) = route_request(&ReqMessage::CreateMessage(CreateMessageReq {
        channel_id: "c1".to_string(),
        user_id: "u1".to_string(),
        content: "x".to_string(),
    }));
    assert_eq!(svc, Service::MessageService);
    assert_eq!(key, "u1");

    let (svc, key) = route_request(&ReqMessage::ListMessages(ListMessagesReq {
        channel_id: "c9".to_string(),
        limit: 1,
        latest_time: 0,
    }));
    assert_eq!(svc, Service::MessageService);
    assert_eq!(key, "c9");
}

#[test]
fn service_names_match_discovery() {
    assert_eq!(Service::UserService.to_string(), "user-service");
    assert_eq!(Service::ChannelService.to_string(), "channel-service");
    assert_eq!(Service::MessageService.to_string(), "message-service");
}
