use connector::config::AppConfig;
use connector::registry::model::{
    check_update_path, health_service_path, passing_status_body, registry_json, self_check_id,
    HeathCheck, Registry, ServiceEntry, ServiceInfo,
};
use connector::registry::upstream::health_check_url;
use connector::result::{succeed, HttpResult, ServiceError, ServiceValue};
use connector::text::u64_to_string;

#[test]
fn directory_paths() {
    assert_eq!(
        health_service_path("UserService"),
        "/v1/health/service/UserService?passing=true"
    );
    assert_eq!(check_update_path("connector-n1"), "/v1/agent/check/update/connector-n1");
    assert_eq!(self_check_id("connector", "n1"), "connector-n1");
    assert_eq!(health_check_url("10.0.0.2", 8080), "http://10.0.0.2:8080/health/check");
}

#[test]
fn instance_address_joins_host_and_port() {
    let info = ServiceInfo::new(
        "id-1".to_string(),
        "svc".to_string(),
        "10.1.2.3".to_string(),
        9090,
    );
    assert_eq!(info.address(), "10.1.2.3:9090");
    assert_eq!(info.id(), "id-1");
    assert_eq!(info.name(), "svc");
    let entry = ServiceEntry::new(info);
    assert_eq!(entry.info().id(), "id-1");
    assert_eq!(entry.service().id(), "id-1");
}

#[test]
fn registration_body() {
    let check = HeathCheck::new(30, "connector-n1".to_string(), "connector".to_string());
    assert_eq!(check.ttl(), 30);
    assert_eq!(check.ttl_text(), "30s");
    assert_eq!(check.check_id(), "connector-n1");
    assert_eq!(check.name(), "connector");
    let reg = Registry::new(
        "n1".to_string(),
        "connector".to_string(),
        "10.0.0.5".to_string(),
        50051,
        check,
    );
    assert_eq!(reg.id(), "n1");
    assert_eq!(reg.name(), "connector");
    assert_eq!(reg.address(), "10.0.0.5");
    assert_eq!(reg.port(), 50051);
    assert_eq!(
        registry_json(&reg),
        "{\"ID\":\"n1\",\"Name\":\"connector\",\"Address\":\"10.0.0.5\",\"Port\":50051,\"Check\":{\"TTL\":\"30s\",\"CheckID\":\"connector-n1\",\"Name\":\"connector\"}}"
    );
    assert_eq!(passing_status_body(), "{\"Status\":\"passing\"}");
}

#[test]
fn config_getters_return_what_was_loaded() {
    let c = AppConfig::new(
        "n1".to_string(),
        "connector".to_string(),
        "0.0.0.0".to_string(),
        8080,
        "0.0.0.0".to_string(),
        50051,
        30,
        "consul".to_string(),
        8500,
    );
    assert_eq!(c.service_id(), "n1");
    assert_eq!(c.service_name(), "connector");
    assert_eq!(c.http_host(), "0.0.0.0");
    assert_eq!(c.http_port(), 8080);
    assert_eq!(c.grpc_host(), "0.0.0.0");
    assert_eq!(c.grpc_port(), 50051);
    assert_eq!(c.refresh_ttl_secs(), 30);
    assert_eq!(c.consul_host(), "consul");
    assert_eq!(c.consul_port(), 8500);
}

#[test]
fn service_value_builders() {
    let v: ServiceValue<u32> = succeed();
    assert_eq!(v.code, 200);
    assert!(v.message.is_none());
    assert!(v.data.is_none());
    let v = v.with_code(201).with_message("made".to_string()).with_data(7);
    assert_eq!(v.code, 201);
    assert_eq!(v.message.as_deref(), Some("made"));
    assert_eq!(v.data, Some(7));
}

#[test]
fn http_codes_of_service_errors() {
    let r: HttpResult<u32> =
        HttpResult::of_service_error(&ServiceError::TonicTransportError("x".to_string()));
    assert_eq!(r.code, 502);
    let r: HttpResult<u32> =
        HttpResult::of_service_error(&ServiceError::GprcStatusError("x".to_string()));
    assert_eq!(r.code, 500);
    let r: HttpResult<u32> = HttpResult::of_service_error(&ServiceError::UpstreamUnaccesibleError);
    assert_eq!(r.code, 502);
    let built: HttpResult<u32> = HttpResult::new(404, None, None);
    assert_eq!(built.code, 404);
}

#[test]
fn decimal_text_forms() {
    assert_eq!(u64_to_string(0), "0");
    assert_eq!(u64_to_string(42), "42");
    assert_eq!(u64_to_string(u64::MAX), "18446744073709551615");
}
