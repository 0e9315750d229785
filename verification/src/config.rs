//! The node's configuration, immutable after load. The file reading and
//! decoding live in the unverified shell, which hands the plain fields in.

use vstd::prelude::*;

verus! {

/// Identity, listen addresses, directory address and heartbeat TTL of this
/// connector node.
#[derive(Debug, Clone)]
pub struct AppConfig {
    service_id: String,
    service_name: String,
    http_host: String,
    http_port: u16,
    grpc_host: String,
    grpc_port: u16,
    refresh_ttl_secs: u64,
    consul_host: String,
    consul_port: u16,
}

impl AppConfig {
    pub closed spec fn spec_service_id(&self) -> Seq<char> {
        self.service_id@
    }

    pub closed spec fn spec_service_name(&self) -> Seq<char> {
        self.service_name@
    }

    pub closed spec fn spec_http_host(&self) -> Seq<char> {
        self.http_host@
    }

    pub closed spec fn spec_http_port(&self) -> u16 {
        self.http_port
    }

    pub closed spec fn spec_grpc_host(&self) -> Seq<char> {
        self.grpc_host@
    }

    pub closed spec fn spec_grpc_port(&self) -> u16 {
        self.grpc_port
    }

    pub closed spec fn spec_refresh_ttl_secs(&self) -> u64 {
        self.refresh_ttl_secs
    }

    pub closed spec fn spec_consul_host(&self) -> Seq<char> {
        self.consul_host@
    }

    pub closed spec fn spec_consul_port(&self) -> u16 {
        self.consul_port
    }

    pub fn new(
        service_id: String,
        service_name: String,
        http_host: String,
        http_port: u16,
        grpc_host: String,
        grpc_port: u16,
        refresh_ttl_secs: u64,
        consul_host: String,
        consul_port: u16,
    ) -> (r: Self)
        ensures
            r.spec_service_id() == service_id@,
            r.spec_service_name() == service_name@,
            r.spec_http_host() == http_host@,
            r.spec_http_port() == http_port,
            r.spec_grpc_host() == grpc_host@,
            r.spec_grpc_port() == grpc_port,
            r.spec_refresh_ttl_secs() == refresh_ttl_secs,
            r.spec_consul_host() == consul_host@,
            r.spec_consul_port() == consul_port,
    {
        Self {
            service_id,
            service_name,
            http_host,
            http_port,
            grpc_host,
            grpc_port,
            refresh_ttl_secs,
            consul_host,
            consul_port,
        }
    }

    pub fn service_id(&self) -> (r: &str)
        ensures
            r@ == self.spec_service_id(),
    {
        self.service_id.as_str()
    }

    pub fn service_name(&self) -> (r: &str)
        ensures
            r@ == self.spec_service_name(),
    {
        self.service_name.as_str()
    }

    pub fn http_host(&self) -> (r: &str)
        ensures
            r@ == self.spec_http_host(),
    {
        self.http_host.as_str()
    }

    pub fn http_port(&self) -> (r: u16)
        ensures
            r == self.spec_http_port(),
    {
        self.http_port
    }

    pub fn grpc_host(&self) -> (r: &str)
        ensures
            r@ == self.spec_grpc_host(),
    {
        self.grpc_host.as_str()
    }

    pub fn grpc_port(&self) -> (r: u16)
        ensures
            r == self.spec_grpc_port(),
    {
        self.grpc_port
    }

    pub fn refresh_ttl_secs(&self) -> (r: u64)
        ensures
            r == self.spec_refresh_ttl_secs(),
    {
        self.refresh_ttl_secs
    }

    pub fn consul_host(&self) -> (r: &str)
        ensures
            r@ == self.spec_consul_host(),
    {
        self.consul_host.as_str()
    }

    pub fn consul_port(&self) -> (r: u16)
        ensures
            r == self.spec_consul_port(),
    {
        self.consul_port
    }
}

} // verus!
