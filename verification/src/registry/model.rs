//! Records exchanged with the service directory: listed healthy instances,
//! and this node's own registration with its TTL health check.

use vstd::prelude::*;

use crate::codec::{str_enc, write_json_string};
use crate::text::{dec_u64, push_char, u64_to_string};

verus! {

/// One healthy instance as listed by the directory.
pub struct ServiceEntry {
    service: ServiceInfo,
}

impl ServiceEntry {
    pub closed spec fn spec_info(&self) -> ServiceInfo {
        self.service
    }

    pub fn new(service: ServiceInfo) -> (r: Self)
        ensures
            r.spec_info() == service,
    {
        Self { service }
    }

    pub fn info(&self) -> (r: &ServiceInfo)
        ensures
            *r == self.spec_info(),
    {
        &self.service
    }

    pub fn service(&self) -> (r: &ServiceInfo)
        ensures
            *r == self.spec_info(),
    {
        &self.service
    }
}

/// Identity and address of a listed instance.
pub struct ServiceInfo {
    id: String,
    service: String,
    address: String,
    port: u16,
}

impl ServiceInfo {
    pub closed spec fn spec_id(&self) -> Seq<char> {
        self.id@
    }

    pub closed spec fn spec_name(&self) -> Seq<char> {
        self.service@
    }

    pub closed spec fn spec_address(&self) -> Seq<char> {
        self.address@
    }

    pub closed spec fn spec_port(&self) -> u16 {
        self.port
    }

    pub fn new(id: String, service: String, address: String, port: u16) -> (r: Self)
        ensures
            r.spec_id() == id@,
            r.spec_name() == service@,
            r.spec_address() == address@,
            r.spec_port() == port,
    {
        Self { id, service, address, port }
    }

    pub fn id(&self) -> (r: &str)
        ensures
            r@ == self.spec_id(),
    {
        self.id.as_str()
    }

    /// The dialable `host:port` form of the instance's address.
    pub fn address(&self) -> (r: String)
        ensures
            r@ == self.spec_address() + seq![':'] + dec_u64(self.spec_port() as nat),
    {
        let mut s = self.address.clone();
        push_char(&mut s, ':');
        let digits = u64_to_string(self.port as u64);
        s.append(digits.as_str());
        proof {
            assert(s@ =~= self.spec_address() + seq![':'] + dec_u64(self.spec_port() as nat));
        }
        s
    }

    pub fn name(&self) -> (r: &str)
        ensures
            r@ == self.spec_name(),
    {
        self.service.as_str()
    }

    /// Whether this instance's id reads `other`.
    pub fn id_is(&self, other: &String) -> (r: bool)
        ensures
            r == (self.spec_id() == other@),
    {
        self.id.eq(other)
    }
}

/// TTL health check attached to this node's own registration. The TTL is
/// held in whole seconds.
pub struct HeathCheck {
    pub ttl: u64,
    pub check_id: String,
    pub name: String,
}

impl HeathCheck {
    pub fn new(ttl: u64, check_id: String, name: String) -> (r: Self)
        ensures
            r.ttl == ttl,
            r.check_id@ == check_id@,
            r.name@ == name@,
    {
        Self { ttl, check_id, name }
    }

    pub fn ttl(&self) -> (r: u64)
        ensures
            r == self.ttl,
    {
        self.ttl
    }

    pub fn check_id(&self) -> (r: &str)
        ensures
            r@ == self.check_id@,
    {
        self.check_id.as_str()
    }

    pub fn name(&self) -> (r: &str)
        ensures
            r@ == self.name@,
    {
        self.name.as_str()
    }

    /// The TTL as the directory writes it: `"<seconds>s"`.
    pub fn ttl_text(&self) -> (r: String)
        ensures
            r@ == dec_u64(self.ttl as nat) + seq!['s'],
    {
        let mut s = u64_to_string(self.ttl);
        push_char(&mut s, 's');
        s
    }
}

/// This node's own registration record.
pub struct Registry {
    id: String,
    name: String,
    address: String,
    port: u16,
    check: HeathCheck,
}

impl Registry {
    pub closed spec fn spec_id(&self) -> Seq<char> {
        self.id@
    }

    pub closed spec fn spec_name(&self) -> Seq<char> {
        self.name@
    }

    pub closed spec fn spec_address(&self) -> Seq<char> {
        self.address@
    }

    pub closed spec fn spec_port(&self) -> u16 {
        self.port
    }

    pub closed spec fn spec_check(&self) -> HeathCheck {
        self.check
    }

    pub fn new(id: String, name: String, address: String, port: u16, check: HeathCheck) -> (r:
        Self)
        ensures
            r.spec_id() == id@,
            r.spec_name() == name@,
            r.spec_address() == address@,
            r.spec_port() == port,
            r.spec_check() == check,
    {
        Self { id, name, address, port, check }
    }

    pub fn id(&self) -> (r: &str)
        ensures
            r@ == self.spec_id(),
    {
        self.id.as_str()
    }

    pub fn name(&self) -> (r: &str)
        ensures
            r@ == self.spec_name(),
    {
        self.name.as_str()
    }

    pub fn address(&self) -> (r: &str)
        ensures
            r@ == self.spec_address(),
    {
        self.address.as_str()
    }

    pub fn port(&self) -> (r: u16)
        ensures
            r == self.spec_port(),
    {
        self.port
    }

    pub fn check(&self) -> (r: &HeathCheck)
        ensures
            *r == self.spec_check(),
    {
        &self.check
    }
}

/// The directory path that lists the healthy instances of a service.
pub fn health_service_path(service: &str) -> (r: String)
    ensures
        r@ == "/v1/health/service/"@ + service@ + "?passing=true"@,
{
    let mut s = String::from_str("/v1/health/service/");
    s.append(service);
    s.append("?passing=true");
    proof {
        assert(s@ =~= "/v1/health/service/"@ + service@ + "?passing=true"@);
    }
    s
}

/// The directory path that refreshes a TTL health check.
pub fn check_update_path(check_id: &str) -> (r: String)
    ensures
        r@ == "/v1/agent/check/update/"@ + check_id@,
{
    let mut s = String::from_str("/v1/agent/check/update/");
    s.append(check_id);
    s
}

/// The check identifier this node registers: `"<service_name>-<service_id>"`.
pub fn self_check_id(service_name: &str, service_id: &str) -> (r: String)
    ensures
        r@ == service_name@ + seq!['-'] + service_id@,
{
    let mut s = service_name.to_owned();
    push_char(&mut s, '-');
    s.append(service_id);
    proof {
        assert(s@ =~= service_name@ + seq!['-'] + service_id@);
    }
    s
}

/// The registration body as the directory's API reads it.
pub open spec fn spec_registry_json(r: Registry) -> Seq<char> {
    "{\"ID\":"@ + str_enc(r.spec_id()) + ",\"Name\":"@ + str_enc(r.spec_name())
        + ",\"Address\":"@ + str_enc(r.spec_address()) + ",\"Port\":"@ + dec_u64(
        r.spec_port() as nat,
    ) + ",\"Check\":{\"TTL\":"@ + str_enc(dec_u64(r.spec_check().ttl as nat) + seq!['s'])
        + ",\"CheckID\":"@ + str_enc(r.spec_check().check_id@) + ",\"Name\":"@ + str_enc(
        r.spec_check().name@,
    ) + "}}"@
}

/// Writes the registration body this node PUTs to the directory.
pub fn registry_json(r: &Registry) -> (out: String)
    ensures
        out@ == spec_registry_json(*r),
{
    let mut s = String::from_str("{\"ID\":");
    write_json_string(&mut s, r.id());
    s.append(",\"Name\":");
    write_json_string(&mut s, r.name());
    s.append(",\"Address\":");
    write_json_string(&mut s, r.address());
    s.append(",\"Port\":");
    let digits = u64_to_string(r.port() as u64);
    s.append(digits.as_str());
    s.append(",\"Check\":{\"TTL\":");
    let ttl_text = r.check().ttl_text();
    write_json_string(&mut s, ttl_text.as_str());
    s.append(",\"CheckID\":");
    write_json_string(&mut s, r.check().check_id());
    s.append(",\"Name\":");
    write_json_string(&mut s, r.check().name());
    s.append("}}");
    proof {
        assert(s@ =~= spec_registry_json(*r));
    }
    s
}

/// The heartbeat body that marks this node's check as passing.
pub fn passing_status_body() -> (r: String)
    ensures
        r@ == "{\"Status\":\"passing\"}"@,
{
    String::from_str("{\"Status\":\"passing\"}")
}

/// Cadence of the periodic registry refresh, in seconds.
pub const REFRESH_INTERVAL_SECS: u64 = 30;

/// The heartbeat runs at half the check's TTL, so a beat is never late.
pub fn heartbeat_interval_secs(ttl_secs: u64) -> (r: u64)
    ensures
        r == ttl_secs / 2,
{
    ttl_secs / 2
}

} // verus!
