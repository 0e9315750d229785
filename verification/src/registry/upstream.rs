//! Records of the HTTP-checked registration path: what this node sends to
//! the directory when it registers an HTTP health check.

use vstd::prelude::*;

use crate::text::{dec_u64, push_char, u64_to_string};

verus! {

/// One listed instance.
#[derive(Debug, Clone, PartialEq, Eq)]
pub struct ServiceInstance {
    pub service: ServiceInfo,
}

/// Name and address of a listed instance.
#[derive(Debug, Clone, PartialEq, Eq)]
pub struct ServiceInfo {
    pub service: String,
    pub address: String,
    pub port: u16,
}

/// An HTTP health check the directory polls.
#[derive(Debug, Clone, PartialEq, Eq)]
pub struct HealthCheck {
    pub http: String,
    pub interval: String,
}

/// A registration carrying an HTTP health check.
#[derive(Debug, Clone, PartialEq, Eq)]
pub struct RegisterService {
    pub id: String,
    pub name: String,
    pub address: String,
    pub port: u16,
    pub health: HealthCheck,
}

/// The URL the directory polls to check this node:
/// `http://<host>:<port>/health/check`.
pub fn health_check_url(host: &str, port: u16) -> (r: String)
    ensures
        r@ == "http://"@ + host@ + seq![':'] + dec_u64(port as nat) + "/health/check"@,
{
    let mut s = String::from_str("http://");
    s.append(host);
    push_char(&mut s, ':');
    let digits = u64_to_string(port as u64);
    s.append(digits.as_str());
    s.append("/health/check");
    proof {
        assert(s@ =~= "http://"@ + host@ + seq![':'] + dec_u64(port as nat) + "/health/check"@);
    }
    s
}

} // verus!
