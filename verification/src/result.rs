//! Service-call results: the success envelope, the error kinds of the
//! request path, and their HTTP presentation.

use vstd::prelude::*;

verus! {

/// Failure of one request against an upstream service. Transport and
/// status errors carry the rendered message of the underlying call.
#[derive(Debug, Clone, PartialEq, Eq)]
pub enum ServiceError {
    TonicTransportError(String),
    GprcStatusError(String),
    UpstreamUnaccesibleError,
}

/// The envelope of every successful service call.
#[derive(Debug, Clone, PartialEq, Eq)]
pub struct ServiceValue<T> {
    pub code: u16,
    pub message: Option<String>,
    pub data: Option<T>,
}

impl<T> ServiceValue<T> {
    /// A bare success: code 200, no message, no data.
    pub fn default() -> (r: Self)
        ensures
            r.code == 200,
            r.message is None,
            r.data is None,
    {
        Self { code: 200, message: None, data: None }
    }

    pub fn with_code(self, code: u16) -> (r: Self)
        ensures
            r.code == code,
            r.message == self.message,
            r.data == self.data,
    {
        Self { code, ..self }
    }

    pub fn with_message(self, message: String) -> (r: Self)
        ensures
            r.code == self.code,
            r.message == Some(message),
            r.data == self.data,
    {
        Self { message: Some(message), ..self }
    }

    pub fn with_data(self, data: T) -> (r: Self)
        ensures
            r.code == self.code,
            r.message == self.message,
            r.data == Some(data),
    {
        Self { data: Some(data), ..self }
    }
}

/// A bare success envelope.
pub fn succeed<T>() -> (r: ServiceValue<T>)
    ensures
        r.code == 200,
        r.message is None,
        r.data is None,
{
    ServiceValue::default()
}

/// An HTTP-shaped result body.
#[derive(Debug, Clone, PartialEq, Eq)]
pub struct HttpResult<T> {
    pub code: u16,
    pub message: Option<String>,
    pub data: Option<T>,
}

impl<T> HttpResult<T> {
    pub fn new(code: u16, message: Option<String>, data: Option<T>) -> (r: Self)
        ensures
            r.code == code,
            r.message == message,
            r.data == data,
    {
        Self { code, message, data }
    }

    /// How each service error presents over HTTP: unreachable upstreams and
    /// transport failures as 502, a failed call as 500.
    pub fn of_service_error(err: &ServiceError) -> (r: Self)
        ensures
            err is TonicTransportError ==> r.code == 502,
            err is GprcStatusError ==> r.code == 500,
            err is UpstreamUnaccesibleError ==> r.code == 502,
            r.message is None,
            r.data is None,
    {
        match err {
            ServiceError::TonicTransportError(_) => HttpResult::new(502, None, None),
            ServiceError::GprcStatusError(_) => HttpResult::new(500, None, None),
            ServiceError::UpstreamUnaccesibleError => HttpResult::new(502, None, None),
        }
    }
}

} // verus!
