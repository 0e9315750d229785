//! The cache protocol's decision logic: interpreting the remote store's
//! integer replies. The network calls themselves live in the unverified
//! shell, which hands the raw replies in.

use vstd::prelude::*;

verus! {

/// Failure of a cache operation.
#[derive(Debug, Clone, PartialEq, Eq)]
pub enum CacheError {
    /// Connecting to or talking with the remote store failed.
    Connection(String),
    /// The store answered with a value the protocol does not allow.
    UnexpectedResponse,
}

/// Reads a flag reply (`HSET`, `HDEL`): 1 means the field was created or
/// removed, 0 that it already existed or was absent, and anything else is
/// a protocol violation.
pub fn interpret_flag_reply(n: i64) -> (r: Result<bool, CacheError>)
    ensures
        n == 0 ==> r == Ok::<bool, CacheError>(false),
        n == 1 ==> r == Ok::<bool, CacheError>(true),
        !(n == 0 || n == 1) ==> r == Err::<bool, CacheError>(CacheError::UnexpectedResponse),
{
    if n == 0 {
        Ok(false)
    } else if n == 1 {
        Ok(true)
    } else {
        Err(CacheError::UnexpectedResponse)
    }
}

/// The well-known hash that records which connector node serves each user.
pub fn online_users_hash_key() -> (r: String)
    ensures
        r@ == "user:connector"@,
{
    String::from_str("user:connector")
}

} // verus!
