//! Fresh identifiers and the current time.
//!
//! Both come from outside this crate and differ from call to call, so the
//! contracts here state only what holds of every value that can come back.

use vstd::prelude::*;
use vstd::string::StringExecFns;

verus! {

/// Whether `c` is one of `0`..`9`, `a`..`f`.
pub open spec fn is_lower_hex(c: char) -> bool {
    ('0' <= c && c <= '9') || ('a' <= c && c <= 'f')
}

/// Whether `token` is 32 lower-case hexadecimal digits.
pub open spec fn is_token(token: Seq<char>) -> bool {
    &&& token.len() == 32
    &&& forall|i: int| 0 <= i < 32 ==> is_lower_hex(#[trigger] token[i])
}

/// Whether `id` has the shape of a response id: `classify-` and a token.
pub open spec fn is_response_id(id: Seq<char>) -> bool {
    exists|token: Seq<char>| is_token(token) && id == "classify-"@ + token
}

/// Draws a random version-4 UUID with `uuid::Uuid::new_v4` and renders it
/// with `Uuid::simple`: 32 lower-case hexadecimal digits without hyphens.
/// Which digits is a matter of chance and is not stated; `uuid` panics if the
/// operating system's source of randomness fails.
#[verifier::external_body]
fn random_token() -> (token: String)
    ensures
        is_token(token@),
{
    uuid::Uuid::new_v4().simple().to_string()
}

/// Reads the clock with `chrono::Utc::now` and converts with
/// `DateTime::timestamp`: whole seconds since the Unix epoch. The clock is
/// read as a duration since the epoch, so the value is never negative;
/// `chrono` panics if the system clock is set before the epoch.
#[verifier::external_body]
fn unix_seconds() -> (seconds: i64)
    ensures
        seconds >= 0,
{
    chrono::Utc::now().timestamp()
}

/// The response id made of the given token.
pub fn response_id(token: &str) -> (id: String)
    ensures
        id@ == "classify-"@ + token@,
{
    String::from_str("classify-").concat(token)
}

/// A response id that has not been handed out before, except by chance.
pub fn fresh_response_id() -> (id: String)
    ensures
        is_response_id(id@),
{
    let token = random_token();
    response_id(token.as_str())
}

/// The current time in whole seconds since the Unix epoch.
pub fn now() -> (seconds: i64)
    ensures
        seconds >= 0,
{
    unix_seconds()
}

} // verus!
