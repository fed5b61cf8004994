//! When a request is sent again, and how long to wait before that.

use vstd::prelude::*;

use crate::text::{parse_u64, parse_u64_spec};

verus! {

/// How often a request is sent again at most.
pub const MAX_RETRIES: u8 = 3;

/// The seconds to wait where the server names none.
pub const DEFAULT_DELAY: u64 = 5;

/// The statuses after which a request is sent again: too many requests,
/// and service unavailable.
pub open spec fn is_retryable(code: u16) -> bool {
    code == 429 || code == 503
}

/// The seconds to wait before a request is sent again: the number in the
/// `retry-after` header, or five where the header is missing or holds no
/// number of seconds.
pub open spec fn retry_delay_of(retry_after: Option<Seq<char>>) -> u64 {
    match retry_after {
        Some(text) => match parse_u64_spec(text) {
            Some(seconds) => seconds,
            None => DEFAULT_DELAY,
        },
        None => DEFAULT_DELAY,
    }
}

/// Whether a request that was answered with `code` is sent again, after
/// it was sent again `retries` times already.
pub fn should_retry(code: u16, retries: u8) -> (r: bool)
    ensures
        r == (is_retryable(code) && retries < MAX_RETRIES),
{
    (code == 429 || code == 503) && retries < MAX_RETRIES
}

/// The seconds to wait before a request is sent again.
pub fn retry_delay(retry_after: Option<&str>) -> (r: u64)
    ensures
        r == retry_delay_of(
            match retry_after {
                Some(text) => Some(text@),
                None => None,
            },
        ),
{
    match retry_after {
        Some(text) => match parse_u64(text) {
            Some(seconds) => seconds,
            None => DEFAULT_DELAY,
        },
        None => DEFAULT_DELAY,
    }
}

} // verus!
