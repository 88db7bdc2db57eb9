use vstd::prelude::*;

use crate::model::ErrorResponse;

verus! {

/// Environment variable that holds the expected reload token.
pub const RELOAD_TOKEN_ENV: &'static str = "XBP_RELOAD_TOKEN";

/// Request header that carries the reload token.
pub const RELOAD_TOKEN_HEADER: &'static str = "x-xbp-reload-token";

/// HTTP status of a reload request with a missing or wrong token.
pub const STATUS_FORBIDDEN: u16 = 403;

/// HTTP status of a reload that failed on the server's side.
pub const STATUS_INTERNAL_ERROR: u16 = 500;

/// Decides whether a reload request may proceed. `expected` is the
/// server-side token (absent when it is not configured), `provided` the
/// request's header value (absent when missing or unreadable). A reload is
/// refused with 500 when no token is configured, and with 403 when the
/// request presents no token or one that differs from the expected one.
pub fn authorize_reload(expected: &Option<String>, provided: &Option<String>) -> (r: Result<
    (),
    (u16, ErrorResponse),
>)
    ensures
        match expected {
            None => match r {
                Err((code, body)) => code == STATUS_INTERNAL_ERROR && body.error@
                    == "XBP_RELOAD_TOKEN is not set"@,
                Ok(_) => false,
            },
            Some(e) => match r {
                Ok(_) => provided is Some && provided->0@ == e@,
                Err((code, body)) => (provided is None || provided->0@ != e@) && code
                    == STATUS_FORBIDDEN && body.error@ == "forbidden"@,
            },
        },
{
    match expected {
        None => Err((
            STATUS_INTERNAL_ERROR,
            ErrorResponse { error: "XBP_RELOAD_TOKEN is not set".to_owned() },
        )),
        Some(e) => {
            let matches = match provided {
                Some(p) => p.eq(e),
                None => false,
            };
            if matches {
                Ok(())
            } else {
                Err((STATUS_FORBIDDEN, ErrorResponse { error: "forbidden".to_owned() }))
            }
        },
    }
}

} // verus!
