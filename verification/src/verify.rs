//! The request-authorization decision of the middleware: a request passes
//! when its authorization header carries a configured token, or when it asks
//! for the one path that is open to everyone.

use crate::config::token_allowed;
use crate::polling::ServState;
use vstd::prelude::*;

verus! {

/// Whether a request may proceed: its header token, if any, is among the
/// configured tokens, or its path is the open test path. The surrounding
/// layer extracts the header and forwards the decision.
pub fn request_allowed<V, H>(state: &ServState<V, H>, path: &String, auth_token: Option<&String>) -> (r:
    bool)
    ensures
        r == ({
            ||| match auth_token {
                Some(t) => token_allowed(state.config_spec().allow_tokens@, t@),
                None => false,
            }
            ||| path@ == "/test"@
        }),
{
    let token_ok = match auth_token {
        Some(t) => state.verify_token(t),
        None => false,
    };
    if token_ok {
        true
    } else {
        *path == "/test".to_owned()
    }
}

} // verus!
