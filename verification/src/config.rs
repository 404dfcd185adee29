//! Server configuration: listen address, TLS material, per-class job limits
//! and the set of accepted authorization tokens.

use vstd::prelude::*;

verus! {

/// Configuration supplied once at startup. `job_limits` maps a job class name
/// to its concurrency limit; a class with no entry is unlimited. The list is
/// searched front to back, so the first entry for a name wins.
#[derive(Clone, Debug)]
pub struct Config {
    pub auth: bool,
    pub listen_addr: String,
    pub private_cert: Option<String>,
    pub cert_chain: Option<String>,
    pub job_limits: Vec<(String, u64)>,
    pub allow_tokens: Vec<String>,
}

/// The limit that `limits` assigns to `name` from position `i` on: the value
/// of the first pair whose key is `name`, or `u64::MAX` when no pair matches.
pub open spec fn limit_from(limits: Seq<(String, u64)>, name: Seq<char>, i: int) -> u64
    decreases limits.len() - i,
{
    if 0 <= i < limits.len() {
        if limits[i].0@ == name {
            limits[i].1
        } else {
            limit_from(limits, name, i + 1)
        }
    } else {
        u64::MAX
    }
}

/// The concurrency limit configured for `name`; unlimited (`u64::MAX`) when
/// the class is absent.
pub open spec fn limit_of(limits: Seq<(String, u64)>, name: Seq<char>) -> u64 {
    limit_from(limits, name, 0)
}

/// Whether `token` occurs among the configured authorization tokens.
pub open spec fn token_allowed(tokens: Seq<String>, token: Seq<char>) -> bool {
    exists|i: int| 0 <= i < tokens.len() && (#[trigger] tokens[i])@ == token
}

} // verus!
