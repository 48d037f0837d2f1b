//! Normalization of the values that the app settings hold for the Codex config.
use vstd::prelude::*;
use crate::json::opt_str_view;
use crate::text::{str_eq, trim, trimmed};

verus! {

/// The allowed value that `value`, trimmed, is exactly; none where it is none of them.
pub open spec fn one_of(value: Seq<char>, allowed: Seq<Seq<char>>) -> Option<Seq<char>> {
    if exists|i: int| 0 <= i < allowed.len() && #[trigger] allowed[i] == trimmed(value) {
        Some(trimmed(value))
    } else {
        None
    }
}

fn pick_allowed(value: &str, allowed: &[&'static str]) -> (r: Option<&'static str>)
    ensures
        opt_str_view(r) == one_of(value@, allowed@.map_values(|a: &str| a@)),
{
    let t = trim(value);
    let ghost av = allowed@.map_values(|a: &str| a@);
    let mut i: usize = 0;
    while i < allowed.len()
        invariant
            av == allowed@.map_values(|a: &str| a@),
            t@ == trimmed(value@),
            i <= allowed@.len(),
            forall|k: int| 0 <= k < i ==> #[trigger] av[k] != t@,
        decreases allowed@.len() - i,
    {
        if str_eq(allowed[i], t) {
            assert(av[i as int] == allowed@[i as int]@);
            assert(av[i as int] == trimmed(value@));
            return Some(allowed[i]);
        }
        i = i + 1;
    }
    None
}

/// A personality the settings accept.
pub fn normalize_personality(value: &str) -> (r: Option<&'static str>)
    ensures
        opt_str_view(r) == one_of(value@, seq!["friendly"@, "pragmatic"@]),
{
    let allowed: [&'static str; 2] = ["friendly", "pragmatic"];
    let r = pick_allowed(value, &allowed);
    assert(allowed@.map_values(|a: &str| a@) =~= seq!["friendly"@, "pragmatic"@]);
    r
}

/// A reasoning effort the settings accept.
pub fn normalize_model_reasoning_effort(value: &str) -> (r: Option<&'static str>)
    ensures
        opt_str_view(r) == one_of(value@, seq!["minimal"@, "low"@, "medium"@, "high"@]),
{
    let allowed: [&'static str; 4] = ["minimal", "low", "medium", "high"];
    let r = pick_allowed(value, &allowed);
    assert(allowed@.map_values(|a: &str| a@) =~= seq!["minimal"@, "low"@, "medium"@, "high"@]);
    r
}

/// An approval policy the settings accept.
pub fn normalize_approval_policy(value: &str) -> (r: Option<&'static str>)
    ensures
        opt_str_view(r) == one_of(value@, seq!["untrusted"@, "on-failure"@, "on-request"@, "never"@]),
{
    let allowed: [&'static str; 4] = ["untrusted", "on-failure", "on-request", "never"];
    let r = pick_allowed(value, &allowed);
    assert(allowed@.map_values(|a: &str| a@) =~= seq!["untrusted"@, "on-failure"@, "on-request"@, "never"@]);
    r
}

/// A sandbox mode the settings accept.
pub fn normalize_sandbox_mode(value: &str) -> (r: Option<&'static str>)
    ensures
        opt_str_view(r) == one_of(value@, seq!["read-only"@, "workspace-write"@, "danger-full-access"@]),
{
    let allowed: [&'static str; 3] = ["read-only", "workspace-write", "danger-full-access"];
    let r = pick_allowed(value, &allowed);
    assert(allowed@.map_values(|a: &str| a@) =~= seq!["read-only"@, "workspace-write"@, "danger-full-access"@]);
    r
}

/// A web search mode the settings accept.
pub fn normalize_web_search(value: &str) -> (r: Option<&'static str>)
    ensures
        opt_str_view(r) == one_of(value@, seq!["cached"@, "live"@]),
{
    let allowed: [&'static str; 2] = ["cached", "live"];
    let r = pick_allowed(value, &allowed);
    assert(allowed@.map_values(|a: &str| a@) =~= seq!["cached"@, "live"@]);
    r
}

/// A credentials store the settings accept.
pub fn normalize_cli_auth_credentials_store(value: &str) -> (r: Option<&'static str>)
    ensures
        opt_str_view(r) == one_of(value@, seq!["file"@, "keyring"@, "auto"@]),
{
    let allowed: [&'static str; 3] = ["file", "keyring", "auto"];
    let r = pick_allowed(value, &allowed);
    assert(allowed@.map_values(|a: &str| a@) =~= seq!["file"@, "keyring"@, "auto"@]);
    r
}

} // verus!
