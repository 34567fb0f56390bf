use vstd::prelude::*;

verus! {

/// Relies on chrono's `Utc::now` and `to_rfc3339`: reads the system clock
/// and formats it as an RFC 3339 timestamp. The result depends on the
/// moment of the call, so no two calls are related and nothing is promised
/// about the returned text.
#[verifier::external_body]
pub fn now_rfc3339() -> String {
    chrono::Utc::now().to_rfc3339()
}

} // verus!
