//! Names under which the client presents itself.

use vstd::prelude::*;

verus! {

/// The name of the application.
pub const APP_NAME: &'static str = "crabapi";

/// The version of the application.
pub const APP_VERSION: &'static str = "0.1.0";

/// The name of the header by which a client names itself, in canonical form.
pub const USER_AGENT_HEADER: &'static str = "user-agent";

/// What the client sends as its `User-Agent` unless a request says
/// otherwise: the application's name, ` v`, and its version.
pub const USER_AGENT: &'static str = "crabapi v0.1.0";

/// The default `User-Agent` is made of the application's name and version.
pub proof fn lemma_user_agent_text()
    ensures
        USER_AGENT@ == APP_NAME@ + " v"@ + APP_VERSION@,
{
    reveal_strlit("crabapi v0.1.0");
    reveal_strlit("crabapi");
    reveal_strlit(" v");
    reveal_strlit("0.1.0");
    assert(USER_AGENT@ =~= APP_NAME@ + " v"@ + APP_VERSION@);
}

} // verus!
