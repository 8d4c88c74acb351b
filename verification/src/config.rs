use vstd::prelude::*;

verus! {

/// Fixed settings for the relay's listener: a one-hour inactivity timeout,
/// no delay after the first rejected authentication attempt, a three-second
/// delay after later ones, and TCP port 2222.
pub struct ServerSettings {
    pub inactivity_timeout_secs: u64,
    pub auth_rejection_delay_initial_secs: u64,
    pub auth_rejection_delay_secs: u64,
    pub port: u16,
}

/// The one configuration the server is ever started with.
pub fn server_settings() -> (s: ServerSettings)
    ensures
        s.inactivity_timeout_secs == 3600,
        s.auth_rejection_delay_initial_secs == 0,
        s.auth_rejection_delay_secs == 3,
        s.port == 2222,
{
    ServerSettings {
        inactivity_timeout_secs: 3600,
        auth_rejection_delay_initial_secs: 0,
        auth_rejection_delay_secs: 3,
        port: 2222,
    }
}

/// A configuration value resolved from the environment: the value found
/// there, or the empty string when the variable is unset.
pub fn resolve_setting(found: Option<String>) -> (r: String)
    ensures
        found is Some ==> r@ == found->0@,
        found is None ==> r@ == Seq::<char>::empty(),
{
    match found {
        Some(v) => v,
        None => String::new(),
    }
}

} // verus!
