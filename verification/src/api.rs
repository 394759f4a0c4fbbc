//! The local API's settings and its loopback guard.
use vstd::prelude::*;
use crate::text::{starts_with, string_of};

verus! {

/// Where the local API listens and the token its callers present.
#[derive(Debug, Clone)]
pub struct LocalAuthConfig {
    pub bind_addr: String,
    pub shared_token: String,
}

impl Default for LocalAuthConfig {
    fn default() -> (res: Self)
        ensures
            res.bind_addr@ == "127.0.0.1:7447"@,
            res.shared_token@ == "change-me"@,
    {
        LocalAuthConfig {
            bind_addr: string_of("127.0.0.1:7447"),
            shared_token: string_of("change-me"),
        }
    }
}

/// The address is on the loopback interface: it begins with `127.0.0.1` or
/// `localhost`.
pub open spec fn spec_is_local_bind_address(bind_addr: Seq<char>) -> bool {
    "127.0.0.1"@.is_prefix_of(bind_addr) || "localhost"@.is_prefix_of(bind_addr)
}

/// Whether the address is on the loopback interface.
pub fn is_local_bind_address(bind_addr: &str) -> (res: bool)
    ensures
        res == spec_is_local_bind_address(bind_addr@),
{
    starts_with(bind_addr, "127.0.0.1") || starts_with(bind_addr, "localhost")
}

} // verus!
