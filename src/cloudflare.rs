//! Cloudflare settings.

use vstd::prelude::*;
use crate::env::{var_value, Env};

pub mod zone;

verus! {

/// The Cloudflare API token, which must be set.
pub fn auth_token(env: &Env) -> (r: &str)
    requires
        var_value(env.vars@, "CLOUDFLARE_AUTH_TOKEN"@) is Some,
    ensures
        r@ == var_value(env.vars@, "CLOUDFLARE_AUTH_TOKEN"@)->0,
{
    env.var("CLOUDFLARE_AUTH_TOKEN").unwrap()
}

} // verus!
