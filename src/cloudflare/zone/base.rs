//! The base zone.

use vstd::prelude::*;
use crate::env::{var_value, Env};

verus! {

/// The id of the base zone, which must be set.
pub fn id(env: &Env) -> (r: &str)
    requires
        var_value(env.vars@, "CLOUDFLARE_ZONE_ID_BASE"@) is Some,
    ensures
        r@ == var_value(env.vars@, "CLOUDFLARE_ZONE_ID_BASE"@)->0,
{
    env.var("CLOUDFLARE_ZONE_ID_BASE").unwrap()
}

} // verus!
