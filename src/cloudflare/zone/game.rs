//! The game zone.

use vstd::prelude::*;
use crate::env::{var_value, Env};

verus! {

/// The id of the game zone, which must be set.
pub fn id(env: &Env) -> (r: &str)
    requires
        var_value(env.vars@, "CLOUDFLARE_ZONE_ID_GAME"@) is Some,
    ensures
        r@ == var_value(env.vars@, "CLOUDFLARE_ZONE_ID_GAME"@)->0,
{
    env.var("CLOUDFLARE_ZONE_ID_GAME").unwrap()
}

} // verus!
