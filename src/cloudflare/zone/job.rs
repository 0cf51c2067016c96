//! The job zone.

use vstd::prelude::*;
use crate::env::{var_value, Env};

verus! {

/// The id of the job zone, which must be set.
pub fn id(env: &Env) -> (r: &str)
    requires
        var_value(env.vars@, "CLOUDFLARE_ZONE_ID_JOB"@) is Some,
    ensures
        r@ == var_value(env.vars@, "CLOUDFLARE_ZONE_ID_JOB"@)->0,
{
    env.var("CLOUDFLARE_ZONE_ID_JOB").unwrap()
}

} // verus!
