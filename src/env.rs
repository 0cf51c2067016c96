//! Service settings, read from a snapshot of the process environment that
//! the caller takes once and hands in.

use vstd::prelude::*;
use crate::text::str_eq;

verus! {

/// A snapshot of environment variables, as name and value pairs.
#[derive(Clone, Debug, PartialEq, Eq)]
pub struct Env {
    pub vars: Vec<(String, String)>,
}

/// `i` is the first variable named `name`.
pub open spec fn is_first_var(vars: Seq<(String, String)>, name: Seq<char>, i: int) -> bool {
    &&& 0 <= i < vars.len()
    &&& vars[i].0@ == name
    &&& forall|j: int| 0 <= j < i ==> (#[trigger] vars[j]).0@ != name
}

/// The value of the variable `name`, if it is set.
pub open spec fn var_value(vars: Seq<(String, String)>, name: Seq<char>) -> Option<Seq<char>> {
    if exists|i: int| is_first_var(vars, name, i) {
        let i = choose|i: int| is_first_var(vars, name, i);
        Some(vars[i].1@)
    } else {
        None
    }
}

pub open spec fn opt_str_view(o: Option<&str>) -> Option<Seq<char>> {
    match o {
        Some(s) => Some(s@),
        None => None,
    }
}

pub open spec fn opt_string_view(o: Option<String>) -> Option<Seq<char>> {
    match o {
        Some(s) => Some(s@),
        None => None,
    }
}

proof fn lemma_first_var_unique(vars: Seq<(String, String)>, name: Seq<char>, i: int, k: int)
    requires
        is_first_var(vars, name, i),
        is_first_var(vars, name, k),
    ensures
        i == k,
{
    if i < k {
        assert(vars[i].0@ != name);
    } else if k < i {
        assert(vars[k].0@ != name);
    }
}

impl Env {
    pub fn new(vars: Vec<(String, String)>) -> (r: Env)
        ensures
            r.vars@ == vars@,
    {
        Env { vars }
    }

    /// The value of the variable `name`, if it is set.
    pub fn var(&self, name: &str) -> (r: Option<&str>)
        ensures
            opt_str_view(r) == var_value(self.vars@, name@),
    {
        let mut i: usize = 0;
        while i < self.vars.len()
            invariant
                i <= self.vars@.len(),
                forall|j: int| 0 <= j < i ==> (#[trigger] self.vars@[j]).0@ != name@,
            decreases self.vars@.len() - i,
        {
            if str_eq(self.vars[i].0.as_str(), name) {
                proof {
                    assert(is_first_var(self.vars@, name@, i as int));
                    let k = choose|k: int| is_first_var(self.vars@, name@, k);
                    lemma_first_var_unique(self.vars@, name@, i as int, k);
                }
                return Some(self.vars[i].1.as_str());
            }
            i += 1;
        }
        None
    }
}

/// Where this code is running from, after the `RIVET_RUN_CONTEXT` variable.
///
/// The production run context is not the same as the production namespace.
#[derive(Clone, Copy, Debug, PartialEq, Eq, Structural)]
pub enum RunContext {
    Service,
    Test,
}

pub open spec fn run_context_of(s: Seq<char>) -> Option<RunContext> {
    if s == seq!['s', 'e', 'r', 'v', 'i', 'c', 'e'] {
        Some(RunContext::Service)
    } else if s == seq!['t', 'e', 's', 't'] {
        Some(RunContext::Test)
    } else {
        None
    }
}

impl RunContext {
    /// Parses a run context name.
    pub fn from_str(ctx: &str) -> (r: Option<RunContext>)
        ensures
            r == run_context_of(ctx@),
    {
        proof {
            reveal_strlit("service");
            reveal_strlit("test");
            assert("service"@ =~= seq!['s', 'e', 'r', 'v', 'i', 'c', 'e']);
            assert("test"@ =~= seq!['t', 'e', 's', 't']);
        }
        if str_eq(ctx, "service") {
            Some(RunContext::Service)
        } else if str_eq(ctx, "test") {
            Some(RunContext::Test)
        } else {
            None
        }
    }
}

/// The run context, which must be set to a known name.
pub fn run_context(env: &Env) -> (r: RunContext)
    requires
        var_value(env.vars@, "RIVET_RUN_CONTEXT"@) is Some,
        run_context_of(var_value(env.vars@, "RIVET_RUN_CONTEXT"@)->0) is Some,
    ensures
        Some(r) == run_context_of(var_value(env.vars@, "RIVET_RUN_CONTEXT"@)->0),
{
    let v = env.var("RIVET_RUN_CONTEXT").unwrap();
    RunContext::from_str(v).unwrap()
}

/// The value of a variable that must be set.
fn required_var<'a>(env: &'a Env, name: &str) -> (r: &'a str)
    requires
        var_value(env.vars@, name@) is Some,
    ensures
        r@ == var_value(env.vars@, name@)->0,
{
    env.var(name).unwrap()
}

pub fn nomad_region(env: &Env) -> (r: &str)
    requires
        var_value(env.vars@, "NOMAD_REGION"@) is Some,
    ensures
        r@ == var_value(env.vars@, "NOMAD_REGION"@)->0,
{
    required_var(env, "NOMAD_REGION")
}

pub fn nomad_dc(env: &Env) -> (r: &str)
    requires
        var_value(env.vars@, "NOMAD_DC"@) is Some,
    ensures
        r@ == var_value(env.vars@, "NOMAD_DC"@)->0,
{
    required_var(env, "NOMAD_DC")
}

pub fn region(env: &Env) -> (r: &str)
    requires
        var_value(env.vars@, "RIVET_REGION"@) is Some,
    ensures
        r@ == var_value(env.vars@, "RIVET_REGION"@)->0,
{
    required_var(env, "RIVET_REGION")
}

/// The namespace this service is running in.
pub fn namespace(env: &Env) -> (r: &str)
    requires
        var_value(env.vars@, "RIVET_NAMESPACE"@) is Some,
    ensures
        r@ == var_value(env.vars@, "RIVET_NAMESPACE"@)->0,
{
    required_var(env, "RIVET_NAMESPACE")
}

pub fn cluster_id(env: &Env) -> (r: &str)
    requires
        var_value(env.vars@, "RIVET_CLUSTER_ID"@) is Some,
    ensures
        r@ == var_value(env.vars@, "RIVET_CLUSTER_ID"@)->0,
{
    required_var(env, "RIVET_CLUSTER_ID")
}

/// The hash of the source this service was built from.
pub fn source_hash(env: &Env) -> (r: &str)
    requires
        var_value(env.vars@, "RIVET_SOURCE_HASH"@) is Some,
    ensures
        r@ == var_value(env.vars@, "RIVET_SOURCE_HASH"@)->0,
{
    required_var(env, "RIVET_SOURCE_HASH")
}

/// The base domain in which all subdomains are mounted.
pub fn domain_main(env: &Env) -> (r: &str)
    requires
        var_value(env.vars@, "RIVET_DOMAIN_MAIN"@) is Some,
    ensures
        r@ == var_value(env.vars@, "RIVET_DOMAIN_MAIN"@)->0,
{
    required_var(env, "RIVET_DOMAIN_MAIN")
}

/// The base domain in which all game subdomains are mounted.
pub fn domain_cdn(env: &Env) -> (r: &str)
    requires
        var_value(env.vars@, "RIVET_DOMAIN_CDN"@) is Some,
    ensures
        r@ == var_value(env.vars@, "RIVET_DOMAIN_CDN"@)->0,
{
    required_var(env, "RIVET_DOMAIN_CDN")
}

/// The base domain in which all job subdomains are mounted.
pub fn domain_job(env: &Env) -> (r: &str)
    requires
        var_value(env.vars@, "RIVET_DOMAIN_JOB"@) is Some,
    ensures
        r@ == var_value(env.vars@, "RIVET_DOMAIN_JOB"@)->0,
{
    required_var(env, "RIVET_DOMAIN_JOB")
}

/// The base domain for the hub.
pub fn origin_hub(env: &Env) -> (r: &str)
    requires
        var_value(env.vars@, "RIVET_ORIGIN_HUB"@) is Some,
    ensures
        r@ == var_value(env.vars@, "RIVET_ORIGIN_HUB"@)->0,
{
    required_var(env, "RIVET_ORIGIN_HUB")
}

pub fn primary_region(env: &Env) -> (r: &str)
    requires
        var_value(env.vars@, "RIVET_PRIMARY_REGION"@) is Some,
    ensures
        r@ == var_value(env.vars@, "RIVET_PRIMARY_REGION"@)->0,
{
    required_var(env, "RIVET_PRIMARY_REGION")
}

pub fn chirp_service_name(env: &Env) -> (r: &str)
    requires
        var_value(env.vars@, "CHIRP_SERVICE_NAME"@) is Some,
    ensures
        r@ == var_value(env.vars@, "CHIRP_SERVICE_NAME"@)->0,
{
    required_var(env, "CHIRP_SERVICE_NAME")
}

/// Billing is enabled when `IS_BILLING_ENABLED` is exactly `1`.
pub fn is_billing_enabled(env: &Env) -> (r: bool)
    ensures
        r == (var_value(env.vars@, "IS_BILLING_ENABLED"@) == Some(seq!['1'])),
{
    proof {
        reveal_strlit("1");
        assert("1"@ =~= seq!['1']);
    }
    match env.var("IS_BILLING_ENABLED") {
        Some(v) => str_eq(v, "1"),
        None => false,
    }
}

/// What `str::to_uppercase` gives for a string.
pub uninterp spec fn upper_of(s: Seq<char>) -> Seq<char>;

/// Relies on `str::to_uppercase`: the upper case of each character, which
/// depends on the characters alone.
#[verifier::external_body]
fn uppercase(s: &str) -> (r: String)
    ensures
        r@ == upper_of(s@),
{
    s.to_uppercase()
}

/// Each `-` of a string replaced by `_`.
pub open spec fn dashes_to_underscores(s: Seq<char>) -> Seq<char> {
    s.map_values(|c: char| if c == '-' { '_' } else { c })
}

/// Replaces each `-` of a string by `_`.
pub fn replace_dashes(s: &str) -> (r: String)
    ensures
        r@ == dashes_to_underscores(s@),
{
    proof {
        reveal_strlit("_");
    }
    let n = s.unicode_len();
    let mut out = String::new();
    let mut i: usize = 0;
    while i < n
        invariant
            n == s@.len(),
            i <= n,
            "_"@ =~= seq!['_'],
            out@ =~= dashes_to_underscores(s@.subrange(0, i as int)),
        decreases n - i,
    {
        if s.get_char(i) == '-' {
            out.append("_");
        } else {
            out.append(s.substring_char(i, i + 1));
        }
        assert(dashes_to_underscores(s@.subrange(0, i as int + 1)) =~= dashes_to_underscores(
            s@.subrange(0, i as int),
        ).push(if s@[i as int] == '-' { '_' } else { s@[i as int] }));
        i += 1;
    }
    assert(s@.subrange(0, n as int) =~= s@);
    out
}

/// Parts joined by `_`.
pub open spec fn join_underscore(parts: Seq<Seq<char>>) -> Seq<char>
    decreases parts.len(),
{
    if parts.len() == 0 {
        Seq::empty()
    } else if parts.len() == 1 {
        parts[0]
    } else {
        join_underscore(parts.drop_last()) + seq!['_'] + parts.last()
    }
}

/// The upper-cased parts of a secret's key, joined by `_`.
pub open spec fn secret_key_of(key: Seq<Seq<char>>) -> Seq<char> {
    join_underscore(key.map_values(|p: Seq<char>| upper_of(p)))
}

pub open spec fn parts_view(key: Seq<&str>) -> Seq<Seq<char>> {
    key.map_values(|s: &str| s@)
}

pub open spec fn strings_view(v: Seq<String>) -> Seq<Seq<char>> {
    v.map_values(|s: String| s@)
}

/// Joins the parts of a variable name by `_`.
pub fn join_key_parts(parts: &Vec<String>) -> (r: String)
    ensures
        r@ == join_underscore(strings_view(parts@)),
{
    proof {
        reveal_strlit("_");
        assert("_"@ =~= seq!['_']);
    }
    let mut out = String::new();
    let mut i: usize = 0;
    while i < parts.len()
        invariant
            i <= parts@.len(),
            "_"@ == seq!['_'],
            out@ == join_underscore(strings_view(parts@.subrange(0, i as int))),
        decreases parts@.len() - i,
    {
        let ghost pre = strings_view(parts@.subrange(0, i as int + 1));
        assert(pre.drop_last() =~= strings_view(parts@.subrange(0, i as int)));
        assert(pre.last() == parts@[i as int]@);
        if i > 0 {
            out.append("_");
        }
        out.append(parts[i].as_str());
        proof {
            if i == 0 {
                assert(strings_view(parts@.subrange(0, 0)).len() == 0);
                assert(out@ =~= parts@[0]@);
            } else {
                assert(out@ =~= join_underscore(strings_view(parts@.subrange(0, i as int))) + seq!['_'] + parts@[i as int]@);
            }
        }
        i += 1;
    }
    assert(parts@.subrange(0, i as int) =~= parts@);
    out
}

/// Name of the variable holding a given secret.
pub fn secret_env_var_key(key: &[&str]) -> (r: String)
    ensures
        r@ == secret_key_of(parts_view(key@)),
{
    let mut upper: Vec<String> = Vec::new();
    let mut i: usize = 0;
    while i < key.len()
        invariant
            i <= key@.len(),
            upper@.len() == i,
            forall|k: int| 0 <= k < i ==> (#[trigger] upper@[k])@ == upper_of(key@[k]@),
        decreases key@.len() - i,
    {
        upper.push(uppercase(key[i]));
        i += 1;
    }
    assert(strings_view(upper@) =~= parts_view(key@).map_values(|p: Seq<char>| upper_of(p)));
    join_key_parts(&upper)
}

/// Why a secret could not be read.
#[derive(Clone, Copy, Debug, PartialEq, Eq, Structural)]
pub enum SecretError {
    NotPresent,
}

/// Reads a secret.
pub fn read_secret(env: &Env, key: &[&str]) -> (r: Result<String, SecretError>)
    ensures
        match r {
            Ok(v) => var_value(env.vars@, secret_key_of(parts_view(key@))) == Some(v@),
            Err(_) => var_value(env.vars@, secret_key_of(parts_view(key@))) is None,
        },
{
    let name = secret_env_var_key(key);
    match env.var(name.as_str()) {
        Some(v) => Ok(String::from_str(v)),
        None => Err(SecretError::NotPresent),
    }
}

/// Reads a secret that may be absent.
pub fn read_secret_opt(env: &Env, key: &[&str]) -> (r: Option<String>)
    ensures
        opt_string_view(r) == var_value(env.vars@, secret_key_of(parts_view(key@))),
{
    match read_secret(env, key) {
        Ok(v) => Some(v),
        Err(_) => None,
    }
}

/// The name of the variable holding a service's public URL.
pub fn svc_router_url_key(svc_name: &str) -> (r: String)
    ensures
        r@ == "RIVET_"@ + upper_of(dashes_to_underscores(svc_name@)) + "_URL"@,
{
    let replaced = replace_dashes(svc_name);
    let upper = uppercase(replaced.as_str());
    router_url_key_of(upper.as_str())
}

/// The name of the variable holding the public URL of the service whose
/// name, upper-cased and with `_` for `-`, is `upper_name`.
pub fn router_url_key_of(upper_name: &str) -> (r: String)
    ensures
        r@ == "RIVET_"@ + upper_name@ + "_URL"@,
{
    let mut key = String::from_str("RIVET_");
    key.append(upper_name);
    key.append("_URL");
    key
}

/// A service's public URL, if it is set.
pub fn svc_router_url(env: &Env, svc_name: &str) -> (r: Option<String>)
    ensures
        opt_string_view(r) == var_value(env.vars@, "RIVET_"@ + upper_of(dashes_to_underscores(svc_name@)) + "_URL"@),
{
    let key = svc_router_url_key(svc_name);
    match env.var(key.as_str()) {
        Some(v) => Some(String::from_str(v)),
        None => None,
    }
}

/// The current Stripe API token.
pub fn stripe_token(env: &Env) -> (r: Result<String, SecretError>)
    ensures
        match r {
            Ok(v) => var_value(env.vars@, secret_key_of(seq!["stripe"@, "token"@])) == Some(v@),
            Err(_) => var_value(env.vars@, secret_key_of(seq!["stripe"@, "token"@])) is None,
        },
{
    let key: [&str; 2] = ["stripe", "token"];
    let r = read_secret(env, key.as_slice());
    assert(parts_view(key@) =~= seq!["stripe"@, "token"@]);
    r
}

/// The current Stripe webhook secret.
pub fn stripe_webhook_secret(env: &Env) -> (r: Result<String, SecretError>)
    ensures
        match r {
            Ok(v) => var_value(env.vars@, secret_key_of(seq!["stripe"@, "webhook_secret"@])) == Some(v@),
            Err(_) => var_value(env.vars@, secret_key_of(seq!["stripe"@, "webhook_secret"@])) is None,
        },
{
    let key: [&str; 2] = ["stripe", "webhook_secret"];
    let r = read_secret(env, key.as_slice());
    assert(parts_view(key@) =~= seq!["stripe"@, "webhook_secret"@]);
    r
}

} // verus!
