use matchmaker::cloudflare;
use matchmaker::env::{
    chirp_service_name, cluster_id, domain_cdn, domain_job, domain_main, is_billing_enabled, namespace, nomad_dc,
    nomad_region, origin_hub, primary_region, read_secret, read_secret_opt, region, run_context,
    join_key_parts, replace_dashes, router_url_key_of, secret_env_var_key, source_hash, stripe_token, stripe_webhook_secret, svc_router_url, svc_router_url_key, Env,
    RunContext, SecretError,
};

fn env(pairs: &[(&str, &str)]) -> Env {
    Env::new(pairs.iter().map(|(k, v)| (k.to_string(), v.to_string())).collect())
}

#[test]
fn secret_key_is_upper_snake() {
    assert_eq!(secret_env_var_key(&["stripe", "token"]), "STRIPE_TOKEN");
    assert_eq!(secret_env_var_key(&["stripe", "webhook_secret"]), "STRIPE_WEBHOOK_SECRET");
    assert_eq!(secret_env_var_key(&["single"]), "SINGLE");
    assert_eq!(secret_env_var_key(&[]), "");
}

#[test]
fn run_context_parses() {
    assert_eq!(RunContext::from_str("service"), Some(RunContext::Service));
    assert_eq!(RunContext::from_str("test"), Some(RunContext::Test));
    assert_eq!(RunContext::from_str("prod"), None);
    assert_eq!(RunContext::from_str(""), None);
    assert_eq!(run_context(&env(&[("RIVET_RUN_CONTEXT", "test")])), RunContext::Test);
}

#[test]
fn settings_read_their_variables() {
    let e = env(&[
        ("NOMAD_REGION", "global"),
        ("NOMAD_DC", "dc1"),
        ("RIVET_REGION", "lnd"),
        ("RIVET_NAMESPACE", "prod"),
        ("RIVET_CLUSTER_ID", "c1"),
        ("RIVET_SOURCE_HASH", "abc123"),
        ("RIVET_DOMAIN_MAIN", "example.com"),
        ("RIVET_DOMAIN_CDN", "cdn.example.com"),
        ("RIVET_DOMAIN_JOB", "job.example.com"),
        ("RIVET_ORIGIN_HUB", "https://hub.example.com"),
        ("RIVET_PRIMARY_REGION", "lnd"),
        ("CHIRP_SERVICE_NAME", "api-matchmaker"),
        ("CLOUDFLARE_AUTH_TOKEN", "cf"),
        ("CLOUDFLARE_ZONE_ID_BASE", "zb"),
        ("CLOUDFLARE_ZONE_ID_GAME", "zg"),
        ("CLOUDFLARE_ZONE_ID_JOB", "zj"),
    ]);
    assert_eq!(nomad_region(&e), "global");
    assert_eq!(nomad_dc(&e), "dc1");
    assert_eq!(region(&e), "lnd");
    assert_eq!(namespace(&e), "prod");
    assert_eq!(cluster_id(&e), "c1");
    assert_eq!(source_hash(&e), "abc123");
    assert_eq!(domain_main(&e), "example.com");
    assert_eq!(domain_cdn(&e), "cdn.example.com");
    assert_eq!(domain_job(&e), "job.example.com");
    assert_eq!(origin_hub(&e), "https://hub.example.com");
    assert_eq!(primary_region(&e), "lnd");
    assert_eq!(chirp_service_name(&e), "api-matchmaker");
    assert_eq!(cloudflare::auth_token(&e), "cf");
    assert_eq!(cloudflare::zone::base::id(&e), "zb");
    assert_eq!(cloudflare::zone::game::id(&e), "zg");
    assert_eq!(cloudflare::zone::job::id(&e), "zj");
}

#[test]
fn first_setting_wins() {
    let e = env(&[("RIVET_REGION", "a"), ("RIVET_REGION", "b")]);
    assert_eq!(region(&e), "a");
    assert_eq!(e.var("RIVET_REGION"), Some("a"));
    assert_eq!(e.var("MISSING"), None);
}

#[test]
fn billing_flag_is_exactly_one() {
    assert!(is_billing_enabled(&env(&[("IS_BILLING_ENABLED", "1")])));
    assert!(!is_billing_enabled(&env(&[("IS_BILLING_ENABLED", "true")])));
    assert!(!is_billing_enabled(&env(&[])));
}

#[test]
fn secrets_and_router_urls() {
    let e = env(&[("STRIPE_TOKEN", "sk"), ("RIVET_API_ROUTE_URL", "http://route")]);
    assert_eq!(read_secret(&e, &["stripe", "token"]), Ok("sk".to_string()));
    assert_eq!(stripe_token(&e), Ok("sk".to_string()));
    assert_eq!(stripe_webhook_secret(&e), Err(SecretError::NotPresent));
    assert_eq!(read_secret_opt(&e, &["stripe", "webhook_secret"]), None);
    assert_eq!(svc_router_url_key("api-route"), "RIVET_API_ROUTE_URL");
    assert_eq!(svc_router_url(&e, "api-route"), Some("http://route".to_string()));
    assert_eq!(svc_router_url(&e, "other"), None);
}

#[test]
fn dashes_become_underscores() {
    assert_eq!(replace_dashes("api-route-x"), "api_route_x");
    assert_eq!(replace_dashes("plain"), "plain");
    assert_eq!(replace_dashes(""), "");
    assert_eq!(replace_dashes("é-ü"), "é_ü");
}

#[test]
fn key_parts_join_with_underscore() {
    let parts = vec!["STRIPE".to_string(), "WEBHOOK_SECRET".to_string()];
    assert_eq!(join_key_parts(&parts), "STRIPE_WEBHOOK_SECRET");
    assert_eq!(join_key_parts(&vec!["ONE".to_string()]), "ONE");
    assert_eq!(join_key_parts(&vec![]), "");
    assert_eq!(join_key_parts(&vec!["a".to_string(), "".to_string(), "b".to_string()]), "a__b");
}

#[test]
fn router_url_key_wraps_name() {
    assert_eq!(router_url_key_of("API_ROUTE"), "RIVET_API_ROUTE_URL");
    assert_eq!(router_url_key_of(""), "RIVET__URL");
}
