use matchmaker::error::{CaptchaChallenge, InternalError, MmError};
use matchmaker::find::{
    assemble_find_response, begin_find, captcha_gate, captcha_requirement, find_query_with_recommended,
    find_query_with_resolved, join_query, lobby_after_find, map_find_outcome, CaptchaConfig, CaptchaStep,
    FindErrorCode, FindOutcome, LobbyRecord, MatchmakerLobbiesFindRequest, RegionLookup,
};
use matchmaker::ports::{
    build_port, build_ports, JoinPort, JoinPortRange, Network, PortDecl, PortRange, ProxiedPort, RunInfo,
};
use matchmaker::protocol::{test_mm_and_job_proxy_protocol_eq, JobProxyProtocol, ProxyKind, ProxyProtocol};
use matchmaker::selection::{
    build_find_query, derive_auto_create, enabled_region_ids, primary_region, resolve_game_modes,
    resolve_region_ids, AutoCreate, FindQuery, GameMode, ResolvedRegion,
};

const US_EAST: u128 = 0x11;
const EU_WEST: u128 = 0x22;
const ASIA: u128 = 0x33;

fn s(v: &str) -> String {
    v.to_string()
}

fn mode(name: &str, id: u128, regions: Vec<u128>, ports: Vec<PortDecl>) -> GameMode {
    GameMode {
        name_id: s(name),
        lobby_group_id: id,
        region_ids: regions,
        ports,
        max_players_normal: 8,
        max_players_direct: 10,
        max_players_party: 4,
    }
}

fn proxied_decl(label: &str, protocol: ProxyProtocol) -> PortDecl {
    PortDecl { label: s(label), proxy_kind: ProxyKind::Proxied, proxy_protocol: protocol, port_range: None }
}

fn proxied_port(label: &str, protocol: JobProxyProtocol, hosts: Vec<&str>, port: u32) -> ProxiedPort {
    ProxiedPort {
        target_label: Some(s(label)),
        ingress_hostnames: hosts.into_iter().map(s).collect(),
        ingress_port: port,
        proxy_protocol: protocol,
    }
}

fn resolved(name: &str, id: u128) -> ResolvedRegion {
    ResolvedRegion { name_id: s(name), region_id: Some(id) }
}

#[test]
fn scenario_default_mode_nearest_region() {
    let config = vec![mode("default", 7, vec![US_EAST], vec![proxied_decl("game", ProxyProtocol::Https)])];
    let request = MatchmakerLobbiesFindRequest::new(vec![s("default")]);
    let lookup = begin_find(&config, &request).unwrap();
    let (selected, candidates) = match lookup {
        RegionLookup::Recommend { selected, candidates } => (selected, candidates),
        other => panic!("unexpected lookup {:?}", other),
    };
    assert_eq!(candidates, vec![US_EAST]);
    let query = find_query_with_recommended(&config, &selected, &vec![US_EAST], None).unwrap();
    assert_eq!(
        query,
        FindQuery::LobbyGroup {
            lobby_group_ids: vec![7],
            region_ids: vec![US_EAST],
            auto_create: Some(AutoCreate { lobby_group_id: 7, region_id: US_EAST }),
        }
    );
    let lobby_id = map_find_outcome(FindOutcome::Complete { lobby_id: Some(99) }).unwrap();
    assert_eq!(lobby_id, 99);
    let found = lobby_after_find(lobby_id, Some(LobbyRecord {
        lobby_id,
        region_id: Some(US_EAST),
        lobby_group_id: Some(7),
        run_id: Some(5),
    }))
    .unwrap();
    let run = RunInfo {
        proxied_ports: vec![proxied_port("game", JobProxyProtocol::Https, vec!["lobby.example.com"], 443)],
        networks: vec![],
    };
    let resp = assemble_find_response(
        found.lobby_id,
        found.lobby_group_id,
        &config,
        &run,
        s("us-east"),
        s("US East"),
        s("tok"),
    )
    .unwrap();
    let expected_port = JoinPort {
        host: Some(s("lobby.example.com:443")),
        hostname: s("lobby.example.com"),
        port: Some(443),
        port_range: None,
        is_tls: true,
    };
    assert_eq!(resp.ports, vec![(s("game"), expected_port.clone())]);
    assert_eq!(resp.lobby.ports, resp.ports);
    assert_eq!(resp.lobby.lobby_id, 99);
    assert_eq!(resp.lobby.region.region_id, "us-east");
    assert_eq!(resp.lobby.region.display_name, "US East");
    assert_eq!(resp.player.token, "tok");
    assert_eq!(resp.lobby.player.token, "tok");
}

#[test]
fn scenario_first_enabled_region_in_priority() {
    let config = vec![mode("mode", 3, vec![US_EAST], vec![])];
    let mut request = MatchmakerLobbiesFindRequest::new(vec![s("mode")]);
    request.regions = Some(vec![s("eu-west"), s("us-east")]);
    let (selected, names) = match begin_find(&config, &request).unwrap() {
        RegionLookup::Resolve { selected, names } => (selected, names),
        other => panic!("unexpected lookup {:?}", other),
    };
    assert_eq!(names, vec![s("eu-west"), s("us-east")]);
    let answers = vec![resolved("us-east", US_EAST), resolved("eu-west", EU_WEST)];
    let query = find_query_with_resolved(&config, &selected, &names, &answers, None).unwrap();
    assert_eq!(
        query,
        FindQuery::LobbyGroup {
            lobby_group_ids: vec![3],
            region_ids: vec![EU_WEST, US_EAST],
            auto_create: Some(AutoCreate { lobby_group_id: 3, region_id: US_EAST }),
        }
    );
}

#[test]
fn scenario_lobby_full_is_specific() {
    let r = map_find_outcome(FindOutcome::Fail { error_code: Some(FindErrorCode::LobbyFull) });
    assert_eq!(r, Err(MmError::LobbyFull));
}

#[test]
fn scenario_lobby_missing_after_success_is_internal() {
    assert_eq!(lobby_after_find(5, None), Err(MmError::Internal(InternalError::LobbyMissingAfterFind)));
}

#[test]
fn every_find_error_code_maps() {
    let cases = vec![
        (FindErrorCode::Unknown, MmError::Internal(InternalError::UnknownFindErrorCode)),
        (FindErrorCode::StaleMessage, MmError::StaleMessage),
        (FindErrorCode::TooManyPlayersFromSource, MmError::TooManyPlayersFromSource),
        (FindErrorCode::LobbyStopped, MmError::LobbyStopped),
        (FindErrorCode::LobbyStoppedPrematurely, MmError::LobbyStopped),
        (FindErrorCode::LobbyClosed, MmError::LobbyClosed),
        (FindErrorCode::LobbyNotFound, MmError::LobbyNotFound),
        (FindErrorCode::NoAvailableLobbies, MmError::NoAvailableLobbies),
        (FindErrorCode::LobbyFull, MmError::LobbyFull),
        (FindErrorCode::LobbyCountOverMax, MmError::LobbyCountOverMax),
        (FindErrorCode::RegionNotEnabled, MmError::RegionNotEnabled),
        (FindErrorCode::DevTeamInvalidStatus, MmError::DevTeamInvalidStatus),
    ];
    for (code, err) in cases {
        assert_eq!(map_find_outcome(FindOutcome::Fail { error_code: Some(code) }), Err(err));
    }
    assert_eq!(
        map_find_outcome(FindOutcome::Fail { error_code: None }),
        Err(MmError::Internal(InternalError::UnparsableFindErrorCode))
    );
    assert_eq!(
        map_find_outcome(FindOutcome::Complete { lobby_id: None }),
        Err(MmError::Internal(InternalError::MissingField))
    );
}

#[test]
fn lobby_record_without_run_is_internal() {
    let r = lobby_after_find(1, Some(LobbyRecord { lobby_id: 1, region_id: Some(2), lobby_group_id: Some(3), run_id: None }));
    assert_eq!(r, Err(MmError::Internal(InternalError::MissingField)));
}

#[test]
fn unknown_game_mode_fails() {
    let config = vec![mode("default", 1, vec![US_EAST], vec![])];
    assert_eq!(resolve_game_modes(&config, &vec![s("default"), s("ranked")]), Err(MmError::GameModeNotFound));
    let request = MatchmakerLobbiesFindRequest::new(vec![s("ranked")]);
    assert_eq!(begin_find(&config, &request), Err(MmError::GameModeNotFound));
}

#[test]
fn game_modes_resolve_in_request_order() {
    let config = vec![mode("a", 1, vec![], vec![]), mode("b", 2, vec![], vec![]), mode("a", 3, vec![], vec![])];
    assert_eq!(resolve_game_modes(&config, &vec![s("b"), s("a")]), Ok(vec![1, 0]));
    assert_eq!(resolve_game_modes(&config, &vec![]), Ok(vec![]));
}

#[test]
fn region_names_resolve_with_same_length() {
    let answers = vec![resolved("us-east", US_EAST), resolved("eu-west", EU_WEST)];
    let r = resolve_region_ids(&vec![s("eu-west"), s("us-east"), s("eu-west")], &answers).unwrap();
    assert_eq!(r, vec![EU_WEST, US_EAST, EU_WEST]);
    assert_eq!(r.len(), 3);
}

#[test]
fn unknown_region_name_fails() {
    let answers = vec![resolved("us-east", US_EAST)];
    assert_eq!(resolve_region_ids(&vec![s("us-east"), s("mars")], &answers), Err(MmError::RegionNotFound));
    let without_id = vec![ResolvedRegion { name_id: s("us-east"), region_id: None }];
    assert_eq!(resolve_region_ids(&vec![s("us-east")], &without_id), Err(MmError::RegionNotFound));
}

#[test]
fn enabled_regions_are_a_union_without_repeats() {
    let config = vec![mode("a", 1, vec![US_EAST, EU_WEST], vec![]), mode("b", 2, vec![EU_WEST, ASIA, ASIA], vec![])];
    let r = enabled_region_ids(&config, &vec![0, 1]);
    assert_eq!(r, vec![US_EAST, EU_WEST, ASIA]);
    assert_eq!(enabled_region_ids(&config, &vec![]), Vec::<u128>::new());
}

#[test]
fn primary_region_takes_top_ranked() {
    assert_eq!(primary_region(&vec![ASIA, US_EAST]), Ok(vec![ASIA]));
    assert_eq!(primary_region(&vec![]), Err(MmError::Internal(InternalError::NoRecommendedRegion)));
}

#[test]
fn auto_create_mode_order_outer_region_order_inner() {
    let config = vec![mode("a", 1, vec![ASIA], vec![]), mode("b", 2, vec![US_EAST, EU_WEST], vec![])];
    assert_eq!(
        derive_auto_create(&config, &vec![0, 1], &vec![EU_WEST, US_EAST]),
        Some(AutoCreate { lobby_group_id: 2, region_id: EU_WEST })
    );
    assert_eq!(
        derive_auto_create(&config, &vec![0, 1], &vec![ASIA, EU_WEST]),
        Some(AutoCreate { lobby_group_id: 1, region_id: ASIA })
    );
    assert_eq!(derive_auto_create(&config, &vec![0], &vec![US_EAST]), None);
}

#[test]
fn auto_create_is_deterministic_and_reorder_keeps_mode() {
    let config = vec![mode("a", 1, vec![EU_WEST], vec![]), mode("b", 2, vec![US_EAST, EU_WEST], vec![])];
    let first = derive_auto_create(&config, &vec![1, 0], &vec![US_EAST, EU_WEST]);
    assert_eq!(first, derive_auto_create(&config, &vec![1, 0], &vec![US_EAST, EU_WEST]));
    let reordered = derive_auto_create(&config, &vec![1, 0], &vec![EU_WEST, US_EAST]);
    assert_eq!(first.unwrap().lobby_group_id, 2);
    assert_eq!(reordered.unwrap().lobby_group_id, 2);
    assert_eq!(first.unwrap().region_id, US_EAST);
    assert_eq!(reordered.unwrap().region_id, EU_WEST);
}

#[test]
fn no_valid_pair_fails_even_when_creation_prevented() {
    let config = vec![mode("a", 1, vec![ASIA], vec![])];
    assert_eq!(
        build_find_query(&config, &vec![0], vec![US_EAST], Some(true)),
        Err(MmError::NoValidGameModeRegionPair)
    );
    assert_eq!(build_find_query(&config, &vec![0], vec![US_EAST], None), Err(MmError::NoValidGameModeRegionPair));
}

#[test]
fn prevented_auto_create_is_dropped() {
    let config = vec![mode("a", 1, vec![ASIA], vec![])];
    assert_eq!(
        build_find_query(&config, &vec![0], vec![ASIA], Some(true)),
        Ok(FindQuery::LobbyGroup { lobby_group_ids: vec![1], region_ids: vec![ASIA], auto_create: None })
    );
    assert_eq!(
        build_find_query(&config, &vec![0], vec![ASIA], Some(false)),
        Ok(FindQuery::LobbyGroup {
            lobby_group_ids: vec![1],
            region_ids: vec![ASIA],
            auto_create: Some(AutoCreate { lobby_group_id: 1, region_id: ASIA }),
        })
    );
}

#[test]
fn recommended_region_without_pair_fails() {
    let config = vec![mode("a", 1, vec![ASIA], vec![])];
    assert_eq!(
        find_query_with_recommended(&config, &vec![0], &vec![US_EAST], None),
        Err(MmError::NoValidGameModeRegionPair)
    );
    assert_eq!(
        find_query_with_recommended(&config, &vec![0], &vec![], None),
        Err(MmError::Internal(InternalError::NoRecommendedRegion))
    );
}

#[test]
fn join_builds_direct_query() {
    assert_eq!(
        join_query("a1a2a3a4-b1b2-c1c2-d1d2-d3d4d5d6d7d8"),
        Ok(FindQuery::Direct { lobby_id: 0xa1a2a3a4b1b2c1c2d1d2d3d4d5d6d7d8 })
    );
    assert_eq!(join_query("00000000-0000-0000-0000-00000000002a"), Ok(FindQuery::Direct { lobby_id: 42 }));
}

#[test]
fn join_rejects_malformed_id() {
    assert_eq!(join_query("not-a-uuid"), Err(MmError::InvalidLobbyId));
    assert_eq!(join_query(""), Err(MmError::InvalidLobbyId));
}

#[test]
fn protocol_equivalence_table() {
    let mm = [ProxyProtocol::Http, ProxyProtocol::Https, ProxyProtocol::Tcp, ProxyProtocol::TcpTls, ProxyProtocol::Udp];
    let job = [
        JobProxyProtocol::Http,
        JobProxyProtocol::Https,
        JobProxyProtocol::Tcp,
        JobProxyProtocol::TcpTls,
        JobProxyProtocol::Udp,
    ];
    for (i, m) in mm.iter().enumerate() {
        for (j, k) in job.iter().enumerate() {
            assert_eq!(test_mm_and_job_proxy_protocol_eq(*m, *k), i == j);
        }
    }
}

#[test]
fn proxied_port_takes_first_match_with_hostname() {
    let run = RunInfo {
        proxied_ports: vec![
            proxied_port("game", JobProxyProtocol::Udp, vec!["wrong.example.com"], 1),
            proxied_port("other", JobProxyProtocol::Tcp, vec!["other.example.com"], 2),
            proxied_port("game", JobProxyProtocol::Tcp, vec![], 3),
            proxied_port("game", JobProxyProtocol::Tcp, vec!["a.example.com", "b.example.com"], 27015),
            proxied_port("game", JobProxyProtocol::Tcp, vec!["c.example.com"], 5),
        ],
        networks: vec![],
    };
    let r = build_port(&run, &proxied_decl("game", ProxyProtocol::Tcp)).unwrap();
    assert_eq!(
        r,
        Some((
            s("game"),
            JoinPort {
                host: Some(s("a.example.com:27015")),
                hostname: s("a.example.com"),
                port: Some(27015),
                port_range: None,
                is_tls: false,
            }
        ))
    );
}

#[test]
fn proxied_port_without_match_is_none() {
    let run = RunInfo {
        proxied_ports: vec![proxied_port("game", JobProxyProtocol::Http, vec!["h.example.com"], 80)],
        networks: vec![],
    };
    let decl = proxied_decl("game", ProxyProtocol::Https);
    assert_eq!(build_port(&run, &decl), Ok(None));
    assert_eq!(build_port(&run, &decl), build_port(&run, &decl));
}

#[test]
fn proxied_port_too_large_fails() {
    let run = RunInfo {
        proxied_ports: vec![proxied_port("game", JobProxyProtocol::Tcp, vec!["h.example.com"], 70000)],
        networks: vec![],
    };
    assert_eq!(
        build_port(&run, &proxied_decl("game", ProxyProtocol::Tcp)),
        Err(MmError::Internal(InternalError::PortOutOfRange))
    );
}

fn direct_decl(protocol: ProxyProtocol, range: Option<PortRange>) -> PortDecl {
    PortDecl { label: s("direct"), proxy_kind: ProxyKind::Direct, proxy_protocol: protocol, port_range: range }
}

#[test]
fn direct_port_uses_host_network() {
    let run = RunInfo {
        proxied_ports: vec![],
        networks: vec![
            Network { mode: s("bridge"), ip: s("10.0.0.1") },
            Network { mode: s("host"), ip: s("192.0.2.7") },
            Network { mode: s("host"), ip: s("192.0.2.8") },
        ],
    };
    let r = build_port(&run, &direct_decl(ProxyProtocol::Udp, Some(PortRange { min: 26000, max: 27000 }))).unwrap();
    assert_eq!(
        r,
        Some((
            s("direct"),
            JoinPort {
                host: None,
                hostname: s("192.0.2.7"),
                port: None,
                port_range: Some(JoinPortRange { min: 26000, max: 27000 }),
                is_tls: false,
            }
        ))
    );
}

#[test]
fn direct_port_failures() {
    let no_host = RunInfo { proxied_ports: vec![], networks: vec![Network { mode: s("bridge"), ip: s("10.0.0.1") }] };
    let range = Some(PortRange { min: 1, max: 2 });
    assert_eq!(
        build_port(&no_host, &direct_decl(ProxyProtocol::Tcp, range)),
        Err(MmError::Internal(InternalError::MissingHostNetwork))
    );
    assert_eq!(
        build_port(&no_host, &direct_decl(ProxyProtocol::Tcp, None)),
        Err(MmError::Internal(InternalError::MissingPortRange))
    );
    for p in [ProxyProtocol::Http, ProxyProtocol::Https, ProxyProtocol::TcpTls] {
        assert_eq!(
            build_port(&no_host, &direct_decl(p, range)),
            Err(MmError::Internal(InternalError::InvalidHostProtocol))
        );
    }
    let host = RunInfo { proxied_ports: vec![], networks: vec![Network { mode: s("host"), ip: s("h") }] };
    assert_eq!(
        build_port(&host, &direct_decl(ProxyProtocol::Tcp, Some(PortRange { min: 1, max: 65536 }))),
        Err(MmError::Internal(InternalError::PortOutOfRange))
    );
}

#[test]
fn build_ports_skips_unmatched_and_stops_at_failure() {
    let run = RunInfo {
        proxied_ports: vec![proxied_port("web", JobProxyProtocol::Http, vec!["w.example.com"], 8080)],
        networks: vec![],
    };
    let decls = vec![proxied_decl("game", ProxyProtocol::Udp), proxied_decl("web", ProxyProtocol::Http)];
    let r = build_ports(&run, &decls).unwrap();
    assert_eq!(r.len(), 1);
    assert_eq!(r[0].0, "web");
    assert_eq!(r[0].1.host, Some(s("w.example.com:8080")));
    let bad = vec![proxied_decl("web", ProxyProtocol::Http), direct_decl(ProxyProtocol::Https, None)];
    assert_eq!(build_ports(&run, &bad), Err(MmError::Internal(InternalError::InvalidHostProtocol)));
    assert_eq!(build_ports(&run, &vec![]), Ok(vec![]));
}

#[test]
fn response_needs_configured_game_mode() {
    let run = RunInfo { proxied_ports: vec![], networks: vec![] };
    let r = assemble_find_response(1, 77, &vec![], &run, s("r"), s("R"), s("t"));
    assert_eq!(r, Err(MmError::Internal(InternalError::GameModeConfigMissing)));
}

#[test]
fn captcha_gate_steps() {
    let cfg = CaptchaConfig { hcaptcha: true, turnstile: false };
    assert_eq!(captcha_gate(None, true), CaptchaStep::Proceed);
    assert_eq!(captcha_gate(Some(cfg), true), CaptchaStep::Verify);
    assert_eq!(captcha_gate(Some(cfg), false), CaptchaStep::CheckRequired);
}

#[test]
fn captcha_requirement_outcomes() {
    let h = CaptchaConfig { hcaptcha: true, turnstile: true };
    let t = CaptchaConfig { hcaptcha: false, turnstile: true };
    let none = CaptchaConfig { hcaptcha: false, turnstile: false };
    assert_eq!(
        captcha_requirement(h, true, s("site")),
        Err(MmError::CaptchaRequired(CaptchaChallenge::Hcaptcha { site_key: s("site") }))
    );
    assert_eq!(captcha_requirement(h, false, s("site")), Ok(()));
    assert_eq!(captcha_requirement(t, true, s("")), Err(MmError::CaptchaRequired(CaptchaChallenge::Turnstile)));
    assert_eq!(captcha_requirement(t, false, s("")), Ok(()));
    assert_eq!(
        captcha_requirement(none, false, s("")),
        Err(MmError::Internal(InternalError::InvalidCaptchaConfig))
    );
}

#[test]
fn scenario_unresolvable_pair_with_resolved_names() {
    let config = vec![mode("mode", 3, vec![ASIA], vec![])];
    let answers = vec![resolved("us-east", US_EAST), resolved("eu-west", EU_WEST)];
    let names = vec![s("eu-west"), s("us-east")];
    assert_eq!(
        find_query_with_resolved(&config, &vec![0], &names, &answers, None),
        Err(MmError::NoValidGameModeRegionPair)
    );
    assert_eq!(
        find_query_with_resolved(&config, &vec![0], &vec![s("mars")], &answers, None),
        Err(MmError::RegionNotFound)
    );
}
