use matchmaker::error::{CaptchaChallenge, InternalError, MmError};
use matchmaker::find::{CaptchaConfig, FindErrorCode, FindOutcome, FoundLobby, LobbyRecord};
use matchmaker::find_flow::{
    find_step, FindAction, FindEvent, FindPlayer, FindState, PlayerTokenRequest, PLAYER_TOKEN_TTL_MS,
};
use matchmaker::ports::{PortDecl, ProxiedPort, RunInfo};
use matchmaker::protocol::{JobProxyProtocol, ProxyKind, ProxyProtocol};
use matchmaker::selection::GameMode;

#[test]
fn flow_without_captcha_reaches_response() {
    let (state, action) =
        find_step(FindState::Start, FindEvent::Begin { captcha: None, has_captcha_response: false, player_id: 77 });
    assert_eq!(
        action,
        FindAction::IssueToken { request: PlayerTokenRequest { player_id: 77, ttl_ms: 90 * 24 * 60 * 60 * 1000 } }
    );
    assert_eq!(PLAYER_TOKEN_TTL_MS, 7_776_000_000);
    let (state, action) = find_step(state, FindEvent::TokenIssued { token_session_id: 55 });
    assert_eq!(action, FindAction::Dispatch { player: FindPlayer { player_id: 77, token_session_id: 55 } });
    let (state, action) =
        find_step(state, FindEvent::Dispatched { outcome: FindOutcome::Complete { lobby_id: Some(9) } });
    assert_eq!(action, FindAction::FetchLobby { lobby_id: 9 });
    let record = LobbyRecord { lobby_id: 9, region_id: Some(1), lobby_group_id: Some(2), run_id: Some(3) };
    let mut record = record;
    record.lobby_id = 1234;
    let (state, action) = find_step(state, FindEvent::LobbyFetched { lobby: Some(record) });
    let found = FoundLobby { lobby_id: 9, region_id: 1, lobby_group_id: 2, run_id: 3 };
    assert_eq!(action, FindAction::FetchDetails { found });
    let config = vec![GameMode {
        name_id: "default".to_string(),
        lobby_group_id: 2,
        region_ids: vec![1],
        ports: vec![PortDecl {
            label: "game".to_string(),
            proxy_kind: ProxyKind::Proxied,
            proxy_protocol: ProxyProtocol::Udp,
            port_range: None,
        }],
        max_players_normal: 8,
        max_players_direct: 8,
        max_players_party: 8,
    }];
    let run = RunInfo {
        proxied_ports: vec![ProxiedPort {
            target_label: Some("game".to_string()),
            ingress_hostnames: vec!["g.example.com".to_string()],
            ingress_port: 5000,
            proxy_protocol: JobProxyProtocol::Udp,
        }],
        networks: vec![],
    };
    let (state, action) = find_step(
        state,
        FindEvent::DetailsFetched {
            config,
            run,
            region_name_id: "us-east".to_string(),
            region_display_name: "US East".to_string(),
            token: "tok".to_string(),
        },
    );
    assert_eq!(state, FindState::Finished);
    match action {
        FindAction::Respond { response } => {
            assert_eq!(response.lobby.lobby_id, 9);
            assert_eq!(response.ports.len(), 1);
            assert_eq!(response.ports[0].1.host, Some("g.example.com:5000".to_string()));
            assert_eq!(response.player.token, "tok");
        }
        other => panic!("unexpected action {:?}", other),
    }
}

#[test]
fn flow_captcha_required_with_hcaptcha() {
    let config = CaptchaConfig { hcaptcha: true, turnstile: false };
    let (state, action) =
        find_step(FindState::Start, FindEvent::Begin { captcha: Some(config), has_captcha_response: false, player_id: 1 });
    assert_eq!(action, FindAction::CheckCaptchaRequirement);
    let (state, action) = find_step(state, FindEvent::CaptchaRequirement { needs_verification: true });
    assert_eq!(action, FindAction::FetchSiteKey);
    let (state, action) = find_step(state, FindEvent::SiteKey { site_key: "site".to_string() });
    assert_eq!(state, FindState::Finished);
    assert_eq!(
        action,
        FindAction::Fail {
            error: MmError::CaptchaRequired(CaptchaChallenge::Hcaptcha { site_key: "site".to_string() })
        }
    );
}

#[test]
fn flow_captcha_verify_then_token() {
    let config = CaptchaConfig { hcaptcha: false, turnstile: true };
    let (state, action) =
        find_step(FindState::Start, FindEvent::Begin { captcha: Some(config), has_captcha_response: true, player_id: 3 });
    assert_eq!(action, FindAction::VerifyCaptcha);
    let (_, action) = find_step(state, FindEvent::CaptchaVerified);
    assert_eq!(action, FindAction::IssueToken { request: PlayerTokenRequest { player_id: 3, ttl_ms: PLAYER_TOKEN_TTL_MS } });
}

#[test]
fn flow_dispatch_failure_and_unexpected_events() {
    let (state, action) = find_step(
        FindState::AwaitDispatch,
        FindEvent::Dispatched { outcome: FindOutcome::Fail { error_code: Some(FindErrorCode::LobbyFull) } },
    );
    assert_eq!(state, FindState::Finished);
    assert_eq!(action, FindAction::Fail { error: MmError::LobbyFull });
    let (state, action) = find_step(state, FindEvent::TokenIssued { token_session_id: 1 });
    assert_eq!(state, FindState::Finished);
    assert_eq!(action, FindAction::Fail { error: MmError::Internal(InternalError::UnexpectedEvent) });
    let (_, action) = find_step(FindState::AwaitLobby { lobby_id: 4 }, FindEvent::LobbyFetched { lobby: None });
    assert_eq!(action, FindAction::Fail { error: MmError::Internal(InternalError::LobbyMissingAfterFind) });
}

#[test]
fn flow_dispatch_timeout() {
    let (state, action) = find_step(FindState::AwaitDispatch, FindEvent::DispatchTimedOut);
    assert_eq!(state, FindState::Finished);
    assert_eq!(action, FindAction::Fail { error: MmError::DispatchTimeout });
}
