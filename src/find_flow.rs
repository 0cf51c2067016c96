//! The find protocol as a state machine. The caller performs each action,
//! makes the collaborator call it names, and hands the result back as the
//! next event; the machine makes every decision in between.

use vstd::prelude::*;
use crate::error::{CaptchaChallenge, InternalError, MmError};
use crate::find::{
    assemble_find_response, captcha_gate, captcha_requirement, find_outcome_result, is_first_with_id,
    lobby_after_find, map_find_outcome, response_consistent, CaptchaConfig, CaptchaStep, FindOutcome,
    FindResponse, FoundLobby, LobbyRecord,
};
use crate::ports::{ports_view, translate_ports, JoinPortView, RunInfo};
use crate::selection::GameMode;

verus! {

/// How long a player token lives: ninety days, in milliseconds. It outlives
/// any connection, since the same token authenticates the player's later
/// disconnect.
pub const PLAYER_TOKEN_TTL_MS: u64 = 7776000000;

/// The token to issue for a player: its only entitlement is that of the
/// matchmaker player `player_id`, and it lives for `ttl_ms`.
#[derive(Clone, Copy, Debug, PartialEq, Eq, Structural)]
pub struct PlayerTokenRequest {
    pub player_id: u128,
    pub ttl_ms: u64,
}

/// The player a find query is sent for.
#[derive(Clone, Copy, Debug, PartialEq, Eq, Structural)]
pub struct FindPlayer {
    pub player_id: u128,
    pub token_session_id: u128,
}

/// Where a find request stands. The player id, drawn fresh for the request,
/// is carried until the query is sent.
#[derive(Clone, Copy, Debug, PartialEq, Eq, Structural)]
pub enum FindState {
    /// Nothing has happened yet.
    Start,
    /// The client's captcha response is being verified.
    AwaitCaptchaVerify { player_id: u128 },
    /// The captcha service is asked whether verification is required.
    AwaitCaptchaRequirement { config: CaptchaConfig, player_id: u128 },
    /// The hCaptcha site key is being fetched for the challenge.
    AwaitSiteKey { needs_verification: bool, player_id: u128 },
    /// The player token is being issued.
    AwaitToken { player_id: u128 },
    /// The query is with the allocation collaborator.
    AwaitDispatch,
    /// The lobby the player was placed in is being looked up.
    AwaitLobby { lobby_id: u128 },
    /// The lobby's compute run, configuration and region are being fetched.
    AwaitDetails { found: FoundLobby },
    /// The request has ended.
    Finished,
}

/// A result handed back by the caller.
#[derive(Clone, Debug, PartialEq, Eq)]
pub enum FindEvent {
    /// The request begins, with the version's captcha configuration, whether
    /// the client sent a captcha response, and a fresh player id.
    Begin { captcha: Option<CaptchaConfig>, has_captcha_response: bool, player_id: u128 },
    /// The captcha service accepted the client's response.
    CaptchaVerified,
    /// The captcha service said whether verification is required.
    CaptchaRequirement { needs_verification: bool },
    /// The hCaptcha site key.
    SiteKey { site_key: String },
    /// The player token was issued, within the given token session.
    TokenIssued { token_session_id: u128 },
    /// The allocation collaborator answered.
    Dispatched { outcome: FindOutcome },
    /// The allocation collaborator did not answer before the timeout; the
    /// request is abandoned.
    DispatchTimedOut,
    /// The lobby lookup answered.
    LobbyFetched { lobby: Option<LobbyRecord> },
    /// The lobby's details: the version configuration current for its game
    /// mode, its compute run, its region and the player's token.
    DetailsFetched {
        config: Vec<GameMode>,
        run: RunInfo,
        region_name_id: String,
        region_display_name: String,
        token: String,
    },
}

/// What the caller does next.
#[derive(Clone, Debug, PartialEq, Eq)]
pub enum FindAction {
    VerifyCaptcha,
    CheckCaptchaRequirement,
    FetchSiteKey,
    IssueToken { request: PlayerTokenRequest },
    /// Send the query, once, for this player, and wait for its single answer.
    Dispatch { player: FindPlayer },
    FetchLobby { lobby_id: u128 },
    FetchDetails { found: FoundLobby },
    /// The request succeeded.
    Respond { response: FindResponse },
    /// The request failed.
    Fail { error: MmError },
}

pub open spec fn unexpected() -> MmError {
    MmError::Internal(InternalError::UnexpectedEvent)
}

pub open spec fn issue_token(player_id: u128) -> FindAction {
    FindAction::IssueToken { request: PlayerTokenRequest { player_id, ttl_ms: PLAYER_TOKEN_TTL_MS } }
}

/// The step for every pair of state and event but the two whose action
/// carries a value, described by `find_step`'s contract.
pub open spec fn step_spec(state: FindState, event: FindEvent) -> (FindState, FindAction) {
    match (state, event) {
        (FindState::Start, FindEvent::Begin { captcha, has_captcha_response, player_id }) => match captcha {
            None => (FindState::AwaitToken { player_id }, issue_token(player_id)),
            Some(config) => if has_captcha_response {
                (FindState::AwaitCaptchaVerify { player_id }, FindAction::VerifyCaptcha)
            } else {
                (FindState::AwaitCaptchaRequirement { config, player_id }, FindAction::CheckCaptchaRequirement)
            },
        },
        (FindState::AwaitCaptchaVerify { player_id }, FindEvent::CaptchaVerified) => (
            FindState::AwaitToken { player_id },
            issue_token(player_id),
        ),
        (
            FindState::AwaitCaptchaRequirement { config, player_id },
            FindEvent::CaptchaRequirement { needs_verification },
        ) => {
            if config.hcaptcha {
                (FindState::AwaitSiteKey { needs_verification, player_id }, FindAction::FetchSiteKey)
            } else if config.turnstile {
                if needs_verification {
                    (
                        FindState::Finished,
                        FindAction::Fail { error: MmError::CaptchaRequired(CaptchaChallenge::Turnstile) },
                    )
                } else {
                    (FindState::AwaitToken { player_id }, issue_token(player_id))
                }
            } else {
                (
                    FindState::Finished,
                    FindAction::Fail { error: MmError::Internal(InternalError::InvalidCaptchaConfig) },
                )
            }
        },
        (FindState::AwaitToken { player_id }, FindEvent::TokenIssued { token_session_id }) => (
            FindState::AwaitDispatch,
            FindAction::Dispatch { player: FindPlayer { player_id, token_session_id } },
        ),
        (FindState::AwaitDispatch, FindEvent::Dispatched { outcome }) => match find_outcome_result(outcome) {
            Ok(lobby_id) => (FindState::AwaitLobby { lobby_id }, FindAction::FetchLobby { lobby_id }),
            Err(error) => (FindState::Finished, FindAction::Fail { error }),
        },
        (FindState::AwaitDispatch, FindEvent::DispatchTimedOut) => (
            FindState::Finished,
            FindAction::Fail { error: MmError::DispatchTimeout },
        ),
        (FindState::AwaitLobby { lobby_id }, FindEvent::LobbyFetched { lobby }) => match lobby {
            None => (
                FindState::Finished,
                FindAction::Fail { error: MmError::Internal(InternalError::LobbyMissingAfterFind) },
            ),
            Some(l) => match (l.region_id, l.lobby_group_id, l.run_id) {
                (Some(region_id), Some(lobby_group_id), Some(run_id)) => {
                    let found = FoundLobby { lobby_id, region_id, lobby_group_id, run_id };
                    (FindState::AwaitDetails { found }, FindAction::FetchDetails { found })
                },
                _ => (FindState::Finished, FindAction::Fail { error: MmError::Internal(InternalError::MissingField) }),
            },
        },
        _ => (FindState::Finished, FindAction::Fail { error: unexpected() }),
    }
}

/// Whether a pair of state and event is one of the two whose action carries
/// a value that `step_spec` does not fix: the hCaptcha challenge and the
/// response.
pub open spec fn carries_payload(state: FindState, event: FindEvent) -> bool {
    ||| state is AwaitSiteKey && event is SiteKey
    ||| state is AwaitDetails && event is DetailsFetched
}

/// Advances a find request by one event.
pub fn find_step(state: FindState, event: FindEvent) -> (r: (FindState, FindAction))
    ensures
        !carries_payload(state, event) ==> r == step_spec(state, event),
        match (state, event) {
            (FindState::AwaitSiteKey { needs_verification, player_id }, FindEvent::SiteKey { site_key }) => {
                &&& r.0 == if needs_verification { FindState::Finished } else { FindState::AwaitToken { player_id } }
                &&& needs_verification ==> match r.1 {
                    FindAction::Fail { error: MmError::CaptchaRequired(CaptchaChallenge::Hcaptcha { site_key: k }) } => k@ == site_key@,
                    _ => false,
                }
                &&& !needs_verification ==> r.1 == issue_token(player_id)
            },
            (
                FindState::AwaitDetails { found },
                FindEvent::DetailsFetched { config, run, region_name_id, region_display_name, token },
            ) => {
                &&& r.0 == FindState::Finished
                &&& match r.1 {
                    FindAction::Respond { response } => {
                        &&& exists|i: int| is_first_with_id(config@, found.lobby_group_id, i)
                            && translate_ports(run, config@[i].ports@) == Ok::<Seq<(Seq<char>, JoinPortView)>, MmError>(ports_view(response.ports@))
                        &&& response_consistent(response)
                        &&& response.lobby.lobby_id == found.lobby_id
                        &&& response.lobby.region.region_id@ == region_name_id@
                        &&& response.lobby.region.display_name@ == region_display_name@
                        &&& response.player.token@ == token@
                    },
                    FindAction::Fail { error } => (forall|j: int| 0 <= j < config@.len() ==> (#[trigger] config@[j]).lobby_group_id != found.lobby_group_id)
                        && error == MmError::Internal(InternalError::GameModeConfigMissing)
                        || exists|i: int| is_first_with_id(config@, found.lobby_group_id, i)
                        && translate_ports(run, config@[i].ports@) == Err::<Seq<(Seq<char>, JoinPortView)>, MmError>(error),
                    _ => false,
                }
            },
            _ => true,
        },
{
    match (state, event) {
        (FindState::Start, FindEvent::Begin { captcha, has_captcha_response, player_id }) => {
            match captcha_gate(captcha, has_captcha_response) {
                CaptchaStep::Proceed => (
                    FindState::AwaitToken { player_id },
                    FindAction::IssueToken { request: PlayerTokenRequest { player_id, ttl_ms: PLAYER_TOKEN_TTL_MS } },
                ),
                CaptchaStep::Verify => (FindState::AwaitCaptchaVerify { player_id }, FindAction::VerifyCaptcha),
                CaptchaStep::CheckRequired => {
                    let config = captcha.unwrap();
                    (FindState::AwaitCaptchaRequirement { config, player_id }, FindAction::CheckCaptchaRequirement)
                },
            }
        },
        (FindState::AwaitCaptchaVerify { player_id }, FindEvent::CaptchaVerified) => (
            FindState::AwaitToken { player_id },
            FindAction::IssueToken { request: PlayerTokenRequest { player_id, ttl_ms: PLAYER_TOKEN_TTL_MS } },
        ),
        (
            FindState::AwaitCaptchaRequirement { config, player_id },
            FindEvent::CaptchaRequirement { needs_verification },
        ) => {
            if config.hcaptcha {
                (FindState::AwaitSiteKey { needs_verification, player_id }, FindAction::FetchSiteKey)
            } else {
                match captcha_requirement(config, needs_verification, String::new()) {
                    Ok(()) => (
                        FindState::AwaitToken { player_id },
                        FindAction::IssueToken { request: PlayerTokenRequest { player_id, ttl_ms: PLAYER_TOKEN_TTL_MS } },
                    ),
                    Err(error) => (FindState::Finished, FindAction::Fail { error }),
                }
            }
        },
        (FindState::AwaitSiteKey { needs_verification, player_id }, FindEvent::SiteKey { site_key }) => {
            let config = CaptchaConfig { hcaptcha: true, turnstile: false };
            match captcha_requirement(config, needs_verification, site_key) {
                Ok(()) => (
                    FindState::AwaitToken { player_id },
                    FindAction::IssueToken { request: PlayerTokenRequest { player_id, ttl_ms: PLAYER_TOKEN_TTL_MS } },
                ),
                Err(error) => (FindState::Finished, FindAction::Fail { error }),
            }
        },
        (FindState::AwaitToken { player_id }, FindEvent::TokenIssued { token_session_id }) => (
            FindState::AwaitDispatch,
            FindAction::Dispatch { player: FindPlayer { player_id, token_session_id } },
        ),
        (FindState::AwaitDispatch, FindEvent::Dispatched { outcome }) => match map_find_outcome(outcome) {
            Ok(lobby_id) => (FindState::AwaitLobby { lobby_id }, FindAction::FetchLobby { lobby_id }),
            Err(error) => (FindState::Finished, FindAction::Fail { error }),
        },
        (FindState::AwaitDispatch, FindEvent::DispatchTimedOut) => (
            FindState::Finished,
            FindAction::Fail { error: MmError::DispatchTimeout },
        ),
        (FindState::AwaitLobby { lobby_id }, FindEvent::LobbyFetched { lobby }) => match lobby_after_find(lobby_id, lobby) {
            Ok(found) => (FindState::AwaitDetails { found }, FindAction::FetchDetails { found }),
            Err(error) => (FindState::Finished, FindAction::Fail { error }),
        },
        (
            FindState::AwaitDetails { found },
            FindEvent::DetailsFetched { config, run, region_name_id, region_display_name, token },
        ) => {
            match assemble_find_response(
                found.lobby_id,
                found.lobby_group_id,
                &config,
                &run,
                region_name_id,
                region_display_name,
                token,
            ) {
                Ok(response) => (FindState::Finished, FindAction::Respond { response }),
                Err(error) => (FindState::Finished, FindAction::Fail { error }),
            }
        },
        _ => (FindState::Finished, FindAction::Fail { error: MmError::Internal(InternalError::UnexpectedEvent) }),
    }
}

/// A find request ends after a failure: every failing step moves to
/// `Finished`, and `Finished` takes no further event without failing.
pub proof fn lemma_failure_is_terminal(state: FindState, event: FindEvent)
    requires
        !carries_payload(state, event),
        step_spec(state, event).1 is Fail,
    ensures
        step_spec(state, event).0 == FindState::Finished,
        step_spec(FindState::Finished, event) == (FindState::Finished, FindAction::Fail { error: unexpected() }),
{
}

/// The query is dispatched exactly from the step after the token is issued,
/// for the player the token was issued to, and no step goes back to
/// dispatch: a find is never retried here.
pub proof fn lemma_single_dispatch(state: FindState, event: FindEvent)
    requires
        !carries_payload(state, event),
    ensures
        step_spec(state, event).1 is Dispatch <==> (state is AwaitToken && event is TokenIssued),
        step_spec(state, event).1 is Dispatch ==> step_spec(state, event).1->player == (FindPlayer {
            player_id: state->AwaitToken_player_id,
            token_session_id: event->TokenIssued_token_session_id,
        }),
        !(state is AwaitToken) ==> step_spec(state, event).0 != FindState::AwaitDispatch,
{
}

/// The token is issued for the player id that the request began with, and
/// that id is the one the query is sent for: it is carried unchanged from
/// the start through every captcha step.
pub proof fn lemma_token_for_request_player(state: FindState, event: FindEvent)
    requires
        !carries_payload(state, event),
        step_spec(state, event).1 is IssueToken,
    ensures
        step_spec(state, event).1->request.ttl_ms == PLAYER_TOKEN_TTL_MS,
        step_spec(state, event).0 == (FindState::AwaitToken { player_id: step_spec(state, event).1->request.player_id }),
        state is Start ==> step_spec(state, event).1->request.player_id == event->Begin_player_id,
        state is AwaitCaptchaVerify ==> step_spec(state, event).1->request.player_id == state->AwaitCaptchaVerify_player_id,
        state is AwaitCaptchaRequirement ==> step_spec(state, event).1->request.player_id == state->AwaitCaptchaRequirement_player_id,
{
}

} // verus!
