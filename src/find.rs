//! The decisions of a find or join request: the captcha gate, the mapping of
//! the allocation collaborator's answer, the checks after success and the
//! assembly of the response. The calls to the collaborators are made by the
//! caller, which hands their results to these functions.

use vstd::prelude::*;
use crate::error::{CaptchaChallenge, InternalError, MmError};
use crate::ports::{build_ports, labelled_view, ports_view, translate_ports, JoinPort, JoinPortView, RunInfo};
use crate::selection::{
    auto_create_pair, build_find_query, enabled_in_prefix, enabled_region_ids, is_configured,
    is_first_named, picked, primary_region, resolve_game_modes, resolve_region_ids, resolves,
    resolves_to, lemma_resolves_to_unique, FindQuery, GameMode, ResolvedRegion,
};

verus! {

/// The captcha providers that a game version configures.
#[derive(Clone, Copy, Debug, PartialEq, Eq, Structural)]
pub struct CaptchaConfig {
    pub hcaptcha: bool,
    pub turnstile: bool,
}

/// What the captcha gate asks of the caller before a find goes on.
#[derive(Clone, Copy, Debug, PartialEq, Eq, Structural)]
pub enum CaptchaStep {
    /// No captcha is configured: go on.
    Proceed,
    /// Verify the client's response; a rejection ends the request.
    Verify,
    /// Ask the captcha service whether verification is required now.
    CheckRequired,
}

/// Decides the captcha step from the version's configuration and whether the
/// client sent a response.
pub fn captcha_gate(config: Option<CaptchaConfig>, has_response: bool) -> (r: CaptchaStep)
    ensures
        r == match config {
            None => CaptchaStep::Proceed,
            Some(_) => if has_response {
                CaptchaStep::Verify
            } else {
                CaptchaStep::CheckRequired
            },
        },
{
    match config {
        None => CaptchaStep::Proceed,
        Some(_) => if has_response {
            CaptchaStep::Verify
        } else {
            CaptchaStep::CheckRequired
        },
    }
}

/// Decides, once the captcha service has said whether verification is
/// needed, whether the find goes on. hCaptcha takes precedence over
/// Turnstile; a configuration with neither is a configuration failure.
pub fn captcha_requirement(config: CaptchaConfig, needs_verification: bool, hcaptcha_site_key: String) -> (r: Result<(), MmError>)
    ensures
        config.hcaptcha ==> (r is Ok <==> !needs_verification),
        config.hcaptcha && needs_verification ==> match r {
            Err(MmError::CaptchaRequired(CaptchaChallenge::Hcaptcha { site_key })) => site_key@ == hcaptcha_site_key@,
            _ => false,
        },
        !config.hcaptcha && config.turnstile ==> r == if needs_verification {
            Err::<(), MmError>(MmError::CaptchaRequired(CaptchaChallenge::Turnstile))
        } else {
            Ok::<(), MmError>(())
        },
        !config.hcaptcha && !config.turnstile ==> r == Err::<(), MmError>(
            MmError::Internal(InternalError::InvalidCaptchaConfig),
        ),
{
    if config.hcaptcha {
        if needs_verification {
            Err(MmError::CaptchaRequired(CaptchaChallenge::Hcaptcha { site_key: hcaptcha_site_key }))
        } else {
            Ok(())
        }
    } else if config.turnstile {
        if needs_verification {
            Err(MmError::CaptchaRequired(CaptchaChallenge::Turnstile))
        } else {
            Ok(())
        }
    } else {
        Err(MmError::Internal(InternalError::InvalidCaptchaConfig))
    }
}

/// The failure codes of the allocation collaborator.
#[derive(Clone, Copy, Debug, PartialEq, Eq, Structural)]
pub enum FindErrorCode {
    Unknown,
    StaleMessage,
    TooManyPlayersFromSource,
    LobbyStopped,
    LobbyStoppedPrematurely,
    LobbyClosed,
    LobbyNotFound,
    NoAvailableLobbies,
    LobbyFull,
    LobbyCountOverMax,
    RegionNotEnabled,
    DevTeamInvalidStatus,
}

/// The single answer of the allocation collaborator to a find query.
#[derive(Clone, Copy, Debug, PartialEq, Eq, Structural)]
pub enum FindOutcome {
    /// The player was placed in a lobby.
    Complete { lobby_id: Option<u128> },
    /// The query failed; the code is absent where it could not be decoded.
    Fail { error_code: Option<FindErrorCode> },
}

/// The caller-visible failure for each failure code.
pub open spec fn find_error(code: FindErrorCode) -> MmError {
    match code {
        FindErrorCode::Unknown => MmError::Internal(InternalError::UnknownFindErrorCode),
        FindErrorCode::StaleMessage => MmError::StaleMessage,
        FindErrorCode::TooManyPlayersFromSource => MmError::TooManyPlayersFromSource,
        FindErrorCode::LobbyStopped => MmError::LobbyStopped,
        FindErrorCode::LobbyStoppedPrematurely => MmError::LobbyStopped,
        FindErrorCode::LobbyClosed => MmError::LobbyClosed,
        FindErrorCode::LobbyNotFound => MmError::LobbyNotFound,
        FindErrorCode::NoAvailableLobbies => MmError::NoAvailableLobbies,
        FindErrorCode::LobbyFull => MmError::LobbyFull,
        FindErrorCode::LobbyCountOverMax => MmError::LobbyCountOverMax,
        FindErrorCode::RegionNotEnabled => MmError::RegionNotEnabled,
        FindErrorCode::DevTeamInvalidStatus => MmError::DevTeamInvalidStatus,
    }
}

pub open spec fn find_outcome_result(outcome: FindOutcome) -> Result<u128, MmError> {
    match outcome {
        FindOutcome::Complete { lobby_id: Some(id) } => Ok(id),
        FindOutcome::Complete { lobby_id: None } => Err(MmError::Internal(InternalError::MissingField)),
        FindOutcome::Fail { error_code: Some(code) } => Err(find_error(code)),
        FindOutcome::Fail { error_code: None } => Err(MmError::Internal(InternalError::UnparsableFindErrorCode)),
    }
}

/// Maps the allocation collaborator's answer to the lobby the player was
/// placed in, or to the caller-visible failure of its code.
pub fn map_find_outcome(outcome: FindOutcome) -> (r: Result<u128, MmError>)
    ensures
        r == find_outcome_result(outcome),
{
    match outcome {
        FindOutcome::Complete { lobby_id } => match lobby_id {
            Some(id) => Ok(id),
            None => Err(MmError::Internal(InternalError::MissingField)),
        },
        FindOutcome::Fail { error_code } => match error_code {
            None => Err(MmError::Internal(InternalError::UnparsableFindErrorCode)),
            Some(code) => Err(
                match code {
                    FindErrorCode::Unknown => MmError::Internal(InternalError::UnknownFindErrorCode),
                    FindErrorCode::StaleMessage => MmError::StaleMessage,
                    FindErrorCode::TooManyPlayersFromSource => MmError::TooManyPlayersFromSource,
                    FindErrorCode::LobbyStopped => MmError::LobbyStopped,
                    FindErrorCode::LobbyStoppedPrematurely => MmError::LobbyStopped,
                    FindErrorCode::LobbyClosed => MmError::LobbyClosed,
                    FindErrorCode::LobbyNotFound => MmError::LobbyNotFound,
                    FindErrorCode::NoAvailableLobbies => MmError::NoAvailableLobbies,
                    FindErrorCode::LobbyFull => MmError::LobbyFull,
                    FindErrorCode::LobbyCountOverMax => MmError::LobbyCountOverMax,
                    FindErrorCode::RegionNotEnabled => MmError::RegionNotEnabled,
                    FindErrorCode::DevTeamInvalidStatus => MmError::DevTeamInvalidStatus,
                },
            ),
        },
    }
}

/// Each failure code but the two stop codes has a caller-visible failure of
/// its own; the two stop codes share one. Only the unknown code is internal.
pub proof fn lemma_find_error_codes_distinct(a: FindErrorCode, b: FindErrorCode)
    ensures
        find_error(a) == find_error(b) ==> a == b || ({
            &&& a == FindErrorCode::LobbyStopped || a == FindErrorCode::LobbyStoppedPrematurely
            &&& b == FindErrorCode::LobbyStopped || b == FindErrorCode::LobbyStoppedPrematurely
        }),
        find_error(a) is Internal <==> a == FindErrorCode::Unknown,
{
}

/// A lobby record as the lobby store returns it.
#[derive(Clone, Copy, Debug, PartialEq, Eq, Structural)]
pub struct LobbyRecord {
    pub lobby_id: u128,
    pub region_id: Option<u128>,
    pub lobby_group_id: Option<u128>,
    pub run_id: Option<u128>,
}

/// The ids a found lobby leads to: its region, its game mode and its
/// compute run.
#[derive(Clone, Copy, Debug, PartialEq, Eq, Structural)]
pub struct FoundLobby {
    pub lobby_id: u128,
    pub region_id: u128,
    pub lobby_group_id: u128,
    pub run_id: u128,
}

/// Checks the lookup of the lobby `lobby_id` that a find placed the player
/// in. The collaborator guarantees that the lobby exists at success, so its
/// absence is an internal failure and is never retried or defaulted.
pub fn lobby_after_find(lobby_id: u128, found: Option<LobbyRecord>) -> (r: Result<FoundLobby, MmError>)
    ensures
        found is None ==> r == Err::<FoundLobby, MmError>(MmError::Internal(InternalError::LobbyMissingAfterFind)),
        match found {
            Some(l) => match r {
                Ok(f) => l.region_id == Some(f.region_id) && l.lobby_group_id == Some(f.lobby_group_id)
                    && l.run_id == Some(f.run_id) && f.lobby_id == lobby_id,
                Err(e) => e == MmError::Internal(InternalError::MissingField) && (l.region_id is None
                    || l.lobby_group_id is None || l.run_id is None),
            },
            None => true,
        },
{
    let lobby = match found {
        Some(l) => l,
        None => {
            return Err(MmError::Internal(InternalError::LobbyMissingAfterFind));
        },
    };
    match (lobby.region_id, lobby.lobby_group_id, lobby.run_id) {
        (Some(region_id), Some(lobby_group_id), Some(run_id)) => Ok(
            FoundLobby { lobby_id, region_id, lobby_group_id, run_id },
        ),
        _ => Err(MmError::Internal(InternalError::MissingField)),
    }
}

/// `i` is the first game mode with the given lobby group id.
pub open spec fn is_first_with_id(config: Seq<GameMode>, id: u128, i: int) -> bool {
    &&& 0 <= i < config.len()
    &&& config[i].lobby_group_id == id
    &&& forall|j: int| 0 <= j < i ==> (#[trigger] config[j]).lobby_group_id != id
}

/// Finds the game mode of a lobby in the version configuration that is
/// current for it.
pub fn find_lobby_group(config: &Vec<GameMode>, lobby_group_id: u128) -> (r: Result<usize, MmError>)
    ensures
        match r {
            Ok(i) => is_first_with_id(config@, lobby_group_id, i as int),
            Err(e) => e == MmError::Internal(InternalError::GameModeConfigMissing) && forall|j: int|
                0 <= j < config@.len() ==> (#[trigger] config@[j]).lobby_group_id != lobby_group_id,
        },
{
    let mut i: usize = 0;
    while i < config.len()
        invariant
            i <= config@.len(),
            forall|j: int| 0 <= j < i ==> (#[trigger] config@[j]).lobby_group_id != lobby_group_id,
        decreases config@.len() - i,
    {
        if config[i].lobby_group_id == lobby_group_id {
            return Ok(i);
        }
        i += 1;
    }
    Err(MmError::Internal(InternalError::GameModeConfigMissing))
}

/// A copy of a join port.
pub fn copy_join_port(p: &JoinPort) -> (r: JoinPort)
    ensures
        r@ == p@,
{
    let host = match &p.host {
        Some(h) => Some(h.clone()),
        None => None,
    };
    JoinPort { host, hostname: p.hostname.clone(), port: p.port, port_range: p.port_range, is_tls: p.is_tls }
}

/// A copy of a list of labelled join ports.
pub fn copy_ports(v: &Vec<(String, JoinPort)>) -> (r: Vec<(String, JoinPort)>)
    ensures
        ports_view(r@) == ports_view(v@),
{
    let mut out: Vec<(String, JoinPort)> = Vec::new();
    let mut i: usize = 0;
    while i < v.len()
        invariant
            i <= v@.len(),
            ports_view(out@) =~= ports_view(v@.subrange(0, i as int)),
        decreases v@.len() - i,
    {
        let label = v[i].0.clone();
        let port = copy_join_port(&v[i].1);
        let ghost before = out@;
        let ghost item = labelled_view(v@[i as int]);
        assert(labelled_view((label, port)) == item);
        out.push((label, port));
        assert(ports_view(out@) =~= ports_view(before).push(item));
        assert(ports_view(v@.subrange(0, i as int + 1)) =~= ports_view(v@.subrange(0, i as int)).push(item));
        i += 1;
    }
    assert(v@.subrange(0, i as int) =~= v@);
    out
}

/// The region a lobby runs in, as a client sees it.
#[derive(Clone, Debug, PartialEq, Eq)]
pub struct JoinRegion {
    pub region_id: String,
    pub display_name: String,
}

#[derive(Clone, Debug, PartialEq, Eq)]
pub struct JoinPlayer {
    pub token: String,
}

#[derive(Clone, Debug, PartialEq, Eq)]
pub struct JoinLobby {
    pub lobby_id: u128,
    pub region: JoinRegion,
    pub ports: Vec<(String, JoinPort)>,
    pub player: JoinPlayer,
}

/// The answer to a find or join request.
#[derive(Clone, Debug, PartialEq, Eq)]
pub struct FindResponse {
    pub lobby: JoinLobby,
    /// The join ports by label, in declaration order; where a label repeats,
    /// the later entry is the one a map keyed by label keeps.
    pub ports: Vec<(String, JoinPort)>,
    pub player: JoinPlayer,
}

/// The response is well formed: the lobby carries the same ports and player
/// as the response itself.
pub open spec fn response_consistent(r: FindResponse) -> bool {
    &&& ports_view(r.lobby.ports@) == ports_view(r.ports@)
    &&& r.lobby.player.token@ == r.player.token@
}

/// Assembles the response for a found lobby: the region's descriptor, the
/// ports of the lobby's game mode translated against its compute run, and the
/// player's token. The join and the find shapes share this assembly. The
/// ports keep declaration order, repeated labels included, so that the last
/// port of a label wins when they are collected by label.
pub fn assemble_find_response(
    lobby_id: u128,
    lobby_group_id: u128,
    config: &Vec<GameMode>,
    run: &RunInfo,
    region_name_id: String,
    region_display_name: String,
    token: String,
) -> (r: Result<FindResponse, MmError>)
    ensures
        match r {
            Ok(resp) => {
                &&& exists|i: int| is_first_with_id(config@, lobby_group_id, i)
                    && translate_ports(*run, config@[i].ports@) == Ok::<Seq<(Seq<char>, JoinPortView)>, MmError>(ports_view(resp.ports@))
                &&& response_consistent(resp)
                &&& resp.lobby.lobby_id == lobby_id
                &&& resp.lobby.region.region_id@ == region_name_id@
                &&& resp.lobby.region.display_name@ == region_display_name@
                &&& resp.player.token@ == token@
            },
            Err(e) => (forall|j: int| 0 <= j < config@.len() ==> (#[trigger] config@[j]).lobby_group_id != lobby_group_id)
                && e == MmError::Internal(InternalError::GameModeConfigMissing)
                || exists|i: int| is_first_with_id(config@, lobby_group_id, i)
                && translate_ports(*run, config@[i].ports@) == Err::<Seq<(Seq<char>, JoinPortView)>, MmError>(e),
        },
{
    let i = find_lobby_group(config, lobby_group_id)?;
    let ports = match build_ports(run, &config[i].ports) {
        Ok(p) => p,
        Err(e) => {
            return Err(e);
        },
    };
    let lobby_ports = copy_ports(&ports);
    let player = JoinPlayer { token: token.clone() };
    let lobby = JoinLobby {
        lobby_id,
        region: JoinRegion { region_id: region_name_id, display_name: region_display_name },
        ports: lobby_ports,
        player: JoinPlayer { token },
    };
    Ok(FindResponse { lobby, ports, player })
}

/// A client's answer to a captcha challenge.
#[derive(Clone, Debug, PartialEq, Eq)]
pub enum CaptchaResponse {
    Hcaptcha { client_response: String },
    Turnstile { client_response: String },
}

/// A request to find a lobby of one of several game modes.
#[derive(Clone, Debug, PartialEq, Eq)]
pub struct MatchmakerLobbiesFindRequest {
    pub captcha: Option<CaptchaResponse>,
    /// The game modes, in order of preference.
    pub game_modes: Vec<String>,
    pub prevent_auto_create_lobby: Option<bool>,
    /// The regions, in order of preference; absent to let proximity decide.
    pub regions: Option<Vec<String>>,
}

impl MatchmakerLobbiesFindRequest {
    pub fn new(game_modes: Vec<String>) -> (r: MatchmakerLobbiesFindRequest)
        ensures
            r.game_modes@ == game_modes@,
            r.captcha is None,
            r.prevent_auto_create_lobby is None,
            r.regions is None,
    {
        MatchmakerLobbiesFindRequest { captcha: None, game_modes, prevent_auto_create_lobby: None, regions: None }
    }
}

/// Where a find request stands once its game modes are resolved: the
/// regions still have to come from the region directory or from the
/// proximity recommender.
#[derive(Clone, Debug, PartialEq, Eq)]
pub enum RegionLookup {
    /// Ask the region directory for these names, in request order.
    Resolve { selected: Vec<usize>, names: Vec<String> },
    /// Ask the proximity recommender to rank these regions.
    Recommend { selected: Vec<usize>, candidates: Vec<u128> },
}

/// The first step of a find request: resolves the requested game modes and
/// says which region lookup comes next.
pub fn begin_find(config: &Vec<GameMode>, request: &MatchmakerLobbiesFindRequest) -> (r: Result<RegionLookup, MmError>)
    ensures
        r is Err <==> exists|k: int| 0 <= k < request.game_modes@.len() && !is_configured(config@, #[trigger] request.game_modes@[k]@),
        match r {
            Err(e) => e == MmError::GameModeNotFound,
            Ok(RegionLookup::Resolve { selected, names }) => {
                &&& request.regions is Some
                &&& names@ == request.regions->0@
                &&& selected@.len() == request.game_modes@.len()
                &&& forall|k: int| 0 <= k < selected@.len() ==> is_first_named(config@, request.game_modes@[k]@, #[trigger] selected@[k] as int)
            },
            Ok(RegionLookup::Recommend { selected, candidates }) => {
                &&& request.regions is None
                &&& selected@.len() == request.game_modes@.len()
                &&& forall|k: int| 0 <= k < selected@.len() ==> is_first_named(config@, request.game_modes@[k]@, #[trigger] selected@[k] as int)
                &&& candidates@.no_duplicates()
                &&& forall|id: u128| #[trigger] candidates@.contains(id) <==> enabled_in_prefix(config@, selected@, selected@.len() as int, id)
            },
        },
{
    let selected = match resolve_game_modes(config, &request.game_modes) {
        Ok(s) => s,
        Err(e) => {
            return Err(e);
        },
    };
    match &request.regions {
        Some(names) => {
            let mut copy: Vec<String> = Vec::new();
            let mut i: usize = 0;
            while i < names.len()
                invariant
                    i <= names@.len(),
                    copy@ =~= names@.subrange(0, i as int),
                decreases names@.len() - i,
            {
                copy.push(names[i].clone());
                i += 1;
            }
            Ok(RegionLookup::Resolve { selected, names: copy })
        },
        None => {
            proof {
                assert forall|k: int| 0 <= k < selected@.len() implies #[trigger] selected@[k] < config@.len() by {
                    assert(is_first_named(config@, request.game_modes@[k]@, selected@[k] as int));
                }
            }
            let candidates = enabled_region_ids(config, &selected);
            Ok(RegionLookup::Recommend { selected, candidates })
        },
    }
}

/// The query of a find request whose region names the region directory has
/// answered for.
pub fn find_query_with_resolved(
    config: &Vec<GameMode>,
    selected: &Vec<usize>,
    names: &Vec<String>,
    resolved: &Vec<ResolvedRegion>,
    prevent_auto_create_lobby: Option<bool>,
) -> (r: Result<FindQuery, MmError>)
    requires
        forall|k: int| 0 <= k < selected@.len() ==> #[trigger] selected@[k] < config@.len(),
    ensures
        !(forall|k: int| 0 <= k < names@.len() ==> resolves(resolved@, #[trigger] names@[k]@)) ==> r == Err::<FindQuery, MmError>(MmError::RegionNotFound),
        (forall|k: int| 0 <= k < names@.len() ==> resolves(resolved@, #[trigger] names@[k]@)) ==> match r {
            Err(e) => e == MmError::NoValidGameModeRegionPair && forall|ids: Seq<u128>|
                ids.len() == names@.len() && (forall|k: int| 0 <= k < names@.len() ==> resolves_to(resolved@, names@[k]@, #[trigger] ids[k]))
                ==> auto_create_pair(picked(config@, selected@), ids) is None,
            Ok(FindQuery::LobbyGroup { lobby_group_ids, region_ids, auto_create }) => {
                &&& lobby_group_ids@ == picked(config@, selected@).map_values(|m: GameMode| m.lobby_group_id)
                &&& region_ids@.len() == names@.len()
                &&& forall|k: int| 0 <= k < names@.len() ==> resolves_to(resolved@, names@[k]@, #[trigger] region_ids@[k])
                &&& auto_create == if prevent_auto_create_lobby == Some(true) {
                    None
                } else {
                    auto_create_pair(picked(config@, selected@), region_ids@)
                }
            },
            Ok(FindQuery::Direct { .. }) => false,
        },
        match r {
            Ok(FindQuery::LobbyGroup { region_ids, .. }) => auto_create_pair(picked(config@, selected@), region_ids@) is Some,
            _ => true,
        },
{
    let region_ids = resolve_region_ids(names, resolved)?;
    let ghost ids_found = region_ids@;
    let r = build_find_query(config, selected, region_ids, prevent_auto_create_lobby);
    proof {
        assert forall|ids: Seq<u128>|
            ids.len() == names@.len() && (forall|k: int| 0 <= k < names@.len() ==> resolves_to(resolved@, names@[k]@, #[trigger] ids[k]))
            implies auto_create_pair(picked(config@, selected@), ids) == auto_create_pair(picked(config@, selected@), ids_found) by {
            assert forall|k: int| 0 <= k < ids.len() implies ids[k] == ids_found[k] by {
                lemma_resolves_to_unique(resolved@, names@[k]@, ids[k], ids_found[k]);
            }
            assert(ids =~= ids_found);
        }
    }
    r
}

/// The query of a find request whose candidate regions the proximity
/// recommender has ranked: the top-ranked region is the only one.
pub fn find_query_with_recommended(
    config: &Vec<GameMode>,
    selected: &Vec<usize>,
    recommended: &Vec<u128>,
    prevent_auto_create_lobby: Option<bool>,
) -> (r: Result<FindQuery, MmError>)
    requires
        forall|k: int| 0 <= k < selected@.len() ==> #[trigger] selected@[k] < config@.len(),
    ensures
        recommended@.len() == 0 ==> r == Err::<FindQuery, MmError>(MmError::Internal(InternalError::NoRecommendedRegion)),
        recommended@.len() > 0 ==> match r {
            Err(e) => e == MmError::NoValidGameModeRegionPair
                && auto_create_pair(picked(config@, selected@), seq![recommended@[0]]) is None,
            Ok(FindQuery::LobbyGroup { lobby_group_ids, region_ids, auto_create }) => {
                &&& lobby_group_ids@ == picked(config@, selected@).map_values(|m: GameMode| m.lobby_group_id)
                &&& region_ids@ == seq![recommended@[0]]
                &&& auto_create_pair(picked(config@, selected@), region_ids@) is Some
                &&& auto_create == if prevent_auto_create_lobby == Some(true) {
                    None
                } else {
                    auto_create_pair(picked(config@, selected@), region_ids@)
                }
            },
            Ok(FindQuery::Direct { .. }) => false,
        },
{
    let region_ids = primary_region(recommended)?;
    build_find_query(config, selected, region_ids, prevent_auto_create_lobby)
}

/// What `uuid::Uuid::parse_str` gives for a string, as the UUID's value.
pub uninterp spec fn uuid_of(s: Seq<char>) -> Option<u128>;

/// Relies on `uuid::Uuid::parse_str` and `Uuid::as_u128`: the UUID that the
/// string spells, in any of the forms the crate reads, or none; the result
/// depends on the string alone.
#[verifier::external_body]
fn parse_uuid(s: &str) -> (r: Option<u128>)
    ensures
        r == uuid_of(s@),
{
    match uuid::Uuid::parse_str(s) {
        Ok(u) => Some(u.as_u128()),
        Err(_) => None,
    }
}

/// The query of a request to join one lobby by its id, which must be a
/// UUID.
pub fn join_query(lobby_id: &str) -> (r: Result<FindQuery, MmError>)
    ensures
        r == match uuid_of(lobby_id@) {
            Some(id) => Ok::<FindQuery, MmError>(FindQuery::Direct { lobby_id: id }),
            None => Err(MmError::InvalidLobbyId),
        },
{
    match parse_uuid(lobby_id) {
        Some(id) => Ok(FindQuery::Direct { lobby_id: id }),
        None => Err(MmError::InvalidLobbyId),
    }
}

} // verus!
