//! The failures a request can end in.

use vstd::prelude::*;

verus! {

/// The challenge a client has to solve before it may search for a lobby.
#[derive(Clone, Debug, PartialEq, Eq)]
pub enum CaptchaChallenge {
    /// hCaptcha, with the site key the client embeds.
    Hcaptcha { site_key: String },
    /// Turnstile, which needs no embedded configuration.
    Turnstile,
}

/// Failures that mean a broken invariant or configuration rather than a
/// request the caller could correct.
#[derive(Clone, Copy, Debug, PartialEq, Eq, Structural)]
pub enum InternalError {
    /// The allocation collaborator answered with the unknown code.
    UnknownFindErrorCode,
    /// The allocation collaborator answered with a code that is not known here.
    UnparsableFindErrorCode,
    /// The lobby that a find request returned no longer exists.
    LobbyMissingAfterFind,
    /// A record lacks a field that it always carries.
    MissingField,
    /// A captcha configuration names no provider.
    InvalidCaptchaConfig,
    /// The proximity recommender returned no region.
    NoRecommendedRegion,
    /// The proximity recommender did not rank a region of the listing.
    RegionNotRecommended,
    /// A direct port is declared without a port range.
    MissingPortRange,
    /// A direct port is declared, but the compute run has no host network.
    MissingHostNetwork,
    /// A port number does not fit in 16 bits.
    PortOutOfRange,
    /// A direct port is declared with a protocol that needs a proxy.
    InvalidHostProtocol,
    /// The lobby's game mode is absent from its version configuration.
    GameModeConfigMissing,
    /// A player count does not fit in the response.
    CountOutOfRange,
    /// A find request received an event that its current step does not
    /// expect.
    UnexpectedEvent,
}

/// Every way a matchmaking request can fail.
#[derive(Clone, Debug, PartialEq, Eq)]
pub enum MmError {
    /// A lobby id is not a UUID.
    InvalidLobbyId,
    /// A requested game mode name is not configured.
    GameModeNotFound,
    /// A requested region name did not resolve.
    RegionNotFound,
    /// No requested game mode is enabled in any candidate region.
    NoValidGameModeRegionPair,
    /// The client must solve a captcha first.
    CaptchaRequired(CaptchaChallenge),
    StaleMessage,
    TooManyPlayersFromSource,
    LobbyStopped,
    LobbyClosed,
    LobbyNotFound,
    NoAvailableLobbies,
    LobbyFull,
    LobbyCountOverMax,
    RegionNotEnabled,
    DevTeamInvalidStatus,
    /// The allocation collaborator did not answer in time.
    DispatchTimeout,
    /// A broken invariant or configuration.
    Internal(InternalError),
}

} // verus!
