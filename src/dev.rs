//! Responses for a development namespace, made up without the allocation
//! collaborator so that local development never depends on it.

use vstd::prelude::*;
use crate::error::{InternalError, MmError};
use crate::find::{copy_ports, response_consistent, FindResponse, JoinLobby, JoinPlayer, JoinRegion};
use crate::listing::{fits_i32, game_mode_ids, LobbyInfo};
use crate::ports::{ports_view, JoinPort, JoinPortRange, JoinPortView, PortRange};
use crate::selection::GameMode;
use crate::text::{decimal, push_decimal};

verus! {

/// The region id of development lobbies.
pub open spec fn dev_region_id() -> Seq<char> {
    seq!['d', 'e', 'v', '-', 'l', 'c', 'l']
}

/// The display name of the development region.
pub open spec fn dev_region_name() -> Seq<char> {
    seq!['L', 'o', 'c', 'a', 'l']
}

/// Proxy protocol of a port that a development identity declares.
#[derive(Clone, Copy, Debug, PartialEq, Eq, Structural)]
pub enum DevProxyProtocol {
    Http,
    Https,
    Tcp,
    TcpTls,
    Udp,
}

/// A port binding of a development identity.
#[derive(Clone, Debug, PartialEq, Eq)]
pub struct DevPort {
    pub label: String,
    pub target_port: Option<u32>,
    pub port_range: Option<PortRange>,
    pub proxy_protocol: DevProxyProtocol,
}

pub open spec fn fits_u16(n: u32) -> bool {
    n <= u16::MAX
}

/// The numbers of a development port fit in 16 bits.
pub open spec fn dev_port_fits(p: DevPort) -> bool {
    &&& match p.target_port {
        Some(t) => fits_u16(t),
        None => true,
    }
    &&& match p.port_range {
        Some(r) => fits_u16(r.min) && fits_u16(r.max),
        None => true,
    }
}

/// The join port of a development port binding on the identity's host.
pub open spec fn dev_join_port_spec(hostname: Seq<char>, p: DevPort) -> JoinPortView {
    JoinPortView {
        host: match p.target_port {
            Some(t) => Some(hostname + seq![':'] + decimal(t as nat)),
            None => None,
        },
        hostname: hostname,
        port: match p.target_port {
            Some(t) => Some(t as u16),
            None => None,
        },
        port_range: match p.port_range {
            Some(r) => Some(JoinPortRange { min: r.min as u16, max: r.max as u16 }),
            None => None,
        },
        is_tls: p.proxy_protocol == DevProxyProtocol::Https || p.proxy_protocol == DevProxyProtocol::TcpTls,
    }
}

/// Translates one development port binding.
pub fn dev_join_port(hostname: &String, port: &DevPort) -> (r: Result<JoinPort, MmError>)
    ensures
        match r {
            Ok(jp) => dev_port_fits(*port) && jp@ == dev_join_port_spec(hostname@, *port),
            Err(e) => !dev_port_fits(*port) && e == MmError::Internal(InternalError::PortOutOfRange),
        },
{
    proof {
        reveal_strlit(":");
    }
    let (host, port_num) = match port.target_port {
        Some(t) => {
            if t > 65535 {
                return Err(MmError::Internal(InternalError::PortOutOfRange));
            }
            let mut h = hostname.clone();
            h.append(":");
            push_decimal(&mut h, t);
            assert(h@ =~= hostname@ + seq![':'] + decimal(t as nat));
            (Some(h), Some(t as u16))
        },
        None => (None, None),
    };
    let port_range = match port.port_range {
        Some(r) => {
            if r.min > 65535 || r.max > 65535 {
                return Err(MmError::Internal(InternalError::PortOutOfRange));
            }
            Some(JoinPortRange { min: r.min as u16, max: r.max as u16 })
        },
        None => None,
    };
    let is_tls = match port.proxy_protocol {
        DevProxyProtocol::Https | DevProxyProtocol::TcpTls => true,
        _ => false,
    };
    Ok(JoinPort { host, hostname: hostname.clone(), port: port_num, port_range, is_tls })
}

/// The labelled join ports of all development port bindings, in order.
pub open spec fn dev_ports_spec(hostname: Seq<char>, ports: Seq<DevPort>) -> Seq<(Seq<char>, JoinPortView)> {
    ports.map_values(|p: DevPort| (p.label@, dev_join_port_spec(hostname, p)))
}

/// Fakes the response to a find or join request in a development namespace:
/// the nil lobby id, the local region, the identity's own ports on its host,
/// and the development player token.
pub fn dev_mock_lobby(hostname: &String, lobby_ports: &Vec<DevPort>, player_token: String) -> (r: Result<FindResponse, MmError>)
    ensures
        r is Ok <==> forall|k: int| 0 <= k < lobby_ports@.len() ==> dev_port_fits(#[trigger] lobby_ports@[k]),
        match r {
            Ok(resp) => {
                &&& ports_view(resp.ports@) == dev_ports_spec(hostname@, lobby_ports@)
                &&& response_consistent(resp)
                &&& resp.lobby.lobby_id == 0
                &&& resp.lobby.region.region_id@ == dev_region_id()
                &&& resp.lobby.region.display_name@ == dev_region_name()
                &&& resp.player.token@ == player_token@
            },
            Err(e) => e == MmError::Internal(InternalError::PortOutOfRange),
        },
{
    let mut ports: Vec<(String, JoinPort)> = Vec::new();
    let mut i: usize = 0;
    while i < lobby_ports.len()
        invariant
            i <= lobby_ports@.len(),
            forall|k: int| 0 <= k < i ==> dev_port_fits(#[trigger] lobby_ports@[k]),
            ports_view(ports@) =~= dev_ports_spec(hostname@, lobby_ports@.subrange(0, i as int)),
        decreases lobby_ports@.len() - i,
    {
        let jp = dev_join_port(hostname, &lobby_ports[i])?;
        let ghost before = ports@;
        ports.push((lobby_ports[i].label.clone(), jp));
        assert(dev_ports_spec(hostname@, lobby_ports@.subrange(0, i as int + 1)) =~= dev_ports_spec(
            hostname@,
            lobby_ports@.subrange(0, i as int),
        ).push((lobby_ports@[i as int].label@, dev_join_port_spec(hostname@, lobby_ports@[i as int]))));
        assert(ports_view(ports@) =~= ports_view(before).push(
            (lobby_ports@[i as int].label@, dev_join_port_spec(hostname@, lobby_ports@[i as int])),
        ));
        i += 1;
    }
    assert(lobby_ports@.subrange(0, i as int) =~= lobby_ports@);
    proof {
        reveal_strlit("dev-lcl");
        reveal_strlit("Local");
    }
    let region_id = String::from_str("dev-lcl");
    let display_name = String::from_str("Local");
    assert(region_id@ =~= dev_region_id());
    assert(display_name@ =~= dev_region_name());
    let lobby = JoinLobby {
        lobby_id: 0,
        region: JoinRegion { region_id, display_name },
        ports: copy_ports(&ports),
        player: JoinPlayer { token: player_token.clone() },
    };
    Ok(FindResponse { lobby, ports, player: JoinPlayer { token: player_token } })
}

/// The display name of the development region's provider.
pub open spec fn dev_provider_name() -> Seq<char> {
    seq!['D', 'e', 'v', 'e', 'l', 'o', 'p', 'm', 'e', 'n', 't']
}

/// The single region of a development namespace. It has no coordinates: it
/// stands at the origin, at no distance from the client.
#[derive(Clone, Debug, PartialEq, Eq)]
pub struct DevRegion {
    pub region_id: String,
    pub provider_display_name: String,
    pub region_display_name: String,
}

/// The listing of a development namespace.
#[derive(Clone, Debug, PartialEq, Eq)]
pub struct DevLobbyList {
    /// The configured game modes, in order.
    pub game_modes: Vec<String>,
    pub region: DevRegion,
    pub lobbies: Vec<LobbyInfo>,
}

/// An idle development lobby of each configured game mode, in order.
pub open spec fn dev_lobbies_match(lobbies: Seq<LobbyInfo>, config: Seq<GameMode>) -> bool {
    &&& lobbies.len() == config.len()
    &&& forall|k: int| 0 <= k < config.len() ==> {
        let info = #[trigger] lobbies[k];
        &&& info.region_id@ == dev_region_id()
        &&& info.game_mode_id@ == config[k].name_id@
        &&& info.lobby_id == 0
        &&& info.max_players_normal == config[k].max_players_normal as i32
        &&& info.max_players_direct == config[k].max_players_direct as i32
        &&& info.max_players_party == config[k].max_players_party as i32
        &&& info.total_player_count == 0
    }
}

/// The limits of every game mode fit the response.
pub open spec fn dev_limits_fit(config: Seq<GameMode>) -> bool {
    forall|k: int| 0 <= k < config.len() ==> {
        &&& fits_i32((#[trigger] config[k]).max_players_normal)
        &&& fits_i32(config[k].max_players_direct)
        &&& fits_i32(config[k].max_players_party)
    }
}

fn dev_lobbies(config: &Vec<GameMode>) -> (r: Result<Vec<LobbyInfo>, MmError>)
    ensures
        r is Ok <==> dev_limits_fit(config@),
        match r {
            Ok(v) => dev_lobbies_match(v@, config@),
            Err(e) => e == MmError::Internal(InternalError::CountOutOfRange),
        },
{
    proof {
        reveal_strlit("dev-lcl");
    }
    let mut out: Vec<LobbyInfo> = Vec::new();
    let mut i: usize = 0;
    while i < config.len()
        invariant
            i <= config@.len(),
            "dev-lcl"@ =~= dev_region_id(),
            dev_limits_fit(config@.subrange(0, i as int)),
            dev_lobbies_match(out@, config@.subrange(0, i as int)),
        decreases config@.len() - i,
    {
        let gm = &config[i];
        if gm.max_players_normal > 2147483647 || gm.max_players_direct > 2147483647
            || gm.max_players_party > 2147483647 {
            proof {
                assert(config@[i as int] == *gm);
                assert(!dev_limits_fit(config@));
            }
            return Err(MmError::Internal(InternalError::CountOutOfRange));
        }
        out.push(LobbyInfo {
            region_id: String::from_str("dev-lcl"),
            game_mode_id: gm.name_id.clone(),
            lobby_id: 0,
            max_players_normal: gm.max_players_normal as i32,
            max_players_direct: gm.max_players_direct as i32,
            max_players_party: gm.max_players_party as i32,
            total_player_count: 0,
        });
        proof {
            let pre = config@.subrange(0, i as int + 1);
            assert forall|k: int| 0 <= k < i as int + 1 implies #[trigger] pre[k] == config@[k] by {}
            assert(dev_limits_fit(pre)) by {
                assert forall|k: int| 0 <= k < pre.len() implies {
                    &&& fits_i32((#[trigger] pre[k]).max_players_normal)
                    &&& fits_i32(pre[k].max_players_direct)
                    &&& fits_i32(pre[k].max_players_party)
                } by {
                    if k < i {
                        assert(config@.subrange(0, i as int)[k] == pre[k]);
                    }
                }
            }
            assert(dev_lobbies_match(out@, pre)) by {
                assert forall|k: int| 0 <= k < pre.len() implies {
                    let info = #[trigger] out@[k];
                    &&& info.region_id@ == dev_region_id()
                    &&& info.game_mode_id@ == pre[k].name_id@
                    &&& info.lobby_id == 0
                    &&& info.max_players_normal == pre[k].max_players_normal as i32
                    &&& info.max_players_direct == pre[k].max_players_direct as i32
                    &&& info.max_players_party == pre[k].max_players_party as i32
                    &&& info.total_player_count == 0
                } by {
                    if k < i {
                        assert(config@.subrange(0, i as int)[k] == pre[k]);
                    }
                }
            }
        }
        i += 1;
    }
    assert(config@.subrange(0, i as int) =~= config@);
    Ok(out)
}

/// The listing in a development namespace: every configured game mode, the
/// local region, and one idle lobby with the nil id in that region for each
/// game mode.
pub fn dev_mock_lobby_list(config: &Vec<GameMode>) -> (r: Result<DevLobbyList, MmError>)
    ensures
        r is Ok <==> dev_limits_fit(config@),
        match r {
            Ok(list) => {
                &&& list.game_modes@.len() == config@.len()
                &&& forall|k: int| 0 <= k < config@.len() ==> (#[trigger] list.game_modes@[k])@ == config@[k].name_id@
                &&& list.region.region_id@ == dev_region_id()
                &&& list.region.provider_display_name@ == dev_provider_name()
                &&& list.region.region_display_name@ == dev_region_name()
                &&& dev_lobbies_match(list.lobbies@, config@)
            },
            Err(e) => e == MmError::Internal(InternalError::CountOutOfRange),
        },
{
    let lobbies = dev_lobbies(config)?;
    proof {
        reveal_strlit("dev-lcl");
        reveal_strlit("Development");
        reveal_strlit("Local");
    }
    let region = DevRegion {
        region_id: String::from_str("dev-lcl"),
        provider_display_name: String::from_str("Development"),
        region_display_name: String::from_str("Local"),
    };
    assert(region.region_id@ =~= dev_region_id());
    assert(region.provider_display_name@ =~= dev_provider_name());
    assert(region.region_display_name@ =~= dev_region_name());
    Ok(DevLobbyList { game_modes: game_mode_ids(config), region, lobbies })
}

} // verus!
