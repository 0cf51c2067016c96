use matchmaker::error::{InternalError, MmError};
use matchmaker::listing::{
    all_region_ids, game_mode_ids, join_player_counts, pair_recommendations, lobby_info, lobby_infos, visible_lobbies, ListEntry, ListLobby, LobbyInfo, PlayerCount,
    RegionMeta,
};
use matchmaker::selection::GameMode;

fn mode(name: &str, id: u128) -> GameMode {
    GameMode {
        name_id: name.to_string(),
        lobby_group_id: id,
        region_ids: vec![1],
        ports: vec![],
        max_players_normal: 8,
        max_players_direct: 10,
        max_players_party: 4,
    }
}

fn lobby(id: u128, group: u128) -> ListLobby {
    ListLobby {
        lobby_id: id,
        lobby_group_id: Some(group),
        region_id: 1,
        max_players_normal: 8,
        max_players_direct: 10,
        max_players_party: 4,
    }
}

fn entry(id: u128, group: u128, players: u32) -> ListEntry {
    ListEntry { lobby: lobby(id, group), registered_player_count: players }
}

#[test]
fn single_idle_lobby_is_listed() {
    let config = vec![mode("default", 7)];
    let entries = vec![entry(1, 7, 0)];
    assert_eq!(visible_lobbies(&entries, &config), entries);
}

#[test]
fn two_idle_lobbies_are_hidden() {
    let config = vec![mode("default", 7)];
    let entries = vec![entry(1, 7, 0), entry(2, 7, 0)];
    assert_eq!(visible_lobbies(&entries, &config), vec![]);
}

#[test]
fn busy_lobbies_stay_and_idle_siblings_go() {
    let config = vec![mode("a", 7), mode("b", 8)];
    let entries = vec![entry(1, 7, 0), entry(2, 7, 3), entry(3, 8, 0), entry(4, 9, 5)];
    assert_eq!(visible_lobbies(&entries, &config), vec![entry(2, 7, 3), entry(3, 8, 0)]);
}

#[test]
fn lobby_without_group_is_dropped() {
    let config = vec![mode("a", 7)];
    let mut e = entry(1, 7, 2);
    e.lobby.lobby_group_id = None;
    assert_eq!(visible_lobbies(&vec![e], &config), vec![]);
    assert_eq!(visible_lobbies(&vec![], &config), vec![]);
}

#[test]
fn counts_join_by_lobby_id() {
    let lobbies = vec![lobby(1, 7), lobby(2, 7), lobby(3, 8)];
    let counts = vec![
        PlayerCount { lobby_id: 3, registered_player_count: 4 },
        PlayerCount { lobby_id: 1, registered_player_count: 2 },
        PlayerCount { lobby_id: 1, registered_player_count: 9 },
    ];
    assert_eq!(join_player_counts(&lobbies, &counts), vec![entry(1, 7, 2), entry(3, 8, 4)]);
}

#[test]
fn lobby_info_describes_entry() {
    let config = vec![mode("default", 7)];
    let regions = vec![RegionMeta { region_id: 1, name_id: "us-east".to_string() }];
    let info = lobby_info(&entry(5, 7, 3), &config, &regions).unwrap();
    assert_eq!(
        info,
        LobbyInfo {
            region_id: "us-east".to_string(),
            game_mode_id: "default".to_string(),
            lobby_id: 5,
            max_players_normal: 8,
            max_players_direct: 10,
            max_players_party: 4,
            total_player_count: 3,
        }
    );
    assert_eq!(lobby_infos(&vec![entry(5, 7, 3)], &config, &regions), Ok(vec![info]));
}

#[test]
fn lobby_info_failures() {
    let config = vec![mode("default", 7)];
    let regions = vec![RegionMeta { region_id: 1, name_id: "us-east".to_string() }];
    assert_eq!(
        lobby_info(&entry(5, 7, 3), &config, &vec![]),
        Err(MmError::Internal(InternalError::MissingField))
    );
    assert_eq!(
        lobby_info(&entry(5, 8, 3), &config, &regions),
        Err(MmError::Internal(InternalError::GameModeConfigMissing))
    );
    assert_eq!(
        lobby_info(&entry(5, 7, 3_000_000_000), &config, &regions),
        Err(MmError::Internal(InternalError::CountOutOfRange))
    );
}

#[test]
fn all_regions_of_all_modes() {
    let mut a = mode("a", 7);
    a.region_ids = vec![3, 1];
    let mut b = mode("b", 8);
    b.region_ids = vec![1, 2];
    assert_eq!(all_region_ids(&vec![a, b]), vec![3, 1, 2]);
    assert_eq!(all_region_ids(&vec![]), Vec::<u128>::new());
}

#[test]
fn regions_pair_with_recommendations() {
    let regions = vec![
        RegionMeta { region_id: 1, name_id: "a".to_string() },
        RegionMeta { region_id: 2, name_id: "b".to_string() },
    ];
    assert_eq!(pair_recommendations(&regions, &vec![2, 1, 1]), Ok(vec![1, 0]));
    assert_eq!(
        pair_recommendations(&regions, &vec![2]),
        Err(MmError::Internal(InternalError::RegionNotRecommended))
    );
}

#[test]
fn game_modes_listed_in_order() {
    let config = vec![mode("b", 2), mode("a", 1), mode("c", 3)];
    assert_eq!(game_mode_ids(&config), vec!["b".to_string(), "a".to_string(), "c".to_string()]);
    assert_eq!(game_mode_ids(&vec![]), Vec::<String>::new());
}
