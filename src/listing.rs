//! The lobby listing: lobbies joined with their player counts, filtered for
//! visibility, and described for clients.

use vstd::prelude::*;
use crate::error::{InternalError, MmError};
use crate::selection::{enabled_in_prefix, enabled_region_ids, GameMode};

verus! {

/// A lobby as the listing reads it.
#[derive(Clone, Copy, Debug, PartialEq, Eq, Structural)]
pub struct ListLobby {
    pub lobby_id: u128,
    pub lobby_group_id: Option<u128>,
    pub region_id: u128,
    pub max_players_normal: u32,
    pub max_players_direct: u32,
    pub max_players_party: u32,
}

/// The registered player count of a lobby.
#[derive(Clone, Copy, Debug, PartialEq, Eq, Structural)]
pub struct PlayerCount {
    pub lobby_id: u128,
    pub registered_player_count: u32,
}

/// A lobby with its registered player count.
#[derive(Clone, Copy, Debug, PartialEq, Eq, Structural)]
pub struct ListEntry {
    pub lobby: ListLobby,
    pub registered_player_count: u32,
}

/// The first player count reported for a lobby.
pub open spec fn is_first_count(counts: Seq<PlayerCount>, lobby_id: u128, i: int) -> bool {
    &&& 0 <= i < counts.len()
    &&& counts[i].lobby_id == lobby_id
    &&& forall|j: int| 0 <= j < i ==> (#[trigger] counts[j]).lobby_id != lobby_id
}

pub open spec fn has_count(counts: Seq<PlayerCount>, lobby_id: u128) -> bool {
    exists|i: int| 0 <= i < counts.len() && (#[trigger] counts[i]).lobby_id == lobby_id
}

/// The entry of a lobby, with the first count reported for it.
pub open spec fn entry_of(lobby: ListLobby, counts: Seq<PlayerCount>) -> ListEntry {
    let i = choose|i: int| is_first_count(counts, lobby.lobby_id, i);
    ListEntry { lobby, registered_player_count: counts[i].registered_player_count }
}

/// The lobbies that have a player count, in order, each with its count.
pub open spec fn joined_entries(lobbies: Seq<ListLobby>, counts: Seq<PlayerCount>) -> Seq<ListEntry>
    decreases lobbies.len(),
{
    if lobbies.len() == 0 {
        Seq::empty()
    } else {
        let rest = joined_entries(lobbies.drop_last(), counts);
        if has_count(counts, lobbies.last().lobby_id) {
            rest.push(entry_of(lobbies.last(), counts))
        } else {
            rest
        }
    }
}

fn find_count(counts: &Vec<PlayerCount>, lobby_id: u128) -> (r: Option<u32>)
    ensures
        match r {
            Some(c) => has_count(counts@, lobby_id) && exists|i: int|
                is_first_count(counts@, lobby_id, i) && counts@[i].registered_player_count == c,
            None => !has_count(counts@, lobby_id),
        },
{
    let mut i: usize = 0;
    while i < counts.len()
        invariant
            i <= counts@.len(),
            forall|j: int| 0 <= j < i ==> (#[trigger] counts@[j]).lobby_id != lobby_id,
        decreases counts@.len() - i,
    {
        if counts[i].lobby_id == lobby_id {
            assert(is_first_count(counts@, lobby_id, i as int));
            return Some(counts[i].registered_player_count);
        }
        i += 1;
    }
    None
}

proof fn lemma_first_count_unique(counts: Seq<PlayerCount>, id: u128, i: int, k: int)
    requires
        is_first_count(counts, id, i),
        is_first_count(counts, id, k),
    ensures
        i == k,
{
    if i < k {
        assert(counts[i].lobby_id != id);
    } else if k < i {
        assert(counts[k].lobby_id != id);
    }
}

/// Joins the lobbies with their player counts; a lobby without a count is
/// left out.
pub fn join_player_counts(lobbies: &Vec<ListLobby>, counts: &Vec<PlayerCount>) -> (r: Vec<ListEntry>)
    ensures
        r@ == joined_entries(lobbies@, counts@),
{
    let mut out: Vec<ListEntry> = Vec::new();
    let mut i: usize = 0;
    while i < lobbies.len()
        invariant
            i <= lobbies@.len(),
            out@ == joined_entries(lobbies@.subrange(0, i as int), counts@),
        decreases lobbies@.len() - i,
    {
        let ghost pre = lobbies@.subrange(0, i as int + 1);
        assert(pre.drop_last() =~= lobbies@.subrange(0, i as int));
        assert(pre.last() == lobbies@[i as int]);
        let lobby = lobbies[i];
        match find_count(counts, lobby.lobby_id) {
            Some(c) => {
                proof {
                    let k = choose|k: int| is_first_count(counts@, lobby.lobby_id, k) && counts@[k].registered_player_count == c;
                    let m = choose|m: int| is_first_count(counts@, lobby.lobby_id, m);
                    lemma_first_count_unique(counts@, lobby.lobby_id, k, m);
                }
                out.push(ListEntry { lobby, registered_player_count: c });
            },
            None => {},
        }
        i += 1;
    }
    assert(lobbies@.subrange(0, i as int) =~= lobbies@);
    out
}

/// How many entries belong to a lobby group.
pub open spec fn group_size(entries: Seq<ListEntry>, group: Option<u128>) -> nat {
    entries.filter(|e: ListEntry| e.lobby.lobby_group_id == group).len()
}

/// The lobby group is one of the configured game modes.
pub open spec fn is_known_group(config: Seq<GameMode>, group: Option<u128>) -> bool {
    match group {
        Some(g) => exists|j: int| 0 <= j < config.len() && (#[trigger] config[j]).lobby_group_id == g,
        None => false,
    }
}

/// A lobby is listed when its game mode is still configured, and it has
/// players or is the only lobby of its game mode.
pub open spec fn is_visible(entries: Seq<ListEntry>, config: Seq<GameMode>, e: ListEntry) -> bool {
    &&& is_known_group(config, e.lobby.lobby_group_id)
    &&& (e.registered_player_count != 0 || group_size(entries, e.lobby.lobby_group_id) == 1)
}

pub open spec fn visible_entries(entries: Seq<ListEntry>, config: Seq<GameMode>) -> Seq<ListEntry> {
    entries.filter(|e: ListEntry| is_visible(entries, config, e))
}

fn count_group(entries: &Vec<ListEntry>, group: Option<u128>) -> (r: usize)
    ensures
        r == group_size(entries@, group),
{
    let ghost pred = |e: ListEntry| e.lobby.lobby_group_id == group;
    let mut n: usize = 0;
    let mut i: usize = 0;
    while i < entries.len()
        invariant
            i <= entries@.len(),
            pred == (|e: ListEntry| e.lobby.lobby_group_id == group),
            n == entries@.subrange(0, i as int).filter(pred).len(),
            n <= i,
        decreases entries@.len() - i,
    {
        proof {
            let pre = entries@.subrange(0, i as int + 1);
            assert(pre.drop_last() =~= entries@.subrange(0, i as int));
            assert(pre.last() == entries@[i as int]);
            reveal(Seq::filter);
        }
        if entries[i].lobby.lobby_group_id == group {
            n += 1;
        }
        i += 1;
    }
    assert(entries@.subrange(0, i as int) =~= entries@);
    n
}

fn known_group(config: &Vec<GameMode>, group: Option<u128>) -> (r: bool)
    ensures
        r == is_known_group(config@, group),
{
    let g = match group {
        Some(g) => g,
        None => {
            return false;
        },
    };
    let mut j: usize = 0;
    while j < config.len()
        invariant
            j <= config@.len(),
            group == Some(g),
            forall|k: int| 0 <= k < j ==> (#[trigger] config@[k]).lobby_group_id != g,
        decreases config@.len() - j,
    {
        if config[j].lobby_group_id == g {
            assert(group == Some(g));
            assert(0 <= j < config@.len() && config@[j as int].lobby_group_id == g);
            return true;
        }
        j += 1;
    }
    false
}

/// Keeps the lobbies to list, in order: those of a configured game mode that
/// have players or are the only lobby of their game mode.
pub fn visible_lobbies(entries: &Vec<ListEntry>, config: &Vec<GameMode>) -> (r: Vec<ListEntry>)
    ensures
        r@ == visible_entries(entries@, config@),
{
    let ghost pred = |e: ListEntry| is_visible(entries@, config@, e);
    let mut out: Vec<ListEntry> = Vec::new();
    let mut i: usize = 0;
    while i < entries.len()
        invariant
            i <= entries@.len(),
            pred == (|e: ListEntry| is_visible(entries@, config@, e)),
            out@ == entries@.subrange(0, i as int).filter(pred),
        decreases entries@.len() - i,
    {
        proof {
            let pre = entries@.subrange(0, i as int + 1);
            assert(pre.drop_last() =~= entries@.subrange(0, i as int));
            assert(pre.last() == entries@[i as int]);
            reveal(Seq::filter);
        }
        let e = entries[i];
        let keep = known_group(config, e.lobby.lobby_group_id) && (e.registered_player_count != 0
            || count_group(entries, e.lobby.lobby_group_id) == 1);
        if keep {
            out.push(e);
        }
        i += 1;
    }
    assert(entries@.subrange(0, i as int) =~= entries@);
    out
}

/// An idle lobby that is the only lobby of its configured game mode is
/// listed.
pub proof fn lemma_only_idle_lobby_listed(entries: Seq<ListEntry>, config: Seq<GameMode>, i: int)
    requires
        0 <= i < entries.len(),
        is_known_group(config, entries[i].lobby.lobby_group_id),
        entries[i].registered_player_count == 0,
        group_size(entries, entries[i].lobby.lobby_group_id) == 1,
    ensures
        visible_entries(entries, config).contains(entries[i]),
{
    entries.lemma_filter_contains(|e: ListEntry| is_visible(entries, config, e), i);
}

/// An idle lobby is not listed when its game mode has another lobby.
pub proof fn lemma_idle_lobby_with_sibling_hidden(entries: Seq<ListEntry>, config: Seq<GameMode>, i: int, j: int)
    requires
        0 <= i < entries.len(),
        0 <= j < entries.len(),
        i != j,
        entries[i].lobby.lobby_group_id == entries[j].lobby.lobby_group_id,
        entries[i].registered_player_count == 0,
    ensures
        !is_visible(entries, config, entries[i]),
{
    let g = entries[i].lobby.lobby_group_id;
    let pred = |e: ListEntry| e.lobby.lobby_group_id == g;
    lemma_filter_count_two(entries, pred, i, j);
}

proof fn lemma_filter_count_two(s: Seq<ListEntry>, pred: spec_fn(ListEntry) -> bool, i: int, j: int)
    requires
        0 <= i < s.len(),
        0 <= j < s.len(),
        i != j,
        pred(s[i]),
        pred(s[j]),
    ensures
        s.filter(pred).len() >= 2,
    decreases s.len(),
{
    reveal(Seq::filter);
    let last = s.len() - 1;
    if i == last || j == last {
        let k = if i == last { j } else { i };
        s.drop_last().lemma_filter_contains(pred, k);
        assert(s.drop_last()[k] == s[k]);
        assert(s.drop_last().filter(pred).len() >= 1);
    } else {
        lemma_filter_count_two(s.drop_last(), pred, i, j);
    }
}

/// A region's id and name.
#[derive(Clone, Debug, PartialEq, Eq)]
pub struct RegionMeta {
    pub region_id: u128,
    pub name_id: String,
}

/// A listed lobby, as a client sees it.
#[derive(Clone, Debug, PartialEq, Eq)]
pub struct LobbyInfo {
    pub region_id: String,
    pub game_mode_id: String,
    pub lobby_id: u128,
    pub max_players_normal: i32,
    pub max_players_direct: i32,
    pub max_players_party: i32,
    pub total_player_count: i32,
}

pub open spec fn is_first_region(regions: Seq<RegionMeta>, id: u128, i: int) -> bool {
    &&& 0 <= i < regions.len()
    &&& regions[i].region_id == id
    &&& forall|j: int| 0 <= j < i ==> (#[trigger] regions[j]).region_id != id
}

pub open spec fn is_first_group(config: Seq<GameMode>, id: u128, i: int) -> bool {
    &&& 0 <= i < config.len()
    &&& config[i].lobby_group_id == id
    &&& forall|j: int| 0 <= j < i ==> (#[trigger] config[j]).lobby_group_id != id
}

pub open spec fn fits_i32(n: u32) -> bool {
    n <= i32::MAX
}

/// An entry can be described: its region and game mode are known and its
/// counts fit the response.
pub open spec fn describable(e: ListEntry, config: Seq<GameMode>, regions: Seq<RegionMeta>) -> bool {
    &&& exists|i: int| 0 <= i < regions.len() && (#[trigger] regions[i]).region_id == e.lobby.region_id
    &&& is_known_group(config, e.lobby.lobby_group_id)
    &&& fits_i32(e.lobby.max_players_normal)
    &&& fits_i32(e.lobby.max_players_direct)
    &&& fits_i32(e.lobby.max_players_party)
    &&& fits_i32(e.registered_player_count)
}

/// `info` describes entry `e`: the names of its first matching region and
/// game mode, its id and its counts.
pub open spec fn describes(info: LobbyInfo, e: ListEntry, config: Seq<GameMode>, regions: Seq<RegionMeta>) -> bool {
    &&& exists|i: int| is_first_region(regions, e.lobby.region_id, i) && info.region_id@ == regions[i].name_id@
    &&& exists|i: int| is_first_group(config, e.lobby.lobby_group_id->0, i) && info.game_mode_id@ == config[i].name_id@
    &&& info.lobby_id == e.lobby.lobby_id
    &&& info.max_players_normal == e.lobby.max_players_normal as i32
    &&& info.max_players_direct == e.lobby.max_players_direct as i32
    &&& info.max_players_party == e.lobby.max_players_party as i32
    &&& info.total_player_count == e.registered_player_count as i32
}

fn find_region(regions: &Vec<RegionMeta>, id: u128) -> (r: Option<usize>)
    ensures
        match r {
            Some(i) => is_first_region(regions@, id, i as int),
            None => forall|j: int| 0 <= j < regions@.len() ==> (#[trigger] regions@[j]).region_id != id,
        },
{
    let mut i: usize = 0;
    while i < regions.len()
        invariant
            i <= regions@.len(),
            forall|j: int| 0 <= j < i ==> (#[trigger] regions@[j]).region_id != id,
        decreases regions@.len() - i,
    {
        if regions[i].region_id == id {
            return Some(i);
        }
        i += 1;
    }
    None
}

fn find_group(config: &Vec<GameMode>, id: u128) -> (r: Option<usize>)
    ensures
        match r {
            Some(i) => is_first_group(config@, id, i as int),
            None => forall|j: int| 0 <= j < config@.len() ==> (#[trigger] config@[j]).lobby_group_id != id,
        },
{
    let mut i: usize = 0;
    while i < config.len()
        invariant
            i <= config@.len(),
            forall|j: int| 0 <= j < i ==> (#[trigger] config@[j]).lobby_group_id != id,
        decreases config@.len() - i,
    {
        if config[i].lobby_group_id == id {
            return Some(i);
        }
        i += 1;
    }
    None
}

fn to_i32(n: u32) -> (r: Result<i32, MmError>)
    ensures
        match r {
            Ok(v) => fits_i32(n) && v == n as i32,
            Err(e) => !fits_i32(n) && e == MmError::Internal(InternalError::CountOutOfRange),
        },
{
    if n > 2147483647 {
        Err(MmError::Internal(InternalError::CountOutOfRange))
    } else {
        Ok(n as i32)
    }
}

/// Describes one listed lobby.
pub fn lobby_info(e: &ListEntry, config: &Vec<GameMode>, regions: &Vec<RegionMeta>) -> (r: Result<LobbyInfo, MmError>)
    ensures
        match r {
            Ok(info) => describable(*e, config@, regions@) && describes(info, *e, config@, regions@),
            Err(err) => !describable(*e, config@, regions@) && err is Internal,
        },
{
    let ri = match find_region(regions, e.lobby.region_id) {
        Some(i) => i,
        None => {
            return Err(MmError::Internal(InternalError::MissingField));
        },
    };
    let group = match e.lobby.lobby_group_id {
        Some(g) => g,
        None => {
            return Err(MmError::Internal(InternalError::GameModeConfigMissing));
        },
    };
    let gi = match find_group(config, group) {
        Some(i) => i,
        None => {
            return Err(MmError::Internal(InternalError::GameModeConfigMissing));
        },
    };
    let max_players_normal = to_i32(e.lobby.max_players_normal)?;
    let max_players_direct = to_i32(e.lobby.max_players_direct)?;
    let max_players_party = to_i32(e.lobby.max_players_party)?;
    let total_player_count = to_i32(e.registered_player_count)?;
    assert(0 <= ri < regions@.len() && regions@[ri as int].region_id == e.lobby.region_id);
    assert(0 <= gi < config@.len() && config@[gi as int].lobby_group_id == group);
    Ok(LobbyInfo {
        region_id: regions[ri].name_id.clone(),
        game_mode_id: config[gi].name_id.clone(),
        lobby_id: e.lobby.lobby_id,
        max_players_normal,
        max_players_direct,
        max_players_party,
        total_player_count,
    })
}

/// Describes the listed lobbies, in order; fails when one cannot be
/// described.
pub fn lobby_infos(entries: &Vec<ListEntry>, config: &Vec<GameMode>, regions: &Vec<RegionMeta>) -> (r: Result<Vec<LobbyInfo>, MmError>)
    ensures
        r is Ok <==> forall|k: int| 0 <= k < entries@.len() ==> describable(#[trigger] entries@[k], config@, regions@),
        match r {
            Ok(v) => v@.len() == entries@.len() && forall|k: int|
                0 <= k < entries@.len() ==> describes(#[trigger] v@[k], entries@[k], config@, regions@),
            Err(e) => e is Internal,
        },
{
    let mut out: Vec<LobbyInfo> = Vec::new();
    let mut i: usize = 0;
    while i < entries.len()
        invariant
            i <= entries@.len(),
            out@.len() == i,
            forall|k: int| 0 <= k < i ==> describable(#[trigger] entries@[k], config@, regions@),
            forall|k: int| 0 <= k < i ==> describes(#[trigger] out@[k], entries@[k], config@, regions@),
        decreases entries@.len() - i,
    {
        let info = lobby_info(&entries[i], config, regions)?;
        out.push(info);
        i += 1;
    }
    Ok(out)
}

/// The regions that any configured game mode is enabled in, each once.
pub fn all_region_ids(config: &Vec<GameMode>) -> (r: Vec<u128>)
    ensures
        r@.no_duplicates(),
        forall|id: u128| #[trigger] r@.contains(id) <==> exists|k: int|
            0 <= k < config@.len() && (#[trigger] config@[k]).region_ids@.contains(id),
{
    let mut all: Vec<usize> = Vec::new();
    let mut i: usize = 0;
    while i < config.len()
        invariant
            i <= config@.len(),
            all@.len() == i,
            forall|k: int| 0 <= k < i ==> #[trigger] all@[k] == k,
        decreases config@.len() - i,
    {
        all.push(i);
        i += 1;
    }
    let r = enabled_region_ids(config, &all);
    assert forall|id: u128| #[trigger] r@.contains(id) <==> exists|k: int|
        0 <= k < config@.len() && (#[trigger] config@[k]).region_ids@.contains(id) by {
        if enabled_in_prefix(config@, all@, all@.len() as int, id) {
            let m = choose|m: int| 0 <= m < all@.len() && (#[trigger] config@[all@[m] as int]).region_ids@.contains(id);
            assert(all@[m] == m);
        }
        if exists|k: int| 0 <= k < config@.len() && (#[trigger] config@[k]).region_ids@.contains(id) {
            let k = choose|k: int| 0 <= k < config@.len() && (#[trigger] config@[k]).region_ids@.contains(id);
            assert(all@[k] == k);
            assert(config@[all@[k] as int].region_ids@.contains(id));
        }
    }
    r
}

/// For each region of the listing, the index of its first ranking by the
/// proximity recommender; a region without one is an internal failure.
pub fn pair_recommendations(regions: &Vec<RegionMeta>, recommended: &Vec<u128>) -> (r: Result<Vec<usize>, MmError>)
    ensures
        r is Ok <==> forall|k: int| 0 <= k < regions@.len() ==> recommended@.contains(#[trigger] regions@[k].region_id),
        match r {
            Ok(idx) => idx@.len() == regions@.len() && forall|k: int| 0 <= k < regions@.len() ==> {
                let i = #[trigger] idx@[k] as int;
                &&& 0 <= i < recommended@.len()
                &&& recommended@[i] == regions@[k].region_id
                &&& forall|j: int| 0 <= j < i ==> recommended@[j] != regions@[k].region_id
            },
            Err(e) => e == MmError::Internal(InternalError::RegionNotRecommended),
        },
{
    let mut out: Vec<usize> = Vec::new();
    let mut k: usize = 0;
    while k < regions.len()
        invariant
            k <= regions@.len(),
            out@.len() == k,
            forall|m: int| 0 <= m < k ==> recommended@.contains(#[trigger] regions@[m].region_id),
            forall|m: int| 0 <= m < k ==> {
                let i = #[trigger] out@[m] as int;
                &&& 0 <= i < recommended@.len()
                &&& recommended@[i] == regions@[m].region_id
                &&& forall|j: int| 0 <= j < i ==> recommended@[j] != regions@[m].region_id
            },
        decreases regions@.len() - k,
    {
        let id = regions[k].region_id;
        let mut i: usize = 0;
        while i < recommended.len() && recommended[i] != id
            invariant
                i <= recommended@.len(),
                forall|j: int| 0 <= j < i ==> recommended@[j] != id,
            decreases recommended@.len() - i,
        {
            i += 1;
        }
        if i == recommended.len() {
            assert(!recommended@.contains(regions@[k as int].region_id));
            return Err(MmError::Internal(InternalError::RegionNotRecommended));
        }
        assert(recommended@[i as int] == id);
        out.push(i);
        k += 1;
    }
    Ok(out)
}

/// The names of the configured game modes, in configuration order: every
/// mode is listed, whether or not it has a lobby.
pub fn game_mode_ids(config: &Vec<GameMode>) -> (r: Vec<String>)
    ensures
        r@.len() == config@.len(),
        forall|k: int| 0 <= k < config@.len() ==> (#[trigger] r@[k])@ == config@[k].name_id@,
{
    let mut out: Vec<String> = Vec::new();
    let mut i: usize = 0;
    while i < config.len()
        invariant
            i <= config@.len(),
            out@.len() == i,
            forall|k: int| 0 <= k < i ==> (#[trigger] out@[k])@ == config@[k].name_id@,
        decreases config@.len() - i,
    {
        out.push(config[i].name_id.clone());
        i += 1;
    }
    out
}

} // verus!
