//! Game mode resolution, region selection and the auto-create policy.

use vstd::prelude::*;
use crate::error::{InternalError, MmError};
use crate::ports::PortDecl;

verus! {

/// A configured game mode (a lobby group) of a game version.
#[derive(Clone, Debug, PartialEq, Eq)]
pub struct GameMode {
    pub name_id: String,
    pub lobby_group_id: u128,
    /// The regions the game mode is enabled in.
    pub region_ids: Vec<u128>,
    pub ports: Vec<PortDecl>,
    pub max_players_normal: u32,
    pub max_players_direct: u32,
    pub max_players_party: u32,
}

/// One answer of the region directory for a region name.
#[derive(Clone, Debug, PartialEq, Eq)]
pub struct ResolvedRegion {
    pub name_id: String,
    pub region_id: Option<u128>,
}

/// Where a new lobby is created when no existing one can be joined.
#[derive(Clone, Copy, Debug, PartialEq, Eq, Structural)]
pub struct AutoCreate {
    pub lobby_group_id: u128,
    pub region_id: u128,
}

/// What is sent to the allocation collaborator.
#[derive(Clone, Debug, PartialEq, Eq)]
pub enum FindQuery {
    /// Join one lobby by its id.
    Direct { lobby_id: u128 },
    /// Join or create a lobby of one of the game modes, in one of the regions.
    LobbyGroup {
        lobby_group_ids: Vec<u128>,
        region_ids: Vec<u128>,
        auto_create: Option<AutoCreate>,
    },
}

/// `i` is the first game mode named `name`.
pub open spec fn is_first_named(config: Seq<GameMode>, name: Seq<char>, i: int) -> bool {
    &&& 0 <= i < config.len()
    &&& config[i].name_id@ == name
    &&& forall|j: int| 0 <= j < i ==> (#[trigger] config[j]).name_id@ != name
}

pub open spec fn is_configured(config: Seq<GameMode>, name: Seq<char>) -> bool {
    exists|i: int| 0 <= i < config.len() && (#[trigger] config[i]).name_id@ == name
}

/// The game modes that a list of indices picks, in that order.
pub open spec fn picked(config: Seq<GameMode>, idx: Seq<usize>) -> Seq<GameMode> {
    idx.map_values(|i: usize| config[i as int])
}

/// The first region of `priority` that `enabled` holds.
pub open spec fn first_enabled_region(enabled: Seq<u128>, priority: Seq<u128>) -> Option<u128>
    decreases priority.len(),
{
    if priority.len() == 0 {
        None
    } else if enabled.contains(priority[0]) {
        Some(priority[0])
    } else {
        first_enabled_region(enabled, priority.drop_first())
    }
}

/// The auto-create pair: the first game mode, in the caller's order, that is
/// enabled in some region of the priority list, with the first such region in
/// priority order.
pub open spec fn auto_create_pair(modes: Seq<GameMode>, priority: Seq<u128>) -> Option<AutoCreate>
    decreases modes.len(),
{
    if modes.len() == 0 {
        None
    } else {
        match first_enabled_region(modes[0].region_ids@, priority) {
            Some(r) => Some(AutoCreate { lobby_group_id: modes[0].lobby_group_id, region_id: r }),
            None => auto_create_pair(modes.drop_first(), priority),
        }
    }
}

fn find_game_mode(config: &Vec<GameMode>, name: &String) -> (r: Option<usize>)
    ensures
        match r {
            Some(i) => is_first_named(config@, name@, i as int),
            None => !is_configured(config@, name@),
        },
{
    let mut i: usize = 0;
    while i < config.len()
        invariant
            i <= config@.len(),
            forall|j: int| 0 <= j < i ==> (#[trigger] config@[j]).name_id@ != name@,
        decreases config@.len() - i,
    {
        if config[i].name_id == *name {
            return Some(i);
        }
        i += 1;
    }
    None
}

/// Looks up each requested game mode name, in request order, and gives the
/// index of the first configured game mode of that name; fails with
/// `GameModeNotFound` when a name is not configured.
pub fn resolve_game_modes(config: &Vec<GameMode>, names: &Vec<String>) -> (r: Result<Vec<usize>, MmError>)
    ensures
        match r {
            Ok(idx) => {
                &&& idx@.len() == names@.len()
                &&& forall|k: int| 0 <= k < names@.len() ==> is_first_named(config@, names@[k]@, #[trigger] idx@[k] as int)
            },
            Err(e) => {
                &&& e == MmError::GameModeNotFound
                &&& exists|k: int| 0 <= k < names@.len() && !is_configured(config@, #[trigger] names@[k]@)
            },
        },
        r is Ok <==> forall|k: int| 0 <= k < names@.len() ==> is_configured(config@, #[trigger] names@[k]@),
{
    let mut out: Vec<usize> = Vec::new();
    let mut k: usize = 0;
    while k < names.len()
        invariant
            k <= names@.len(),
            out@.len() == k,
            forall|m: int| 0 <= m < k ==> is_first_named(config@, names@[m]@, #[trigger] out@[m] as int),
        decreases names@.len() - k,
    {
        match find_game_mode(config, &names[k]) {
            Some(i) => {
                out.push(i);
            },
            None => {
                assert(!is_configured(config@, names@[k as int]@));
                return Err(MmError::GameModeNotFound);
            },
        }
        k += 1;
    }
    assert forall|m: int| 0 <= m < names@.len() implies is_configured(config@, #[trigger] names@[m]@) by {
        assert(is_first_named(config@, names@[m]@, out@[m] as int));
    }
    Ok(out)
}

/// `i` is the first answer of the region directory for `name`.
pub open spec fn is_first_resolution(resolved: Seq<ResolvedRegion>, name: Seq<char>, i: int) -> bool {
    &&& 0 <= i < resolved.len()
    &&& resolved[i].name_id@ == name
    &&& forall|j: int| 0 <= j < i ==> (#[trigger] resolved[j]).name_id@ != name
}

/// The region id that the directory's answers give for `name`: that of the
/// first answer for the name, where it carries one.
pub open spec fn resolves_to(resolved: Seq<ResolvedRegion>, name: Seq<char>, id: u128) -> bool {
    exists|i: int| is_first_resolution(resolved, name, i) && resolved[i].region_id == Some(id)
}

pub open spec fn resolves(resolved: Seq<ResolvedRegion>, name: Seq<char>) -> bool {
    exists|id: u128| resolves_to(resolved, name, id)
}

/// A name resolves to at most one region id.
pub proof fn lemma_resolves_to_unique(resolved: Seq<ResolvedRegion>, name: Seq<char>, a: u128, b: u128)
    requires
        resolves_to(resolved, name, a),
        resolves_to(resolved, name, b),
    ensures
        a == b,
{
    let i = choose|i: int| is_first_resolution(resolved, name, i) && resolved[i].region_id == Some(a);
    let k = choose|k: int| is_first_resolution(resolved, name, k) && resolved[k].region_id == Some(b);
    if i < k {
        assert(resolved[i].name_id@ != name);
    } else if k < i {
        assert(resolved[k].name_id@ != name);
    }
}

fn find_resolution(resolved: &Vec<ResolvedRegion>, name: &String) -> (r: Option<u128>)
    ensures
        match r {
            Some(id) => resolves_to(resolved@, name@, id),
            None => !resolves(resolved@, name@),
        },
{
    let mut i: usize = 0;
    while i < resolved.len()
        invariant
            i <= resolved@.len(),
            forall|j: int| 0 <= j < i ==> (#[trigger] resolved@[j]).name_id@ != name@,
        decreases resolved@.len() - i,
    {
        if resolved[i].name_id == *name {
            assert(is_first_resolution(resolved@, name@, i as int));
            match resolved[i].region_id {
                Some(id) => {
                    return Some(id);
                },
                None => {
                    assert forall|id: u128| !resolves_to(resolved@, name@, id) by {
                        assert forall|k: int| is_first_resolution(resolved@, name@, k) implies k == i by {
                            if k < i {
                                assert(resolved@[k].name_id@ != name@);
                            } else if k > i {
                                assert(resolved@[i as int].name_id@ != name@);
                            }
                        }
                    }
                    return None;
                },
            }
        }
        i += 1;
    }
    None
}

/// Resolves the requested region names, in order, to region ids through the
/// region directory's answers. Every name must resolve: the result has one id
/// per name, or the request fails with `RegionNotFound`.
pub fn resolve_region_ids(names: &Vec<String>, resolved: &Vec<ResolvedRegion>) -> (r: Result<Vec<u128>, MmError>)
    ensures
        match r {
            Ok(ids) => {
                &&& ids@.len() == names@.len()
                &&& forall|k: int| 0 <= k < names@.len() ==> resolves_to(resolved@, names@[k]@, #[trigger] ids@[k])
            },
            Err(e) => e == MmError::RegionNotFound,
        },
        r is Ok <==> forall|k: int| 0 <= k < names@.len() ==> resolves(resolved@, #[trigger] names@[k]@),
{
    let mut out: Vec<u128> = Vec::new();
    let mut k: usize = 0;
    while k < names.len()
        invariant
            k <= names@.len(),
            out@.len() == k,
            forall|m: int| 0 <= m < k ==> resolves_to(resolved@, names@[m]@, #[trigger] out@[m]),
        decreases names@.len() - k,
    {
        match find_resolution(resolved, &names[k]) {
            Some(id) => {
                out.push(id);
            },
            None => {
                assert(!resolves(resolved@, names@[k as int]@));
                return Err(MmError::RegionNotFound);
            },
        }
        k += 1;
    }
    assert forall|m: int| 0 <= m < names@.len() implies resolves(resolved@, #[trigger] names@[m]@) by {
        assert(resolves_to(resolved@, names@[m]@, out@[m]));
    }
    Ok(out)
}

fn vec_contains(v: &Vec<u128>, x: u128) -> (r: bool)
    ensures
        r == v@.contains(x),
{
    let mut i: usize = 0;
    while i < v.len()
        invariant
            i <= v@.len(),
            forall|j: int| 0 <= j < i ==> v@[j] != x,
        decreases v@.len() - i,
    {
        if v[i] == x {
            assert(v@[i as int] == x);
            return true;
        }
        i += 1;
    }
    false
}

/// Some game mode among the first `k` picked is enabled in region `id`.
pub open spec fn enabled_in_prefix(config: Seq<GameMode>, selected: Seq<usize>, k: int, id: u128) -> bool {
    exists|m: int| 0 <= m < k && (#[trigger] config[selected[m] as int]).region_ids@.contains(id)
}

/// The regions that any of the picked game modes is enabled in, each once.
pub fn enabled_region_ids(config: &Vec<GameMode>, selected: &Vec<usize>) -> (r: Vec<u128>)
    requires
        forall|k: int| 0 <= k < selected@.len() ==> #[trigger] selected@[k] < config@.len(),
    ensures
        r@.no_duplicates(),
        forall|id: u128| #[trigger] r@.contains(id) <==> enabled_in_prefix(config@, selected@, selected@.len() as int, id),
{
    let mut out: Vec<u128> = Vec::new();
    let mut k: usize = 0;
    while k < selected.len()
        invariant
            k <= selected@.len(),
            forall|m: int| 0 <= m < selected@.len() ==> #[trigger] selected@[m] < config@.len(),
            out@.no_duplicates(),
            forall|id: u128| #[trigger] out@.contains(id) <==> enabled_in_prefix(config@, selected@, k as int, id),
        decreases selected@.len() - k,
    {
        let mode = &config[selected[k]];
        let mut j: usize = 0;
        while j < mode.region_ids.len()
            invariant
                k < selected@.len(),
                j <= mode.region_ids@.len(),
                *mode == config@[selected@[k as int] as int],
                out@.no_duplicates(),
                forall|id: u128| #[trigger] out@.contains(id) <==> (enabled_in_prefix(config@, selected@, k as int, id)
                    || mode.region_ids@.subrange(0, j as int).contains(id)),
            decreases mode.region_ids@.len() - j,
        {
            let id = mode.region_ids[j];
            let ghost before = out@;
            let present = vec_contains(&out, id);
            if !present {
                out.push(id);
            }
            proof {
                let sj = mode.region_ids@.subrange(0, j as int);
                let sj1 = mode.region_ids@.subrange(0, j + 1);
                assert(sj1 =~= sj.push(id));
                assert forall|x: u128| #[trigger] out@.contains(x) <==> (enabled_in_prefix(config@, selected@, k as int, x)
                    || sj1.contains(x)) by {
                    assert(sj1.contains(x) <==> (sj.contains(x) || x == id)) by {
                        if sj1.contains(x) && x != id {
                            let i = choose|i: int| 0 <= i < sj1.len() && #[trigger] sj1[i] == x;
                            assert(sj[i] == x);
                        }
                        if sj.contains(x) {
                            let i = choose|i: int| 0 <= i < sj.len() && #[trigger] sj[i] == x;
                            assert(sj1[i] == x);
                        }
                        if x == id {
                            assert(sj1[j as int] == x);
                        }
                    }
                    assert(before.contains(x) <==> (enabled_in_prefix(config@, selected@, k as int, x) || sj.contains(x)));
                    if !present {
                        assert(out@ == before.push(id));
                        assert(out@.contains(x) <==> (before.contains(x) || x == id)) by {
                            if out@.contains(x) && x != id {
                                let i = choose|i: int| 0 <= i < out@.len() && #[trigger] out@[i] == x;
                                assert(before[i] == x);
                            }
                            if before.contains(x) {
                                let i = choose|i: int| 0 <= i < before.len() && #[trigger] before[i] == x;
                                assert(out@[i] == x);
                            }
                            if x == id {
                                assert(out@[before.len() as int] == x);
                            }
                        }
                    }
                }
            }
            j += 1;
        }
        proof {
            assert(mode.region_ids@.subrange(0, j as int) =~= mode.region_ids@);
            assert forall|id: u128| #[trigger] out@.contains(id) <==> enabled_in_prefix(config@, selected@, k + 1, id) by {
                if mode.region_ids@.contains(id) {
                    assert(config@[selected@[k as int] as int].region_ids@.contains(id));
                }
                if enabled_in_prefix(config@, selected@, k + 1, id) {
                    let m = choose|m: int| 0 <= m < k + 1 && (#[trigger] config@[selected@[m] as int]).region_ids@.contains(id);
                    if m < k {
                        assert(enabled_in_prefix(config@, selected@, k as int, id));
                    }
                }
                if enabled_in_prefix(config@, selected@, k as int, id) {
                    let m = choose|m: int| 0 <= m < k && (#[trigger] config@[selected@[m] as int]).region_ids@.contains(id);
                    assert(0 <= m < k + 1);
                }
            }
        }
        k += 1;
    }
    out
}

/// The single region that the proximity recommender ranks first.
pub fn primary_region(recommended: &Vec<u128>) -> (r: Result<Vec<u128>, MmError>)
    ensures
        match r {
            Ok(ids) => recommended@.len() > 0 && ids@ == seq![recommended@[0]],
            Err(e) => recommended@.len() == 0 && e == MmError::Internal(InternalError::NoRecommendedRegion),
        },
{
    if recommended.len() == 0 {
        return Err(MmError::Internal(InternalError::NoRecommendedRegion));
    }
    let mut out: Vec<u128> = Vec::new();
    out.push(recommended[0]);
    assert(out@ =~= seq![recommended@[0]]);
    Ok(out)
}

fn first_enabled(enabled: &Vec<u128>, priority: &Vec<u128>) -> (r: Option<u128>)
    ensures
        r == first_enabled_region(enabled@, priority@),
{
    let mut j: usize = 0;
    assert(priority@.subrange(0, priority@.len() as int) =~= priority@);
    while j < priority.len()
        invariant
            j <= priority@.len(),
            first_enabled_region(enabled@, priority@) == first_enabled_region(
                enabled@,
                priority@.subrange(j as int, priority@.len() as int),
            ),
        decreases priority@.len() - j,
    {
        let ghost rest = priority@.subrange(j as int, priority@.len() as int);
        assert(rest.drop_first() =~= priority@.subrange(j + 1, priority@.len() as int));
        assert(rest[0] == priority@[j as int]);
        if vec_contains(enabled, priority[j]) {
            return Some(priority[j]);
        }
        j += 1;
    }
    assert(priority@.subrange(j as int, priority@.len() as int).len() == 0);
    None
}

/// Derives the auto-create pair from the picked game modes, in request
/// order, and the region priority list.
pub fn derive_auto_create(config: &Vec<GameMode>, selected: &Vec<usize>, region_priority: &Vec<u128>) -> (r: Option<AutoCreate>)
    requires
        forall|k: int| 0 <= k < selected@.len() ==> #[trigger] selected@[k] < config@.len(),
    ensures
        r == auto_create_pair(picked(config@, selected@), region_priority@),
{
    let ghost modes = picked(config@, selected@);
    let mut k: usize = 0;
    assert(modes.subrange(0, modes.len() as int) =~= modes);
    while k < selected.len()
        invariant
            k <= selected@.len(),
            modes == picked(config@, selected@),
            modes.len() == selected@.len(),
            forall|m: int| 0 <= m < selected@.len() ==> #[trigger] selected@[m] < config@.len(),
            auto_create_pair(modes, region_priority@) == auto_create_pair(
                modes.subrange(k as int, modes.len() as int),
                region_priority@,
            ),
        decreases selected@.len() - k,
    {
        let ghost rest = modes.subrange(k as int, modes.len() as int);
        assert(rest.drop_first() =~= modes.subrange(k + 1, modes.len() as int));
        assert(rest[0] == config@[selected@[k as int] as int]);
        let mode = &config[selected[k]];
        match first_enabled(&mode.region_ids, region_priority) {
            Some(region_id) => {
                return Some(AutoCreate { lobby_group_id: mode.lobby_group_id, region_id });
            },
            None => {},
        }
        k += 1;
    }
    None
}

proof fn lemma_first_enabled_region_facts(enabled: Seq<u128>, priority: Seq<u128>)
    ensures
        first_enabled_region(enabled, priority) is Some <==> exists|i: int|
            0 <= i < priority.len() && enabled.contains(#[trigger] priority[i]),
        first_enabled_region(enabled, priority) is Some ==> {
            let r = first_enabled_region(enabled, priority)->0;
            enabled.contains(r) && priority.contains(r)
        },
    decreases priority.len(),
{
    if priority.len() > 0 {
        let rest = priority.drop_first();
        lemma_first_enabled_region_facts(enabled, rest);
        if exists|i: int| 0 <= i < rest.len() && enabled.contains(#[trigger] rest[i]) {
            let i = choose|i: int| 0 <= i < rest.len() && enabled.contains(#[trigger] rest[i]);
            assert(priority[i + 1] == rest[i]);
        }
        if exists|i: int| 0 <= i < priority.len() && enabled.contains(#[trigger] priority[i]) {
            let i = choose|i: int| 0 <= i < priority.len() && enabled.contains(#[trigger] priority[i]);
            if i > 0 {
                assert(rest[i - 1] == priority[i]);
            }
        }
        if first_enabled_region(enabled, rest) is Some && !enabled.contains(priority[0]) {
            let r = first_enabled_region(enabled, rest)->0;
            let i = choose|i: int| 0 <= i < rest.len() && rest[i] == r;
            assert(priority[i + 1] == r);
        }
        if enabled.contains(priority[0]) {
            assert(priority[0] == priority[0]);
            assert(priority.contains(priority[0]));
        }
    }
}

proof fn lemma_first_enabled_same_contents(enabled: Seq<u128>, order_a: Seq<u128>, order_b: Seq<u128>)
    requires
        forall|x: u128| order_a.contains(x) <==> order_b.contains(x),
    ensures
        first_enabled_region(enabled, order_a) is Some <==> first_enabled_region(enabled, order_b) is Some,
{
    lemma_first_enabled_region_facts(enabled, order_a);
    lemma_first_enabled_region_facts(enabled, order_b);
    if exists|i: int| 0 <= i < order_a.len() && enabled.contains(#[trigger] order_a[i]) {
        let i = choose|i: int| 0 <= i < order_a.len() && enabled.contains(#[trigger] order_a[i]);
        assert(order_a.contains(order_a[i]));
        let j = choose|j: int| 0 <= j < order_b.len() && order_b[j] == order_a[i];
        assert(enabled.contains(order_b[j]));
    }
    if exists|i: int| 0 <= i < order_b.len() && enabled.contains(#[trigger] order_b[i]) {
        let i = choose|i: int| 0 <= i < order_b.len() && enabled.contains(#[trigger] order_b[i]);
        assert(order_b.contains(order_b[i]));
        let j = choose|j: int| 0 <= j < order_a.len() && order_a[j] == order_b[i];
        assert(enabled.contains(order_a[j]));
    }
}

/// Auto-create derivation is a function of the game modes and the region
/// priority: the same inputs give the same pair.
pub proof fn lemma_auto_create_deterministic(
    modes1: Seq<GameMode>,
    modes2: Seq<GameMode>,
    priority1: Seq<u128>,
    priority2: Seq<u128>,
)
    requires
        modes1 == modes2,
        priority1 == priority2,
    ensures
        auto_create_pair(modes1, priority1) == auto_create_pair(modes2, priority2),
{
}

/// Reordering the region priority list, with the game modes held fixed, can
/// change only the region of the auto-create pair: the same game mode is
/// chosen, and derivation fails for one order exactly when it fails for the
/// other.
pub proof fn lemma_auto_create_mode_stable_under_reorder(modes: Seq<GameMode>, order_a: Seq<u128>, order_b: Seq<u128>)
    requires
        order_a.to_multiset() == order_b.to_multiset(),
    ensures
        auto_create_pair(modes, order_a) is Some <==> auto_create_pair(modes, order_b) is Some,
        auto_create_pair(modes, order_a) is Some ==> auto_create_pair(modes, order_b)->0.lobby_group_id
            == auto_create_pair(modes, order_a)->0.lobby_group_id,
    decreases modes.len(),
{
    order_a.to_multiset_ensures();
    order_b.to_multiset_ensures();
    assert forall|x: u128| order_a.contains(x) <==> order_b.contains(x) by {
        assert(order_a.contains(x) <==> order_a.to_multiset().count(x) > 0);
        assert(order_b.contains(x) <==> order_b.to_multiset().count(x) > 0);
    }
    if modes.len() > 0 {
        lemma_first_enabled_same_contents(modes[0].region_ids@, order_a, order_b);
        lemma_auto_create_mode_stable_under_reorder(modes.drop_first(), order_a, order_b);
    }
}

/// The auto-create pair names one of the game modes, and a region that the
/// mode is enabled in and that the priority list holds.
pub proof fn lemma_auto_create_pair_valid(modes: Seq<GameMode>, priority: Seq<u128>)
    requires
        auto_create_pair(modes, priority) is Some,
    ensures
        ({
            let a = auto_create_pair(modes, priority)->0;
            &&& priority.contains(a.region_id)
            &&& exists|k: int| 0 <= k < modes.len() && (#[trigger] modes[k]).lobby_group_id == a.lobby_group_id
                && modes[k].region_ids@.contains(a.region_id)
        }),
    decreases modes.len(),
{
    lemma_first_enabled_region_facts(modes[0].region_ids@, priority);
    if first_enabled_region(modes[0].region_ids@, priority) is None {
        let rest = modes.drop_first();
        lemma_auto_create_pair_valid(rest, priority);
        let a = auto_create_pair(modes, priority)->0;
        let k = choose|k: int| 0 <= k < rest.len() && (#[trigger] rest[k]).lobby_group_id == a.lobby_group_id
            && rest[k].region_ids@.contains(a.region_id);
        assert(modes[k + 1] == rest[k]);
    } else {
        assert(modes[0].lobby_group_id == auto_create_pair(modes, priority)->0.lobby_group_id);
    }
}

/// Builds the query for a find by game modes. It fails with
/// `NoValidGameModeRegionPair` when no picked game mode is enabled in any
/// region of the priority list, whether or not auto-create is prevented;
/// otherwise the query carries the game modes in request order, the region
/// priority list, and the auto-create pair unless the caller prevents it.
pub fn build_find_query(
    config: &Vec<GameMode>,
    selected: &Vec<usize>,
    region_ids: Vec<u128>,
    prevent_auto_create_lobby: Option<bool>,
) -> (r: Result<FindQuery, MmError>)
    requires
        forall|k: int| 0 <= k < selected@.len() ==> #[trigger] selected@[k] < config@.len(),
    ensures
        r is Err <==> auto_create_pair(picked(config@, selected@), region_ids@) is None,
        match r {
            Err(e) => e == MmError::NoValidGameModeRegionPair,
            Ok(FindQuery::LobbyGroup { lobby_group_ids, region_ids: q_regions, auto_create }) => {
                &&& lobby_group_ids@ == picked(config@, selected@).map_values(|m: GameMode| m.lobby_group_id)
                &&& q_regions@ == region_ids@
                &&& auto_create == if prevent_auto_create_lobby == Some(true) {
                    None
                } else {
                    auto_create_pair(picked(config@, selected@), region_ids@)
                }
            },
            Ok(FindQuery::Direct { .. }) => false,
        },
{
    let derived = derive_auto_create(config, selected, &region_ids);
    let pair = match derived {
        Some(p) => p,
        None => {
            return Err(MmError::NoValidGameModeRegionPair);
        },
    };
    let mut lobby_group_ids: Vec<u128> = Vec::new();
    let mut k: usize = 0;
    while k < selected.len()
        invariant
            k <= selected@.len(),
            forall|m: int| 0 <= m < selected@.len() ==> #[trigger] selected@[m] < config@.len(),
            lobby_group_ids@ =~= picked(config@, selected@).subrange(0, k as int).map_values(
                |m: GameMode| m.lobby_group_id,
            ),
        decreases selected@.len() - k,
    {
        lobby_group_ids.push(config[selected[k]].lobby_group_id);
        k += 1;
    }
    assert(picked(config@, selected@).subrange(0, k as int) =~= picked(config@, selected@));
    let auto_create = if prevent_auto_create_lobby == Some(true) {
        None
    } else {
        Some(pair)
    };
    Ok(FindQuery::LobbyGroup { lobby_group_ids, region_ids, auto_create })
}

} // verus!
