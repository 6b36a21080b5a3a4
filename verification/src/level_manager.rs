//! Level transitions with spawn-point resolution, player placement and
//! per-level entity cleanup: the decisions, as functions from state and event
//! to next state and action.
use vstd::prelude::*;
use bevy::ecs::entity::Entity;
use bevy::math::Vec2;
use crate::animation::{advanced, LdtkTileAnimator};
use crate::state::{LdtkLoadState, LdtkLoadStatus, LdtkRuntimeState, LdtkValidationReport};
use crate::catalog::{
    cells_in_level, first_where, is_first_where, lemma_first_where, lemma_first_where_found,
    LdtkCollisionCatalog, LdtkMapCatalog, LdtkSpawnPoint,
};
use crate::text::{
    chars_eq_ignore_ascii_case, chars_of, eq_ignore_ascii_case_spec, lemma_eq_ignore_ascii_case_swap, str_eq,
};

verus! {

/// Configuration of level transitions.
#[derive(Debug, Clone)]
pub struct LdtkLevelManagerConfig {
    /// Tag used to find the default spawn point when no spawn id is given.
    pub default_spawn_tag: String,
    /// Entity identifier used to find the default spawn point when no spawn id
    /// is given.
    pub default_spawn_identifier: String,
    /// Enables the tile-animation adapter.
    pub enable_tile_animation_adapter: bool,
    /// When `true`, a level without spawn points falls back to a spawn at the
    /// origin instead of failing.
    pub allow_missing_spawnpoints: bool,
}

impl Default for LdtkLevelManagerConfig {
    fn default() -> (r: Self)
        ensures
            r.default_spawn_tag@ == "PlayerSpawn"@,
            r.default_spawn_identifier@ == "PlayerSpawn"@,
            !r.enable_tile_animation_adapter,
            !r.allow_missing_spawnpoints,
    {
        LdtkLevelManagerConfig {
            default_spawn_tag: String::from_str("PlayerSpawn"),
            default_spawn_identifier: String::from_str("PlayerSpawn"),
            enable_tile_animation_adapter: false,
            allow_missing_spawnpoints: false,
        }
    }
}

/// Pins the exact player entity to teleport; overrides the player-marker
/// search when set.
#[derive(Debug, Clone, Default)]
pub struct LdtkPlayerLocator {
    /// The player entity to teleport, if explicitly chosen.
    pub entity: Option<Entity>,
}

/// The currently active level after a finished transition.
#[derive(Debug, Clone, Default)]
pub struct CurrentLdtkLevel {
    /// LDtk identifier of the active level.
    pub identifier: Option<String>,
    /// LDtk IID of the active level.
    pub iid: Option<String>,
}

/// The transition that is currently in flight.
#[derive(Debug, Clone, Default)]
pub struct PendingLdtkLevelTransition {
    /// Identifier of the level being transitioned to.
    pub target_level: Option<String>,
    /// Requested spawn point identifier or tag, if any.
    pub spawn_id: Option<String>,
    /// Resolved IID of the target level.
    pub target_level_iid: Option<String>,
}

/// Phase of a level transition.
#[derive(Debug, Clone, Copy, PartialEq, Eq, Structural)]
pub enum LevelTransitionStatus {
    /// No transition is in progress.
    Idle,
    /// Waiting for the target level to spawn.
    WaitingForSpawn,
    /// The transition completed and the player was placed.
    Ready,
    /// The transition failed; see [`LevelTransitionState::error`].
    Failed,
}

impl Default for LevelTransitionStatus {
    fn default() -> (r: Self)
        ensures
            r == LevelTransitionStatus::Idle,
    {
        LevelTransitionStatus::Idle
    }
}

/// The current transition phase and error, for UI such as loading screens.
#[derive(Debug, Clone)]
pub struct LevelTransitionState {
    /// Current phase.
    pub status: LevelTransitionStatus,
    /// Human-readable error for the `Failed` phase.
    pub error: Option<String>,
}

impl Default for LevelTransitionState {
    fn default() -> (r: Self)
        ensures
            r.status == LevelTransitionStatus::Idle,
            r.error is None,
    {
        LevelTransitionState { status: LevelTransitionStatus::Idle, error: None }
    }
}

/// Requests a level transition.
#[derive(Debug, Clone)]
pub struct LevelTransitionRequest {
    /// LDtk identifier (or IID) of the level to switch to.
    pub target_level: String,
    /// Spawn point identifier or tag; `None` resolves the configured default.
    pub spawn_id: Option<String>,
}

/// Emitted once a transition finished and the player has been placed.
#[derive(Debug, Clone)]
pub struct LdtkLevelReadyEvent {
    /// Identifier of the now-active level.
    pub level_identifier: String,
    /// Spawn id that was requested, if any.
    pub spawn_id: Option<String>,
    /// World-space position the player was teleported to.
    pub position: Vec2,
}

/// Emitted alongside [`LdtkLevelReadyEvent`], summarising the collision cells
/// captured for the new level.
#[derive(Debug, Clone)]
pub struct LdtkCollisionReadyEvent {
    /// Identifier of the now-active level.
    pub level_identifier: String,
    /// Number of collision cells captured for that level.
    pub cells: usize,
}

/// Marks the player entity that is teleported to the resolved spawn point
/// after every transition.
#[derive(Debug, Clone, Copy, Default)]
pub struct LdtkLevelPlayer;

/// Scopes an entity to a level: it is despawned when that level is left.
#[derive(Debug, Clone)]
pub struct LdtkLevelScoped {
    /// Identifier of the level this entity belongs to.
    pub level_identifier: String,
}

/// The character sequence of an optional string.
pub open spec fn opt_view(s: Option<String>) -> Option<Seq<char>> {
    match s {
        Some(v) => Some(v@),
        None => None,
    }
}

/// The character sequence of an optional string slice.
pub open spec fn opt_str_view(s: Option<&str>) -> Option<Seq<char>> {
    match s {
        Some(v) => Some(v@),
        None => None,
    }
}

/// Error text of a lookup of an unknown level.
pub open spec fn level_not_found_message(target: Seq<char>) -> Seq<char> {
    "Level '"@ + target + "' not found in LdtkMapCatalog"@
}

/// Error text of a lookup of an unknown spawn point.
pub open spec fn spawn_not_found_message(spawn_id: Seq<char>, target: Seq<char>) -> Seq<char> {
    "Spawnpoint '"@ + spawn_id + "' not found in level '"@ + target + "'"@
}

/// Error text of a level without spawn points.
pub open spec fn no_spawnpoints_message(target: Seq<char>) -> Seq<char> {
    "Level '"@ + target + "' has no spawnpoints"@
}

fn level_not_found_error(target: &str) -> (r: String)
    ensures
        r@ == level_not_found_message(target@),
{
    let mut s = String::from_str("Level '");
    s.append(target);
    s.append("' not found in LdtkMapCatalog");
    s
}

fn spawn_not_found_error(spawn_id: &str, target: &str) -> (r: String)
    ensures
        r@ == spawn_not_found_message(spawn_id@, target@),
{
    let mut s = String::from_str("Spawnpoint '");
    s.append(spawn_id);
    s.append("' not found in level '");
    s.append(target);
    s.append("'");
    s
}

fn no_spawnpoints_error(target: &str) -> (r: String)
    ensures
        r@ == no_spawnpoints_message(target@),
{
    let mut s = String::from_str("Level '");
    s.append(target);
    s.append("' has no spawnpoints");
    s
}

/// `spawn`'s identifier or one of its tags equals `query`, ignoring ASCII case.
pub open spec fn spawn_matches(spawn: LdtkSpawnPoint, identifier: Seq<char>, tag: Seq<char>) -> bool {
    ||| eq_ignore_ascii_case_spec(spawn.identifier@, identifier)
    ||| exists|t: int| 0 <= t < spawn.tags@.len() && eq_ignore_ascii_case_spec(#[trigger] spawn.tags@[t]@, tag)
}

/// The spawn points that [`spawn_matches`] the given identifier and tag.
pub open spec fn spawn_filter(identifier: Seq<char>, tag: Seq<char>) -> spec_fn(LdtkSpawnPoint) -> bool {
    |spawn: LdtkSpawnPoint| spawn_matches(spawn, identifier, tag)
}

/// How a spawn point is resolved: `Ok(Some(i))` for the level's spawn point
/// at position `i`, `Ok(None)` for the fallback spawn at the origin, `Err`
/// with the error text.
///
/// An explicit `spawn_id` selects the first spawn point whose identifier or a
/// tag equals it, ignoring ASCII case. Without one, the first spawn point
/// whose identifier equals the configured default identifier or whose tag
/// equals the configured default tag, else the first spawn point, else the
/// fallback when missing spawn points are allowed.
pub open spec fn spawn_resolution(
    catalog: LdtkMapCatalog,
    target: Seq<char>,
    spawn_id: Option<Seq<char>>,
    config: LdtkLevelManagerConfig,
) -> Result<Option<int>, Seq<char>> {
    match catalog.spec_level(target) {
        None => Err(level_not_found_message(target)),
        Some(level) => match spawn_id {
            Some(id) => match first_where(level.spawn_points@, spawn_filter(id, id)) {
                Some(i) => Ok(Some(i)),
                None => Err(spawn_not_found_message(id, target)),
            },
            None => match first_where(
                level.spawn_points@,
                spawn_filter(config.default_spawn_identifier@, config.default_spawn_tag@),
            ) {
                Some(i) => Ok(Some(i)),
                None => if level.spawn_points@.len() > 0 {
                    Ok(Some(0))
                } else if config.allow_missing_spawnpoints {
                    Ok(None)
                } else {
                    Err(no_spawnpoints_message(target))
                },
            },
        },
    }
}

/// The spawn point a resolution outcome stands for: the level's spawn point
/// itself, or the fallback named `"Fallback"` in level `target`, on no layer
/// and without tags.
pub open spec fn resolves_to(
    catalog: LdtkMapCatalog,
    target: Seq<char>,
    outcome: Option<int>,
    spawn: LdtkSpawnPoint,
) -> bool {
    match outcome {
        Some(i) => spawn.same_as(catalog.spec_level(target)->0.spawn_points@[i]),
        None => is_fallback_spawn(spawn, target),
    }
}

/// `spawn` is the fallback spawn point of level `target`: named `"Fallback"`,
/// on no layer and without tags.
pub open spec fn is_fallback_spawn(spawn: LdtkSpawnPoint, target: Seq<char>) -> bool {
    &&& spawn.identifier@ == "Fallback"@
    &&& spawn.level_identifier@ == target
    &&& spawn.layer_identifier@ == Seq::<char>::empty()
    &&& spawn.tags@.len() == 0
}

fn spawn_matches_exec(spawn: &LdtkSpawnPoint, identifier: &Vec<char>, tag: &Vec<char>) -> (r: bool)
    ensures
        r == spawn_matches(*spawn, identifier@, tag@),
{
    let id_chars = chars_of(spawn.identifier.as_str());
    if chars_eq_ignore_ascii_case(&id_chars, identifier) {
        return true;
    }
    let mut t: usize = 0;
    while t < spawn.tags.len()
        invariant
            t <= spawn.tags@.len(),
            forall|u: int| 0 <= u < t ==> !eq_ignore_ascii_case_spec(#[trigger] spawn.tags@[u]@, tag@),
        decreases spawn.tags@.len() - t,
    {
        let tag_chars = chars_of(spawn.tags[t].as_str());
        if chars_eq_ignore_ascii_case(&tag_chars, tag) {
            return true;
        }
        t = t + 1;
    }
    false
}

fn find_spawn(points: &Vec<LdtkSpawnPoint>, identifier: &Vec<char>, tag: &Vec<char>) -> (r: Option<usize>)
    ensures
        match r {
            Some(i) => is_first_where(points@, spawn_filter(identifier@, tag@), i as int),
            None => first_where(points@, spawn_filter(identifier@, tag@)) is None,
        },
{
    let ghost pred = spawn_filter(identifier@, tag@);
    let mut i: usize = 0;
    while i < points.len()
        invariant
            i <= points@.len(),
            pred == spawn_filter(identifier@, tag@),
            forall|j: int| 0 <= j < i ==> !pred(#[trigger] points@[j]),
        decreases points@.len() - i,
    {
        if spawn_matches_exec(&points[i], identifier, tag) {
            return Some(i);
        }
        i = i + 1;
    }
    None
}

fn fallback_spawn_point(target_level: &str) -> (r: LdtkSpawnPoint)
    ensures
        is_fallback_spawn(r, target_level@),
{
    LdtkSpawnPoint {
        identifier: String::from_str("Fallback"),
        position: vec2_zero(),
        level_identifier: String::from_str(target_level),
        layer_identifier: String::new(),
        tags: Vec::new(),
    }
}

/// Bevy's `Vec2::ZERO`.
#[verifier::external_body]
fn vec2_zero() -> (r: Vec2) {
    Vec2::ZERO
}

/// Resolves the spawn point of `target_level`: the one named by `spawn_id`
/// (identifier or tag, ignoring ASCII case), else the configured default, else
/// the level's first spawn point, else (when allowed) a fallback at the
/// origin. See [`spawn_resolution`].
pub fn resolve_spawn_point(
    catalog: &LdtkMapCatalog,
    target_level: &str,
    spawn_id: Option<&str>,
    config: &LdtkLevelManagerConfig,
) -> (r: Result<LdtkSpawnPoint, String>)
    ensures
        match spawn_resolution(*catalog, target_level@, opt_str_view(spawn_id), *config) {
            Ok(outcome) => r is Ok && resolves_to(*catalog, target_level@, outcome, r->Ok_0),
            Err(message) => r is Err && r->Err_0@ == message,
        },
{
    let level = match catalog.level(target_level) {
        Some(level) => level,
        None => return Err(level_not_found_error(target_level)),
    };
    match spawn_id {
        Some(id) => {
            let query = chars_of(id);
            match find_spawn(&level.spawn_points, &query, &query) {
                Some(i) => {
                    proof {
                        lemma_first_where(level.spawn_points@, spawn_filter(id@, id@), i as int);
                    }
                    Ok(level.spawn_points[i].clone())
                },
                None => Err(spawn_not_found_error(id, target_level)),
            }
        },
        None => {
            let identifier = chars_of(config.default_spawn_identifier.as_str());
            let tag = chars_of(config.default_spawn_tag.as_str());
            match find_spawn(&level.spawn_points, &identifier, &tag) {
                Some(i) => {
                    proof {
                        lemma_first_where(
                            level.spawn_points@,
                            spawn_filter(config.default_spawn_identifier@, config.default_spawn_tag@),
                            i as int,
                        );
                    }
                    Ok(level.spawn_points[i].clone())
                },
                None => {
                    if level.spawn_points.len() > 0 {
                        Ok(level.spawn_points[0].clone())
                    } else if config.allow_missing_spawnpoints {
                        Ok(fallback_spawn_point(target_level))
                    } else {
                        Err(no_spawnpoints_error(target_level))
                    }
                },
            }
        },
    }
}

/// Spawn ids are matched ignoring ASCII case: two ids that differ only in
/// the case of ASCII letters resolve to the same spawn point, or both fail.
pub proof fn law_spawn_id_ignores_ascii_case(
    catalog: LdtkMapCatalog,
    target: Seq<char>,
    a: Seq<char>,
    b: Seq<char>,
    config: LdtkLevelManagerConfig,
)
    requires
        eq_ignore_ascii_case_spec(a, b),
    ensures
        spawn_resolution(catalog, target, Some(a), config) is Ok <==> spawn_resolution(
            catalog,
            target,
            Some(b),
            config,
        ) is Ok,
        spawn_resolution(catalog, target, Some(a), config) is Ok ==> spawn_resolution(
            catalog,
            target,
            Some(a),
            config,
        ) == spawn_resolution(catalog, target, Some(b), config),
{
    assert forall|spawn: LdtkSpawnPoint| #[trigger] spawn_filter(a, a)(spawn) == spawn_filter(b, b)(spawn) by {
        lemma_eq_ignore_ascii_case_swap(spawn.identifier@, a, b);
        assert forall|t: int| 0 <= t < spawn.tags@.len() implies eq_ignore_ascii_case_spec(
            #[trigger] spawn.tags@[t]@,
            a,
        ) == eq_ignore_ascii_case_spec(spawn.tags@[t]@, b) by {
            lemma_eq_ignore_ascii_case_swap(spawn.tags@[t]@, a, b);
        }
    }
    assert(spawn_filter(a, a) =~= spawn_filter(b, b));
}

/// An explicit spawn id resolves to a spawn point whose identifier equals it
/// ignoring ASCII case: when the level has such a point at position `i`,
/// resolution succeeds with a point at or before `i` whose identifier or one
/// of whose tags equals the id ignoring ASCII case, and no earlier point does.
pub proof fn law_spawn_id_matches_identifier(
    catalog: LdtkMapCatalog,
    target: Seq<char>,
    id: Seq<char>,
    config: LdtkLevelManagerConfig,
    i: int,
)
    requires
        catalog.spec_level(target) is Some,
        0 <= i < catalog.spec_level(target)->0.spawn_points@.len(),
        eq_ignore_ascii_case_spec(catalog.spec_level(target)->0.spawn_points@[i].identifier@, id),
    ensures
        ({
            let points = catalog.spec_level(target)->0.spawn_points@;
            &&& spawn_resolution(catalog, target, Some(id), config) matches Ok(Some(j))
            &&& 0 <= spawn_resolution(catalog, target, Some(id), config)->Ok_0->0 <= i
            &&& ({
                let j = spawn_resolution(catalog, target, Some(id), config)->Ok_0->0;
                &&& (eq_ignore_ascii_case_spec(points[j].identifier@, id) || exists|t: int|
                    0 <= t < points[j].tags@.len() && eq_ignore_ascii_case_spec(#[trigger] points[j].tags@[t]@, id))
                &&& forall|k: int|
                    0 <= k < j ==> !eq_ignore_ascii_case_spec(#[trigger] points[k].identifier@, id)
                        && forall|t: int|
                        0 <= t < points[k].tags@.len() ==> !eq_ignore_ascii_case_spec(#[trigger] points[k].tags@[t]@, id)
            })
        }),
{
    let points = catalog.spec_level(target)->0.spawn_points@;
    let pred = spawn_filter(id, id);
    assert(pred(points[i]));
    lemma_first_where_found(points, pred);
    let j = first_where(points, pred)->0;
    assert(is_first_where(points, pred, j));
    assert(j <= i);
    assert forall|k: int| 0 <= k < j implies !eq_ignore_ascii_case_spec(#[trigger] points[k].identifier@, id)
        && forall|t: int|
        0 <= t < points[k].tags@.len() ==> !eq_ignore_ascii_case_spec(#[trigger] points[k].tags@[t]@, id) by {
        assert(!pred(points[k]));
    }
}

/// Without a spawn id, a spawn point whose identifier equals the configured
/// default identifier ignoring ASCII case is found: when the level has one
/// at position `i`, resolution succeeds with a point at or before `i` that
/// matches the default identifier or the default tag, not merely with the
/// level's first point.
pub proof fn law_default_spawn_matches_identifier(
    catalog: LdtkMapCatalog,
    target: Seq<char>,
    config: LdtkLevelManagerConfig,
    i: int,
)
    requires
        catalog.spec_level(target) is Some,
        0 <= i < catalog.spec_level(target)->0.spawn_points@.len(),
        eq_ignore_ascii_case_spec(
            catalog.spec_level(target)->0.spawn_points@[i].identifier@,
            config.default_spawn_identifier@,
        ),
    ensures
        ({
            let points = catalog.spec_level(target)->0.spawn_points@;
            &&& spawn_resolution(catalog, target, None, config) matches Ok(Some(j))
            &&& 0 <= spawn_resolution(catalog, target, None, config)->Ok_0->0 <= i
            &&& ({
                let j = spawn_resolution(catalog, target, None, config)->Ok_0->0;
                eq_ignore_ascii_case_spec(points[j].identifier@, config.default_spawn_identifier@) || exists|t: int|
                    0 <= t < points[j].tags@.len() && eq_ignore_ascii_case_spec(
                        #[trigger] points[j].tags@[t]@,
                        config.default_spawn_tag@,
                    )
            })
        }),
{
    let points = catalog.spec_level(target)->0.spawn_points@;
    let pred = spawn_filter(config.default_spawn_identifier@, config.default_spawn_tag@);
    assert(pred(points[i]));
    lemma_first_where_found(points, pred);
    let j = first_where(points, pred)->0;
    assert(is_first_where(points, pred, j));
    assert(j <= i);
}

/// Without a spawn id, a known level with spawn points always resolves to
/// one of them, and with missing spawn points allowed every known level
/// resolves.
pub proof fn law_default_resolution_succeeds(
    catalog: LdtkMapCatalog,
    target: Seq<char>,
    config: LdtkLevelManagerConfig,
)
    requires
        catalog.spec_level(target) is Some,
    ensures
        catalog.spec_level(target)->0.spawn_points@.len() > 0 ==> (spawn_resolution(catalog, target, None, config) matches Ok(
            Some(i),
        ) && 0 <= i < catalog.spec_level(target)->0.spawn_points@.len()),
        config.allow_missing_spawnpoints ==> spawn_resolution(catalog, target, None, config) is Ok,
{
    let points = catalog.spec_level(target)->0.spawn_points@;
    lemma_first_where_found(
        points,
        spawn_filter(config.default_spawn_identifier@, config.default_spawn_tag@),
    );
}

/// Starts a transition to `target_level` (an identifier, or else an IID):
/// when the catalog knows the level, records the request as pending with the
/// level's IID and waits for it to spawn; otherwise leaves both untouched and
/// returns the error text.
pub fn start_transition(
    pending: &mut PendingLdtkLevelTransition,
    state: &mut LevelTransitionState,
    target_level: String,
    spawn_id: Option<String>,
    catalog: &LdtkMapCatalog,
) -> (r: Result<(), String>)
    ensures
        match catalog.spec_level_by_id_or_iid(target_level@) {
            None => {
                &&& r is Err
                &&& r->Err_0@ == level_not_found_message(target_level@)
                &&& *final(pending) == *old(pending)
                &&& *final(state) == *old(state)
            },
            Some(level) => {
                &&& r is Ok
                &&& final(pending).target_level == Some(target_level)
                &&& final(pending).spawn_id == spawn_id
                &&& final(pending).target_level_iid == Some(level.iid)
                &&& final(state).status == LevelTransitionStatus::WaitingForSpawn
                &&& final(state).error is None
            },
        },
{
    let target_level_iid = match catalog.level_by_id_or_iid(target_level.as_str()) {
        Some(info) => info.iid.clone(),
        None => return Err(level_not_found_error(target_level.as_str())),
    };
    pending.target_level = Some(target_level);
    pending.spawn_id = spawn_id;
    pending.target_level_iid = Some(target_level_iid);
    state.status = LevelTransitionStatus::WaitingForSpawn;
    state.error = None;
    Ok(())
}

/// Code of the validation issue recorded for a request to an unknown level.
pub open spec fn level_missing_code() -> Seq<char> {
    "transition_level_missing"@
}

/// Code of the validation issue recorded when a spawned level has no spawn
/// point to place the player on.
pub open spec fn spawn_missing_code() -> Seq<char> {
    "transition_spawn_missing"@
}

/// Handles one transition request. On success the transition is pending (see
/// [`start_transition`]) and the catalog identifier of the target level (also
/// when the request names it by IID) is returned for the caller to select. On
/// failure the transition state is `Failed` with the error text,
/// the error is recorded as a `transition_level_missing` issue (an error
/// under strict validation, else a warning), strict validation also puts
/// the load state in `Error`, and `false` is returned.
pub fn handle_transition_request(
    pending: &mut PendingLdtkLevelTransition,
    state: &mut LevelTransitionState,
    load_state: &mut LdtkLoadState,
    validation: &mut LdtkValidationReport,
    catalog: &LdtkMapCatalog,
    strict: bool,
    request: &LevelTransitionRequest,
) -> (r: Option<String>)
    ensures
        r is Some == catalog.spec_level_by_id_or_iid(request.target_level@) is Some,
        r is Some ==> r->0@ == catalog.spec_level_by_id_or_iid(request.target_level@)->0.identifier@,
        r is Some ==> {
            let level = catalog.spec_level_by_id_or_iid(request.target_level@)->0;
            &&& final(pending).target_level == Some(request.target_level)
            &&& final(pending).spawn_id == request.spawn_id
            &&& final(pending).target_level_iid == Some(level.iid)
            &&& final(state).status == LevelTransitionStatus::WaitingForSpawn
            &&& final(state).error is None
            &&& *final(load_state) == *old(load_state)
            &&& *final(validation) == *old(validation)
        },
        r is None ==> {
            let message = level_not_found_message(request.target_level@);
            &&& *final(pending) == *old(pending)
            &&& final(state).status == LevelTransitionStatus::Failed
            &&& final(state).error is Some && final(state).error->0@ == message
            &&& issue_recorded(*old(validation), *final(validation), strict, level_missing_code(), message)
            &&& final(load_state).status == (if strict { LdtkLoadStatus::Error } else { old(load_state).status })
            &&& final(load_state).world_identifier == old(load_state).world_identifier
            &&& final(load_state).warnings == old(load_state).warnings
            &&& final(load_state).errors == old(load_state).errors
            &&& final(load_state).stats == old(load_state).stats
        },
{
    match start_transition(pending, state, request.target_level.clone(), request.spawn_id.clone(), catalog) {
        Ok(()) => {
            let level = catalog.level_by_id_or_iid(request.target_level.as_str());
            match level {
                Some(level) => Some(level.identifier.clone()),
                None => None,
            }
        },
        Err(error) => {
            fail_transition(state, load_state, validation, strict, String::from_str("transition_level_missing"), error);
            None
        },
    }
}

/// `after` is `before` with one issue recorded: with code `code` and message
/// `message`, among the errors when `strict`, else among the warnings.
pub open spec fn issue_recorded(
    before: LdtkValidationReport,
    after: LdtkValidationReport,
    strict: bool,
    code: Seq<char>,
    message: Seq<char>,
) -> bool {
    let (grown, kept_before, kept_after, grown_before) = if strict {
        (after.errors@, before.warnings@, after.warnings@, before.errors@)
    } else {
        (after.warnings@, before.errors@, after.errors@, before.warnings@)
    };
    &&& kept_after == kept_before
    &&& grown.len() == grown_before.len() + 1
    &&& grown.drop_last() == grown_before
    &&& grown.last().code@ == code
    &&& grown.last().message@ == message
}

/// Under strict validation a recorded issue is an error, so the report has
/// errors; otherwise it is a warning and the errors stay as they were.
pub proof fn law_strict_issue_is_an_error(
    before: LdtkValidationReport,
    after: LdtkValidationReport,
    strict: bool,
    code: Seq<char>,
    message: Seq<char>,
)
    requires
        issue_recorded(before, after, strict, code, message),
    ensures
        strict ==> after.errors@.len() > 0,
        !strict ==> after.errors@ == before.errors@ && after.warnings@.len() > 0,
{
}

fn fail_transition(
    state: &mut LevelTransitionState,
    load_state: &mut LdtkLoadState,
    validation: &mut LdtkValidationReport,
    strict: bool,
    code: String,
    error: String,
)
    ensures
        final(state).status == LevelTransitionStatus::Failed,
        final(state).error is Some && final(state).error->0@ == error@,
        issue_recorded(*old(validation), *final(validation), strict, code@, error@),
        final(load_state).status == (if strict { LdtkLoadStatus::Error } else { old(load_state).status }),
        final(load_state).world_identifier == old(load_state).world_identifier,
        final(load_state).warnings == old(load_state).warnings,
        final(load_state).errors == old(load_state).errors,
        final(load_state).stats == old(load_state).stats,
{
    state.status = LevelTransitionStatus::Failed;
    state.error = Some(error.clone());
    let ghost before = *validation;
    let ghost code_view = code@;
    let ghost error_view = error@;
    validation.push(strict, code, error);
    proof {
        if strict {
            assert(validation.errors@.drop_last() == before.errors@);
        } else {
            assert(validation.warnings@.drop_last() == before.warnings@);
        }
    }
    if strict {
        load_state.status = LdtkLoadStatus::Error;
    }
}

/// Whether an entity is despawned when level `target_level` is left: never
/// for persistent entities or the player; otherwise when it was spawned from
/// that level or is scoped to it.
pub fn should_cleanup_entity(
    marker_level: Option<&str>,
    scoped_level: Option<&str>,
    is_persistent: bool,
    is_player: bool,
    target_level: &str,
) -> (r: bool)
    ensures
        r == (!is_persistent && !is_player && (opt_str_view(marker_level) == Some(target_level@)
            || opt_str_view(scoped_level) == Some(target_level@))),
{
    if is_persistent || is_player {
        return false;
    }
    let marker_matches = match marker_level {
        Some(level) => str_eq(level, target_level),
        None => false,
    };
    let scoped_matches = match scoped_level {
        Some(level) => str_eq(level, target_level),
        None => false,
    };
    marker_matches || scoped_matches
}

/// The identifier of the level with IID `iid`, if the catalog knows it.
pub fn level_identifier_from_iid(catalog: &LdtkMapCatalog, iid: &str) -> (r: Option<String>)
    ensures
        opt_view(r) == match catalog.spec_level_by_iid(iid@) {
            Some(level) => Some(level.identifier@),
            None => None,
        },
{
    match catalog.identifier_for_iid(iid) {
        Some(identifier) => Some(String::from_str(identifier)),
        None => None,
    }
}

/// What the caller carries out once a spawned level completed the pending
/// transition: despawn the entities of the level that was left, teleport the
/// player to the spawn point, and emit the ready and collision events.
#[derive(Debug, Clone)]
pub struct LdtkTransitionCompletion {
    /// Identifier of the now-active level.
    pub level_identifier: String,
    /// IID of the now-active level.
    pub level_iid: String,
    /// The resolved spawn point.
    pub spawn_point: LdtkSpawnPoint,
    /// Spawn id that was requested, if any.
    pub spawn_id: Option<String>,
    /// The previously active level, when it differs from the new one; its
    /// entities are cleaned up.
    pub cleanup_level: Option<String>,
    /// Number of collision cells captured for the now-active level.
    pub collision_cells: usize,
}

/// Outcome of a level-spawned event for the pending transition.
#[derive(Debug, Clone)]
pub enum LdtkFinalizeStep {
    /// No transition is pending: the caller stops reading events.
    NoPendingTransition,
    /// The spawned level is not the pending target: the caller goes on with
    /// the next event.
    NotPending,
    /// The target spawned but no spawn point could be resolved: the
    /// transition failed and was cleared; the caller stops.
    Failed,
    /// The transition completed; the caller carries out the completion and
    /// stops.
    Completed(LdtkTransitionCompletion),
}

/// The identifier of the level with IID `iid`, if the catalog knows it.
pub open spec fn spawned_identifier(catalog: LdtkMapCatalog, iid: Seq<char>) -> Option<Seq<char>> {
    match catalog.spec_level_by_iid(iid) {
        Some(level) => Some(level.identifier@),
        None => None,
    }
}

/// A spawned level with IID `iid` completes the pending transition: its IID
/// is the pending target's IID, or its identifier is the pending target.
pub open spec fn spawn_completes_pending(
    pending: PendingLdtkLevelTransition,
    catalog: LdtkMapCatalog,
    iid: Seq<char>,
) -> bool {
    &&& pending.target_level is Some
    &&& (opt_view(pending.target_level_iid) == Some(iid) || spawned_identifier(catalog, iid) == Some(
        pending.target_level->0@,
    ))
}

/// The identifier under which a completing level becomes active: its catalog
/// identifier, else the pending target.
pub open spec fn completed_identifier(
    pending: PendingLdtkLevelTransition,
    catalog: LdtkMapCatalog,
    iid: Seq<char>,
) -> Seq<char> {
    match spawned_identifier(catalog, iid) {
        Some(identifier) => identifier,
        None => pending.target_level->0@,
    }
}

/// Every field of `pending` is `None`.
pub open spec fn pending_cleared(pending: PendingLdtkLevelTransition) -> bool {
    &&& pending.target_level is None
    &&& pending.spawn_id is None
    &&& pending.target_level_iid is None
}

fn clear_pending(pending: &mut PendingLdtkLevelTransition)
    ensures
        pending_cleared(*final(pending)),
{
    pending.target_level = None;
    pending.target_level_iid = None;
    pending.spawn_id = None;
}

/// Decides what a level-spawned event with IID `level_iid` does to the pending
/// transition, and updates the transition state accordingly.
///
/// Without a pending transition nothing changes. A level that is not the
/// pending target changes nothing. When the target spawned, its spawn point
/// is resolved (see [`spawn_resolution`]) under its catalog identifier (or
/// the pending target): if that fails the transition is `Failed` with the
/// error recorded as a `transition_spawn_missing` issue, strict validation
/// puts the load state in `Error`, and the pending transition is cleared;
/// otherwise the level becomes the current and active level, the transition
/// is `Ready`, the pending transition is cleared, and the completion tells
/// the caller the spawn point, the requested spawn id, the previously active
/// level to clean up when it differs, and the level's collision cell count.
pub fn finalize_spawned_level(
    pending: &mut PendingLdtkLevelTransition,
    state: &mut LevelTransitionState,
    current: &mut CurrentLdtkLevel,
    runtime: &mut LdtkRuntimeState,
    load_state: &mut LdtkLoadState,
    validation: &mut LdtkValidationReport,
    catalog: &LdtkMapCatalog,
    collision_catalog: &LdtkCollisionCatalog,
    config: &LdtkLevelManagerConfig,
    strict: bool,
    level_iid: &str,
) -> (r: LdtkFinalizeStep)
    ensures
        old(pending).target_level is None ==> r is NoPendingTransition,
        old(pending).target_level is Some && !spawn_completes_pending(*old(pending), *catalog, level_iid@)
            ==> r is NotPending,
        !spawn_completes_pending(*old(pending), *catalog, level_iid@) ==> {
            &&& *final(pending) == *old(pending)
            &&& *final(state) == *old(state)
            &&& *final(current) == *old(current)
            &&& *final(runtime) == *old(runtime)
            &&& *final(load_state) == *old(load_state)
            &&& *final(validation) == *old(validation)
        },
        spawn_completes_pending(*old(pending), *catalog, level_iid@) ==> {
            let identifier = completed_identifier(*old(pending), *catalog, level_iid@);
            &&& pending_cleared(*final(pending))
            &&& final(runtime).active_world_path == old(runtime).active_world_path
            &&& final(runtime).active_world_identifier == old(runtime).active_world_identifier
            &&& final(runtime).active_world_root == old(runtime).active_world_root
            &&& final(runtime).transition == old(runtime).transition
            &&& final(runtime).loaded_levels == old(runtime).loaded_levels
            &&& match spawn_resolution(*catalog, identifier, opt_view(old(pending).spawn_id), *config) {
                Err(message) => {
                    &&& r is Failed
                    &&& final(state).status == LevelTransitionStatus::Failed
                    &&& final(state).error is Some && final(state).error->0@ == message
                    &&& issue_recorded(*old(validation), *final(validation), strict, spawn_missing_code(), message)
                    &&& final(load_state).status == (if strict { LdtkLoadStatus::Error } else { old(load_state).status })
                    &&& final(load_state).world_identifier == old(load_state).world_identifier
                    &&& final(load_state).warnings == old(load_state).warnings
                    &&& final(load_state).errors == old(load_state).errors
                    &&& final(load_state).stats == old(load_state).stats
                    &&& *final(current) == *old(current)
                    &&& final(runtime).active_level == old(runtime).active_level
                },
                Ok(outcome) => {
                    &&& r is Completed
                    &&& r->Completed_0.level_identifier@ == identifier
                    &&& r->Completed_0.level_iid@ == level_iid@
                    &&& resolves_to(*catalog, identifier, outcome, r->Completed_0.spawn_point)
                    &&& r->Completed_0.spawn_id == old(pending).spawn_id
                    &&& opt_view(r->Completed_0.cleanup_level) == match opt_view(old(current).identifier) {
                        Some(previous) => if previous != identifier { Some(previous) } else { None },
                        None => None,
                    }
                    &&& r->Completed_0.collision_cells == cells_in_level(collision_catalog.cells@, identifier)
                    &&& opt_view(final(current).identifier) == Some(identifier)
                    &&& opt_view(final(current).iid) == Some(level_iid@)
                    &&& opt_view(final(runtime).active_level) == Some(identifier)
                    &&& final(state).status == LevelTransitionStatus::Ready
                    &&& final(state).error is None
                    &&& *final(load_state) == *old(load_state)
                    &&& *final(validation) == *old(validation)
                },
            }
        },
{
    let target_level = match &pending.target_level {
        Some(target) => target.clone(),
        None => return LdtkFinalizeStep::NoPendingTransition,
    };
    let spawned = level_identifier_from_iid(catalog, level_iid);
    let iid_matches = match &pending.target_level_iid {
        Some(target_iid) => str_eq(target_iid.as_str(), level_iid),
        None => false,
    };
    let identifier_matches = match &spawned {
        Some(identifier) => str_eq(identifier.as_str(), target_level.as_str()),
        None => false,
    };
    if !(iid_matches || identifier_matches) {
        return LdtkFinalizeStep::NotPending;
    }
    let level_identifier = match spawned {
        Some(identifier) => identifier,
        None => target_level,
    };
    let resolved = match &pending.spawn_id {
        Some(spawn_id) => resolve_spawn_point(catalog, level_identifier.as_str(), Some(spawn_id.as_str()), config),
        None => resolve_spawn_point(catalog, level_identifier.as_str(), None, config),
    };
    let spawn_point = match resolved {
        Ok(spawn_point) => spawn_point,
        Err(message) => {
            fail_transition(state, load_state, validation, strict, String::from_str("transition_spawn_missing"), message);
            clear_pending(pending);
            return LdtkFinalizeStep::Failed;
        },
    };
    let cleanup_level = match &current.identifier {
        Some(previous) => if str_eq(previous.as_str(), level_identifier.as_str()) {
            None
        } else {
            Some(previous.clone())
        },
        None => None,
    };
    let spawn_id = pending.spawn_id.clone();
    current.identifier = Some(level_identifier.clone());
    current.iid = Some(String::from_str(level_iid));
    runtime.active_level = Some(level_identifier.clone());
    state.status = LevelTransitionStatus::Ready;
    state.error = None;
    clear_pending(pending);
    let collision_cells = collision_catalog.cells_in_level(level_identifier.as_str());
    LdtkFinalizeStep::Completed(
        LdtkTransitionCompletion {
            level_identifier,
            level_iid: String::from_str(level_iid),
            spawn_point,
            spawn_id,
            cleanup_level,
            collision_cells,
        },
    )
}

/// A transition that [`start_transition`] started completes when its target
/// level spawns: the spawn of the level's IID matches the pending
/// transition, and (when no other level shares that IID) the level becomes
/// active under its own identifier.
pub proof fn law_started_transition_completes_on_target_spawn(
    pending: PendingLdtkLevelTransition,
    catalog: LdtkMapCatalog,
    target_level: String,
)
    requires
        catalog.spec_level_by_id_or_iid(target_level@) is Some,
        pending.target_level == Some(target_level),
        pending.target_level_iid == Some(catalog.spec_level_by_id_or_iid(target_level@)->0.iid),
    ensures
        ({
            let level = catalog.spec_level_by_id_or_iid(target_level@)->0;
            &&& spawn_completes_pending(pending, catalog, level.iid@)
            &&& catalog.spec_level_by_iid(level.iid@) == Some(level) ==> completed_identifier(
                pending,
                catalog,
                level.iid@,
            ) == level.identifier@
        }),
{
}

/// Once a transition completed or failed, its pending state is cleared, and
/// no further level spawn matches it: a second spawn event in the same frame
/// cannot complete it twice.
pub proof fn law_cleared_transition_matches_no_spawn(
    pending: PendingLdtkLevelTransition,
    catalog: LdtkMapCatalog,
    iid: Seq<char>,
)
    requires
        pending_cleared(pending),
    ensures
        !spawn_completes_pending(pending, catalog, iid),
{
}

/// The IIDs of levels the catalog knows.
pub open spec fn known_iid_filter(catalog: LdtkMapCatalog) -> spec_fn(String) -> bool {
    |iid: String| catalog.spec_level_by_iid(iid@) is Some
}

/// The level that an idle level manager turns into a full transition when
/// levels spawn without one having been requested: nothing unless there is
/// no current level and no pending transition; then the identifier of the
/// first spawned level (in event order) that the catalog knows.
pub fn initial_transition_target(
    current: &CurrentLdtkLevel,
    pending: &PendingLdtkLevelTransition,
    catalog: &LdtkMapCatalog,
    spawned_level_iids: &Vec<String>,
) -> (r: Option<String>)
    ensures
        !(current.identifier is None && pending.target_level is None) ==> r is None,
        current.identifier is None && pending.target_level is None ==> match first_where(
            spawned_level_iids@,
            known_iid_filter(*catalog),
        ) {
            Some(i) => opt_view(r) == spawned_identifier(*catalog, spawned_level_iids@[i]@),
            None => r is None,
        },
{
    if current.identifier.is_some() || pending.target_level.is_some() {
        return None;
    }
    let ghost pred = known_iid_filter(*catalog);
    let mut i: usize = 0;
    while i < spawned_level_iids.len()
        invariant
            i <= spawned_level_iids@.len(),
            current.identifier is None && pending.target_level is None,
            pred == known_iid_filter(*catalog),
            forall|j: int| 0 <= j < i ==> !pred(#[trigger] spawned_level_iids@[j]),
        decreases spawned_level_iids@.len() - i,
    {
        let found = level_identifier_from_iid(catalog, spawned_level_iids[i].as_str());
        if found.is_some() {
            proof {
                lemma_first_where(spawned_level_iids@, pred, i as int);
            }
            return found;
        }
        i = i + 1;
    }
    None
}

/// Advances `animator` by `delta_nanos` nanoseconds; see
/// [`LdtkTileAnimator::advance`].
pub fn advance_tile_animation(animator: &mut LdtkTileAnimator, delta_nanos: u64) -> (r: Option<i32>)
    ensures
        (*final(animator), r) == advanced(*old(animator), delta_nanos),
{
    animator.advance(delta_nanos)
}

} // verus!
