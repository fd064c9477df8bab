//! Detection logic for enemy vision: decides whether the player has been
//! perceived by any enemy, under a discrete-delay or a light-cone causal
//! model.

use vstd::prelude::*;

use crate::components::{spec_patrol_position_at, EntityId, VisionData};
use crate::entity::{abs_has_patrol, lemma_patrol_unique, lemma_vision_unique, AbsEntity, Entity};
use crate::light_cone::{is_line_blocked, spec_line_blocked};
use crate::position::{spec_manhattan_spatial, Position, SpatialPos};
use crate::time_cube::{spec_cube_entities_valid, TimeCube};
use crate::time_slice::spec_enemies;
use crate::world_line::{spec_last_position_at_time, spec_max_t, WorldLine};

verus! {

/// Detection model type.
#[derive(Debug, Clone, Copy, PartialEq, Eq, Structural)]
pub enum DetectionModel {
    /// Enemy sees the player's position from a fixed number of turns ago.
    DiscreteDelay,
    /// Full light cone: distance <= light_speed * (te - tp).
    LightCone,
}

impl Default for DetectionModel {
    /// The default model is the discrete delay.
    fn default() -> (r: Self)
        ensures
            r == DetectionModel::DiscreteDelay,
    {
        DetectionModel::DiscreteDelay
    }
}

/// Configuration for detection.
#[derive(Debug, Clone, Copy, PartialEq, Eq, Structural)]
pub struct DetectionConfig {
    /// Detection model type.
    pub model: DetectionModel,
    /// Fixed delay for the discrete model (cube-time units).
    pub delay_turns: i32,
    /// Maximum vision radius.
    pub vision_radius: i32,
}

impl Default for DetectionConfig {
    /// The default: discrete delay of two turns, vision radius eight.
    fn default() -> (r: Self)
        ensures
            r == (DetectionConfig {
                model: DetectionModel::DiscreteDelay,
                delay_turns: 2,
                vision_radius: 8,
            }),
    {
        Self { model: DetectionModel::DiscreteDelay, delay_turns: 2, vision_radius: 8 }
    }
}

/// Result of a detection check.
#[derive(Debug, Clone, Copy, PartialEq, Eq, Structural)]
pub struct DetectionResult {
    /// Which enemy detected the player.
    pub enemy_id: EntityId,
    /// Enemy position when detection occurred.
    pub enemy_position: Position,
    /// Player position that was seen.
    pub player_position: Position,
}

/// The spatial cell an enemy occupies at time `t`: its patrol waypoint if it
/// patrols, its own cell otherwise.
pub open spec fn spec_enemy_spatial(e: AbsEntity, t: int) -> SpatialPos {
    if abs_has_patrol(e.components) {
        spec_patrol_position_at(e.patrol_data(), t)
    } else {
        SpatialPos { x: e.position.x, y: e.position.y }
    }
}

/// The light speed of an enemy's vision cone (a default of 3 where the
/// entity has none).
pub open spec fn spec_light_speed(e: AbsEntity) -> int {
    if e.is_enemy() {
        e.vision_data().light_speed as int
    } else {
        3
    }
}

/// Discrete delay: at observation time `te` the enemy perceives the player's
/// latest recorded position exactly `delay_turns` earlier, within the vision
/// radius and with an unobstructed line of sight at `te`.
pub open spec fn spec_discrete_sees(
    cube: TimeCube,
    wl: Seq<Position>,
    config: DetectionConfig,
    e: AbsEntity,
    te: int,
) -> bool {
    let tp = te - config.delay_turns;
    let es = spec_enemy_spatial(e, te);
    &&& tp >= 0
    &&& spec_last_position_at_time(wl, tp) is Some
    &&& {
        let ppos = spec_last_position_at_time(wl, tp)->Some_0;
        let ps = SpatialPos { x: ppos.x, y: ppos.y };
        &&& spec_manhattan_spatial(es, ps) <= config.vision_radius
        &&& !spec_line_blocked(cube, es, ps, te as i32)
    }
}

/// Light cone: the recorded player position at turn `k` is perceivable by
/// the enemy at observation time `te`.
pub open spec fn spec_light_cone_sees_at(
    cube: TimeCube,
    wl: Seq<Position>,
    config: DetectionConfig,
    e: AbsEntity,
    te: int,
    k: int,
) -> bool {
    let es = spec_enemy_spatial(e, te);
    &&& 0 <= k < wl.len()
    &&& wl[k].t < te
    &&& {
        let ps = SpatialPos { x: wl[k].x, y: wl[k].y };
        &&& spec_manhattan_spatial(es, ps) <= spec_light_speed(e) * (te - wl[k].t)
        &&& spec_manhattan_spatial(es, ps) <= config.vision_radius
        &&& !spec_line_blocked(cube, es, ps, te as i32)
    }
}

/// The enemy perceives the player at observation time `te`, under the
/// configured model.
pub open spec fn spec_enemy_sees(
    cube: TimeCube,
    wl: Seq<Position>,
    config: DetectionConfig,
    e: AbsEntity,
    te: int,
) -> bool {
    match config.model {
        DetectionModel::DiscreteDelay => spec_discrete_sees(cube, wl, config, e, te),
        DetectionModel::LightCone => exists|k: int|
            spec_light_cone_sees_at(cube, wl, config, e, te, k),
    }
}

/// Some enemy of some slice, at some observation time up to the player's
/// maximum recorded time, perceives the player.
pub open spec fn spec_detected(cube: TimeCube, wl: Seq<Position>, config: DetectionConfig) -> bool {
    wl.len() > 0 && exists|te: int, j: int|
        {
            &&& 0 <= te <= spec_max_t(wl)
            &&& 0 <= te < cube.slices@.len()
            &&& 0 <= j < spec_enemies(cube.slices@[te].abs_entities()).len()
            &&& spec_enemy_sees(
                cube,
                wl,
                config,
                #[trigger] spec_enemies(cube.slices@[te].abs_entities())[j],
                te,
            )
        }
}

/// A returned detection names a qualifying enemy: some observation time and
/// some enemy of that slice perceiving the player, with the enemy's cell at
/// that time and a perceived recorded player position.
pub open spec fn spec_detection_pair(
    cube: TimeCube,
    wl: Seq<Position>,
    config: DetectionConfig,
    enemy_id: EntityId,
    enemy_position: Position,
    player_position: Position,
) -> bool {
    exists|te: int, j: int|
        {
            &&& 0 <= te <= spec_max_t(wl)
            &&& 0 <= te < cube.slices@.len()
            &&& 0 <= j < spec_enemies(cube.slices@[te].abs_entities()).len()
            &&& {
                let e = #[trigger] spec_enemies(cube.slices@[te].abs_entities())[j];
                let es = spec_enemy_spatial(e, te);
                &&& spec_enemy_sees(cube, wl, config, e, te)
                &&& enemy_id == e.id
                &&& enemy_position == (Position { x: es.x, y: es.y, t: te as i32 })
                &&& (match config.model {
                    DetectionModel::DiscreteDelay => Some(player_position)
                        == spec_last_position_at_time(wl, te - config.delay_turns),
                    DetectionModel::LightCone => exists|k: int|
                        spec_light_cone_sees_at(cube, wl, config, e, te, k) && player_position
                            == wl[k],
                })
            }
        }
}

/// The product of two bounded non-negative integers stays far from the
/// 128-bit limits.
proof fn lemma_mul_bound(a: int, b: int)
    by (nonlinear_arith)
    requires
        0 <= a < 0x200000000,
        0 <= b < 0x200000000,
    ensures
        0 <= a * b < 0x40000000000000000,
{
}

/// The greatest recorded time is itself a recorded `i32` value.
proof fn lemma_max_t_in_range(s: Seq<Position>)
    requires
        s.len() > 0,
    ensures
        i32::MIN <= spec_max_t(s) <= i32::MAX,
    decreases s.len(),
{
    if s.len() > 1 {
        lemma_max_t_in_range(s.drop_last());
    }
}

/// Absolute difference of two `i32` values, computed widely.
fn abs_diff_i64(a: i32, b: i32) -> (r: i64)
    ensures
        r == crate::position::abs_int(a - b),
{
    if a >= b {
        a as i64 - b as i64
    } else {
        b as i64 - a as i64
    }
}

/// The enemy's spatial cell at time `t`.
fn get_enemy_spatial_position(enemy: &Entity, t: i32) -> (r: SpatialPos)
    requires
        enemy@.valid(),
        t >= 0,
    ensures
        r == spec_enemy_spatial(enemy@, t as int),
{
    if let Some(patrol) = enemy.patrol_data() {
        proof {
            lemma_patrol_unique(enemy@, patrol@);
        }
        patrol.position_at(t)
    } else {
        enemy.position.spatial()
    }
}

/// Check the discrete-delay rule for one enemy at one observation time.
fn check_discrete_delay(
    cube: &TimeCube,
    world_line: &WorldLine,
    config: &DetectionConfig,
    enemy: &Entity,
    enemy_spatial: SpatialPos,
    te: i32,
) -> (r: Option<DetectionResult>)
    requires
        cube.wf(),
        enemy@.valid(),
        te >= 0,
        enemy_spatial == spec_enemy_spatial(enemy@, te as int),
    ensures
        r is Some <==> spec_discrete_sees(*cube, world_line@, *config, enemy@, te as int),
        r matches Some(d) ==> d.enemy_id == enemy@.id && d.enemy_position == (Position {
            x: enemy_spatial.x,
            y: enemy_spatial.y,
            t: te,
        }) && Some(d.player_position) == spec_last_position_at_time(
            world_line@,
            te - config.delay_turns,
        ),
{
    let tp: i64 = te as i64 - config.delay_turns as i64;
    if tp < 0 {
        return None;
    }
    let player_pos = match world_line.current_position_at_time_wide(tp) {
        Some(p) => p,
        None => {
            return None;
        },
    };
    let player_spatial = player_pos.spatial();
    let distance = abs_diff_i64(enemy_spatial.x, player_spatial.x) + abs_diff_i64(
        enemy_spatial.y,
        player_spatial.y,
    );
    if distance > config.vision_radius as i64 {
        return None;
    }
    if is_line_blocked(cube, enemy_spatial, player_spatial, te) {
        return None;
    }
    Some(
        DetectionResult {
            enemy_id: enemy.id,
            enemy_position: Position::new(enemy_spatial.x, enemy_spatial.y, te),
            player_position: player_pos,
        },
    )
}

/// Check the light-cone rule for one enemy at one observation time: the
/// first perceivable recorded player position, scanning in turn order.
fn check_light_cone(
    cube: &TimeCube,
    world_line: &WorldLine,
    config: &DetectionConfig,
    enemy: &Entity,
    enemy_spatial: SpatialPos,
    te: i32,
) -> (r: Option<DetectionResult>)
    requires
        cube.wf(),
        enemy@.valid(),
        te >= 0,
        enemy_spatial == spec_enemy_spatial(enemy@, te as int),
    ensures
        r is Some <==> exists|k: int|
            spec_light_cone_sees_at(*cube, world_line@, *config, enemy@, te as int, k),
        r matches Some(d) ==> d.enemy_id == enemy@.id && d.enemy_position == (Position {
            x: enemy_spatial.x,
            y: enemy_spatial.y,
            t: te,
        }) && exists|k: int|
            spec_light_cone_sees_at(*cube, world_line@, *config, enemy@, te as int, k)
                && d.player_position == world_line@[k],
{
    let light_speed: i64 = match enemy.vision_data() {
        Some(v) => {
            proof {
                lemma_vision_unique(enemy@, *v);
            }
            v.light_speed as i64
        },
        None => 3,
    };
    let n = world_line.len();
    let path = world_line.path();
    for k in 0..n
        invariant
            cube.wf(),
            enemy@.valid(),
            te >= 0,
            enemy_spatial == spec_enemy_spatial(enemy@, te as int),
            n == world_line@.len(),
            path@ == world_line@,
            light_speed == spec_light_speed(enemy@),
            forall|j: int|
                0 <= j < k ==> !spec_light_cone_sees_at(
                    *cube,
                    world_line@,
                    *config,
                    enemy@,
                    te as int,
                    j,
                ),
    {
        let player_pos = path[k];
        if player_pos.t < te {
            let time_delta: i64 = te as i64 - player_pos.t as i64;
            let player_spatial = player_pos.spatial();
            let distance = abs_diff_i64(enemy_spatial.x, player_spatial.x) + abs_diff_i64(
                enemy_spatial.y,
                player_spatial.y,
            );
            proof {
                lemma_mul_bound(light_speed as int, time_delta as int);
            }
            let max_distance: i128 = light_speed as i128 * time_delta as i128;
            if distance as i128 <= max_distance && distance <= config.vision_radius as i64
                && !is_line_blocked(cube, enemy_spatial, player_spatial, te) {
                proof {
                    assert(spec_light_cone_sees_at(
                        *cube,
                        world_line@,
                        *config,
                        enemy@,
                        te as int,
                        k as int,
                    ));
                }
                return Some(
                    DetectionResult {
                        enemy_id: enemy.id,
                        enemy_position: Position::new(enemy_spatial.x, enemy_spatial.y, te),
                        player_position: player_pos,
                    },
                );
            }
        }
    }
    None
}

/// Check one enemy at one observation time under the configured model.
fn check_enemy_at_time(
    cube: &TimeCube,
    world_line: &WorldLine,
    config: &DetectionConfig,
    enemy: &Entity,
    te: i32,
) -> (r: Option<DetectionResult>)
    requires
        cube.wf(),
        enemy@.valid(),
        te >= 0,
    ensures
        r is Some <==> spec_enemy_sees(*cube, world_line@, *config, enemy@, te as int),
        r matches Some(d) ==> {
            let es = spec_enemy_spatial(enemy@, te as int);
            &&& d.enemy_id == enemy@.id
            &&& d.enemy_position == (Position { x: es.x, y: es.y, t: te })
            &&& (match config.model {
                DetectionModel::DiscreteDelay => Some(d.player_position)
                    == spec_last_position_at_time(world_line@, te - config.delay_turns),
                DetectionModel::LightCone => exists|k: int|
                    spec_light_cone_sees_at(*cube, world_line@, *config, enemy@, te as int, k)
                        && d.player_position == world_line@[k],
            })
        },
{
    let enemy_spatial = get_enemy_spatial_position(enemy, te);
    match config.model {
        DetectionModel::DiscreteDelay => check_discrete_delay(
            cube,
            world_line,
            config,
            enemy,
            enemy_spatial,
            te,
        ),
        DetectionModel::LightCone => check_light_cone(
            cube,
            world_line,
            config,
            enemy,
            enemy_spatial,
            te,
        ),
    }
}

/// Check if any enemy detects the player: slices are scanned in time order
/// from 0 to the player's maximum recorded time, enemies in slice order.
pub fn check_detection(
    cube: &TimeCube,
    world_line: &WorldLine,
    config: &DetectionConfig,
) -> (r: Option<DetectionResult>)
    requires
        cube.wf(),
        spec_cube_entities_valid(*cube),
    ensures
        r is Some <==> spec_detected(*cube, world_line@, *config),
        r matches Some(d) ==> spec_detection_pair(
            *cube,
            world_line@,
            *config,
            d.enemy_id,
            d.enemy_position,
            d.player_position,
        ),
{
    let max_t = match world_line.max_t() {
        Some(m) => m,
        None => {
            return None;
        },
    };
    proof {
        lemma_max_t_in_range(world_line@);
    }
    let count: usize = if max_t < 0 {
        0
    } else {
        (max_t as usize) + 1
    };
    for step in 0..count
        invariant
            cube.wf(),
            spec_cube_entities_valid(*cube),
            world_line@.len() > 0,
            count == (if spec_max_t(world_line@) < 0 {
                0int
            } else {
                spec_max_t(world_line@) + 1
            }),
            max_t as int == spec_max_t(world_line@),
            forall|te: int, j: int|
                0 <= te < step && 0 <= te < cube.slices@.len() && 0 <= j < spec_enemies(
                    cube.slices@[te].abs_entities(),
                ).len() ==> !spec_enemy_sees(
                    *cube,
                    world_line@,
                    *config,
                    #[trigger] spec_enemies(cube.slices@[te].abs_entities())[j],
                    te,
                ),
    {
        let te = step as i32;
        let enemies = cube.enemies_at(te);
        let m = enemies.len();
        for j in 0..m
            invariant
                cube.wf(),
                spec_cube_entities_valid(*cube),
                world_line@.len() > 0,
                0 <= (te as int) && te as int <= spec_max_t(world_line@),
                (te as int) < cube.slices@.len() || m == 0,
                m == enemies@.len(),
                (te as int) < cube.slices@.len() ==> enemies@.map_values(|e: &Entity| e@)
                    == spec_enemies(cube.slices@[te as int].abs_entities()),
                max_t as int == spec_max_t(world_line@),
                forall|j2: int|
                    0 <= j2 < j && (te as int) < cube.slices@.len() ==> !spec_enemy_sees(
                        *cube,
                        world_line@,
                        *config,
                        #[trigger] spec_enemies(cube.slices@[te as int].abs_entities())[j2],
                        te as int,
                    ),
        {
            proof {
                assert(enemies@.map_values(|e: &Entity| e@)[j as int] == enemies@[j as int]@);
                lemma_enemy_valid(*cube, te as int, j as int);
            }
            if let Some(result) = check_enemy_at_time(cube, world_line, config, enemies[j], te) {
                proof {
                    let e = spec_enemies(cube.slices@[te as int].abs_entities())[j as int];
                    assert(spec_enemy_sees(*cube, world_line@, *config, e, te as int));
                    assert(spec_detected(*cube, world_line@, *config));
                }
                return Some(result);
            }
        }
    }
    proof {
        if spec_detected(*cube, world_line@, *config) {
            let (te, j) = choose|te: int, j: int|
                {
                    &&& 0 <= te <= spec_max_t(world_line@)
                    &&& 0 <= te < cube.slices@.len()
                    &&& 0 <= j < spec_enemies(cube.slices@[te].abs_entities()).len()
                    &&& spec_enemy_sees(
                        *cube,
                        world_line@,
                        *config,
                        #[trigger] spec_enemies(cube.slices@[te].abs_entities())[j],
                        te,
                    )
                };
            assert(false);
        }
    }
    None
}

/// Every enemy of a slice is one of the slice's entities, so it is valid in
/// a cube whose entities all are.
proof fn lemma_enemy_valid(cube: TimeCube, te: int, j: int)
    requires
        cube.wf(),
        spec_cube_entities_valid(cube),
        0 <= te < cube.slices@.len(),
        0 <= j < spec_enemies(cube.slices@[te].abs_entities()).len(),
    ensures
        spec_enemies(cube.slices@[te].abs_entities())[j].valid(),
        spec_enemies(cube.slices@[te].abs_entities())[j].is_enemy(),
{
    lemma_enemies__is_member(cube.slices@[te].abs_entities(), j);
    let e = spec_enemies(cube.slices@[te].abs_entities())[j];
    let i = choose|i: int|
        0 <= i < cube.slices@[te].abs_entities().len() && cube.slices@[te].abs_entities()[i] == e;
    assert(cube.slices@[te].abs_entities()[i].valid());
}

/// Each element of the enemy list is an element of the slice and an enemy.
proof fn lemma_enemies__is_member(es: Seq<AbsEntity>, j: int)
    requires
        0 <= j < spec_enemies(es).len(),
    ensures
        exists|i: int| 0 <= i < es.len() && es[i] == spec_enemies(es)[j],
        spec_enemies(es)[j].is_enemy(),
    decreases es.len(),
{
    if es.len() > 0 {
        if es.last().is_enemy() && j == spec_enemies(es).len() - 1 {
            assert(es[es.len() - 1] == spec_enemies(es)[j]);
        } else {
            lemma_enemies__is_member(es.drop_last(), j);
            let i = choose|i: int|
                0 <= i < es.drop_last().len() && es.drop_last()[i] == spec_enemies(
                    es.drop_last(),
                )[j];
            assert(es[i] == spec_enemies(es)[j]);
        }
    }
}

} // verus!
