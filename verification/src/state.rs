//! Game state container and configuration.

use vstd::prelude::*;

use crate::components::EntityId;
use crate::detection::DetectionConfig;
use crate::entity::{AbsEntity, Entity};
use crate::position::Position;
use crate::time_cube::{spec_cube_entities_valid, CubeError, TimeCube};
use crate::time_slice::{AbsSlice, TimeSlice};
use crate::world_line::WorldLine;

verus! {

/// Current phase of the game.
#[derive(Debug, Clone, Copy, PartialEq, Eq, Structural)]
pub enum GamePhase {
    /// Game is active, player can move.
    Playing,
    /// Player reached the exit.
    Won,
    /// Player was detected by an enemy.
    Detected,
    /// Player created a paradox.
    Paradox,
    /// Player chose to restart.
    Restarted,
}

/// Configuration for a game session (loaded from level data).
#[derive(Debug)]
pub struct GameConfig {
    /// Speed of light for vision cones (tiles per turn).
    pub light_speed: u32,
    /// Maximum push chain length.
    pub max_push_chain: usize,
    /// Level name for display.
    pub level_name: String,
    /// Level ID for progression tracking.
    pub level_id: String,
    /// Allow undo actions.
    pub allow_undo: bool,
    /// Detection configuration.
    pub detection: DetectionConfig,
}

impl Clone for GameConfig {
    /// Clone preserves the configuration exactly.
    fn clone(&self) -> (res: Self)
        ensures
            res == *self,
    {
        Self {
            light_speed: self.light_speed,
            max_push_chain: self.max_push_chain,
            level_name: self.level_name.clone(),
            level_id: self.level_id.clone(),
            allow_undo: self.allow_undo,
            detection: self.detection,
        }
    }
}

impl Default for GameConfig {
    /// The default session configuration.
    fn default() -> (r: Self)
        ensures
            r.light_speed == 3,
            r.max_push_chain == 3,
            r.level_name@ == "Unnamed"@,
            r.level_id@ == "unknown"@,
            r.allow_undo == false,
            r.detection == (DetectionConfig {
                model: crate::detection::DetectionModel::DiscreteDelay,
                delay_turns: 2,
                vision_radius: 8,
            }),
    {
        Self {
            light_speed: 3,
            max_push_chain: 3,
            level_name: "Unnamed".to_owned(),
            level_id: "unknown".to_owned(),
            allow_undo: false,
            detection: DetectionConfig::default(),
        }
    }
}

/// Errors for initializing or configuring game state.
#[derive(Debug, Clone, Copy, PartialEq, Eq, Structural)]
pub enum GameError {
    /// No player entity in the cube.
    NoPlayer,
    /// No cube provided.
    MissingCube,
    /// Multiple players found.
    MultiplePlayers,
    /// Cube error.
    Cube(CubeError),
}

/// Number of player-tagged entities in one slice.
pub open spec fn spec_players_in_slice(es: Seq<AbsEntity>) -> nat
    decreases es.len(),
{
    if es.len() == 0 {
        0
    } else {
        spec_players_in_slice(es.drop_last()) + if es.last().is_player() {
            1nat
        } else {
            0nat
        }
    }
}

/// Number of player-tagged entity instances across all slices.
pub open spec fn spec_players_in_cube(slices: Seq<TimeSlice>) -> nat
    decreases slices.len(),
{
    if slices.len() == 0 {
        0
    } else {
        spec_players_in_cube(slices.drop_last()) + spec_players_in_slice(
            slices.last().abs_entities(),
        )
    }
}

/// The model of a cube: the models of its slices, in time order.
pub open spec fn cube_abs(c: TimeCube) -> Seq<AbsSlice> {
    c.slices@.map_values(|s: TimeSlice| s@)
}

/// The complete game state at any point in time.
///
/// **Design:** clone-before-mutate. Every state transition produces a new
/// state; a returned state is never mutated afterwards.
#[derive(Debug)]
pub struct GameState {
    /// The Space-Time Cube (world state).
    pub cube: TimeCube,
    /// The player's path through space-time.
    pub world_line: WorldLine,
    /// The player's entity ID (for tracking across slices).
    pub player_id: EntityId,
    /// Current game phase.
    pub phase: GamePhase,
    /// Turn counter (the world line's current turn index).
    pub turn: usize,
    /// Action history for replay.
    pub history: Vec<crate::actions::Action>,
    /// Game configuration.
    pub config: GameConfig,
    /// Initial cube snapshot (for restart).
    pub initial_cube: TimeCube,
    /// Initial world line snapshot (for restart).
    pub initial_world_line: WorldLine,
}

impl Clone for GameState {
    /// Clone preserves the model of every part of the state.
    fn clone(&self) -> (res: Self)
        ensures
            cube_abs(res.cube) == cube_abs(self.cube),
            res.cube.width == self.cube.width,
            res.cube.height == self.cube.height,
            res.cube.time_depth == self.cube.time_depth,
            res.world_line@ == self.world_line@,
            res.player_id == self.player_id,
            res.phase == self.phase,
            res.turn == self.turn,
            res.history@ == self.history@,
            res.config == self.config,
            cube_abs(res.initial_cube) == cube_abs(self.initial_cube),
            res.initial_cube.width == self.initial_cube.width,
            res.initial_cube.height == self.initial_cube.height,
            res.initial_cube.time_depth == self.initial_cube.time_depth,
            res.initial_world_line@ == self.initial_world_line@,
            self.wf() ==> res.wf(),
    {
        let res = Self {
            cube: self.cube.clone(),
            world_line: self.world_line.clone(),
            player_id: self.player_id,
            phase: self.phase,
            turn: self.turn,
            history: clone_actions(&self.history),
            config: self.config.clone(),
            initial_cube: self.initial_cube.clone(),
            initial_world_line: self.initial_world_line.clone(),
        };
        proof {
            assert(cube_abs(res.cube) =~= cube_abs(self.cube));
            assert(cube_abs(res.initial_cube) =~= cube_abs(self.initial_cube));
            if self.wf() {
                lemma_same_abs_wf(self.cube, res.cube);
                lemma_same_abs_wf(self.initial_cube, res.initial_cube);
                lemma_same_abs_entity(
                    self.cube,
                    res.cube,
                    self.player_id,
                    self.spec_player_position().t as int,
                );
                lemma_same_abs_entity(
                    self.initial_cube,
                    res.initial_cube,
                    self.player_id,
                    self.initial_world_line@[0].t as int,
                );
            }
        }
        res
    }
}

/// Copy a history list.
fn clone_actions(v: &Vec<crate::actions::Action>) -> (r: Vec<crate::actions::Action>)
    ensures
        r@ == v@,
{
    let mut out: Vec<crate::actions::Action> = Vec::new();
    let n = v.len();
    for i in 0..n
        invariant
            n == v@.len(),
            out@ =~= v@.subrange(0, i as int),
    {
        out.push(v[i]);
    }
    proof {
        assert(out@ =~= v@);
    }
    out
}

/// Two cubes with equal slice models are equally well-formed and equally
/// valid.
pub proof fn lemma_same_abs_wf(a: TimeCube, b: TimeCube)
    requires
        a.wf(),
        spec_cube_entities_valid(a),
        b.width == a.width,
        b.height == a.height,
        b.time_depth == a.time_depth,
        b.slices@.len() == a.slices@.len(),
        cube_abs(b) == cube_abs(a),
    ensures
        b.wf(),
        spec_cube_entities_valid(b),
{
    assert forall|k: int| 0 <= k < b.slices@.len() implies crate::time_cube::slice_consistent(
        #[trigger] b.slices@[k],
        k,
        b.width,
        b.height,
    ) by {
        assert(cube_abs(b).len() == b.slices@.len());
        assert(cube_abs(b)[k] == b.slices@[k]@);
        assert(cube_abs(a)[k] == a.slices@[k]@);
        assert(b.slices@[k]@ == a.slices@[k]@);
        assert(b.slices@[k].abs_entities() == a.slices@[k].abs_entities());
        assert(crate::time_cube::slice_consistent(a.slices@[k], k, a.width, a.height));
    }
    assert forall|k: int, i: int|
        0 <= k < b.slices@.len() && 0 <= i < b.slices@[k].abs_entities().len() implies (
    #[trigger] b.slices@[k].abs_entities()[i]).valid() by {
        assert(cube_abs(b).len() == b.slices@.len());
        assert(cube_abs(b)[k] == b.slices@[k]@);
        assert(cube_abs(a)[k] == a.slices@[k]@);
        assert(b.slices@[k].abs_entities() == a.slices@[k].abs_entities());
        assert(a.slices@[k].abs_entities()[i].valid());
    }
}

/// Two cubes with equal slice models answer every identifier lookup alike.
pub proof fn lemma_same_abs_entity(a: TimeCube, b: TimeCube, id: EntityId, t: int)
    requires
        b.slices@.len() == a.slices@.len(),
        cube_abs(b) == cube_abs(a),
    ensures
        b.spec_entity_at_time(id, t) == a.spec_entity_at_time(id, t),
{
    if 0 <= t < a.slices@.len() {
        assert(cube_abs(b).len() == b.slices@.len());
        assert(cube_abs(b)[t] == b.slices@[t]@);
        assert(cube_abs(a)[t] == a.slices@[t]@);
        assert(b.slices@[t].abs_entities() == a.slices@[t].abs_entities());
    }
}

impl GameState {
    /// The state's structural invariant: a coherent cube, a non-empty
    /// self-intersection-free world line whose positions all lie in the
    /// cube, a turn counter equal to the world line's current turn, and a
    /// frozen initial snapshot of the same shape.
    pub open spec fn wf(&self) -> bool {
        &&& self.cube.wf()
        &&& spec_cube_entities_valid(self.cube)
        &&& self.world_line.wf()
        &&& self.world_line@.len() > 0
        &&& forall|i: int|
            0 <= i < self.world_line@.len() ==> self.cube.spec_in_bounds(
                #[trigger] self.world_line@[i],
            )
        &&& self.turn as int == self.world_line@.len() - 1
        &&& self.initial_cube.wf()
        &&& spec_cube_entities_valid(self.initial_cube)
        &&& self.initial_cube.width == self.cube.width
        &&& self.initial_cube.height == self.cube.height
        &&& self.initial_cube.time_depth == self.cube.time_depth
        &&& self.initial_world_line.wf()
        &&& self.initial_world_line@.len() == 1
        &&& forall|i: int|
            0 <= i < self.initial_world_line@.len() ==> self.cube.spec_in_bounds(
                #[trigger] self.initial_world_line@[i],
            )
        &&& self.cube.spec_entity_at_time(
            self.player_id,
            self.spec_player_position().t as int,
        ) matches Some(e) && e.is_player() && e.position == self.spec_player_position() && e.id
            == self.player_id
        &&& self.initial_cube.spec_entity_at_time(
            self.player_id,
            self.initial_world_line@[0].t as int,
        ) matches Some(e) && e.is_player() && e.position == self.initial_world_line@[0] && e.id
            == self.player_id
    }

    /// The player's current position (the last world-line entry).
    pub open spec fn spec_player_position(&self) -> Position {
        self.world_line@.last()
    }

    /// Create a new game state from a cube and a configuration.
    ///
    /// Finds the player entity in the cube and initializes the world line.
    /// Fails unless exactly one player-tagged entity instance exists.
    pub fn new(cube: TimeCube, config: GameConfig) -> (r: Result<GameState, GameError>)
        requires
            cube.wf(),
            spec_cube_entities_valid(cube),
        ensures
            spec_players_in_cube(cube.slices@) == 0 ==> r == Err::<GameState, GameError>(
                GameError::NoPlayer,
            ),
            spec_players_in_cube(cube.slices@) >= 2 ==> r == Err::<GameState, GameError>(
                GameError::MultiplePlayers,
            ),
            spec_players_in_cube(cube.slices@) == 1 ==> (r matches Ok(s) && {
                &&& s.wf()
                &&& cube_abs(s.cube) == cube_abs(cube)
                &&& s.cube.width == cube.width
                &&& s.cube.height == cube.height
                &&& s.cube.time_depth == cube.time_depth
                &&& cube_abs(s.initial_cube) == cube_abs(cube)
                &&& s.phase == GamePhase::Playing
                &&& s.turn == 0
                &&& s.history@.len() == 0
                &&& s.config == config
                &&& s.world_line@.len() == 1
                &&& s.initial_world_line@ == s.world_line@
                &&& exists|k: int, i: int|
                    0 <= k < cube.slices@.len() && 0 <= i < cube.slices@[k].abs_entities().len()
                        && {
                        let e = #[trigger] cube.slices@[k].abs_entities()[i];
                        e.is_player() && s.player_id == e.id && s.world_line@[0] == e.position
                    }
            }),
    {
        let ghost slices = cube.slices@;
        let mut found: Option<(EntityId, Position)> = None;
        let mut count: usize = 0;
        let n = cube.slices.len();
        for k in 0..n
            invariant
                cube.wf(),
                n == cube.slices@.len(),
                slices == cube.slices@,
                count as int == (if spec_players_in_cube(slices.subrange(0, k as int)) < 2 {
                    spec_players_in_cube(slices.subrange(0, k as int)) as int
                } else {
                    2int
                }),
                count == 0 <==> found is None,
                found matches Some(p) ==> exists|k2: int, i2: int|
                    0 <= k2 < k && 0 <= i2 < slices[k2].abs_entities().len() && {
                        let e = #[trigger] slices[k2].abs_entities()[i2];
                        e.is_player() && p.0 == e.id && p.1 == e.position
                    },
        {
            proof {
                assert(slices.subrange(0, k + 1).drop_last() =~= slices.subrange(0, k as int));
                assert(slices.subrange(0, k + 1).last() == slices[k as int]);
            }
            let ghost es = cube.slices@[k as int].abs_entities();
            let m = cube.slices[k].entities.len();
            let ghost pre_count = count as int;
            let ghost pre_found = found;
            for i in 0..m
                invariant
                    cube.wf(),
                    slices == cube.slices@,
                    (k as int) < slices.len(),
                    es == slices[k as int].abs_entities(),
                    m == slices[k as int].entities@.len(),
                    m == es.len(),
                    count as int == (if pre_count + spec_players_in_slice(
                        es.subrange(0, i as int),
                    ) < 2 {
                        pre_count + spec_players_in_slice(es.subrange(0, i as int))
                    } else {
                        2int
                    }),
                    0 <= pre_count <= 2,
                    count == 0 <==> found is None,
                    (found is Some && pre_found is None) ==> exists|i2: int|
                        0 <= i2 < i && {
                            let e = #[trigger] es[i2];
                            e.is_player() && found->Some_0.0 == e.id && found->Some_0.1
                                == e.position
                        },
                    pre_found is Some ==> found == pre_found,
            {
                proof {
                    assert(es.subrange(0, i + 1).drop_last() =~= es.subrange(0, i as int));
                    assert(es.subrange(0, i + 1).last() == es[i as int]);
                    assert(es[i as int] == slices[k as int].entities@[i as int]@);
                }
                let e = &cube.slices[k].entities[i];
                if e.is_player() {
                    if found.is_none() {
                        found = Some((e.id, e.position));
                    }
                    if count < 2 {
                        count = count + 1;
                    }
                }
            }
            proof {
                assert(es.subrange(0, m as int) =~= es);
            }
        }
        proof {
            assert(slices.subrange(0, n as int) =~= slices);
        }
        if count == 0 {
            return Err(GameError::NoPlayer);
        }
        if count >= 2 {
            return Err(GameError::MultiplePlayers);
        }
        let (player_id, start_pos) = match found {
            Some(p) => p,
            None => {
                proof {
                    assert(false);
                }
                return Err(GameError::NoPlayer);
            },
        };
        let world_line = WorldLine::new(start_pos);
        let initial_cube = cube.clone();
        let initial_world_line = world_line.clone();
        let r = GameState {
            cube,
            world_line,
            player_id,
            phase: GamePhase::Playing,
            turn: 0,
            history: Vec::new(),
            config,
            initial_cube,
            initial_world_line,
        };
        proof {
            assert(cube_abs(r.initial_cube) =~= cube_abs(r.cube));
            lemma_same_abs_wf(r.cube, r.initial_cube);
            assert(r.world_line@.len() == 1);
            let (k2, i2) = choose|k2: int, i2: int|
                0 <= k2 < slices.len() && 0 <= i2 < slices[k2].abs_entities().len() && {
                    let e = #[trigger] slices[k2].abs_entities()[i2];
                    e.is_player() && player_id == e.id && start_pos == e.position
                };
            assert(crate::time_cube::slice_consistent(
                slices[k2],
                k2,
                r.cube.width,
                r.cube.height,
            ));
            assert(r.cube.spec_in_bounds(start_pos));
        }
        Ok(r)
    }

    /// Create from a cube with the default configuration.
    pub fn from_cube(cube: TimeCube) -> (r: Result<GameState, GameError>)
        requires
            cube.wf(),
            spec_cube_entities_valid(cube),
        ensures
            spec_players_in_cube(cube.slices@) == 0 ==> r == Err::<GameState, GameError>(
                GameError::NoPlayer,
            ),
            spec_players_in_cube(cube.slices@) >= 2 ==> r == Err::<GameState, GameError>(
                GameError::MultiplePlayers,
            ),
            spec_players_in_cube(cube.slices@) == 1 ==> (r matches Ok(s) && s.wf() && s.phase
                == GamePhase::Playing && s.turn == 0 && s.history@.len() == 0),
    {
        Self::new(cube, GameConfig::default())
    }

    /// Get the cube (read-only).
    pub fn cube(&self) -> (r: &TimeCube)
        ensures
            r == &self.cube,
    {
        &self.cube
    }

    /// Get the world line (read-only).
    pub fn world_line(&self) -> (r: &WorldLine)
        ensures
            r == &self.world_line,
    {
        &self.world_line
    }

    /// Get current player position (from the world line).
    pub fn player_position(&self) -> (r: Position)
        requires
            self.world_line@.len() > 0,
        ensures
            r == self.spec_player_position(),
    {
        match self.world_line.current() {
            Some(p) => p,
            None => {
                proof {
                    assert(false);
                }
                Position::new(0, 0, 0)
            },
        }
    }

    /// Get current time (t coordinate of the player).
    pub fn current_time(&self) -> (r: i32)
        requires
            self.world_line@.len() > 0,
        ensures
            r == self.spec_player_position().t,
    {
        self.player_position().t
    }

    /// Get current turn number.
    pub fn turn(&self) -> (r: usize)
        ensures
            r == self.turn,
    {
        self.turn
    }

    /// Get game phase.
    pub fn phase(&self) -> (r: GamePhase)
        ensures
            r == self.phase,
    {
        self.phase
    }

    /// Check if the game is still active (playing).
    pub fn is_active(&self) -> (r: bool)
        ensures
            r == (self.phase == GamePhase::Playing),
    {
        matches!(self.phase, GamePhase::Playing)
    }

    /// Check if the player has won.
    pub fn has_won(&self) -> (r: bool)
        ensures
            r == (self.phase == GamePhase::Won),
    {
        matches!(self.phase, GamePhase::Won)
    }

    /// Get the player's entity ID.
    pub fn player_id(&self) -> (r: EntityId)
        ensures
            r == self.player_id,
    {
        self.player_id
    }

    /// Get the game configuration.
    pub fn config(&self) -> (r: &GameConfig)
        ensures
            r == &self.config,
    {
        &self.config
    }

    /// Get the action history.
    pub fn history(&self) -> (r: &Vec<crate::actions::Action>)
        ensures
            r@ == self.history@,
    {
        &self.history
    }

    /// Check if the player stands on a rift.
    pub fn at_rift(&self) -> (r: bool)
        requires
            self.wf(),
        ensures
            r == self.cube.spec_has_rift(self.spec_player_position()),
    {
        self.cube.has_rift(self.player_position())
    }

    /// Get the rift target if the player stands on a rift.
    pub fn rift_target(&self) -> (r: Option<Position>)
        requires
            self.wf(),
        ensures
            r is Some <==> self.cube.spec_has_rift(self.spec_player_position()),
    {
        self.cube.rift_target(self.player_position())
    }

    /// Check if the player stands on the exit.
    pub fn at_exit(&self) -> (r: bool)
        requires
            self.wf(),
        ensures
            r == self.cube.spec_is_exit(self.spec_player_position()),
    {
        self.cube.is_exit(self.player_position())
    }

    /// Get the first movement-blocking entity at a position, if any.
    pub fn blocking_entity_at(&self, pos: Position) -> (r: Option<&Entity>)
        requires
            self.wf(),
        ensures
            r is Some <==> self.cube.spec_blocks_movement(pos),
            r matches Some(e) ==> e@.blocks_movement() && self.cube.spec_in_bounds(pos)
                && e.position.x == pos.x && e.position.y == pos.y,
    {
        let none: Vec<EntityId> = Vec::new();
        let r = crate::validation::blocking_entity_at(&self.cube, pos, &none);
        proof {
            crate::validation::lemma_blocked_ignoring_none(self.cube, pos, none@);
        }
        r
    }

    /// Reset the state to its initial snapshot: the frozen cube and world
    /// line, phase Playing, turn 0, empty history.
    pub fn reset_to_initial(&self) -> (r: GameState)
        requires
            self.wf(),
        ensures
            r.wf(),
            cube_abs(r.cube) == cube_abs(self.initial_cube),
            r.cube.width == self.cube.width,
            r.cube.height == self.cube.height,
            r.cube.time_depth == self.cube.time_depth,
            r.world_line@ == self.initial_world_line@,
            r.phase == GamePhase::Playing,
            r.turn == 0,
            r.history@.len() == 0,
            r.player_id == self.player_id,
            r.config == self.config,
            cube_abs(r.initial_cube) == cube_abs(self.initial_cube),
            r.initial_world_line@ == self.initial_world_line@,
    {
        let cube = self.initial_cube.clone();
        let world_line = self.initial_world_line.clone();
        let r = GameState {
            cube,
            world_line,
            player_id: self.player_id,
            phase: GamePhase::Playing,
            turn: 0,
            history: Vec::new(),
            config: self.config.clone(),
            initial_cube: self.initial_cube.clone(),
            initial_world_line: self.initial_world_line.clone(),
        };
        proof {
            assert(cube_abs(r.cube) =~= cube_abs(self.initial_cube));
            assert(cube_abs(r.initial_cube) =~= cube_abs(self.initial_cube));
            lemma_same_abs_wf(self.initial_cube, r.cube);
            lemma_same_abs_wf(self.initial_cube, r.initial_cube);
            lemma_same_abs_entity(
                self.initial_cube,
                r.cube,
                self.player_id,
                self.initial_world_line@[0].t as int,
            );
            lemma_same_abs_entity(
                self.initial_cube,
                r.initial_cube,
                self.player_id,
                self.initial_world_line@[0].t as int,
            );
        }
        r
    }
}

/// Builder for constructing a game state with custom settings.
pub struct GameStateBuilder {
    cube: Option<TimeCube>,
    config: GameConfig,
}

impl GameStateBuilder {
    /// The cube chosen so far.
    pub closed spec fn spec_cube(&self) -> Option<TimeCube> {
        self.cube
    }

    /// The configuration chosen so far.
    pub closed spec fn spec_config(&self) -> GameConfig {
        self.config
    }

    /// Create a new builder.
    pub fn new() -> (r: Self)
        ensures
            r.spec_cube() is None,
    {
        Self { cube: None, config: GameConfig::default() }
    }

    /// Provide a cube.
    pub fn with_cube(self, cube: TimeCube) -> (r: Self)
        ensures
            r.spec_cube() == Some(cube),
            r.spec_config() == self.spec_config(),
    {
        Self { cube: Some(cube), ..self }
    }

    /// Provide a custom configuration.
    pub fn with_config(self, config: GameConfig) -> (r: Self)
        ensures
            r.spec_cube() == self.spec_cube(),
            r.spec_config() == config,
    {
        Self { config, ..self }
    }

    /// Set the light speed.
    pub fn with_light_speed(self, speed: u32) -> (r: Self)
        ensures
            r.spec_cube() == self.spec_cube(),
            r.spec_config() == (GameConfig { light_speed: speed, ..self.spec_config() }),
    {
        let mut config = self.config;
        config.light_speed = speed;
        Self { config, ..self }
    }

    /// Set the level name.
    pub fn with_level_name(self, name: &str) -> (r: Self)
        ensures
            r.spec_cube() == self.spec_cube(),
            r.spec_config().level_name@ == name@,
            r.spec_config().light_speed == self.spec_config().light_speed,
            r.spec_config().max_push_chain == self.spec_config().max_push_chain,
            r.spec_config().detection == self.spec_config().detection,
    {
        let mut config = self.config;
        config.level_name = name.to_owned();
        Self { config, ..self }
    }

    /// Build a game state; fails without a cube or without exactly one
    /// player entity.
    pub fn build(self) -> (r: Result<GameState, GameError>)
        requires
            self.spec_cube() matches Some(c) ==> c.wf() && spec_cube_entities_valid(c),
        ensures
            self.spec_cube() is None ==> r == Err::<GameState, GameError>(GameError::MissingCube),
            self.spec_cube() matches Some(c) ==> {
                &&& spec_players_in_cube(c.slices@) == 0 ==> r == Err::<GameState, GameError>(
                    GameError::NoPlayer,
                )
                &&& spec_players_in_cube(c.slices@) >= 2 ==> r == Err::<GameState, GameError>(
                    GameError::MultiplePlayers,
                )
                &&& spec_players_in_cube(c.slices@) == 1 ==> (r matches Ok(s) && s.wf()
                    && s.config == self.spec_config())
            },
    {
        let cube = match self.cube {
            Some(c) => c,
            None => {
                return Err(GameError::MissingCube);
            },
        };
        GameState::new(cube, self.config)
    }
}

impl Default for GameStateBuilder {
    /// A fresh builder.
    fn default() -> (r: Self)
        ensures
            r.spec_cube() is None,
    {
        Self::new()
    }
}

} // verus!
