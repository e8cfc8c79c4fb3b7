//! The world state: entities, buildings, projectiles and the selection.
//!
//! Entities are never removed; death is a behaviour value, so the positional
//! indices that other entities hold as target references stay valid for the
//! whole session.

use vstd::prelude::*;

use crate::geom::{bounded, Building, POS_LIMIT};
use crate::vec2::Vec2;

verus! {

/// Collision radius of every entity, fixed-point (half a world unit).
pub const ENTITY_RADIUS: i64 = 32768;

/// First-order drag coefficient applied to entity motion, fixed-point.
pub const ENTITY_DRAG: i64 = 65536;

/// Spring constant of the building overlap correction, fixed-point.
pub const SPRING_CONSTANT: i64 = 2097152;

/// Time a reload takes, fixed-point seconds.
pub const COP_RELOAD_COOLDOWN: i64 = 327680;

/// Rounds in a full magazine.
pub const COP_MAGAZINE_CAPACITY: i64 = 6;

/// Acceleration a cop can reach, fixed-point world units per second squared.
pub const COP_MOVEMENT_FORCE: i64 = 131072;

pub const ZOMBIE_MOVEMENT_FORCE: i64 = 98304;

pub const CIVILIAN_MOVEMENT_FORCE: i64 = 131072;

/// Squared arrival threshold at a waypoint, fixed-point squared.
pub const COP_MIN_DISTANCE_FROM_WAYPOINT_SQUARED: i128 = 42949672;

/// Bounds of the sampled aim duration, fixed-point seconds.
pub const AIM_TIME_MIN: i64 = 32768;

pub const AIM_TIME_MAX: i64 = 131072;

/// Upper bound of any stored remaining time in a cop state.
pub const REMAINING_TIME_LIMIT: i64 = 327680;

/// Bound of the sampled sine of the angular shot deviation, fixed-point.
pub const DEVIATION_SINE_LIMIT: i64 = 6553;

/// Speed of a fired bullet, fixed-point world units per second.
pub const BULLET_SPEED: i64 = 3276800;

/// Speed of an ejected casing, fixed-point world units per second.
pub const CASING_SPEED: i64 = 131072;

/// A bullet spawns this many radii in front of the shooter.
pub const BULLET_SPAWN_DISTANCE_MULTIPLIER: i64 = 2;

/// Bullets below this squared speed are removed, fixed-point squared.
pub const BULLET_SPEED_MIN_SQUARED: i128 = 107374182400;

/// Drag coefficient of projectiles, fixed-point.
pub const PROJECTILE_DRAG: i64 = 32768;

/// Squared sight radius of a zombie, fixed-point squared (ten world units).
pub const ZOMBIE_SIGHT_RADIUS_SQUARED: i128 = 429496729600;

/// Squared sight radius of a fleeing human, fixed-point squared.
pub const HUMAN_SIGHT_RADIUS_SQUARED: i128 = 429496729600;

/// Bound kept on every velocity component, fixed-point.
pub const VEL_LIMIT: i64 = 0x1000_0000;

/// Largest accepted tick duration, fixed-point seconds (sixteen seconds).
pub const DT_LIMIT: i64 = 1048576;

/// Sound events emitted by a tick, consumed by the audio layer.
#[derive(Copy, Clone, Hash, PartialEq, Eq, Structural, Debug)]
pub enum Sound {
    Gunshot,
    Reload,
    PersonInfected,
    ZombieDeath,
}

/// The one scalar input of a tick.
pub struct UpdateArgs {
    pub dt: i64,
}

#[derive(Copy, Clone, PartialEq, Eq, Structural, Debug)]
pub enum MoveMode {
    Moving,
    Sprinting,
}

/// A path handed back by the path query: the ordered waypoints from start
/// to goal.
pub struct Path {
    pub nodes: Vec<Vec2>,
}

impl Path {
    pub open spec fn wf(self) -> bool {
        forall|i: int| 0 <= i < self.nodes@.len() ==> bounded(#[trigger] self.nodes@[i], POS_LIMIT as int)
    }
}

/// One suspendable action of a cop; the top of the stack is active.
pub enum CopState {
    Moving { waypoint: Vec2, mode: MoveMode, path: Option<Path> },
    Aiming { aim_time_remaining: i64, target_index: usize },
    Reloading { reload_time_remaining: i64 },
    AttackingZombie { target_index: usize, path: Option<Path> },
}

#[derive(Copy, Clone, PartialEq, Eq, Structural, Debug)]
pub enum ZombieState {
    Roaming,
    Chasing { target_index: usize },
    Moving { waypoint: Vec2 },
}

/// The polymorphic role of an entity, carrying role-specific state.
pub enum Behaviour {
    Dead,
    Human,
    Cop { rounds_in_magazine: i64, state_stack: Vec<CopState> },
    Zombie { state: ZombieState },
}

pub struct Entity {
    pub position: Vec2,
    pub velocity: Vec2,
    pub behaviour: Behaviour,
}

#[derive(Copy, Clone, PartialEq, Eq, Structural, Debug)]
pub enum ProjectileKind {
    Bullet,
    Casing,
}

#[derive(Copy, Clone, PartialEq, Eq, Structural, Debug)]
pub struct Projectile {
    pub position: Vec2,
    pub velocity: Vec2,
    pub kind: ProjectileKind,
}

pub open spec fn cop_state_wf(s: CopState, n_entities: int) -> bool {
    match s {
        CopState::Moving { waypoint, mode, path } => bounded(waypoint, POS_LIMIT as int)
            && (path is Some ==> path->0.wf()),
        CopState::Aiming { aim_time_remaining, target_index } => 0 < aim_time_remaining
            <= REMAINING_TIME_LIMIT && target_index < n_entities,
        CopState::Reloading { reload_time_remaining } => -DT_LIMIT <= reload_time_remaining
            <= REMAINING_TIME_LIMIT,
        CopState::AttackingZombie { target_index, path } => target_index < n_entities && (path
            is Some ==> path->0.wf()),
    }
}

pub open spec fn zombie_state_wf(s: ZombieState, n_entities: int) -> bool {
    match s {
        ZombieState::Roaming => true,
        ZombieState::Chasing { target_index } => target_index < n_entities,
        ZombieState::Moving { waypoint } => bounded(waypoint, POS_LIMIT as int),
    }
}

pub open spec fn behaviour_wf(b: Behaviour, n_entities: int) -> bool {
    match b {
        Behaviour::Cop { rounds_in_magazine, state_stack } => 0 <= rounds_in_magazine
            <= COP_MAGAZINE_CAPACITY && forall|i: int|
            0 <= i < state_stack@.len() ==> cop_state_wf(#[trigger] state_stack@[i], n_entities),
        Behaviour::Zombie { state } => zombie_state_wf(state, n_entities),
        _ => true,
    }
}

pub open spec fn entity_wf(e: Entity, n_entities: int) -> bool {
    &&& bounded(e.position, POS_LIMIT as int)
    &&& bounded(e.velocity, VEL_LIMIT as int)
    &&& behaviour_wf(e.behaviour, n_entities)
}

pub open spec fn projectile_wf(p: Projectile) -> bool {
    bounded(p.position, POS_LIMIT as int) && bounded(p.velocity, VEL_LIMIT as int)
}

/// The world state of a session.
pub struct State {
    pub entities: Vec<Entity>,
    pub buildings: Vec<Building>,
    pub building_outlines: Vec<Building>,
    pub projectiles: Vec<Projectile>,
    pub selection: Vec<usize>,
}

impl State {
    pub open spec fn wf(self) -> bool {
        &&& forall|i: int|
            0 <= i < self.entities@.len() ==> entity_wf(
                #[trigger] self.entities@[i],
                self.entities@.len() as int,
            )
        &&& forall|i: int| 0 <= i < self.buildings@.len() ==> (#[trigger] self.buildings@[i]).wf()
        &&& forall|i: int|
            0 <= i < self.building_outlines@.len() ==> (#[trigger] self.building_outlines@[i]).wf()
        &&& forall|i: int| 0 <= i < self.projectiles@.len() ==> projectile_wf(
            #[trigger] self.projectiles@[i],
        )
        &&& forall|i: int|
            0 <= i < self.selection@.len() ==> #[trigger] self.selection@[i]
                < self.entities@.len()
        &&& forall|i: int, j: int|
            0 <= i < j < self.selection@.len() ==> self.selection@[i] != self.selection@[j]
    }
}

} // verus!
