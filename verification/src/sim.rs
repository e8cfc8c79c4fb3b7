//! The per-tick simulation: collision resolution, behaviour machines,
//! motion integration and the projectile sub-simulation.

use vstd::prelude::*;

use crate::fixed::{
    clamp_spec, isqrt128, isqrt_spec, lemma_abs_mul_bound, mul64, sat64, sat_spec, tdiv128,
    tdiv_spec, SCALE,
};
use crate::geom::{
    bounded, can_see, can_see_spec, seg_bounded, seg_circle_time, seg_circle_time_spec,
    seg_dist_sq_spec, Building, Segment2, POS_LIMIT,
};
use crate::state::{
    entity_wf, projectile_wf, Behaviour, CopState, Entity, MoveMode, Path, Projectile,
    ProjectileKind, Sound, State, UpdateArgs, ZombieState, AIM_TIME_MAX, AIM_TIME_MIN,
    BULLET_SPAWN_DISTANCE_MULTIPLIER, BULLET_SPEED, BULLET_SPEED_MIN_SQUARED, CASING_SPEED,
    CIVILIAN_MOVEMENT_FORCE, COP_MAGAZINE_CAPACITY, COP_MIN_DISTANCE_FROM_WAYPOINT_SQUARED,
    COP_MOVEMENT_FORCE, COP_RELOAD_COOLDOWN, DEVIATION_SINE_LIMIT, DT_LIMIT, ENTITY_DRAG,
    ENTITY_RADIUS, HUMAN_SIGHT_RADIUS_SQUARED, PROJECTILE_DRAG, SPRING_CONSTANT, VEL_LIMIT,
    ZOMBIE_MOVEMENT_FORCE, ZOMBIE_SIGHT_RADIUS_SQUARED,
};
use crate::vec2::{in_sym_range, len_sq_of, unit_x_of, unit_y_of, Vec2};

verus! {

/// Squared distance between two points, exact over the integers.
pub open spec fn dist_sq_spec(p: Vec2, q: Vec2) -> int {
    len_sq_of(p.x - q.x, p.y - q.y)
}

pub proof fn lemma_dist_sq_sym(p: Vec2, q: Vec2)
    ensures
        dist_sq_spec(p, q) == dist_sq_spec(q, p),
{
    assert((p.x - q.x) * (p.x - q.x) == (q.x - p.x) * (q.x - p.x) && (p.y - q.y) * (p.y - q.y)
        == (q.y - p.y) * (q.y - p.y)) by (nonlinear_arith);
}

/// The straight-line path query: a path exists exactly when the segment
/// from `from` to `to` crosses no building, and then it is the two-node
/// path `[from, to]`. Outlines are part of the query interface but the
/// straight-line query needs no detour nodes.
pub fn find_path(from: Vec2, to: Vec2, buildings: &Vec<Building>, building_outlines: &Vec<
    Building,
>) -> (r: Option<Path>)
    requires
        forall|i: int| 0 <= i < buildings@.len() ==> (#[trigger] buildings@[i]).wf(),
        bounded(from, POS_LIMIT as int),
        bounded(to, POS_LIMIT as int),
    ensures
        r is Some <==> can_see_spec(buildings@, from, to),
        r is Some ==> r->0.nodes@ == seq![from, to],
        r is Some ==> r->0.wf(),
{
    if can_see(buildings, from, to) {
        let mut nodes: Vec<Vec2> = Vec::new();
        nodes.push(from);
        nodes.push(to);
        proof {
            assert(nodes@ =~= seq![from, to]);
        }
        Some(Path { nodes })
    } else {
        None
    }
}

/// The new velocity after accelerating along `delta` for `dt` at the given
/// force: the unit direction of `delta`, scaled by `force * dt / SCALE`,
/// is put on top of the old velocity, and the result is clamped into the
/// velocity bounds.
pub open spec fn accel_vel_x(vel: Vec2, dx: int, dy: int, dt: int, force: int) -> int {
    let step = sat_spec(tdiv_spec(force * dt, SCALE as int));
    clamp_spec(
        sat_spec(vel.x + sat_spec(tdiv_spec(unit_x_of(dx, dy) * step, SCALE as int))),
        VEL_LIMIT as int,
    )
}

pub open spec fn accel_vel_y(vel: Vec2, dx: int, dy: int, dt: int, force: int) -> int {
    let step = sat_spec(tdiv_spec(force * dt, SCALE as int));
    clamp_spec(
        sat_spec(vel.y + sat_spec(tdiv_spec(unit_y_of(dx, dy) * step, SCALE as int))),
        VEL_LIMIT as int,
    )
}

/// Accelerate a velocity along a direction, capped by the movement force.
pub fn accelerated_velocity(vel: Vec2, delta: Vec2, dt: i64, force: i64) -> (r: Vec2)
    requires
        in_sym_range(delta),
    ensures
        r.x == accel_vel_x(vel, delta.x as int, delta.y as int, dt as int, force as int),
        r.y == accel_vel_y(vel, delta.x as int, delta.y as int, dt as int, force as int),
        bounded(r, VEL_LIMIT as int),
{
    let step = sat64(tdiv128(mul64(force, dt), SCALE as i128));
    let dv = delta.unit().scaled(step);
    vel.plus(dv).clamped(VEL_LIMIT)
}

/// Is this entity a target for a zombie (or a threat for a human)?
pub open spec fn is_living_person(b: Behaviour) -> bool {
    b is Cop || b is Human
}

/// The first nearest entity of the wanted kind among indices below `i`:
/// visible from `p`, strictly within `max_d2`, and strictly nearer than
/// every earlier candidate, so ties keep the earliest index.
pub open spec fn nearest_spec(
    entities: Seq<Entity>,
    buildings: Seq<Building>,
    p: Vec2,
    want_zombie: bool,
    max_d2: int,
    i: int,
) -> Option<int>
    decreases i,
{
    if i <= 0 {
        Option::None
    } else {
        let prev = nearest_spec(entities, buildings, p, want_zombie, max_d2, i - 1);
        let j = i - 1;
        let kind_ok = if want_zombie {
            entities[j].behaviour is Zombie
        } else {
            is_living_person(entities[j].behaviour)
        };
        let d2 = dist_sq_spec(p, entities[j].position);
        let better = match prev {
            Option::Some(k) => d2 < dist_sq_spec(p, entities[k].position),
            Option::None => true,
        };
        if kind_ok && d2 < max_d2 && better && can_see_spec(buildings, p, entities[j].position) {
            Option::Some(j)
        } else {
            prev
        }
    }
}

/// Scan for the nearest visible entity of one kind, keeping the first of
/// equally near candidates in scan order.
pub fn nearest_entity(
    entities: &Vec<Entity>,
    buildings: &Vec<Building>,
    p: Vec2,
    want_zombie: bool,
    max_d2: i128,
) -> (r: Option<usize>)
    requires
        forall|k: int|
            0 <= k < entities@.len() ==> bounded(
                (#[trigger] entities@[k]).position,
                POS_LIMIT as int,
            ),
        forall|k: int| 0 <= k < buildings@.len() ==> (#[trigger] buildings@[k]).wf(),
        bounded(p, POS_LIMIT as int),
    ensures
        r is Some ==> r->0 < entities@.len() && r->0 as int == nearest_spec(
            entities@,
            buildings@,
            p,
            want_zombie,
            max_d2 as int,
            entities@.len() as int,
        )->0,
        r is None <==> nearest_spec(
            entities@,
            buildings@,
            p,
            want_zombie,
            max_d2 as int,
            entities@.len() as int,
        ) is None,
{
    let n = entities.len();
    let mut best: Option<usize> = None;
    let mut i: usize = 0;
    while i < n
        invariant
            forall|k: int|
                0 <= k < entities@.len() ==> bounded(
                    (#[trigger] entities@[k]).position,
                    POS_LIMIT as int,
                ),
            forall|k: int| 0 <= k < buildings@.len() ==> (#[trigger] buildings@[k]).wf(),
            bounded(p, POS_LIMIT as int),
            n == entities@.len(),
            0 <= i <= n,
            best is Some ==> best->0 < i,
            (match best {
                Option::Some(b) => Option::Some(b as int),
                Option::None => Option::None,
            }) == nearest_spec(entities@, buildings@, p, want_zombie, max_d2 as int, i as int),
        decreases n - i,
    {
        let kind_ok = match &entities[i].behaviour {
            Behaviour::Zombie { .. } => want_zombie,
            Behaviour::Cop { .. } => !want_zombie,
            Behaviour::Human => !want_zombie,
            Behaviour::Dead => false,
        };
        if kind_ok {
            let q = entities[i].position;
            let d2 = p.minus(q).len_sq();
            let better = match best {
                Some(k) => d2 < p.minus(entities[k].position).len_sq(),
                None => true,
            };
            if d2 < max_d2 && better && can_see(buildings, p, q) {
                best = Some(i);
            }
        }
        i = i + 1;
    }
    best
}

/// Does the collision infect `mine`? Zombies turn living people (humans and
/// cops) into roaming zombies on contact.
pub open spec fn infects(mine: Behaviour, other: Behaviour) -> bool {
    is_living_person(mine) && other is Zombie
}

/// The repulsion impulse of a colliding pair along `delta`, proportional to
/// `dt / distance^2`: componentwise `delta * dt * SCALE / d2`, truncated,
/// saturating.
pub open spec fn impulse_x(delta: Vec2, dt: int, d2: int) -> int
    recommends
        d2 > 0,
{
    sat_spec(tdiv_spec(delta.x * dt * SCALE, d2))
}

pub open spec fn impulse_y(delta: Vec2, dt: int, d2: int) -> int
    recommends
        d2 > 0,
{
    sat_spec(tdiv_spec(delta.y * dt * SCALE, d2))
}

/// Infection outcome of one colliding pair: the new behaviours of the two
/// entities and whether an infection happened (then exactly one sound).
pub open spec fn infection_outcome(bi: Behaviour, bj: Behaviour) -> (Behaviour, Behaviour, bool) {
    if infects(bi, bj) {
        (Behaviour::Zombie { state: ZombieState::Roaming }, bj, true)
    } else if infects(bj, bi) {
        (bi, Behaviour::Zombie { state: ZombieState::Roaming }, true)
    } else {
        (bi, bj, false)
    }
}

/// A colliding living pair with a zombie on one side infects the other side,
/// which becomes a roaming zombie, and exactly one infection is recorded;
/// a pair without a zombie, or two zombies, is left as it was.
pub proof fn lemma_infection(bi: Behaviour, bj: Behaviour)
    ensures
        is_living_person(bi) && bj is Zombie ==> infection_outcome(bi, bj) == (
            Behaviour::Zombie { state: ZombieState::Roaming },
            bj,
            true,
        ),
        is_living_person(bj) && bi is Zombie ==> infection_outcome(bi, bj) == (
            bi,
            Behaviour::Zombie { state: ZombieState::Roaming },
            true,
        ),
        !(bi is Zombie) && !(bj is Zombie) ==> infection_outcome(bi, bj) == (bi, bj, false),
        bi is Zombie && bj is Zombie ==> infection_outcome(bi, bj) == (bi, bj, false),
{
}

/// Resolve one colliding pair: spread the infection and force the two
/// entities apart with a repulsion impulse.
pub fn handle_collision(
    args: &UpdateArgs,
    entities: &mut Vec<Entity>,
    i: usize,
    j: usize,
    delta: &Vec2,
    delta_length_squared: i128,
    sounds: &mut Vec<Sound>,
)
    requires
        i < old(entities)@.len(),
        j < old(entities)@.len(),
        i != j,
        0 < args.dt <= DT_LIMIT,
        in_sym_range(*delta),
        -0x4000_0000 <= delta.x <= 0x4000_0000,
        -0x4000_0000 <= delta.y <= 0x4000_0000,
        delta_length_squared > 0,
        forall|k: int|
            0 <= k < old(entities)@.len() ==> entity_wf(
                #[trigger] old(entities)@[k],
                old(entities)@.len() as int,
            ),
    ensures
        final(entities)@.len() == old(entities)@.len(),
        forall|k: int|
            0 <= k < final(entities)@.len() && k != i && k != j ==> final(entities)@[k] == old(entities)@[k],
        final(entities)@[i as int].position == old(entities)@[i as int].position,
        final(entities)@[j as int].position == old(entities)@[j as int].position,
        final(entities)@[i as int].behaviour == infection_outcome(
            old(entities)@[i as int].behaviour,
            old(entities)@[j as int].behaviour,
        ).0,
        final(entities)@[j as int].behaviour == infection_outcome(
            old(entities)@[i as int].behaviour,
            old(entities)@[j as int].behaviour,
        ).1,
        final(entities)@[i as int].velocity.x == clamp_spec(
            sat_spec(
                old(entities)@[i as int].velocity.x - impulse_x(
                    *delta,
                    args.dt as int,
                    delta_length_squared as int,
                ),
            ),
            VEL_LIMIT as int,
        ),
        final(entities)@[i as int].velocity.y == clamp_spec(
            sat_spec(
                old(entities)@[i as int].velocity.y - impulse_y(
                    *delta,
                    args.dt as int,
                    delta_length_squared as int,
                ),
            ),
            VEL_LIMIT as int,
        ),
        final(entities)@[j as int].velocity.x == clamp_spec(
            sat_spec(
                old(entities)@[j as int].velocity.x + impulse_x(
                    *delta,
                    args.dt as int,
                    delta_length_squared as int,
                ),
            ),
            VEL_LIMIT as int,
        ),
        final(entities)@[j as int].velocity.y == clamp_spec(
            sat_spec(
                old(entities)@[j as int].velocity.y + impulse_y(
                    *delta,
                    args.dt as int,
                    delta_length_squared as int,
                ),
            ),
            VEL_LIMIT as int,
        ),
        final(sounds)@ == if infection_outcome(
            old(entities)@[i as int].behaviour,
            old(entities)@[j as int].behaviour,
        ).2 {
            old(sounds)@.push(Sound::PersonInfected)
        } else {
            old(sounds)@
        },
        forall|k: int|
            0 <= k < final(entities)@.len() ==> entity_wf(#[trigger] final(entities)@[k], final(entities)@.len() as int),
{
    let inf_i = match (&entities[i].behaviour, &entities[j].behaviour) {
        (Behaviour::Human, Behaviour::Zombie { .. }) => true,
        (Behaviour::Cop { .. }, Behaviour::Zombie { .. }) => true,
        _ => false,
    };
    let inf_j = !inf_i && match (&entities[j].behaviour, &entities[i].behaviour) {
        (Behaviour::Human, Behaviour::Zombie { .. }) => true,
        (Behaviour::Cop { .. }, Behaviour::Zombie { .. }) => true,
        _ => false,
    };
    proof {
        lemma_abs_mul_bound_local(delta.x as int, args.dt as int);
        lemma_abs_mul_bound_local(delta.y as int, args.dt as int);
    }
    let ix = sat64(tdiv128(mul64(delta.x, args.dt) * (SCALE as i128), delta_length_squared));
    let iy = sat64(tdiv128(mul64(delta.y, args.dt) * (SCALE as i128), delta_length_squared));
    let imp = Vec2 { x: ix, y: iy };
    let vi = entities[i].velocity.minus(imp).clamped(VEL_LIMIT);
    let vj = entities[j].velocity.plus(imp).clamped(VEL_LIMIT);
    let ei = &mut entities[i];
    ei.velocity = vi;
    if inf_i {
        ei.behaviour = Behaviour::Zombie { state: ZombieState::Roaming };
    }
    let ej = &mut entities[j];
    ej.velocity = vj;
    if inf_j {
        ej.behaviour = Behaviour::Zombie { state: ZombieState::Roaming };
    }
    if inf_i || inf_j {
        sounds.push(Sound::PersonInfected);
    }
}

/// `|delta * dt * SCALE|` stays within `2^81` for a bounded delta component
/// and tick, so the impulse numerator fits in `i128`.
proof fn lemma_abs_mul_bound_local(d: int, dt: int)
    requires
        -0x4000_0000 <= d <= 0x4000_0000,
        0 <= dt <= DT_LIMIT,
    ensures
        -0x4000_0000_0000_0000 <= d * dt <= 0x4000_0000_0000_0000,
        -0x4000_0000_0000_0000_0000 <= d * dt * SCALE <= 0x4000_0000_0000_0000_0000,
{
    lemma_abs_mul_bound(d, dt, 0x4000_0000, 0x10_0000);
    assert(0x4000_0000int * 0x10_0000int == 0x4_0000_0000_0000);
    lemma_abs_mul_bound(d * dt, SCALE as int, 0x4_0000_0000_0000, 0x1_0000);
    assert(0x4_0000_0000_0000int * 0x1_0000int == 0x4_0000_0000_0000_0000);
}

/// The scaling factor of the building spring push:
/// `dt * SPRING_CONSTANT / SCALE * (RADIUS - dist) / SCALE`, truncated.
pub open spec fn spring_factor_spec(dt: int, dist: int) -> int {
    sat_spec(
        tdiv_spec(
            sat_spec(tdiv_spec(dt * SPRING_CONSTANT, SCALE as int)) * (ENTITY_RADIUS - dist),
            SCALE as int,
        ),
    )
}

/// Resolve an entity against a building it overlaps. When the entity is
/// inside, it is moved out along the nearest edge's outward normal by the
/// distance to that edge plus the entity radius (a hard positional
/// correction); when it merely overlaps an edge, a spring impulse
/// proportional to the penetration pushes it away.
pub fn handle_building_collision(
    args: &UpdateArgs,
    e: &mut Entity,
    building: &Building,
    inside: bool,
)
    requires
        0 < args.dt <= DT_LIMIT,
        bounded(old(e).position, POS_LIMIT as int),
        bounded(old(e).velocity, VEL_LIMIT as int),
        building.wf(),
    ensures
        final(e).behaviour == old(e).behaviour,
        bounded(final(e).position, POS_LIMIT as int),
        bounded(final(e).velocity, VEL_LIMIT as int),
        ({
            let k = building.nearest_edge(old(e).position, building.verts@.len() as int);
            let dist = sat_spec(isqrt_spec(seg_dist_sq_spec(building.edge(k), old(e).position)));
            let nx = building.normals@[k].x as int;
            let ny = building.normals@[k].y as int;
            if inside {
                final(e).velocity == old(e).velocity && final(e).position.x == clamp_spec(
                    sat_spec(
                        old(e).position.x + sat_spec(
                            tdiv_spec(nx * sat_spec(dist + ENTITY_RADIUS), SCALE as int),
                        ),
                    ),
                    POS_LIMIT as int,
                ) && final(e).position.y == clamp_spec(
                    sat_spec(
                        old(e).position.y + sat_spec(
                            tdiv_spec(ny * sat_spec(dist + ENTITY_RADIUS), SCALE as int),
                        ),
                    ),
                    POS_LIMIT as int,
                )
            } else {
                final(e).position == old(e).position && final(e).velocity.x == clamp_spec(
                    sat_spec(
                        old(e).velocity.x + sat_spec(
                            tdiv_spec(nx * spring_factor_spec(args.dt as int, dist), SCALE as int),
                        ),
                    ),
                    VEL_LIMIT as int,
                ) && final(e).velocity.y == clamp_spec(
                    sat_spec(
                        old(e).velocity.y + sat_spec(
                            tdiv_spec(ny * spring_factor_spec(args.dt as int, dist), SCALE as int),
                        ),
                    ),
                    VEL_LIMIT as int,
                )
            }
        }),
{
    let (_k, d2, normal) = building.closest_edge(e.position);
    let dist = sat64(isqrt128(d2));
    if inside {
        let shift = normal.scaled(sat64(dist as i128 + ENTITY_RADIUS as i128));
        e.position = e.position.plus(shift).clamped(POS_LIMIT);
    } else {
        proof {
            lemma_abs_mul_bound(args.dt as int, SPRING_CONSTANT as int, 0x10_0000, 0x20_0000);
            assert(0x10_0000int * 0x20_0000int == 0x200_0000_0000);
        }
        let base = sat64(tdiv128(mul64(args.dt, SPRING_CONSTANT), SCALE as i128));
        let overlap = sat64(ENTITY_RADIUS as i128 - dist as i128);
        let factor = sat64(tdiv128(mul64(base, overlap), SCALE as i128));
        let push = normal.scaled(factor);
        e.velocity = e.velocity.plus(push).clamped(VEL_LIMIT);
    }
}

/// The sight test of a zombie: the target is strictly within the sight
/// radius and the line of sight is clear.
pub open spec fn zombie_sees(
    buildings: Seq<Building>,
    from: Vec2,
    to: Vec2,
) -> bool {
    dist_sq_spec(from, to) < ZOMBIE_SIGHT_RADIUS_SQUARED && can_see_spec(buildings, from, to)
}

/// The next state of a zombie, as a pure function of the world.
pub open spec fn zombie_next_state(
    entities: Seq<Entity>,
    buildings: Seq<Building>,
    index: int,
    st: ZombieState,
) -> ZombieState {
    let p = entities[index].position;
    match st {
        ZombieState::Chasing { target_index } => {
            let tp = entities[target_index as int].position;
            if is_living_person(entities[target_index as int].behaviour) {
                if zombie_sees(buildings, p, tp) {
                    ZombieState::Chasing { target_index }
                } else {
                    ZombieState::Moving { waypoint: tp }
                }
            } else {
                ZombieState::Roaming
            }
        },
        ZombieState::Moving { waypoint } => {
            match nearest_spec(
                entities,
                buildings,
                p,
                false,
                ZOMBIE_SIGHT_RADIUS_SQUARED as int,
                entities.len() as int,
            ) {
                Option::Some(t) => ZombieState::Chasing { target_index: t as usize },
                Option::None => {
                    if dist_sq_spec(waypoint, p) < COP_MIN_DISTANCE_FROM_WAYPOINT_SQUARED as int {
                        ZombieState::Roaming
                    } else {
                        ZombieState::Moving { waypoint }
                    }
                },
            }
        },
        ZombieState::Roaming => {
            match nearest_spec(
                entities,
                buildings,
                p,
                false,
                ZOMBIE_SIGHT_RADIUS_SQUARED as int,
                entities.len() as int,
            ) {
                Option::Some(t) => ZombieState::Chasing { target_index: t as usize },
                Option::None => ZombieState::Roaming,
            }
        },
    }
}

/// Where a zombie accelerates this tick: toward its chased target, toward a
/// newly seen person, or toward its waypoint; a roaming zombie that sees
/// nobody stays passive.
pub open spec fn zombie_accel_goal(
    entities: Seq<Entity>,
    buildings: Seq<Building>,
    index: int,
    st: ZombieState,
) -> Option<Vec2> {
    let p = entities[index].position;
    match st {
        ZombieState::Chasing { target_index } => Option::Some(
            entities[target_index as int].position,
        ),
        ZombieState::Moving { waypoint } => {
            match nearest_spec(
                entities,
                buildings,
                p,
                false,
                ZOMBIE_SIGHT_RADIUS_SQUARED as int,
                entities.len() as int,
            ) {
                Option::Some(t) => Option::Some(entities[t as int].position),
                Option::None => Option::Some(waypoint),
            }
        },
        ZombieState::Roaming => {
            match nearest_spec(
                entities,
                buildings,
                p,
                false,
                ZOMBIE_SIGHT_RADIUS_SQUARED as int,
                entities.len() as int,
            ) {
                Option::Some(t) => Option::Some(entities[t as int].position),
                Option::None => Option::None,
            }
        },
    }
}

/// One tick of the zombie behaviour machine: accelerate toward the current
/// goal and take the next state.
pub fn update_zombie(args: &UpdateArgs, state: &mut State, index: usize)
    requires
        old(state).wf(),
        index < old(state).entities@.len(),
        old(state).entities@[index as int].behaviour is Zombie,
        0 < args.dt <= DT_LIMIT,
    ensures
        final(state).wf(),
        final(state).entities@.len() == old(state).entities@.len(),
        final(state).buildings == old(state).buildings,
        final(state).building_outlines == old(state).building_outlines,
        final(state).projectiles == old(state).projectiles,
        final(state).selection == old(state).selection,
        forall|k: int|
            0 <= k < final(state).entities@.len() && k != index ==> final(state).entities@[k]
                == old(state).entities@[k],
        final(state).entities@[index as int].position == old(
            state,
        ).entities@[index as int].position,
        ({
            let st = old(state).entities@[index as int].behaviour->state;
            let next = zombie_next_state(
                old(state).entities@,
                old(state).buildings@,
                index as int,
                st,
            );
            let goal = zombie_accel_goal(
                old(state).entities@,
                old(state).buildings@,
                index as int,
                st,
            );
            let p = old(state).entities@[index as int].position;
            let v = old(state).entities@[index as int].velocity;
            final(state).entities@[index as int].behaviour == (Behaviour::Zombie { state: next })
                && (match goal {
                Option::Some(g) => final(state).entities@[index as int].velocity.x == accel_vel_x(
                    v,
                    g.x - p.x,
                    g.y - p.y,
                    args.dt as int,
                    ZOMBIE_MOVEMENT_FORCE as int,
                ) && final(state).entities@[index as int].velocity.y == accel_vel_y(
                    v,
                    g.x - p.x,
                    g.y - p.y,
                    args.dt as int,
                    ZOMBIE_MOVEMENT_FORCE as int,
                ),
                Option::None => final(state).entities@[index as int].velocity == v,
            })
        }),
{
    let p = state.entities[index].position;
    let st = match &state.entities[index].behaviour {
        Behaviour::Zombie { state: s } => *s,
        _ => {
            proof {
                assert(false);
            }
            ZombieState::Roaming
        },
    };
    let (next, goal): (ZombieState, Option<Vec2>) = match st {
        ZombieState::Chasing { target_index } => {
            let tp = state.entities[target_index].position;
            let alive = match &state.entities[target_index].behaviour {
                Behaviour::Cop { .. } => true,
                Behaviour::Human => true,
                _ => false,
            };
            let next = if alive {
                let d2 = p.minus(tp).len_sq();
                if d2 < ZOMBIE_SIGHT_RADIUS_SQUARED && can_see(&state.buildings, p, tp) {
                    ZombieState::Chasing { target_index }
                } else {
                    ZombieState::Moving { waypoint: tp }
                }
            } else {
                ZombieState::Roaming
            };
            (next, Some(tp))
        },
        ZombieState::Moving { waypoint } => {
            match nearest_entity(
                &state.entities,
                &state.buildings,
                p,
                false,
                ZOMBIE_SIGHT_RADIUS_SQUARED,
            ) {
                Some(t) => (
                    ZombieState::Chasing { target_index: t },
                    Some(state.entities[t].position),
                ),
                None => {
                    let d2 = waypoint.minus(p).len_sq();
                    if d2 < COP_MIN_DISTANCE_FROM_WAYPOINT_SQUARED {
                        (ZombieState::Roaming, Some(waypoint))
                    } else {
                        (ZombieState::Moving { waypoint }, Some(waypoint))
                    }
                },
            }
        },
        ZombieState::Roaming => {
            match nearest_entity(
                &state.entities,
                &state.buildings,
                p,
                false,
                ZOMBIE_SIGHT_RADIUS_SQUARED,
            ) {
                Some(t) => (
                    ZombieState::Chasing { target_index: t },
                    Some(state.entities[t].position),
                ),
                None => (ZombieState::Roaming, None),
            }
        },
    };
    let v = state.entities[index].velocity;
    let new_v = match goal {
        Some(g) => accelerated_velocity(v, g.minus(p), args.dt, ZOMBIE_MOVEMENT_FORCE),
        None => v,
    };
    let e = &mut state.entities[index];
    e.velocity = new_v;
    e.behaviour = Behaviour::Zombie { state: next };
}

/// One tick of a fleeing human: accelerate away from the nearest visible
/// zombie within sight, if there is one.
pub fn simulate_human(
    args: &UpdateArgs,
    entities: &mut Vec<Entity>,
    buildings: &Vec<Building>,
    index: usize,
)
    requires
        index < old(entities)@.len(),
        0 < args.dt <= DT_LIMIT,
        forall|k: int|
            0 <= k < old(entities)@.len() ==> entity_wf(
                #[trigger] old(entities)@[k],
                old(entities)@.len() as int,
            ),
        forall|k: int| 0 <= k < buildings@.len() ==> (#[trigger] buildings@[k]).wf(),
    ensures
        final(entities)@.len() == old(entities)@.len(),
        forall|k: int|
            0 <= k < final(entities)@.len() && k != index ==> final(entities)@[k] == old(
                entities,
            )@[k],
        final(entities)@[index as int].position == old(entities)@[index as int].position,
        final(entities)@[index as int].behaviour == old(entities)@[index as int].behaviour,
        ({
            let p = old(entities)@[index as int].position;
            let v = old(entities)@[index as int].velocity;
            match nearest_spec(
                old(entities)@,
                buildings@,
                p,
                true,
                HUMAN_SIGHT_RADIUS_SQUARED as int,
                old(entities)@.len() as int,
            ) {
                Option::Some(t) => {
                    let tp = old(entities)@[t].position;
                    final(entities)@[index as int].velocity.x == accel_vel_x(
                        v,
                        p.x - tp.x,
                        p.y - tp.y,
                        args.dt as int,
                        CIVILIAN_MOVEMENT_FORCE as int,
                    ) && final(entities)@[index as int].velocity.y == accel_vel_y(
                        v,
                        p.x - tp.x,
                        p.y - tp.y,
                        args.dt as int,
                        CIVILIAN_MOVEMENT_FORCE as int,
                    )
                },
                Option::None => final(entities)@[index as int].velocity == v,
            }
        }),
        forall|k: int|
            0 <= k < final(entities)@.len() ==> entity_wf(
                #[trigger] final(entities)@[k],
                final(entities)@.len() as int,
            ),
{
    let p = entities[index].position;
    match nearest_entity(entities, buildings, p, true, HUMAN_SIGHT_RADIUS_SQUARED) {
        Some(t) => {
            let tp = entities[t].position;
            let v = entities[index].velocity;
            let new_v = accelerated_velocity(v, p.minus(tp), args.dt, CIVILIAN_MOVEMENT_FORCE);
            let e = &mut entities[index];
            e.velocity = new_v;
        },
        None => {},
    }
}

/// Half the reload time: the reload sound plays at the tick that crosses it.
pub const COP_RELOAD_HALF: i64 = 163840;

/// A cop's target scan is unranged: any distance qualifies. This bound is
/// larger than any squared distance the bounded world can produce.
pub const UNRANGED_SIGHT_SQUARED: i128 = 0x4000_0000_0000_0000;

/// The reload sound plays exactly at the tick whose delta carries the
/// remaining time from strictly above half the reload duration to strictly
/// below it.
pub open spec fn reload_sound_fires(rem: int, dt: int) -> bool {
    rem > COP_RELOAD_HALF && COP_RELOAD_HALF > rem - dt
}

/// The reload sound cannot fire twice: once a tick has fired it, the
/// remaining time sits below the half mark, and every later tick only
/// lowers it further.
pub proof fn lemma_reload_sound_once(rem: int, dt1: int, dt2: int)
    requires
        dt1 > 0,
        dt2 > 0,
    ensures
        !(reload_sound_fires(rem, dt1) && reload_sound_fires(rem - dt1, dt2)),
{
}

/// Below the half mark the reload sound never plays again, whatever the
/// delta: with the remaining time only ever decreasing, the tick that
/// crossed the mark was the one and only.
pub proof fn lemma_reload_sound_below_half(rem: int, dt: int)
    requires
        rem <= COP_RELOAD_HALF,
    ensures
        !reload_sound_fires(rem, dt),
{
}

/// The reload sound is not skipped by a large delta: any tick that carries
/// the remaining time from strictly above half to strictly below it fires,
/// however far the delta overshoots (even past zero).
pub proof fn lemma_reload_sound_crossing(rem: int, dt: int)
    requires
        rem > COP_RELOAD_HALF,
        rem - dt < COP_RELOAD_HALF,
    ensures
        reload_sound_fires(rem, dt),
{
}

/// Total time of a run of tick deltas.
pub open spec fn sum_of(dts: Seq<int>) -> int
    decreases dts.len(),
{
    if dts.len() == 0 {
        0
    } else {
        dts[0] + sum_of(dts.drop_first())
    }
}

/// Remaining reload time after a run of tick deltas.
pub open spec fn rem_after(rem0: int, dts: Seq<int>) -> int
    decreases dts.len(),
{
    if dts.len() == 0 {
        rem0
    } else {
        rem_after(rem0 - dts[0], dts.drop_first())
    }
}

pub proof fn lemma_rem_after_is_sum(rem0: int, dts: Seq<int>)
    ensures
        rem_after(rem0, dts) == rem0 - sum_of(dts),
    decreases dts.len(),
{
    if dts.len() == 0 {
    } else {
        lemma_rem_after_is_sum(rem0 - dts[0], dts.drop_first());
    }
}

/// A reload completes once the elapsed time exceeds the remaining time: the
/// remaining time goes nonpositive, and the tick that sees it nonpositive
/// restores the magazine to full capacity and pops the state.
pub proof fn lemma_reload_completes(rem0: int, dts: Seq<int>)
    requires
        sum_of(dts) > rem0,
    ensures
        rem_after(rem0, dts) <= 0,
{
    lemma_rem_after_is_sum(rem0, dts);
}

/// The state transitions of the cop machine, as in the stack discipline:
/// pop the top, keep it, replace it, or push a new one on top.
enum StateChange {
    Exit,
    Continue,
    Update(CopState),
    Enter(CopState),
}

pub open spec fn cop_rounds_of(b: Behaviour) -> int {
    match b {
        Behaviour::Cop { rounds_in_magazine, .. } => rounds_in_magazine as int,
        _ => 0,
    }
}

pub open spec fn cop_stack_of(b: Behaviour) -> Seq<CopState> {
    match b {
        Behaviour::Cop { state_stack, .. } => state_stack@,
        _ => Seq::empty(),
    }
}

/// One tick of the cop behaviour machine on the entity at `index`.
///
/// The deterministic transitions are stated exactly below; where a random
/// draw decides (the sampled aim duration, the sampled shot deviation), the
/// contract states what holds of every outcome.
pub fn update_cop(
    args: &UpdateArgs,
    state: &mut State,
    index: usize,
    rng: &mut rand::rngs::StdRng,
    sounds: &mut Vec<Sound>,
)
    requires
        old(state).wf(),
        index < old(state).entities@.len(),
        old(state).entities@[index as int].behaviour is Cop,
        0 < args.dt <= DT_LIMIT,
    ensures
        final(state).wf(),
        final(state).entities@.len() == old(state).entities@.len(),
        final(state).buildings == old(state).buildings,
        final(state).building_outlines == old(state).building_outlines,
        final(state).selection == old(state).selection,
        forall|k: int|
            0 <= k < final(state).entities@.len() && k != index ==> final(state).entities@[k]
                == old(state).entities@[k],
        final(state).entities@[index as int].position == old(
            state,
        ).entities@[index as int].position,
        final(state).entities@[index as int].behaviour is Cop,
        old(state).projectiles@.is_prefix_of(final(state).projectiles@),
        old(sounds)@.is_prefix_of(final(sounds)@),
        ({
            let b = old(state).entities@[index as int].behaviour;
            let st = cop_stack_of(b);
            let rm = cop_rounds_of(b);
            let b2 = final(state).entities@[index as int].behaviour;
            let st2 = cop_stack_of(b2);
            let rm2 = cop_rounds_of(b2);
            let v = old(state).entities@[index as int].velocity;
            let v2 = final(state).entities@[index as int].velocity;
            if st.len() > 0 && st.last() is Reloading {
                let rem = st.last()->reload_time_remaining as int;
                &&& v2 == v
                &&& final(state).projectiles == old(state).projectiles
                &&& final(sounds)@ == if reload_sound_fires(rem, args.dt as int) {
                    old(sounds)@.push(Sound::Reload)
                } else {
                    old(sounds)@
                }
                &&& if rem > 0 {
                    st2 == st.drop_last().push(
                        CopState::Reloading {
                            reload_time_remaining: (rem - args.dt) as i64,
                        },
                    ) && rm2 == rm
                } else {
                    st2 == st.drop_last() && rm2 == COP_MAGAZINE_CAPACITY as int
                }
            } else if st.len() == 0 && rm <= 0 {
                &&& v2 == v
                &&& final(state).projectiles == old(state).projectiles
                &&& final(sounds)@ == old(sounds)@
                &&& st2 == st.push(
                    CopState::Reloading { reload_time_remaining: COP_RELOAD_COOLDOWN },
                )
                &&& rm2 == rm
            } else if st.len() == 0 {
                // Idle with ammo: acquire the nearest visible zombie, if any.
                match nearest_spec(
                    old(state).entities@,
                    old(state).buildings@,
                    old(state).entities@[index as int].position,
                    true,
                    UNRANGED_SIGHT_SQUARED as int,
                    old(state).entities@.len() as int,
                ) {
                    Option::Some(t) => {
                        &&& v2 == v
                        &&& final(state).projectiles == old(state).projectiles
                        &&& final(sounds)@ == old(sounds)@
                        &&& rm2 == rm
                        &&& st2.len() == 1
                        &&& st2.last() matches CopState::Aiming {
                            aim_time_remaining,
                            target_index,
                        } && target_index as int == t && AIM_TIME_MIN <= aim_time_remaining
                            <= AIM_TIME_MAX
                    },
                    Option::None => {
                        &&& v2 == v
                        &&& final(state).projectiles == old(state).projectiles
                        &&& final(sounds)@ == old(sounds)@
                        &&& rm2 == rm
                        &&& st2 == st
                    },
                }
            } else if st.last() is Aiming {
                let rem = st.last()->aim_time_remaining as int;
                let t = st.last()->Aiming_target_index as int;
                let tp = old(state).entities@[t].position;
                let p = old(state).entities@[index as int].position;
                &&& v2 == v
                &&& rm2 == rm
                &&& if old(state).entities@[t].behaviour is Dead || !can_see_spec(
                    old(state).buildings@,
                    p,
                    tp,
                ) {
                    st2 == st.drop_last() && final(state).projectiles == old(state).projectiles
                        && final(sounds)@ == old(sounds)@
                } else if rem > args.dt as int {
                    st2 == st.drop_last().push(
                        CopState::Aiming {
                            aim_time_remaining: (rem - args.dt) as i64,
                            target_index: t as usize,
                        },
                    ) && final(state).projectiles == old(state).projectiles && final(sounds)@
                        == old(sounds)@
                } else {
                    // The shot: one bullet, one casing, one gunshot sound.
                    st2 == st.drop_last() && final(sounds)@ == old(sounds)@.push(Sound::Gunshot)
                        && final(state).projectiles@.len() == old(state).projectiles@.len() + 2
                        && final(state).projectiles@[old(state).projectiles@.len() as int].kind
                        is Bullet && final(state).projectiles@[old(
                        state,
                    ).projectiles@.len() as int + 1].kind is Casing
                }
            } else if st.last() is AttackingZombie {
                let t = st.last()->AttackingZombie_target_index as int;
                let tp = old(state).entities@[t].position;
                let p = old(state).entities@[index as int].position;
                &&& v2 == v
                &&& rm2 == rm
                &&& final(state).projectiles == old(state).projectiles
                &&& final(sounds)@ == old(sounds)@
                &&& if old(state).entities@[t].behaviour is Dead {
                    st2 == st.drop_last()
                } else if rm <= 0 {
                    st2 == st.push(
                        CopState::Reloading { reload_time_remaining: COP_RELOAD_COOLDOWN },
                    )
                } else if can_see_spec(old(state).buildings@, p, tp) {
                    st2 == st.push(
                        CopState::Aiming {
                            aim_time_remaining: COP_RELOAD_COOLDOWN,
                            target_index: t as usize,
                        },
                    )
                } else {
                    // The straight-line path query reaches no occluded
                    // target: the chase ends here.
                    st2 == st.drop_last()
                }
            } else {
                // A movement order.
                let w = st.last()->waypoint;
                let md = st.last()->mode;
                let p = old(state).entities@[index as int].position;
                &&& rm2 == rm
                &&& final(state).projectiles == old(state).projectiles
                &&& final(sounds)@ == old(sounds)@
                &&& if md is Sprinting {
                    st2 == st.drop_last() && v2 == v
                } else if !can_see_spec(old(state).buildings@, p, w) {
                    // No path to the waypoint: give the order up.
                    st2 == st.drop_last() && v2 == v
                } else if dist_sq_spec(w, p) < COP_MIN_DISTANCE_FROM_WAYPOINT_SQUARED as int {
                    // Arrival.
                    st2 == st.drop_last() && v2 == v
                } else {
                    &&& st2.len() == st.len()
                    &&& st2.drop_last() == st.drop_last()
                    &&& st2.last() matches CopState::Moving { waypoint: w2, mode: m2, path: p2 }
                        && w2 == w && m2 is Moving && (p2 matches Some(pp) && pp.nodes@ == seq![
                        p,
                        w,
                    ])
                    &&& v2.x == accel_vel_x(
                        v,
                        w.x - p.x,
                        w.y - p.y,
                        args.dt as int,
                        COP_MOVEMENT_FORCE as int,
                    )
                    &&& v2.y == accel_vel_y(
                        v,
                        w.x - p.x,
                        w.y - p.y,
                        args.dt as int,
                        COP_MOVEMENT_FORCE as int,
                    )
                }
            }
        }),
{
    let p = state.entities[index].position;
    // Decision pass: read the world, pick a transition and its effects.
    let mut change: StateChange = StateChange::Continue;
    let mut fire_at: Option<Vec2> = None;
    let mut reload_sound: bool = false;
    let mut restore_rounds: bool = false;
    let mut new_velocity: Option<Vec2> = None;
    match &state.entities[index].behaviour {
        Behaviour::Cop { rounds_in_magazine, state_stack } => {
            let rm = *rounds_in_magazine;
            let stack_len = state_stack.len();
            if stack_len == 0 {
                if rm <= 0 {
                    change = StateChange::Enter(
                        CopState::Reloading { reload_time_remaining: COP_RELOAD_COOLDOWN },
                    );
                } else {
                    match nearest_entity(
                        &state.entities,
                        &state.buildings,
                        p,
                        true,
                        UNRANGED_SIGHT_SQUARED,
                    ) {
                        Some(t) => {
                            let aim = crate::rng::sample_aim_time(rng);
                            change = StateChange::Enter(
                                CopState::Aiming { aim_time_remaining: aim, target_index: t },
                            );
                        },
                        None => {
                            change = StateChange::Continue;
                        },
                    }
                }
            } else {
                match &state_stack[stack_len - 1] {
                    CopState::Reloading { reload_time_remaining } => {
                        let rem = *reload_time_remaining;
                        let new_rem = rem - args.dt;
                        if rem > COP_RELOAD_HALF && COP_RELOAD_HALF > new_rem {
                            reload_sound = true;
                        }
                        if rem > 0 {
                            change = StateChange::Update(
                                CopState::Reloading { reload_time_remaining: new_rem },
                            );
                        } else {
                            restore_rounds = true;
                            change = StateChange::Exit;
                        }
                    },
                    CopState::Aiming { aim_time_remaining, target_index } => {
                        let rem = *aim_time_remaining;
                        let t = *target_index;
                        let tp = state.entities[t].position;
                        let dead = match &state.entities[t].behaviour {
                            Behaviour::Dead => true,
                            _ => false,
                        };
                        if dead || !can_see(&state.buildings, p, tp) {
                            change = StateChange::Exit;
                        } else if rem > args.dt {
                            change = StateChange::Update(
                                CopState::Aiming {
                                    aim_time_remaining: rem - args.dt,
                                    target_index: t,
                                },
                            );
                        } else {
                            fire_at = Some(tp);
                            change = StateChange::Exit;
                        }
                    },
                    CopState::AttackingZombie { target_index, path: _ } => {
                        let t = *target_index;
                        let tp = state.entities[t].position;
                        let dead = match &state.entities[t].behaviour {
                            Behaviour::Dead => true,
                            _ => false,
                        };
                        if dead {
                            change = StateChange::Exit;
                        } else if rm <= 0 {
                            change = StateChange::Enter(
                                CopState::Reloading {
                                    reload_time_remaining: COP_RELOAD_COOLDOWN,
                                },
                            );
                        } else if can_see(&state.buildings, p, tp) {
                            change = StateChange::Enter(
                                CopState::Aiming {
                                    aim_time_remaining: COP_RELOAD_COOLDOWN,
                                    target_index: t,
                                },
                            );
                        } else {
                            // The straight-line path query cannot reach an
                            // occluded target: give up the chase.
                            change = StateChange::Exit;
                        }
                    },
                    CopState::Moving { waypoint, mode, path: _ } => {
                        let w = *waypoint;
                        match mode {
                            MoveMode::Moving => {
                                match find_path(
                                    p,
                                    w,
                                    &state.buildings,
                                    &state.building_outlines,
                                ) {
                                    None => {
                                        change = StateChange::Exit;
                                    },
                                    Some(path) => {
                                        let node = path.nodes[1];
                                        let d2 = node.minus(p).len_sq();
                                        if d2 < COP_MIN_DISTANCE_FROM_WAYPOINT_SQUARED {
                                            change = StateChange::Exit;
                                        } else {
                                            let v = state.entities[index].velocity;
                                            new_velocity = Some(
                                                accelerated_velocity(
                                                    v,
                                                    node.minus(p),
                                                    args.dt,
                                                    COP_MOVEMENT_FORCE,
                                                ),
                                            );
                                            change = StateChange::Update(
                                                CopState::Moving {
                                                    waypoint: w,
                                                    mode: MoveMode::Moving,
                                                    path: Some(path),
                                                },
                                            );
                                        }
                                    },
                                }
                            },
                            MoveMode::Sprinting => {
                                change = StateChange::Exit;
                            },
                        }
                    },
                }
            }
        },
        _ => {
            proof {
                assert(false);
            }
        },
    }
    // Effect pass: the shot spawns projectiles outside the decision borrow.
    if let Some(tp) = fire_at {
        let s = crate::rng::sample_deviation_sine(rng);
        proof {
            lemma_abs_mul_bound(s as int, s as int, DEVIATION_SINE_LIMIT as int,
                DEVIATION_SINE_LIMIT as int);
            assert(6553int * 6553int == 42941809);
            assert((SCALE as int) * (SCALE as int) == 0x1_0000_0000);
            assert((BULLET_SPAWN_DISTANCE_MULTIPLIER as int) * (ENTITY_RADIUS as int) == 65536);
        }
        let c = sat64(isqrt128((SCALE as i128) * (SCALE as i128) - mul64(s, s)));
        let dir = tp.minus(p).unit().rotated(c, s);
        let spawn = p.plus(
            dir.scaled(sat64(BULLET_SPAWN_DISTANCE_MULTIPLIER as i128 * ENTITY_RADIUS as i128)),
        ).clamped(POS_LIMIT);
        state.projectiles.push(
            Projectile {
                position: spawn,
                velocity: dir.scaled(BULLET_SPEED).clamped(VEL_LIMIT),
                kind: ProjectileKind::Bullet,
            },
        );
        state.projectiles.push(
            Projectile {
                position: spawn,
                velocity: dir.right().scaled(CASING_SPEED).clamped(VEL_LIMIT),
                kind: ProjectileKind::Casing,
            },
        );
        sounds.push(Sound::Gunshot);
    }
    if reload_sound {
        sounds.push(Sound::Reload);
    }
    // Apply pass: mutate the one entity.
    let e = &mut state.entities[index];
    if let Some(v) = new_velocity {
        e.velocity = v;
    }
    match &mut e.behaviour {
        Behaviour::Cop { rounds_in_magazine, state_stack } => {
            if restore_rounds {
                *rounds_in_magazine = COP_MAGAZINE_CAPACITY;
            }
            match change {
                StateChange::Exit => {
                    let _popped = state_stack.pop();
                },
                StateChange::Continue => {},
                StateChange::Update(new) => {
                    let _popped = state_stack.pop();
                    state_stack.push(new);
                },
                StateChange::Enter(new) => {
                    state_stack.push(new);
                },
            }
        },
        _ => {
            proof {
                assert(false);
            }
        },
    }
}

/// The earliest bullet hit among the first `i` entities: the entity whose
/// collision circle the travel segment enters first (earliest positive
/// fixed-point time), skipping the dead; ties keep the earliest index.
pub open spec fn first_bullet_hit(entities: Seq<Entity>, seg: Segment2, i: int) -> Option<
    (int, int),
>
    decreases i,
{
    if i <= 0 {
        Option::None
    } else {
        let prev = first_bullet_hit(entities, seg, i - 1);
        let j = i - 1;
        if entities[j].behaviour is Dead {
            prev
        } else {
            match seg_circle_time_spec(seg, entities[j].position, ENTITY_RADIUS as int) {
                Option::None => prev,
                Option::Some(t) => match prev {
                    Option::None => Option::Some((t, j)),
                    Option::Some(pr) => if t < pr.0 {
                        Option::Some((t, j))
                    } else {
                        prev
                    },
                },
            }
        }
    }
}

/// A hit returned by the scan points below the scan bound and never at a
/// dead entity: the scan skips the dead.
pub proof fn lemma_first_bullet_hit_alive(entities: Seq<Entity>, seg: Segment2, i: int)
    ensures
        first_bullet_hit(entities, seg, i) matches Option::Some(pr) ==> 0 <= pr.1 < i && !(
        entities[pr.1].behaviour is Dead),
    decreases i,
{
    if i <= 0 {
    } else {
        lemma_first_bullet_hit_alive(entities, seg, i - 1);
    }
}

/// Where the travel segment, truncated at fixed-point time `t`, ends.
pub open spec fn truncated_hit_x(seg: Segment2, t: int) -> int {
    sat_spec(seg.p1.x + sat_spec(tdiv_spec(sat_spec(seg.p2.x - seg.p1.x) * t, SCALE as int)))
}

pub open spec fn truncated_hit_y(seg: Segment2, t: int) -> int {
    sat_spec(seg.p1.y + sat_spec(tdiv_spec(sat_spec(seg.p2.y - seg.p1.y) * t, SCALE as int)))
}

/// Resolve one bullet's travel segment against every living entity and the
/// buildings: the nearest intersected entity dies and a kill sound plays,
/// unless a building blocks the truncated segment, in which case nothing
/// dies; either way the bullet is stopped. A bullet that meets nobody flies
/// on.
pub fn bullet_impact(
    entities: &mut Vec<Entity>,
    buildings: &Vec<Building>,
    seg: Segment2,
    sounds: &mut Vec<Sound>,
) -> (stopped: bool)
    requires
        forall|k: int|
            0 <= k < old(entities)@.len() ==> entity_wf(
                #[trigger] old(entities)@[k],
                old(entities)@.len() as int,
            ),
        forall|k: int| 0 <= k < buildings@.len() ==> (#[trigger] buildings@[k]).wf(),
        seg_bounded(seg, POS_LIMIT as int),
    ensures
        final(entities)@.len() == old(entities)@.len(),
        forall|k: int|
            0 <= k < final(entities)@.len() ==> entity_wf(
                #[trigger] final(entities)@[k],
                final(entities)@.len() as int,
            ),
        forall|k: int|
            0 <= k < old(entities)@.len() && (#[trigger] old(entities)@[k]).behaviour is Dead
                ==> final(entities)@[k] == old(entities)@[k],
        ({
            let hit = first_bullet_hit(old(entities)@, seg, old(entities)@.len() as int);
            match hit {
                Option::None => final(entities)@ == old(entities)@ && final(sounds)@ == old(
                    sounds,
                )@ && !stopped,
                Option::Some(pr) => {
                    let hx = truncated_hit_x(seg, pr.0);
                    let hy = truncated_hit_y(seg, pr.0);
                    if exists|bi: int|
                        0 <= bi < buildings@.len() && (#[trigger] buildings@[bi]).crossed_spec(
                            Segment2 {
                                p1: seg.p1,
                                p2: Vec2 { x: hx as i64, y: hy as i64 },
                            },
                        ) {
                        // Occluded: the bullet stops at the obstruction and
                        // nobody dies.
                        final(entities)@ == old(entities)@ && final(sounds)@ == old(sounds)@
                            && stopped
                    } else {
                        &&& stopped
                        &&& final(sounds)@ == old(sounds)@.push(Sound::ZombieDeath)
                        &&& final(entities)@[pr.1].behaviour is Dead
                        &&& final(entities)@[pr.1].position == old(entities)@[pr.1].position
                        &&& final(entities)@[pr.1].velocity == old(entities)@[pr.1].velocity
                        &&& forall|k: int|
                            0 <= k < final(entities)@.len() && k != pr.1 ==> final(entities)@[k]
                                == old(entities)@[k]
                    }
                },
            }
        }),
{
    let n = entities.len();
    let mut best: Option<(i64, usize)> = None;
    let mut i: usize = 0;
    while i < n
        invariant
            forall|k: int|
                0 <= k < entities@.len() ==> entity_wf(
                    #[trigger] entities@[k],
                    entities@.len() as int,
                ),
            seg_bounded(seg, POS_LIMIT as int),
            n == entities@.len(),
            0 <= i <= n,
            (match best {
                Option::Some(pr) => pr.1 < i && 0 < pr.0 <= SCALE,
                Option::None => true,
            }),
            (match best {
                Option::Some(pr) => Option::Some((pr.0 as int, pr.1 as int)),
                Option::None => Option::None,
            }) == first_bullet_hit(entities@, seg, i as int),
        decreases n - i,
    {
        let dead = match &entities[i].behaviour {
            Behaviour::Dead => true,
            _ => false,
        };
        if !dead {
            match crate::geom::seg_circle_time(seg, entities[i].position, ENTITY_RADIUS) {
                Some(t) => {
                    let take = match best {
                        Some(pr) => t < pr.0,
                        None => true,
                    };
                    if take {
                        best = Some((t, i));
                    }
                },
                None => {},
            }
        }
        i = i + 1;
    }
    proof {
        lemma_first_bullet_hit_alive(entities@, seg, n as int);
    }
    match best {
        None => false,
        Some((t, k)) => {
            let d = seg.p2.minus(seg.p1);
            proof {
                lemma_abs_mul_bound(
                    sat_spec(seg.p2.x - seg.p1.x),
                    t as int,
                    0x2000_0000,
                    0x1_0000,
                );
                lemma_abs_mul_bound(
                    sat_spec(seg.p2.y - seg.p1.y),
                    t as int,
                    0x2000_0000,
                    0x1_0000,
                );
                assert(0x2000_0000int * 0x1_0000int == 0x2000_0000_0000);
                crate::vec2::lemma_tdiv_bounded(
                    sat_spec(seg.p2.x - seg.p1.x) * t,
                    SCALE as int,
                    0x2000_0000,
                );
                crate::vec2::lemma_tdiv_bounded(
                    sat_spec(seg.p2.y - seg.p1.y) * t,
                    SCALE as int,
                    0x2000_0000,
                );
            }
            let hit_point = seg.p1.plus(d.scaled(t));
            if can_see(buildings, seg.p1, hit_point) {
                let e = &mut entities[k];
                e.behaviour = Behaviour::Dead;
                sounds.push(Sound::ZombieDeath);
                true
            } else {
                true
            }
        },
    }
}

/// Twice the entity radius, squared: the collision threshold of a pair.
pub const DOUBLE_ENTITY_RADIUS_SQUARED: i128 = 4294967296;

/// Motion integration of one axis: `pos + vel * dt / SCALE`, truncated,
/// clamped into the world bounds.
pub open spec fn integrate_pos_x(pos: Vec2, vel: Vec2, dt: int) -> int {
    clamp_spec(sat_spec(pos.x + sat_spec(tdiv_spec(vel.x * dt, SCALE as int))), POS_LIMIT as int)
}

pub open spec fn integrate_pos_y(pos: Vec2, vel: Vec2, dt: int) -> int {
    clamp_spec(sat_spec(pos.y + sat_spec(tdiv_spec(vel.y * dt, SCALE as int))), POS_LIMIT as int)
}

/// Drag on one axis: the velocity loses the drag share of the displacement
/// just taken, `vel - (vel * dt / SCALE) * DRAG / SCALE`, truncated, clamped.
pub open spec fn drag_vel_x(vel: Vec2, dt: int, drag: int) -> int {
    clamp_spec(
        sat_spec(
            vel.x - sat_spec(
                tdiv_spec(sat_spec(tdiv_spec(vel.x * dt, SCALE as int)) * drag, SCALE as int),
            ),
        ),
        VEL_LIMIT as int,
    )
}

pub open spec fn drag_vel_y(vel: Vec2, dt: int, drag: int) -> int {
    clamp_spec(
        sat_spec(
            vel.y - sat_spec(
                tdiv_spec(sat_spec(tdiv_spec(vel.y * dt, SCALE as int)) * drag, SCALE as int),
            ),
        ),
        VEL_LIMIT as int,
    )
}

/// Does the per-tick pruning keep this projectile? Only bullets at or below
/// the minimum squared speed leave; casings always stay.
pub open spec fn keep_projectile(p: Projectile) -> bool {
    !(p.kind is Bullet) || crate::vec2::len_sq_spec(p.velocity)
        > BULLET_SPEED_MIN_SQUARED as int
}

/// The projectiles that survive pruning, in their original order.
pub open spec fn kept_projectiles(s: Seq<Projectile>, i: int) -> Seq<Projectile>
    decreases i,
{
    if i <= 0 {
        Seq::empty()
    } else {
        let prev = kept_projectiles(s, i - 1);
        if keep_projectile(s[i - 1]) {
            prev.push(s[i - 1])
        } else {
            prev
        }
    }
}

/// No entity of the state is a cop (then no tick ever fires a shot).
pub open spec fn no_cops(entities: Seq<Entity>) -> bool {
    forall|k: int| 0 <= k < entities.len() ==> !((#[trigger] entities[k]).behaviour is Cop)
}

/// The canonical infection scene: exactly a human and a zombie, placed
/// apart but within twice the entity radius, with nothing else in the world.
pub open spec fn infection_pair_setup(s: State, h: int, z: int) -> bool {
    &&& s.entities@.len() == 2
    &&& s.buildings@.len() == 0
    &&& s.projectiles@.len() == 0
    &&& 0 <= h < 2
    &&& 0 <= z < 2
    &&& h != z
    &&& s.entities@[h].behaviour is Human
    &&& s.entities@[z].behaviour is Zombie
    &&& 0 < dist_sq_spec(s.entities@[h].position, s.entities@[z].position)
        < DOUBLE_ENTITY_RADIUS_SQUARED as int
}

/// One full simulation tick: resolve entity pairs and building overlaps,
/// run the behaviour machines, integrate motion with drag, prune motionless
/// bullets and resolve bullet hits. Returns the sound events of the tick.
///
/// Entities are never removed: the entity count after a tick equals the
/// count before it, so the positional indices other entities hold stay
/// valid. Buildings, outlines and the selection are read-only here.
/// Every entity that was dead at tick start is left alone by collisions,
/// behaviours and bullets: it only integrates.
pub open spec fn dead_untouched(before: Seq<Entity>, after: Seq<Entity>) -> bool {
    after.len() == before.len() && forall|k: int|
        0 <= k < before.len() && (#[trigger] before[k]).behaviour is Dead ==> after[k] == before[k]
}

/// Every entity dead at tick start ends the tick exactly integrated: its
/// behaviour kept, its position and velocity given by the integration and
/// drag formulas over its starting values.
pub open spec fn dead_integrated(before: Seq<Entity>, after: Seq<Entity>, dt: int) -> bool {
    after.len() == before.len() && forall|k: int|
        0 <= k < before.len() && (#[trigger] before[k]).behaviour is Dead ==> (
        after[k].behaviour == before[k].behaviour && after[k].position.x == integrate_pos_x(
            before[k].position,
            before[k].velocity,
            dt,
        ) && after[k].position.y == integrate_pos_y(before[k].position, before[k].velocity, dt)
            && after[k].velocity.x == drag_vel_x(before[k].velocity, dt, ENTITY_DRAG as int)
            && after[k].velocity.y == drag_vel_y(before[k].velocity, dt, ENTITY_DRAG as int))
}

/// The outcome of the canonical infection scene: the bitten one is a
/// roaming zombie, both entities are zombies, and the tick recorded exactly
/// one infection sound.
pub open spec fn infection_resolved(entities: Seq<Entity>, snds: Seq<Sound>, h: int) -> bool {
    &&& entities.len() == 2
    &&& entities[h].behaviour == (Behaviour::Zombie { state: ZombieState::Roaming })
    &&& forall|k: int| 0 <= k < 2 ==> (#[trigger] entities[k]).behaviour is Zombie
    &&& snds == seq![Sound::PersonInfected]
}

/// One full simulation tick: resolve entity pairs and building overlaps,
/// run the behaviour machines, integrate motion with drag, prune motionless
/// bullets and resolve bullet hits. Returns the sound events of the tick.
///
/// Entities are never removed: the entity count after a tick equals the
/// count before it, so the positional indices other entities hold stay
/// valid. Buildings, outlines and the selection are read-only here.
pub fn update(args: &UpdateArgs, state: &mut State, rng: &mut rand::rngs::StdRng) -> (sounds: Vec<
    Sound,
>)
    requires
        old(state).wf(),
        0 < args.dt <= DT_LIMIT,
    ensures
        final(state).wf(),
        final(state).entities@.len() == old(state).entities@.len(),
        final(state).buildings == old(state).buildings,
        final(state).building_outlines == old(state).building_outlines,
        final(state).selection == old(state).selection,
        // A dead entity takes no part in the tick: it only integrates, by
        // the exact displacement and drag formulas.
        dead_integrated(old(state).entities@, final(state).entities@, args.dt as int),
        // When no cop can fire, the projectile list is exactly the pruned
        // one: casings all stay, and exactly the bullets at or below the
        // minimum squared speed leave, before this tick's hit test.
        no_cops(old(state).entities@) ==> (final(state).projectiles@.len() == kept_projectiles(
            old(state).projectiles@,
            old(state).projectiles@.len() as int,
        ).len() && forall|q: int|
            0 <= q < final(state).projectiles@.len()
                ==> (#[trigger] final(state).projectiles@[q]).kind == kept_projectiles(
                old(state).projectiles@,
                old(state).projectiles@.len() as int,
            )[q].kind),
        // The canonical infection scene, either way around: one tick turns
        // the human into a roaming zombie and records exactly one infection
        // sound.
        infection_pair_setup(*old(state), 0, 1) ==> infection_resolved(
            final(state).entities@,
            sounds@,
            0,
        ),
        infection_pair_setup(*old(state), 1, 0) ==> infection_resolved(
            final(state).entities@,
            sounds@,
            1,
        ),
{
    let mut sounds: Vec<Sound> = Vec::new();
    let n = state.entities.len();

    // Pairwise and building collisions.
    let mut i: usize = 0;
    while i < n
        invariant
            state.wf(),
            0 < args.dt <= DT_LIMIT,
            n == state.entities@.len(),
            n == old(state).entities@.len(),
            state.buildings == old(state).buildings,
            state.building_outlines == old(state).building_outlines,
            state.selection == old(state).selection,
            0 <= i <= n,
            dead_untouched(old(state).entities@, state.entities@),
            no_cops(old(state).entities@) ==> no_cops(state.entities@) && state.projectiles
                == old(state).projectiles,
            infection_pair_setup(*old(state), 0, 1) ==> if i == 0 {
                state.entities@ == old(state).entities@ && sounds@ == Seq::<Sound>::empty()
            } else {
                infection_resolved(state.entities@, sounds@, 0)
            },
            infection_pair_setup(*old(state), 1, 0) ==> if i == 0 {
                state.entities@ == old(state).entities@ && sounds@ == Seq::<Sound>::empty()
            } else {
                infection_resolved(state.entities@, sounds@, 1)
            },
        decreases n - i,
    {
        let alive = match &state.entities[i].behaviour {
            Behaviour::Dead => false,
            _ => true,
        };
        if alive {
            let mut j: usize = i + 1;
            while j < n
                invariant
                    state.wf(),
                    0 < args.dt <= DT_LIMIT,
                    n == state.entities@.len(),
                    n == old(state).entities@.len(),
                    state.buildings == old(state).buildings,
                    state.building_outlines == old(state).building_outlines,
                    state.selection == old(state).selection,
                    0 <= i < n,
                    i < j <= n,
                    !(state.entities@[i as int].behaviour is Dead),
                    dead_untouched(old(state).entities@, state.entities@),
                    no_cops(old(state).entities@) ==> no_cops(state.entities@)
                        && state.projectiles == old(state).projectiles,
                    infection_pair_setup(*old(state), 0, 1) ==> if i == 0 && j <= 1 {
                        state.entities@ == old(state).entities@ && sounds@ == Seq::<
                            Sound,
                        >::empty()
                    } else {
                        infection_resolved(state.entities@, sounds@, 0)
                    },
                    infection_pair_setup(*old(state), 1, 0) ==> if i == 0 && j <= 1 {
                        state.entities@ == old(state).entities@ && sounds@ == Seq::<
                            Sound,
                        >::empty()
                    } else {
                        infection_resolved(state.entities@, sounds@, 1)
                    },
                decreases n - j,
            {
                let dead_j = match &state.entities[j].behaviour {
                    Behaviour::Dead => true,
                    _ => false,
                };
                if !dead_j {
                    let p1 = state.entities[i].position;
                    let p2 = state.entities[j].position;
                    let delta = p2.minus(p1);
                    let d2 = delta.len_sq();
                    proof {
                        if infection_pair_setup(*old(state), 0, 1) || infection_pair_setup(
                            *old(state),
                            1,
                            0,
                        ) {
                            lemma_dist_sq_sym(
                                old(state).entities@[0].position,
                                old(state).entities@[1].position,
                            );
                        }
                    }
                    if d2 < DOUBLE_ENTITY_RADIUS_SQUARED && d2 > 0 {
                        handle_collision(args, &mut state.entities, i, j, &delta, d2, &mut sounds);
                        proof {
                            if infection_pair_setup(*old(state), 0, 1) || infection_pair_setup(
                                *old(state),
                                1,
                                0,
                            ) {
                                assert(sounds@ =~= seq![Sound::PersonInfected]);
                            }
                        }
                    }
                }
                j = j + 1;
            }
            // Only the first overlapping building is resolved this tick.
            let p1 = state.entities[i].position;
            let nb = state.buildings.len();
            let mut bi: usize = 0;
            while bi < nb
                invariant
                    state.wf(),
                    0 < args.dt <= DT_LIMIT,
                    n == state.entities@.len(),
                    n == old(state).entities@.len(),
                    state.buildings == old(state).buildings,
                    state.building_outlines == old(state).building_outlines,
                    state.selection == old(state).selection,
                    0 <= i < n,
                    nb == state.buildings@.len(),
                    0 <= bi <= nb,
                    bounded(p1, POS_LIMIT as int),
                    !(state.entities@[i as int].behaviour is Dead),
                    dead_untouched(old(state).entities@, state.entities@),
                    no_cops(old(state).entities@) ==> no_cops(state.entities@)
                        && state.projectiles == old(state).projectiles,
                    infection_pair_setup(*old(state), 0, 1) ==> infection_resolved(
                        state.entities@,
                        sounds@,
                        0,
                    ),
                    infection_pair_setup(*old(state), 1, 0) ==> infection_resolved(
                        state.entities@,
                        sounds@,
                        1,
                    ),
                decreases nb - bi,
            {
                let inside = state.buildings[bi].contains_point(p1);
                let mut overlap = inside;
                if !inside {
                    let m = state.buildings[bi].verts.len();
                    let mut k: usize = 0;
                    while k < m
                        invariant
                            state.wf(),
                            n == state.entities@.len(),
                            state.buildings == old(state).buildings,
                            0 <= i < n,
                            0 <= bi < state.buildings@.len(),
                            m == state.buildings@[bi as int].verts@.len(),
                            3 <= m,
                            0 <= k <= m,
                            bounded(p1, POS_LIMIT as int),
                        decreases m - k,
                    {
                        let kk = if k + 1 == m {
                            0
                        } else {
                            k + 1
                        };
                        let e = Segment2 {
                            p1: state.buildings[bi].verts[k],
                            p2: state.buildings[bi].verts[kk],
                        };
                        if crate::geom::seg_circle_hit(e, p1, ENTITY_RADIUS) {
                            overlap = true;
                            break ;
                        }
                        k = k + 1;
                    }
                }
                if overlap {
                    handle_building_collision(
                        args,
                        &mut state.entities[i],
                        &state.buildings[bi],
                        inside,
                    );
                    break ;
                }
                bi = bi + 1;
            }
        }
        i = i + 1;
    }

    // Behaviour machines.
    let mut i: usize = 0;
    while i < n
        invariant
            state.wf(),
            0 < args.dt <= DT_LIMIT,
            n == state.entities@.len(),
            n == old(state).entities@.len(),
            state.buildings == old(state).buildings,
            state.building_outlines == old(state).building_outlines,
            state.selection == old(state).selection,
            0 <= i <= n,
            dead_untouched(old(state).entities@, state.entities@),
            no_cops(old(state).entities@) ==> no_cops(state.entities@) && state.projectiles
                == old(state).projectiles,
            infection_pair_setup(*old(state), 0, 1) ==> infection_resolved(
                state.entities@,
                sounds@,
                0,
            ),
            infection_pair_setup(*old(state), 1, 0) ==> infection_resolved(
                state.entities@,
                sounds@,
                1,
            ),
        decreases n - i,
    {
        let ghost es_b = state.entities@;
        let ghost sounds_b = sounds@;
        let kind: u8 = match &state.entities[i].behaviour {
            Behaviour::Cop { .. } => 1,
            Behaviour::Human => 2,
            Behaviour::Zombie { .. } => 3,
            Behaviour::Dead => 0,
        };
        if kind == 1 {
            update_cop(args, state, i, rng, &mut sounds);
        } else if kind == 2 {
            simulate_human(args, &mut state.entities, &state.buildings, i);
        } else if kind == 3 {
            update_zombie(args, state, i);
        }
        proof {
            if (infection_pair_setup(*old(state), 0, 1) || infection_pair_setup(
                *old(state),
                1,
                0,
            )) && kind == 3 {
                // Neither entity of the scene is a living person, so the
                // zombie's target scan comes up empty and roaming persists.
                let pp = es_b[i as int].position;
                let bs = old(state).buildings@;
                assert(nearest_spec(es_b, bs, pp, false, ZOMBIE_SIGHT_RADIUS_SQUARED as int, 0)
                    is None);
                assert(nearest_spec(es_b, bs, pp, false, ZOMBIE_SIGHT_RADIUS_SQUARED as int, 1)
                    is None);
                assert(nearest_spec(es_b, bs, pp, false, ZOMBIE_SIGHT_RADIUS_SQUARED as int, 2)
                    is None);
            }
        }
        i = i + 1;
    }

    // Integrate motion, then apply drag on the displacement just taken.
    let ghost pre = state.entities@;
    let mut i: usize = 0;
    while i < n
        invariant
            state.wf(),
            0 < args.dt <= DT_LIMIT,
            n == state.entities@.len(),
            n == old(state).entities@.len(),
            state.buildings == old(state).buildings,
            state.building_outlines == old(state).building_outlines,
            state.selection == old(state).selection,
            0 <= i <= n,
            pre.len() == n,
            forall|k: int| i <= k < n ==> state.entities@[k] == pre[k],
            forall|k: int|
                0 <= k < i ==> ((#[trigger] state.entities@[k]).behaviour == pre[k].behaviour
                    && state.entities@[k].position.x == integrate_pos_x(
                    pre[k].position,
                    pre[k].velocity,
                    args.dt as int,
                ) && state.entities@[k].position.y == integrate_pos_y(
                    pre[k].position,
                    pre[k].velocity,
                    args.dt as int,
                ) && state.entities@[k].velocity.x == drag_vel_x(
                    pre[k].velocity,
                    args.dt as int,
                    ENTITY_DRAG as int,
                ) && state.entities@[k].velocity.y == drag_vel_y(
                    pre[k].velocity,
                    args.dt as int,
                    ENTITY_DRAG as int,
                )),
            dead_untouched(old(state).entities@, pre),
            no_cops(old(state).entities@) ==> state.projectiles == old(state).projectiles,
            infection_pair_setup(*old(state), 0, 1) ==> infection_resolved(pre, sounds@, 0),
            infection_pair_setup(*old(state), 1, 0) ==> infection_resolved(pre, sounds@, 1),
        decreases n - i,
    {
        let pos = state.entities[i].position;
        let vel = state.entities[i].velocity;
        let disp = vel.scaled(args.dt);
        let new_pos = pos.plus(disp).clamped(POS_LIMIT);
        let new_vel = vel.minus(disp.scaled(ENTITY_DRAG)).clamped(VEL_LIMIT);
        let e = &mut state.entities[i];
        e.position = new_pos;
        e.velocity = new_vel;
        i = i + 1;
    }
    proof {
        assert(dead_integrated(old(state).entities@, state.entities@, args.dt as int));
        if infection_pair_setup(*old(state), 0, 1) {
            assert(infection_resolved(state.entities@, sounds@, 0));
        }
        if infection_pair_setup(*old(state), 1, 0) {
            assert(infection_resolved(state.entities@, sounds@, 1));
        }
    }

    // Remove motionless bullets before the hit test: a bullet that decayed
    // to rest last tick is pruned now and never hit-tested again.
    let np = state.projectiles.len();
    let mut kept: Vec<Projectile> = Vec::new();
    let mut q: usize = 0;
    while q < np
        invariant
            state.wf(),
            np == state.projectiles@.len(),
            0 <= q <= np,
            forall|k: int| 0 <= k < kept@.len() ==> projectile_wf(#[trigger] kept@[k]),
            kept@ == kept_projectiles(state.projectiles@, q as int),
        decreases np - q,
    {
        let pr = state.projectiles[q];
        let keep = match pr.kind {
            ProjectileKind::Bullet => pr.velocity.len_sq() > BULLET_SPEED_MIN_SQUARED,
            ProjectileKind::Casing => true,
        };
        if keep {
            kept.push(pr);
        }
        q = q + 1;
    }
    state.projectiles = kept;

    // Integrate projectiles and resolve bullet hits.
    let np = state.projectiles.len();
    let ghost pruned = state.projectiles@;
    let mut q: usize = 0;
    while q < np
        invariant
            state.wf(),
            0 < args.dt <= DT_LIMIT,
            n == state.entities@.len(),
            n == old(state).entities@.len(),
            state.buildings == old(state).buildings,
            state.building_outlines == old(state).building_outlines,
            state.selection == old(state).selection,
            np == state.projectiles@.len(),
            np == pruned.len(),
            0 <= q <= np,
            forall|r: int|
                0 <= r < np ==> (#[trigger] state.projectiles@[r]).kind == pruned[r].kind,
            dead_integrated(old(state).entities@, state.entities@, args.dt as int),
            no_cops(old(state).entities@) ==> pruned == kept_projectiles(
                old(state).projectiles@,
                old(state).projectiles@.len() as int,
            ),
            infection_pair_setup(*old(state), 0, 1) ==> infection_resolved(
                state.entities@,
                sounds@,
                0,
            ) && np == 0,
            infection_pair_setup(*old(state), 1, 0) ==> infection_resolved(
                state.entities@,
                sounds@,
                1,
            ) && np == 0,
        decreases np - q,
    {
        let pr = state.projectiles[q];
        let disp = pr.velocity.scaled(args.dt);
        let new_vel = pr.velocity.minus(disp.scaled(PROJECTILE_DRAG)).clamped(VEL_LIMIT);
        let seg = Segment2 { p1: pr.position, p2: pr.position.plus(disp).clamped(POS_LIMIT) };
        {
            let slot = &mut state.projectiles[q];
            slot.position = seg.p2;
            slot.velocity = new_vel;
        }
        let is_bullet = match pr.kind {
            ProjectileKind::Bullet => true,
            ProjectileKind::Casing => false,
        };
        if is_bullet {
            let stopped = bullet_impact(&mut state.entities, &state.buildings, seg, &mut sounds);
            if stopped {
                let slot = &mut state.projectiles[q];
                slot.velocity = Vec2 { x: 0, y: 0 };
            }
        }
        q = q + 1;
    }

    sounds
}

} // verus!
