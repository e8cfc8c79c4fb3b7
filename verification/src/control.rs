//! The command layer: mouse input becomes selections and orders.
//!
//! The camera frame is an axis-aligned zoom-and-pan transform; mouse
//! positions arrive in fixed-point pixel coordinates, and timestamps arrive
//! as plain milliseconds, so the double-click window is decided here and
//! the platform layer only hands in values.

use vstd::prelude::*;

use crate::fixed::{clamp_spec, mul64, sat64, sat_spec, tdiv128, tdiv_spec, SCALE};
use crate::geom::{bounded, can_see_spec, Building, POS_LIMIT};
use crate::sim::{find_path, is_living_person};
use crate::state::{Behaviour, CopState, Entity, MoveMode, Path, State, ENTITY_RADIUS};
use crate::vec2::Vec2;

verus! {

/// The waypoint offset pushes the point `ENTITY_RADIUS * 1.1` past the
/// nearest edge, so the pathfinder can reach it.
pub const ORDER_CLEARANCE: i64 = 36044;

/// The pixel slack below which a release still counts as a click.
pub const CLICK_DRAG_DELTA: i64 = 65536;

/// Two clicks within this many milliseconds form a double click.
pub const DOUBLE_CLICK_MILLIS: u64 = 300;

/// An axis-aligned camera frame: world to camera is
/// `(p - center) * zoom / SCALE`, camera to world its inverse.
#[derive(Clone, Copy, PartialEq, Eq, Structural, Debug)]
pub struct Camera {
    pub center: Vec2,
    pub zoom: i64,
}

pub open spec fn camera_wf(c: Camera) -> bool {
    0 < c.zoom && bounded(c.center, POS_LIMIT as int)
}

pub open spec fn mouse_to_camera_x(x: int, w: int) -> int {
    sat_spec(sat_spec(tdiv_spec(x * 2, w)) - SCALE)
}

pub open spec fn mouse_to_camera_y(y: int, h: int) -> int {
    sat_spec(SCALE - sat_spec(tdiv_spec(y * 2, h)))
}

pub open spec fn camera_to_world_x(x: int, c: Camera) -> int {
    clamp_spec(sat_spec(sat_spec(tdiv_spec(x * SCALE, c.zoom as int)) + c.center.x), POS_LIMIT as int)
}

pub open spec fn camera_to_world_y(y: int, c: Camera) -> int {
    clamp_spec(sat_spec(sat_spec(tdiv_spec(y * SCALE, c.zoom as int)) + c.center.y), POS_LIMIT as int)
}

pub open spec fn world_to_camera_x(x: int, c: Camera) -> int {
    sat_spec(tdiv_spec(sat_spec(x - c.center.x) * c.zoom, SCALE as int))
}

pub open spec fn world_to_camera_y(y: int, c: Camera) -> int {
    sat_spec(tdiv_spec(sat_spec(y - c.center.y) * c.zoom, SCALE as int))
}

/// Pixel coordinates to the normalized camera square `[-SCALE, SCALE]^2`,
/// with the y axis flipped.
pub fn translate_mouse_to_camera(vec: &mut Vec2, window_size: (u32, u32))
    requires
        window_size.0 > 0,
        window_size.1 > 0,
    ensures
        final(vec).x == mouse_to_camera_x(old(vec).x as int, window_size.0 as int),
        final(vec).y == mouse_to_camera_y(old(vec).y as int, window_size.1 as int),
{
    let x2 = sat64(tdiv128(mul64(vec.x, 2), window_size.0 as i128));
    let y2 = sat64(tdiv128(mul64(vec.y, 2), window_size.1 as i128));
    vec.x = sat64(x2 as i128 - SCALE as i128);
    vec.y = sat64(SCALE as i128 - y2 as i128);
}

/// Camera coordinates to a world point, clamped into the world bounds.
pub fn translate_camera_to_world(vec: &mut Vec2, camera: Camera)
    requires
        camera_wf(camera),
    ensures
        final(vec).x == camera_to_world_x(old(vec).x as int, camera),
        final(vec).y == camera_to_world_y(old(vec).y as int, camera),
        bounded(*final(vec), POS_LIMIT as int),
{
    let x = crate::fixed::clamp64(
        sat64(tdiv128(mul64(vec.x, SCALE), camera.zoom as i128)) as i128 + camera.center.x as i128,
        POS_LIMIT,
    );
    let y = crate::fixed::clamp64(
        sat64(tdiv128(mul64(vec.y, SCALE), camera.zoom as i128)) as i128 + camera.center.y as i128,
        POS_LIMIT,
    );
    vec.x = x;
    vec.y = y;
}

/// A world point to camera coordinates.
pub fn translate_world_to_camera(vec: &mut Vec2, camera: Camera)
    requires
        camera_wf(camera),
    ensures
        final(vec).x == world_to_camera_x(old(vec).x as int, camera),
        final(vec).y == world_to_camera_y(old(vec).y as int, camera),
{
    let dx = sat64(vec.x as i128 - camera.center.x as i128);
    let dy = sat64(vec.y as i128 - camera.center.y as i128);
    vec.x = sat64(tdiv128(mul64(dx, camera.zoom), SCALE as i128));
    vec.y = sat64(tdiv128(mul64(dy, camera.zoom), SCALE as i128));
}

/// A click hits an entity when it falls within half a world unit of its
/// position on both axes.
pub open spec fn click_on_spec(entity_pos: Vec2, m_pos: Vec2) -> bool {
    &&& m_pos.x <= entity_pos.x + ENTITY_RADIUS
    &&& m_pos.x >= entity_pos.x - ENTITY_RADIUS
    &&& m_pos.y <= entity_pos.y + ENTITY_RADIUS
    &&& m_pos.y >= entity_pos.y - ENTITY_RADIUS
}

pub fn is_click_on_entity(entity_pos: Vec2, m_pos: Vec2) -> (r: bool)
    requires
        bounded(entity_pos, POS_LIMIT as int),
        bounded(m_pos, POS_LIMIT as int),
    ensures
        r == click_on_spec(entity_pos, m_pos),
{
    m_pos.x <= entity_pos.x + ENTITY_RADIUS && m_pos.x >= entity_pos.x - ENTITY_RADIUS
        && m_pos.y <= entity_pos.y + ENTITY_RADIUS && m_pos.y >= entity_pos.y - ENTITY_RADIUS
}

pub enum PoliceOrder {
    Move,
    Sprint,
}

/// Session-wide flags toggled by the player.
pub struct GameState {
    pub game_paused: bool,
    pub zombies_win: bool,
    pub humans_win: bool,
}

#[derive(Clone, Copy, PartialEq, Eq, Structural, Debug)]
pub enum Key {
    Space,
    KillAllHumans,
    KillAllZombies,
    LeftShift,
    Other,
}

#[derive(Clone, Copy, PartialEq, Eq, Structural, Debug)]
pub enum MouseButtonKind {
    Left,
    Right,
    Other,
}

/// An input sample, already stripped to the values the command layer reads.
#[derive(Clone, Copy, PartialEq, Eq, Structural, Debug)]
pub enum InputEvent {
    KeyDown { key: Key },
    KeyUp { key: Key },
    MouseButtonDown { button: MouseButtonKind, x: i64, y: i64 },
    MouseMotion { x: i64, y: i64 },
    MouseButtonUp { button: MouseButtonKind, x: i64, y: i64 },
}

/// The drag-selection state, in both pixel and camera coordinates, and the
/// click timers.
#[derive(Clone)]
pub struct Control {
    pub mouse_drag: bool,
    pub shift_pressed: bool,
    pub drag_start_mouse_coord: Vec2,
    pub drag_vertex_start: Vec2,
    pub drag_vertex_end: Vec2,
    pub last_click_millis: u64,
    pub last_right_click_millis: u64,
}

/// The first cop, in collection scan order, whose click box holds `m`.
pub open spec fn first_cop_hit(entities: Seq<Entity>, m: Vec2, i: int) -> Option<int>
    decreases i,
{
    if i <= 0 {
        Option::None
    } else {
        match first_cop_hit(entities, m, i - 1) {
            Option::Some(k) => Option::Some(k),
            Option::None => {
                if entities[i - 1].behaviour is Cop && click_on_spec(entities[i - 1].position, m) {
                    Option::Some(i - 1)
                } else {
                    Option::None
                }
            },
        }
    }
}

/// Is the entity on screen: its camera coordinates fall within the
/// normalized square `[-SCALE, SCALE]^2`.
pub open spec fn on_screen_spec(p: Vec2, camera: Camera) -> bool {
    &&& -SCALE <= world_to_camera_x(p.x as int, camera) <= SCALE
    &&& -SCALE <= world_to_camera_y(p.y as int, camera) <= SCALE
}

impl Control {
    pub fn new() -> (r: Control)
        ensures
            !r.mouse_drag,
            !r.shift_pressed,
            r.drag_start_mouse_coord == (Vec2 { x: 0, y: 0 }),
            r.drag_vertex_start == (Vec2 { x: 0, y: 0 }),
            r.drag_vertex_end == (Vec2 { x: 0, y: 0 }),
            r.last_click_millis == 0,
            r.last_right_click_millis == 0,
    {
        Control {
            mouse_drag: false,
            shift_pressed: false,
            drag_start_mouse_coord: Vec2 { x: 0, y: 0 },
            drag_vertex_start: Vec2 { x: 0, y: 0 },
            drag_vertex_end: Vec2 { x: 0, y: 0 },
            last_click_millis: 0,
            last_right_click_millis: 0,
        }
    }
}

/// The cop indices that a drag box adds onto a base selection, in scan
/// order, skipping ones already selected.
pub open spec fn box_selection(
    entities: Seq<Entity>,
    a: Vec2,
    b: Vec2,
    base: Seq<usize>,
    i: int,
) -> Seq<usize>
    decreases i,
{
    if i <= 0 {
        base
    } else {
        let prev = box_selection(entities, a, b, base, i - 1);
        if entities[i - 1].behaviour is Cop && in_box_spec(a, b, entities[i - 1].position)
            && !prev.contains((i - 1) as usize) {
            prev.push((i - 1) as usize)
        } else {
            prev
        }
    }
}

/// An axis-aligned box test between two drag corners, either way around.
pub open spec fn in_box_spec(a: Vec2, b: Vec2, p: Vec2) -> bool {
    (if a.x <= b.x {
        a.x <= p.x <= b.x
    } else {
        b.x <= p.x <= a.x
    }) && (if a.y <= b.y {
        a.y <= p.y <= b.y
    } else {
        b.y <= p.y <= a.y
    })
}

fn in_box(a: Vec2, b: Vec2, p: Vec2) -> (r: bool)
    ensures
        r == in_box_spec(a, b, p),
{
    let okx = if a.x <= b.x {
        a.x <= p.x && p.x <= b.x
    } else {
        b.x <= p.x && p.x <= a.x
    };
    let oky = if a.y <= b.y {
        a.y <= p.y && p.y <= b.y
    } else {
        b.y <= p.y && p.y <= a.y
    };
    okx && oky
}

/// Membership scan for the selection.
fn selection_contains(sel: &Vec<usize>, v: usize) -> (r: bool)
    ensures
        r == sel@.contains(v),
{
    let n = sel.len();
    let mut i: usize = 0;
    while i < n
        invariant
            n == sel@.len(),
            0 <= i <= n,
            forall|k: int| 0 <= k < i ==> sel@[k] != v,
        decreases n - i,
    {
        if sel[i] == v {
            assert(sel@[i as int] == v);
            return true;
        }
        i = i + 1;
    }
    false
}

/// The on-screen cop indices in scan order: what a double click selects.
pub open spec fn on_screen_cops(entities: Seq<Entity>, camera: Camera, i: int) -> Seq<usize>
    decreases i,
{
    if i <= 0 {
        Seq::empty()
    } else {
        let prev = on_screen_cops(entities, camera, i - 1);
        if entities[i - 1].behaviour is Cop && on_screen_spec(entities[i - 1].position, camera) {
            prev.push((i - 1) as usize)
        } else {
            prev
        }
    }
}

impl Control {
    /// Single-click selection: the first cop, in collection scan order,
    /// whose click box holds the click, even when a nearer cop comes later
    /// in the collection. Without the modifier the old selection is cleared
    /// first.
    pub fn click_select(
        &mut self,
        state: &mut State,
        window_size: (u32, u32),
        camera: Camera,
        mouse_pos: Vec2,
    )
        requires
            old(state).wf(),
            window_size.0 > 0,
            window_size.1 > 0,
            camera_wf(camera),
        ensures
            final(state).wf(),
            click_outcome(
                *old(state),
                *final(state),
                old(self).shift_pressed,
                world_point_spec(mouse_pos, window_size.0 as int, window_size.1 as int, camera),
            ),
            *final(self) == *old(self),
    {
        if !self.shift_pressed {
            state.selection.clear();
        }
        let mut m = Vec2 { x: mouse_pos.x, y: mouse_pos.y };
        translate_mouse_to_camera(&mut m, window_size);
        translate_camera_to_world(&mut m, camera);
        proof {
            assert(m == Vec2 {
                x: camera_to_world_x(
                    mouse_to_camera_x(mouse_pos.x as int, window_size.0 as int),
                    camera,
                ) as i64,
                y: camera_to_world_y(
                    mouse_to_camera_y(mouse_pos.y as int, window_size.1 as int),
                    camera,
                ) as i64,
            });
        }
        let ghost base: Seq<usize> = if self.shift_pressed {
            old(state).selection@
        } else {
            Seq::empty()
        };
        let n = state.entities.len();
        let mut i: usize = 0;
        while i < n
            invariant
                state.wf(),
                state.entities == old(state).entities,
                state.buildings == old(state).buildings,
                state.building_outlines == old(state).building_outlines,
                state.projectiles == old(state).projectiles,
                state.selection@ == base,
                base == (if old(self).shift_pressed {
                    old(state).selection@
                } else {
                    Seq::<usize>::empty()
                }),
                *self == *old(self),
                n == state.entities@.len(),
                0 <= i <= n,
                bounded(m, POS_LIMIT as int),
                m == (Vec2 {
                    x: camera_to_world_x(
                        mouse_to_camera_x(mouse_pos.x as int, window_size.0 as int),
                        camera,
                    ) as i64,
                    y: camera_to_world_y(
                        mouse_to_camera_y(mouse_pos.y as int, window_size.1 as int),
                        camera,
                    ) as i64,
                }),
                first_cop_hit(state.entities@, m, i as int) is None,
            decreases n - i,
        {
            let hit = match &state.entities[i].behaviour {
                Behaviour::Cop { .. } => is_click_on_entity(state.entities[i].position, m),
                _ => false,
            };
            if hit {
                proof {
                    lemma_first_cop_hit_extends(state.entities@, m, i as int, n as int);
                }
                if !selection_contains(&state.selection, i) {
                    state.selection.push(i);
                }
                return ;
            }
            i = i + 1;
        }
    }

    /// Double-click selection: when some cop sits under the click, every cop
    /// whose position is on screen is selected, wherever the click fell.
    pub fn double_click_select(
        &mut self,
        state: &mut State,
        camera: Camera,
        mouse_pos: Vec2,
        window_size: (u32, u32),
    )
        requires
            old(state).wf(),
            window_size.0 > 0,
            window_size.1 > 0,
            camera_wf(camera),
        ensures
            final(state).wf(),
            double_click_outcome(
                *old(state),
                *final(state),
                camera,
                world_point_spec(mouse_pos, window_size.0 as int, window_size.1 as int, camera),
            ),
            *final(self) == *old(self),
    {
        state.selection.clear();
        let mut m = Vec2 { x: mouse_pos.x, y: mouse_pos.y };
        translate_mouse_to_camera(&mut m, window_size);
        translate_camera_to_world(&mut m, camera);
        proof {
            assert(m == Vec2 {
                x: camera_to_world_x(
                    mouse_to_camera_x(mouse_pos.x as int, window_size.0 as int),
                    camera,
                ) as i64,
                y: camera_to_world_y(
                    mouse_to_camera_y(mouse_pos.y as int, window_size.1 as int),
                    camera,
                ) as i64,
            });
        }
        let n = state.entities.len();
        let mut i: usize = 0;
        while i < n
            invariant
                state.wf(),
                state.entities == old(state).entities,
                state.buildings == old(state).buildings,
                state.building_outlines == old(state).building_outlines,
                state.projectiles == old(state).projectiles,
                state.selection@ == Seq::<usize>::empty(),
                *self == *old(self),
                camera_wf(camera),
                n == state.entities@.len(),
                0 <= i <= n,
                bounded(m, POS_LIMIT as int),
                m == (Vec2 {
                    x: camera_to_world_x(
                        mouse_to_camera_x(mouse_pos.x as int, window_size.0 as int),
                        camera,
                    ) as i64,
                    y: camera_to_world_y(
                        mouse_to_camera_y(mouse_pos.y as int, window_size.1 as int),
                        camera,
                    ) as i64,
                }),
                first_cop_hit(state.entities@, m, i as int) is None,
            decreases n - i,
        {
            let hit = match &state.entities[i].behaviour {
                Behaviour::Cop { .. } => is_click_on_entity(state.entities[i].position, m),
                _ => false,
            };
            if hit {
                proof {
                    lemma_first_cop_hit_extends(state.entities@, m, i as int, n as int);
                }
                let mut j: usize = 0;
                while j < n
                    invariant
                        state.wf(),
                        state.entities == old(state).entities,
                        state.buildings == old(state).buildings,
                        state.building_outlines == old(state).building_outlines,
                        state.projectiles == old(state).projectiles,
                        *self == *old(self),
                        camera_wf(camera),
                        n == state.entities@.len(),
                        0 <= j <= n,
                        state.selection@ == on_screen_cops(state.entities@, camera, j as int),
                        forall|k: int|
                            0 <= k < state.selection@.len() ==> #[trigger] state.selection@[k]
                                < n,
                        forall|k1: int, k2: int|
                            0 <= k1 < k2 < state.selection@.len() ==> state.selection@[k1]
                                != state.selection@[k2],
                    decreases n - j,
                {
                    let is_cop = match &state.entities[j].behaviour {
                        Behaviour::Cop { .. } => true,
                        _ => false,
                    };
                    if is_cop {
                        let mut cpos = state.entities[j].position;
                        translate_world_to_camera(&mut cpos, camera);
                        if cpos.x <= SCALE && cpos.x >= -SCALE && cpos.y <= SCALE && cpos.y
                            >= -SCALE {
                            proof {
                                lemma_on_screen_cops_bound(state.entities@, camera, j as int);
                            }
                            state.selection.push(j);
                        }
                    }
                    j = j + 1;
                }
                return ;
            }
            i = i + 1;
        }
    }
}

/// Every index that a double click gathers is below the scan bound, and no
/// index repeats: each index joins at most once, at its own scan step.
pub proof fn lemma_on_screen_cops_bound(entities: Seq<Entity>, camera: Camera, i: int)
    requires
        i - 1 <= usize::MAX,
    ensures
        forall|k: int|
            0 <= k < on_screen_cops(entities, camera, i).len()
                ==> #[trigger] on_screen_cops(entities, camera, i)[k] < i,
        forall|k1: int, k2: int|
            0 <= k1 < k2 < on_screen_cops(entities, camera, i).len() ==> on_screen_cops(
                entities,
                camera,
                i,
            )[k1] != on_screen_cops(entities, camera, i)[k2],
    decreases i,
{
    if i <= 0 {
    } else {
        lemma_on_screen_cops_bound(entities, camera, i - 1);
        let prev = on_screen_cops(entities, camera, i - 1);
        let cur = on_screen_cops(entities, camera, i);
        if entities[i - 1].behaviour is Cop && on_screen_spec(entities[i - 1].position, camera) {
            assert(cur == prev.push((i - 1) as usize));
            assert forall|k: int| 0 <= k < cur.len() implies #[trigger] cur[k] < i by {
                if k < prev.len() {
                    assert(cur[k] == prev[k]);
                }
            }
            assert forall|k1: int, k2: int|
                0 <= k1 < k2 < cur.len() implies cur[k1] != cur[k2] by {
                if k2 < prev.len() {
                    assert(cur[k1] == prev[k1] && cur[k2] == prev[k2]);
                } else {
                    assert(cur[k2] == (i - 1) as usize);
                    assert(cur[k1] == prev[k1] && prev[k1] < i - 1);
                }
            }
        } else {
            assert(cur == prev);
        }
    }
}

/// The first building, in collection order, that contains the point.
pub open spec fn first_containing(buildings: Seq<Building>, m: Vec2, i: int) -> Option<int>
    decreases i,
{
    if i <= 0 {
        Option::None
    } else {
        match first_containing(buildings, m, i - 1) {
            Option::Some(k) => Option::Some(k),
            Option::None => if buildings[i - 1].contains_spec(m) {
                Option::Some(i - 1)
            } else {
                Option::None
            },
        }
    }
}

/// Once no building below `i` contains `m` and building `i` does, every
/// longer scan returns `i`.
pub proof fn lemma_first_containing_extends(buildings: Seq<Building>, m: Vec2, i: int, j: int)
    requires
        0 <= i < j,
        first_containing(buildings, m, i) is None,
        buildings[i].contains_spec(m),
    ensures
        first_containing(buildings, m, j) == Option::Some(i),
    decreases j,
{
    if j == i + 1 {
    } else {
        lemma_first_containing_extends(buildings, m, i, j - 1);
    }
}

/// The world point an order is aimed at: the click point itself, or, when
/// the click fell inside a building (the first containing one decides), the
/// point pushed out past that building's nearest edge along its outward
/// normal by the distance to the edge plus `ORDER_CLEARANCE`, clamped into
/// the world bounds.
pub open spec fn order_target_x(buildings: Seq<Building>, m: Vec2) -> int {
    match first_containing(buildings, m, buildings.len() as int) {
        Option::None => m.x as int,
        Option::Some(b) => {
            let k = buildings[b].nearest_edge(m, buildings[b].verts@.len() as int);
            let dist = sat_spec(
                crate::fixed::isqrt_spec(
                    crate::geom::seg_dist_sq_spec(buildings[b].edge(k), m),
                ),
            );
            let nx = buildings[b].normals@[k].x as int;
            clamp_spec(
                sat_spec(
                    m.x + sat_spec(
                        tdiv_spec(nx * sat_spec(dist + ORDER_CLEARANCE), SCALE as int),
                    ),
                ),
                POS_LIMIT as int,
            )
        },
    }
}

pub open spec fn order_target_y(buildings: Seq<Building>, m: Vec2) -> int {
    match first_containing(buildings, m, buildings.len() as int) {
        Option::None => m.y as int,
        Option::Some(b) => {
            let k = buildings[b].nearest_edge(m, buildings[b].verts@.len() as int);
            let dist = sat_spec(
                crate::fixed::isqrt_spec(
                    crate::geom::seg_dist_sq_spec(buildings[b].edge(k), m),
                ),
            );
            let ny = buildings[b].normals@[k].y as int;
            clamp_spec(
                sat_spec(
                    m.y + sat_spec(
                        tdiv_spec(ny * sat_spec(dist + ORDER_CLEARANCE), SCALE as int),
                    ),
                ),
                POS_LIMIT as int,
            )
        },
    }
}

/// Offset a clicked point out of the first building that contains it, so
/// the target is reachable by the path query.
pub fn order_target_point(buildings: &Vec<Building>, m: Vec2) -> (r: Vec2)
    requires
        forall|k: int| 0 <= k < buildings@.len() ==> (#[trigger] buildings@[k]).wf(),
        bounded(m, POS_LIMIT as int),
    ensures
        r.x == order_target_x(buildings@, m),
        r.y == order_target_y(buildings@, m),
        bounded(r, POS_LIMIT as int),
{
    let nb = buildings.len();
    let mut bi: usize = 0;
    while bi < nb
        invariant
            forall|k: int| 0 <= k < buildings@.len() ==> (#[trigger] buildings@[k]).wf(),
            bounded(m, POS_LIMIT as int),
            nb == buildings@.len(),
            0 <= bi <= nb,
            first_containing(buildings@, m, bi as int) is None,
        decreases nb - bi,
    {
        if buildings[bi].contains_point(m) {
            proof {
                lemma_first_containing_extends(buildings@, m, bi as int, nb as int);
            }
            let (_k, d2, normal) = buildings[bi].closest_edge(m);
            let dist = sat64(crate::fixed::isqrt128(d2));
            let shift = normal.scaled(sat64(dist as i128 + ORDER_CLEARANCE as i128));
            return m.plus(shift).clamped(POS_LIMIT);
        }
        bi = bi + 1;
    }
    m
}

/// The last zombie, in collection scan order, whose click box holds `m`:
/// later matches in the scan overwrite earlier ones.
pub open spec fn last_zombie_hit(entities: Seq<Entity>, m: Vec2, i: int) -> Option<int>
    decreases i,
{
    if i <= 0 {
        Option::None
    } else if entities[i - 1].behaviour is Zombie && click_on_spec(entities[i - 1].position, m) {
        Option::Some(i - 1)
    } else {
        last_zombie_hit(entities, m, i - 1)
    }
}

/// The world point a mouse position lands on: pixels to the camera square,
/// then through the camera frame, clamped into the world bounds.
pub open spec fn world_point_spec(mouse: Vec2, w: int, h: int, camera: Camera) -> Vec2 {
    Vec2 {
        x: camera_to_world_x(mouse_to_camera_x(mouse.x as int, w), camera) as i64,
        y: camera_to_world_y(mouse_to_camera_y(mouse.y as int, h), camera) as i64,
    }
}

/// The world point an order is aimed at, as a point.
pub open spec fn order_target_spec(buildings: Seq<Building>, m: Vec2) -> Vec2 {
    Vec2 { x: order_target_x(buildings, m) as i64, y: order_target_y(buildings, m) as i64 }
}

/// What the path query hands a cop ordered from `from` to `to`: the straight
/// two-node path when the segment is clear, nothing when it is not.
pub open spec fn path_to(buildings: Seq<Building>, from: Vec2, to: Vec2, p: Option<Path>) -> bool {
    if can_see_spec(buildings, from, to) {
        p matches Option::Some(pp) && pp.nodes@ == seq![from, to]
    } else {
        p is None
    }
}

/// The outcome of an order at one selected index: a cop abandons its whole
/// stack and starts fresh with the one order (an attack when a zombie's
/// click box holds the adjusted point, else a move), its magazine untouched;
/// a selected non-cop is left alone.
pub open spec fn ordered_cop(
    before: State,
    after: State,
    order: PoliceOrder,
    tgt: Vec2,
    zi: Option<int>,
    k: int,
) -> bool {
    if before.entities@[k].behaviour is Cop {
        let b2 = after.entities@[k].behaviour;
        &&& b2 is Cop
        &&& crate::sim::cop_rounds_of(b2) == crate::sim::cop_rounds_of(
            before.entities@[k].behaviour,
        )
        &&& crate::sim::cop_stack_of(b2).len() == 1
        &&& (match zi {
            Option::Some(z) => crate::sim::cop_stack_of(b2)[0] matches CopState::AttackingZombie {
                target_index,
                path,
            } && target_index as int == z && path_to(
                before.buildings@,
                before.entities@[k].position,
                tgt,
                path,
            ),
            Option::None => crate::sim::cop_stack_of(b2)[0] matches CopState::Moving {
                waypoint,
                mode,
                path,
            } && waypoint == tgt && (mode is Moving <==> order is Move) && path_to(
                before.buildings@,
                before.entities@[k].position,
                tgt,
                path,
            ),
        })
    } else {
        after.entities@[k].behaviour == before.entities@[k].behaviour
    }
}

/// The effect of a single click at world point `m`: the first cop whose
/// click box holds it joins the base selection (the old selection with the
/// modifier held, else nothing), and the rest of the state is untouched.
pub open spec fn click_outcome(before: State, after: State, shift: bool, m: Vec2) -> bool {
    let base: Seq<usize> = if shift {
        before.selection@
    } else {
        Seq::empty()
    };
    &&& after.entities == before.entities
    &&& after.buildings == before.buildings
    &&& after.building_outlines == before.building_outlines
    &&& after.projectiles == before.projectiles
    &&& (match first_cop_hit(before.entities@, m, before.entities@.len() as int) {
        Option::Some(hit) => after.selection@ == if base.contains(hit as usize) {
            base
        } else {
            base.push(hit as usize)
        },
        Option::None => after.selection@ == base,
    })
}

/// The effect of a double click at world point `m`: when some cop sits
/// under it, every on-screen cop is selected; otherwise the selection is
/// simply cleared.
pub open spec fn double_click_outcome(before: State, after: State, camera: Camera, m: Vec2) -> bool {
    &&& after.entities == before.entities
    &&& after.buildings == before.buildings
    &&& after.building_outlines == before.building_outlines
    &&& after.projectiles == before.projectiles
    &&& (match first_cop_hit(before.entities@, m, before.entities@.len() as int) {
        Option::Some(_) => after.selection@ == on_screen_cops(
            before.entities@,
            camera,
            before.entities@.len() as int,
        ),
        Option::None => after.selection@ == Seq::<usize>::empty(),
    })
}

/// The effect of a box selection spanned by world points `a` and `b`.
pub open spec fn drag_outcome(before: State, after: State, shift: bool, a: Vec2, b: Vec2) -> bool {
    &&& after.entities == before.entities
    &&& after.buildings == before.buildings
    &&& after.building_outlines == before.building_outlines
    &&& after.projectiles == before.projectiles
    &&& after.selection@ == box_selection(
        before.entities@,
        a,
        b,
        if shift {
            before.selection@
        } else {
            Seq::empty()
        },
        before.entities@.len() as int,
    )
}

/// A release close enough to the press to count as a click rather than a
/// drag.
pub open spec fn small_click_spec(start: Vec2, end: Vec2) -> bool {
    &&& -CLICK_DRAG_DELTA <= sat_spec(end.x - start.x) <= CLICK_DRAG_DELTA
    &&& -CLICK_DRAG_DELTA <= sat_spec(end.y - start.y) <= CLICK_DRAG_DELTA
}

/// Does a click at `now` fall within the double-click window after `last`?
/// A clock running backward counts as elapsed time zero.
pub open spec fn within_double_click(now: u64, last: u64) -> bool {
    (if now >= last {
        now - last
    } else {
        0
    }) < DOUBLE_CLICK_MILLIS
}

/// The whole effect of issuing an order against a click at world point `m`.
pub open spec fn order_issued(before: State, after: State, order: PoliceOrder, m: Vec2) -> bool {
    let tgt = order_target_spec(before.buildings@, m);
    let zi = last_zombie_hit(before.entities@, tgt, before.entities@.len() as int);
    &&& after.entities@.len() == before.entities@.len()
    &&& forall|k: int|
        0 <= k < after.entities@.len() && !before.selection@.contains(k as usize)
            ==> after.entities@[k] == before.entities@[k]
    &&& forall|k: int|
        0 <= k < after.entities@.len() ==> ((#[trigger] after.entities@[k]).position
            == before.entities@[k].position && after.entities@[k].velocity
            == before.entities@[k].velocity)
    &&& forall|t: int|
        0 <= t < before.selection@.len() ==> ordered_cop(
            before,
            after,
            order,
            tgt,
            zi,
            #[trigger] before.selection@[t] as int,
        )
}

/// Once the scan below `i` finds no hit and index `i` hits, every longer
/// scan returns `i`: the first match is kept.
pub proof fn lemma_first_cop_hit_extends(entities: Seq<Entity>, m: Vec2, i: int, j: int)
    requires
        0 <= i < j,
        first_cop_hit(entities, m, i) is None,
        entities[i].behaviour is Cop,
        click_on_spec(entities[i].position, m),
    ensures
        first_cop_hit(entities, m, j) == Option::Some(i),
    decreases j,
{
    if j == i + 1 {
    } else {
        lemma_first_cop_hit_extends(entities, m, i, j - 1);
    }
}

impl Control {
    /// Box selection: every cop inside the world-space box spanned by the
    /// drag start and end joins the selection (which is first cleared
    /// without the modifier). The drag rectangle's camera-space corners are
    /// stored for the renderer.
    pub fn drag_select(
        &mut self,
        state: &mut State,
        window_size: (u32, u32),
        camera: Camera,
        mouse_end: Vec2,
    )
        requires
            old(state).wf(),
            window_size.0 > 0,
            window_size.1 > 0,
            camera_wf(camera),
        ensures
            final(state).wf(),
            drag_outcome(
                *old(state),
                *final(state),
                old(self).shift_pressed,
                world_point_spec(
                    old(self).drag_start_mouse_coord,
                    window_size.0 as int,
                    window_size.1 as int,
                    camera,
                ),
                world_point_spec(mouse_end, window_size.0 as int, window_size.1 as int, camera),
            ),
            final(self).drag_vertex_start.x == mouse_to_camera_x(
                old(self).drag_start_mouse_coord.x as int,
                window_size.0 as int,
            ),
            final(self).drag_vertex_start.y == mouse_to_camera_y(
                old(self).drag_start_mouse_coord.y as int,
                window_size.1 as int,
            ),
            final(self).drag_vertex_end.x == mouse_to_camera_x(
                mouse_end.x as int,
                window_size.0 as int,
            ),
            final(self).drag_vertex_end.y == mouse_to_camera_y(
                mouse_end.y as int,
                window_size.1 as int,
            ),
            final(self).mouse_drag == old(self).mouse_drag,
            final(self).shift_pressed == old(self).shift_pressed,
            final(self).drag_start_mouse_coord == old(self).drag_start_mouse_coord,
            final(self).last_click_millis == old(self).last_click_millis,
            final(self).last_right_click_millis == old(self).last_right_click_millis,
    {
        if !self.shift_pressed {
            state.selection.clear();
        }
        let mut ms = Vec2 { x: self.drag_start_mouse_coord.x, y: self.drag_start_mouse_coord.y };
        let mut me = Vec2 { x: mouse_end.x, y: mouse_end.y };
        translate_mouse_to_camera(&mut ms, window_size);
        translate_mouse_to_camera(&mut me, window_size);
        self.drag_vertex_start = ms;
        self.drag_vertex_end = me;
        translate_camera_to_world(&mut ms, camera);
        translate_camera_to_world(&mut me, camera);
        let ghost a_spec = ms;
        let ghost b_spec = me;
        let ghost base: Seq<usize> = if old(self).shift_pressed {
            old(state).selection@
        } else {
            Seq::empty()
        };
        let n = state.entities.len();
        let mut i: usize = 0;
        while i < n
            invariant
                state.wf(),
                state.entities == old(state).entities,
                state.buildings == old(state).buildings,
                state.building_outlines == old(state).building_outlines,
                state.projectiles == old(state).projectiles,
                n == state.entities@.len(),
                0 <= i <= n,
                a_spec == ms,
                b_spec == me,
                base == (if old(self).shift_pressed {
                    old(state).selection@
                } else {
                    Seq::<usize>::empty()
                }),
                state.selection@ == box_selection(state.entities@, a_spec, b_spec, base, i as int),
            decreases n - i,
        {
            let is_cop = match &state.entities[i].behaviour {
                Behaviour::Cop { .. } => true,
                _ => false,
            };
            if is_cop && in_box(ms, me, state.entities[i].position) {
                if !selection_contains(&state.selection, i) {
                    state.selection.push(i);
                }
            }
            i = i + 1;
        }
    }

    /// Record a fresh drag anchor, in pixel and camera coordinates.
    pub fn update_drag_start(&mut self, new_drag_start: Vec2, window_size: (u32, u32))
        requires
            window_size.0 > 0,
            window_size.1 > 0,
        ensures
            final(self).drag_start_mouse_coord == new_drag_start,
            final(self).drag_vertex_start.x == mouse_to_camera_x(
                new_drag_start.x as int,
                window_size.0 as int,
            ),
            final(self).drag_vertex_start.y == mouse_to_camera_y(
                new_drag_start.y as int,
                window_size.1 as int,
            ),
            final(self).drag_vertex_end == old(self).drag_vertex_end,
            final(self).mouse_drag == old(self).mouse_drag,
            final(self).shift_pressed == old(self).shift_pressed,
            final(self).last_click_millis == old(self).last_click_millis,
            final(self).last_right_click_millis == old(self).last_right_click_millis,
    {
        let mut proj = Vec2 { x: new_drag_start.x, y: new_drag_start.y };
        translate_mouse_to_camera(&mut proj, window_size);
        self.drag_start_mouse_coord = new_drag_start;
        self.drag_vertex_start = proj;
    }

    /// Record the drag cursor, in camera coordinates.
    pub fn update_drag_end(&mut self, new_drag_end: Vec2, window_size: (u32, u32))
        requires
            window_size.0 > 0,
            window_size.1 > 0,
        ensures
            final(self).drag_vertex_end.x == mouse_to_camera_x(
                new_drag_end.x as int,
                window_size.0 as int,
            ),
            final(self).drag_vertex_end.y == mouse_to_camera_y(
                new_drag_end.y as int,
                window_size.1 as int,
            ),
            final(self).drag_vertex_start == old(self).drag_vertex_start,
            final(self).drag_start_mouse_coord == old(self).drag_start_mouse_coord,
            final(self).mouse_drag == old(self).mouse_drag,
            final(self).shift_pressed == old(self).shift_pressed,
            final(self).last_click_millis == old(self).last_click_millis,
            final(self).last_right_click_millis == old(self).last_right_click_millis,
    {
        let mut proj = Vec2 { x: new_drag_end.x, y: new_drag_end.y };
        translate_mouse_to_camera(&mut proj, window_size);
        self.drag_vertex_end = proj;
    }

    /// Issue an order to every selected cop: the click point is projected to
    /// the world and pushed out of any containing building; a zombie under
    /// the adjusted point turns the order into an attack (the last matching
    /// zombie in scan order wins). Each selected cop abandons its whole
    /// state stack and starts fresh with the one order.
    pub fn issue_police_order(
        &mut self,
        order: PoliceOrder,
        simulation: &mut State,
        window_size: (u32, u32),
        camera: Camera,
        mouse_pos: Vec2,
    )
        requires
            old(simulation).wf(),
            window_size.0 > 0,
            window_size.1 > 0,
            camera_wf(camera),
        ensures
            final(simulation).wf(),
            final(simulation).buildings == old(simulation).buildings,
            final(simulation).building_outlines == old(simulation).building_outlines,
            final(simulation).projectiles == old(simulation).projectiles,
            final(simulation).selection == old(simulation).selection,
            *final(self) == *old(self),
            order_issued(
                *old(simulation),
                *final(simulation),
                order,
                world_point_spec(mouse_pos, window_size.0 as int, window_size.1 as int, camera),
            ),
    {
        let mut m = Vec2 { x: mouse_pos.x, y: mouse_pos.y };
        translate_mouse_to_camera(&mut m, window_size);
        translate_camera_to_world(&mut m, camera);
        proof {
            assert(m == world_point_spec(
                mouse_pos,
                window_size.0 as int,
                window_size.1 as int,
                camera,
            ));
        }
        let target = order_target_point(&simulation.buildings, m);
        proof {
            assert(target == order_target_spec(old(simulation).buildings@, m));
        }

        // A zombie under the adjusted point turns the move into an attack;
        // later matches in scan order overwrite earlier ones.
        let n = simulation.entities.len();
        let mut zombie_index: Option<usize> = None;
        let mut i: usize = 0;
        while i < n
            invariant
                simulation.wf(),
                n == simulation.entities@.len(),
                0 <= i <= n,
                bounded(target, POS_LIMIT as int),
                (match zombie_index {
                    Option::Some(z) => Option::Some(z as int),
                    Option::None => Option::<int>::None,
                }) == last_zombie_hit(simulation.entities@, target, i as int),
                (match zombie_index {
                    Option::Some(z) => z < n,
                    Option::None => true,
                }),
            decreases n - i,
        {
            let hit = match &simulation.entities[i].behaviour {
                Behaviour::Zombie { .. } => is_click_on_entity(
                    simulation.entities[i].position,
                    target,
                ),
                _ => false,
            };
            if hit {
                zombie_index = Some(i);
            }
            i = i + 1;
        }
        let ghost tgt = target;
        let ghost zi: Option<int> = match zombie_index {
            Option::Some(z) => Option::Some(z as int),
            Option::None => Option::None,
        };
        let ns = simulation.selection.len();
        let mut si: usize = 0;
        while si < ns
            invariant
                simulation.wf(),
                simulation.buildings == old(simulation).buildings,
                simulation.building_outlines == old(simulation).building_outlines,
                simulation.projectiles == old(simulation).projectiles,
                simulation.selection == old(simulation).selection,
                *self == *old(self),
                n == simulation.entities@.len(),
                n == old(simulation).entities@.len(),
                ns == simulation.selection@.len(),
                0 <= si <= ns,
                tgt == order_target_spec(
                    old(simulation).buildings@,
                    world_point_spec(
                        mouse_pos,
                        window_size.0 as int,
                        window_size.1 as int,
                        camera,
                    ),
                ),
                bounded(tgt, POS_LIMIT as int),
                tgt == target,
                zi == last_zombie_hit(old(simulation).entities@, tgt, n as int),
                (match zombie_index {
                    Option::Some(z) => Option::Some(z as int),
                    Option::None => Option::<int>::None,
                }) == zi,
                (match zombie_index {
                    Option::Some(z) => z < n,
                    Option::None => true,
                }),
                forall|k: int|
                    0 <= k < n && !old(simulation).selection@.subrange(0, si as int).contains(
                        k as usize,
                    ) ==> simulation.entities@[k] == old(simulation).entities@[k],
                forall|k: int|
                    0 <= k < n ==> ((#[trigger] simulation.entities@[k]).position == old(simulation).entities@[k].position && simulation.entities@[k].velocity == old(simulation).entities@[k].velocity),
                forall|t: int|
                    0 <= t < si ==> ordered_cop(
                        *old(simulation),
                        *simulation,
                        order,
                        tgt,
                        zi,
                        #[trigger] old(simulation).selection@[t] as int,
                    ),
            decreases ns - si,
        {
            let idx = simulation.selection[si];
            proof {
                assert(old(simulation).selection@[si as int] == idx);
                let sub = old(simulation).selection@.subrange(0, si as int);
                if sub.contains(idx) {
                    let t = choose|t: int| 0 <= t < sub.len() && sub[t] == idx;
                    assert(old(simulation).selection@[t] == idx);
                    assert(false);
                }
            }
            let pos = simulation.entities[idx].position;
            let is_cop = match &simulation.entities[idx].behaviour {
                Behaviour::Cop { .. } => true,
                _ => false,
            };
            if is_cop {
                let path = find_path(
                    pos,
                    target,
                    &simulation.buildings,
                    &simulation.building_outlines,
                );
                proof {
                    assert(path_to(old(simulation).buildings@, pos, tgt, path));
                }
                let new_state = match zombie_index {
                    None => CopState::Moving {
                        waypoint: target,
                        mode: match order {
                            PoliceOrder::Move => MoveMode::Moving,
                            PoliceOrder::Sprint => MoveMode::Sprinting,
                        },
                        path,
                    },
                    Some(z) => CopState::AttackingZombie { target_index: z, path },
                };
                let ghost ns_g = new_state;
                let e = &mut simulation.entities[idx];
                match &mut e.behaviour {
                    Behaviour::Cop { rounds_in_magazine: _, state_stack } => {
                        state_stack.clear();
                        state_stack.push(new_state);
                    },
                    _ => {},
                }
                proof {
                    assert(crate::sim::cop_stack_of(
                        simulation.entities@[idx as int].behaviour,
                    ) =~= seq![ns_g]);
                    assert(ordered_cop(
                        *old(simulation),
                        *simulation,
                        order,
                        tgt,
                        zi,
                        idx as int,
                    ));
                }
            }
            proof {
                assert forall|t: int| 0 <= t <= si implies ordered_cop(
                    *old(simulation),
                    *simulation,
                    order,
                    tgt,
                    zi,
                    #[trigger] old(simulation).selection@[t] as int,
                ) by {
                    if t < si && old(simulation).selection@[t] == idx {
                        assert(false);
                    }
                }
                assert forall|k: int|
                    0 <= k < n && !old(simulation).selection@.subrange(
                        0,
                        si as int + 1,
                    ).contains(k as usize) implies simulation.entities@[k] == old(simulation).entities@[k] by {
                    let sub1 = old(simulation).selection@.subrange(0, si as int + 1);
                    let sub = old(simulation).selection@.subrange(0, si as int);
                    if !sub.contains(k as usize) {
                        assert(sub1[si as int] == idx);
                        if k == idx as int {
                            assert(sub1.contains(k as usize));
                        }
                    } else {
                        let t = choose|t: int| 0 <= t < sub.len() && sub[t] == k as usize;
                        assert(sub1[t] == k as usize);
                        assert(sub1.contains(k as usize));
                    }
                }
            }
            si = si + 1;
        }
        proof {
            assert(old(simulation).selection@.subrange(0, ns as int) =~= old(simulation).selection@);
        }
    }
}

impl Control {
    /// Route one input sample: pause and win toggles, the modifier, drag
    /// tracking, and the click timing that tells single, double and box
    /// selection apart, with a double right click issuing a sprint order.
    /// `now_millis` is the sample's timestamp.
    pub fn handle_event(
        &mut self,
        event: InputEvent,
        window_size: (u32, u32),
        camera: Camera,
        state: &mut State,
        game_state: &mut GameState,
        now_millis: u64,
    )
        requires
            old(state).wf(),
            window_size.0 > 0,
            window_size.1 > 0,
            camera_wf(camera),
        ensures
            final(state).wf(),
            final(state).entities@.len() == old(state).entities@.len(),
            final(state).buildings == old(state).buildings,
            final(state).building_outlines == old(state).building_outlines,
            // Space toggles the pause and nothing else moves.
            event matches InputEvent::KeyDown { key: Key::Space } ==> (final(game_state).game_paused == !old(game_state).game_paused && *final(state) == *old(state)
                && *final(self) == *old(self)),
            // The modifier key tracks its physical state.
            event matches InputEvent::KeyDown { key: Key::LeftShift } ==> (final(self).shift_pressed && *final(state) == *old(state) && *final(game_state) == *old(game_state)),
            event matches InputEvent::KeyUp { key } ==> (*final(state) == *old(state) && *final(game_state) == *old(game_state) && (key is LeftShift ==> !final(self).shift_pressed) && (!(key
                is LeftShift) ==> *final(self) == *old(self))),
            // The kill keys: everything but the spared kind dies in place,
            // and the matching win flag is raised.
            event matches InputEvent::KeyDown { key: Key::KillAllHumans } ==> (final(game_state).zombies_win && final(state).selection == old(state).selection && final(state).projectiles == old(state).projectiles && *final(self) == *old(self) && forall|k: int|
                0 <= k < old(state).entities@.len() ==> if (#[trigger] old(state).entities@[k]).behaviour is Zombie {
                    final(state).entities@[k] == old(state).entities@[k]
                } else {
                    final(state).entities@[k].behaviour is Dead && final(state).entities@[k].position == old(state).entities@[k].position && final(state).entities@[k].velocity == old(state).entities@[k].velocity
                }),
            event matches InputEvent::KeyDown { key: Key::KillAllZombies } ==> (final(game_state).humans_win && final(state).selection == old(state).selection && final(state).projectiles == old(state).projectiles && *final(self) == *old(self) && forall|k: int|
                0 <= k < old(state).entities@.len() ==> if is_living_person((#[trigger] old(state).entities@[k]).behaviour) {
                    final(state).entities@[k] == old(state).entities@[k]
                } else {
                    final(state).entities@[k].behaviour is Dead && final(state).entities@[k].position == old(state).entities@[k].position && final(state).entities@[k].velocity == old(state).entities@[k].velocity
                }),
            // Pressing the left button anchors a drag.
            event matches InputEvent::MouseButtonDown { button, x, y } ==> (*final(state) == *old(state) && *final(game_state) == *old(game_state) && (button is Left ==> (final(self).mouse_drag && final(self).drag_start_mouse_coord == (Vec2 { x, y }) && final(self).drag_vertex_start.x == mouse_to_camera_x(x as int, window_size.0 as int) && final(self).drag_vertex_start.y == mouse_to_camera_y(y as int, window_size.1 as int) && final(self).drag_vertex_end.x == mouse_to_camera_x(x as int, window_size.0 as int) && final(self).drag_vertex_end.y == mouse_to_camera_y(y as int, window_size.1 as int))) && (!(
            button is Left) ==> *final(self) == *old(self))),
            // Moving the mouse mid-drag tracks the cursor.
            event matches InputEvent::MouseMotion { x, y } ==> (*final(state) == *old(state)
                && *final(game_state) == *old(game_state) && (old(self).mouse_drag ==> (final(self).drag_vertex_end.x == mouse_to_camera_x(x as int, window_size.0 as int) && final(self).drag_vertex_end.y == mouse_to_camera_y(y as int, window_size.1 as int))) && (!old(self).mouse_drag ==> *final(self) == *old(self))),
            // Releasing the left button routes by drag size and timing:
            // a small release is a click, doubled within the window; a
            // large one is a box selection.
            event matches InputEvent::MouseButtonUp { button: MouseButtonKind::Left, x, y } ==> ({
                let mouse = Vec2 { x, y };
                let small = small_click_spec(old(self).drag_start_mouse_coord, mouse);
                let m = world_point_spec(
                    mouse,
                    window_size.0 as int,
                    window_size.1 as int,
                    camera,
                );
                &&& !final(self).mouse_drag
                &&& *final(game_state) == *old(game_state)
                &&& (small && within_double_click(now_millis, old(self).last_click_millis)
                    ==> double_click_outcome(*old(state), *final(state), camera, m) && final(self).last_click_millis == now_millis)
                &&& (small && !within_double_click(now_millis, old(self).last_click_millis)
                    ==> click_outcome(*old(state), *final(state), old(self).shift_pressed, m)
                    && final(self).last_click_millis == now_millis)
                &&& (!small ==> drag_outcome(
                    *old(state),
                    *final(state),
                    old(self).shift_pressed,
                    world_point_spec(
                        old(self).drag_start_mouse_coord,
                        window_size.0 as int,
                        window_size.1 as int,
                        camera,
                    ),
                    m,
                ) && final(self).last_click_millis == old(self).last_click_millis)
            }),
            // Releasing the right button issues an order: a sprint when the
            // release doubles the previous one, else a plain move.
            event matches InputEvent::MouseButtonUp { button: MouseButtonKind::Right, x, y } ==> ({
                let m = world_point_spec(
                    Vec2 { x, y },
                    window_size.0 as int,
                    window_size.1 as int,
                    camera,
                );
                &&& !final(self).mouse_drag
                &&& *final(game_state) == *old(game_state)
                &&& final(self).last_right_click_millis == now_millis
                &&& final(state).selection == old(state).selection
                &&& (within_double_click(now_millis, old(self).last_right_click_millis)
                    ==> order_issued(*old(state), *final(state), PoliceOrder::Sprint, m))
                &&& (!within_double_click(now_millis, old(self).last_right_click_millis)
                    ==> order_issued(*old(state), *final(state), PoliceOrder::Move, m))
            }),
    {
        match event {
            InputEvent::KeyDown { key } => {
                match key {
                    Key::Space => {
                        game_state.game_paused = !game_state.game_paused;
                    },
                    Key::KillAllHumans => {
                        let n = state.entities.len();
                        let mut i: usize = 0;
                        while i < n
                            invariant
                                state.wf(),
                                n == state.entities@.len(),
                                n == old(state).entities@.len(),
                                state.buildings == old(state).buildings,
                                state.building_outlines == old(state).building_outlines,
                                state.selection == old(state).selection,
                                state.projectiles == old(state).projectiles,
                                0 <= i <= n,
                                forall|k: int|
                                    i <= k < n ==> state.entities@[k] == old(state).entities@[k],
                                forall|k: int|
                                    0 <= k < i ==> if (#[trigger] old(state).entities@[k]).behaviour is Zombie {
                                        state.entities@[k] == old(state).entities@[k]
                                    } else {
                                        state.entities@[k].behaviour is Dead
                                            && state.entities@[k].position == old(state).entities@[k].position && state.entities@[k].velocity
                                            == old(state).entities@[k].velocity
                                    },
                            decreases n - i,
                        {
                            let keep = match &state.entities[i].behaviour {
                                Behaviour::Zombie { .. } => true,
                                _ => false,
                            };
                            if !keep {
                                let e = &mut state.entities[i];
                                e.behaviour = Behaviour::Dead;
                            }
                            i = i + 1;
                        }
                        game_state.zombies_win = true;
                    },
                    Key::KillAllZombies => {
                        let n = state.entities.len();
                        let mut i: usize = 0;
                        while i < n
                            invariant
                                state.wf(),
                                n == state.entities@.len(),
                                n == old(state).entities@.len(),
                                state.buildings == old(state).buildings,
                                state.building_outlines == old(state).building_outlines,
                                state.selection == old(state).selection,
                                state.projectiles == old(state).projectiles,
                                0 <= i <= n,
                                forall|k: int|
                                    i <= k < n ==> state.entities@[k] == old(state).entities@[k],
                                forall|k: int|
                                    0 <= k < i ==> if is_living_person((#[trigger] old(state).entities@[k]).behaviour) {
                                        state.entities@[k] == old(state).entities@[k]
                                    } else {
                                        state.entities@[k].behaviour is Dead
                                            && state.entities@[k].position == old(state).entities@[k].position && state.entities@[k].velocity
                                            == old(state).entities@[k].velocity
                                    },
                            decreases n - i,
                        {
                            let keep = match &state.entities[i].behaviour {
                                Behaviour::Human => true,
                                Behaviour::Cop { .. } => true,
                                _ => false,
                            };
                            if !keep {
                                let e = &mut state.entities[i];
                                e.behaviour = Behaviour::Dead;
                            }
                            i = i + 1;
                        }
                        game_state.humans_win = true;
                    },
                    Key::LeftShift => {
                        self.shift_pressed = true;
                    },
                    Key::Other => {},
                }
            },
            InputEvent::KeyUp { key } => {
                match key {
                    Key::LeftShift => {
                        self.shift_pressed = false;
                    },
                    _ => {},
                }
            },
            InputEvent::MouseButtonDown { button, x, y } => {
                match button {
                    MouseButtonKind::Left => {
                        self.mouse_drag = true;
                        let mouse_pos = Vec2 { x, y };
                        self.update_drag_start(mouse_pos, window_size);
                        self.update_drag_end(mouse_pos, window_size);
                    },
                    _ => {},
                }
            },
            InputEvent::MouseMotion { x, y } => {
                if self.mouse_drag {
                    self.update_drag_end(Vec2 { x, y }, window_size);
                }
            },
            InputEvent::MouseButtonUp { button, x, y } => {
                self.mouse_drag = false;
                let mouse_pos = Vec2 { x, y };
                match button {
                    MouseButtonKind::Left => {
                        let dx = sat64(mouse_pos.x as i128 - self.drag_start_mouse_coord.x as i128);
                        let dy = sat64(mouse_pos.y as i128 - self.drag_start_mouse_coord.y as i128);
                        let small = -CLICK_DRAG_DELTA <= dx && dx <= CLICK_DRAG_DELTA
                            && -CLICK_DRAG_DELTA <= dy && dy <= CLICK_DRAG_DELTA;
                        if small {
                            let since = if now_millis >= self.last_click_millis {
                                now_millis - self.last_click_millis
                            } else {
                                0
                            };
                            if since < DOUBLE_CLICK_MILLIS {
                                self.double_click_select(state, camera, mouse_pos, window_size);
                            } else {
                                self.click_select(state, window_size, camera, mouse_pos);
                            }
                            self.last_click_millis = now_millis;
                        } else {
                            self.drag_select(state, window_size, camera, mouse_pos);
                        }
                    },
                    MouseButtonKind::Right => {
                        let since = if now_millis >= self.last_right_click_millis {
                            now_millis - self.last_right_click_millis
                        } else {
                            0
                        };
                        if since < DOUBLE_CLICK_MILLIS {
                            self.issue_police_order(
                                PoliceOrder::Sprint,
                                state,
                                window_size,
                                camera,
                                mouse_pos,
                            );
                        } else {
                            self.issue_police_order(
                                PoliceOrder::Move,
                                state,
                                window_size,
                                camera,
                                mouse_pos,
                            );
                        }
                        self.last_right_click_millis = now_millis;
                    },
                    MouseButtonKind::Other => {},
                }
            },
        }
    }
}

} // verus!
