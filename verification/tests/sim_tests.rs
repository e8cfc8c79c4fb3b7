use outbreak::control::{Camera, Control, GameState, InputEvent, Key, MouseButtonKind, PoliceOrder};
use outbreak::fixed::{isqrt128, sat64, tdiv128, SCALE};
use outbreak::geom::{can_see, seg_circle_hit, seg_circle_time, Building, Segment2};
use outbreak::rng::{sample_aim_time, sample_deviation_sine};
use outbreak::state::{AIM_TIME_MAX, AIM_TIME_MIN, DEVIATION_SINE_LIMIT};
use rand::SeedableRng;
use outbreak::sim::update;
use outbreak::state::{
    Behaviour, CopState, Entity, MoveMode, Projectile, ProjectileKind, Sound, State, UpdateArgs,
    ZombieState, BULLET_SPEED, COP_MAGAZINE_CAPACITY, COP_RELOAD_COOLDOWN,
};

fn rng_from_seed(seed: u64) -> rand::rngs::StdRng {
    rand::rngs::StdRng::seed_from_u64(seed)
}
use outbreak::vec2::Vec2;

fn v(x: i64, y: i64) -> Vec2 {
    Vec2 { x, y }
}

fn human(x: i64, y: i64) -> Entity {
    Entity { position: v(x, y), velocity: v(0, 0), behaviour: Behaviour::Human }
}

fn zombie(x: i64, y: i64) -> Entity {
    Entity {
        position: v(x, y),
        velocity: v(0, 0),
        behaviour: Behaviour::Zombie { state: ZombieState::Roaming },
    }
}

fn cop(x: i64, y: i64, rounds: i64) -> Entity {
    Entity {
        position: v(x, y),
        velocity: v(0, 0),
        behaviour: Behaviour::Cop { rounds_in_magazine: rounds, state_stack: Vec::new() },
    }
}

fn empty_state(entities: Vec<Entity>) -> State {
    State {
        entities,
        buildings: Vec::new(),
        building_outlines: Vec::new(),
        projectiles: Vec::new(),
        selection: Vec::new(),
    }
}

/// A square building from (xl, yl) to (xh, yh), counterclockwise for y up.
fn square_building(xl: i64, yl: i64, xh: i64, yh: i64) -> Building {
    let verts = vec![v(xl, yl), v(xh, yl), v(xh, yh), v(xl, yh)];
    Building::new(verts)
}

#[test]
fn fixed_point_primitives() {
    assert_eq!(isqrt128(10), 3);
    assert_eq!(isqrt128(0), 0);
    assert_eq!(isqrt128(4294967296), 65536);
    assert_eq!(tdiv128(-7, 2), -3);
    assert_eq!(tdiv128(7, 2), 3);
    assert_eq!(sat64(1 << 90), i64::MAX);
    assert_eq!(sat64(-(1 << 90)), i64::MIN);
}

#[test]
fn vector_unit_direction() {
    let d = v(3 * SCALE, 4 * SCALE).unit();
    // A 3-4-5 triangle: the unit direction is (3/5, 4/5) in fixed point.
    assert_eq!(d, v(39321, 52428));
    assert_eq!(v(0, 0).unit(), v(0, 0));
}

#[test]
fn segment_circle_time_exact() {
    let seg = Segment2 { p1: v(0, 0), p2: v(131072, 0) };
    let t = seg_circle_time(seg, v(65536, 0), 32768);
    // The bullet enters the circle a quarter of the way along the segment.
    assert_eq!(t, Some(16384));
    let miss = seg_circle_time(seg, v(65536, 131072), 32768);
    assert_eq!(miss, None);
}

#[test]
fn segment_circle_overlap() {
    let seg = Segment2 { p1: v(0, 0), p2: v(65536, 0) };
    assert!(seg_circle_hit(seg, v(32768, 16384), 32768));
    assert!(!seg_circle_hit(seg, v(32768, 65536), 32768));
}

#[test]
fn building_containment_and_sight() {
    let b = square_building(52429, -32768, 78643, 32768);
    assert!(b.contains_point(v(65536, 0)));
    assert!(!b.contains_point(v(0, 0)));
    let buildings = vec![b];
    assert!(!can_see(&buildings, v(0, 0), v(131072, 0)));
    assert!(can_see(&buildings, v(0, 0), v(0, 131072)));
}

#[test]
fn infection_on_contact() {
    // A human and a zombie closer than twice the entity radius.
    let mut state = empty_state(vec![human(0, 0), zombie(26214, 0)]);
    let mut rng = rng_from_seed(7);
    let sounds = update(&UpdateArgs { dt: 3277 }, &mut state, &mut rng);
    assert!(matches!(
        state.entities[0].behaviour,
        Behaviour::Zombie { state: ZombieState::Roaming }
    ));
    assert_eq!(sounds, vec![Sound::PersonInfected]);
}

#[test]
fn no_infection_between_zombies() {
    let mut state = empty_state(vec![zombie(0, 0), zombie(26214, 0)]);
    let mut rng = rng_from_seed(7);
    let sounds = update(&UpdateArgs { dt: 3277 }, &mut state, &mut rng);
    assert_eq!(sounds, vec![]);
}

fn cop_stack(state: &State, i: usize) -> &Vec<CopState> {
    match &state.entities[i].behaviour {
        Behaviour::Cop { state_stack, .. } => state_stack,
        _ => panic!("entity is not a cop"),
    }
}

fn cop_rounds(state: &State, i: usize) -> i64 {
    match &state.entities[i].behaviour {
        Behaviour::Cop { rounds_in_magazine, .. } => *rounds_in_magazine,
        _ => panic!("entity is not a cop"),
    }
}

#[test]
fn reload_cycle_restores_magazine() {
    // A cop with an empty magazine and nothing to shoot at.
    let mut state = empty_state(vec![cop(0, 0, 0)]);
    let mut rng = rng_from_seed(1);
    let dt = 196608;  // three seconds
    let mut reload_sounds = 0;
    let mut elapsed: i64 = 0;
    // First tick enters the reloading state; the rest run it down.
    for _ in 0..5 {
        let sounds = update(&UpdateArgs { dt }, &mut state, &mut rng);
        reload_sounds += sounds.iter().filter(|s| **s == Sound::Reload).count();
        elapsed += dt;
    }
    assert!(elapsed - dt > COP_RELOAD_COOLDOWN);
    assert_eq!(cop_rounds(&state, 0), COP_MAGAZINE_CAPACITY);
    assert!(cop_stack(&state, 0).is_empty());
    assert_eq!(reload_sounds, 1);
}

#[test]
fn reload_sound_fires_once_at_half_mark() {
    let mut state = empty_state(vec![cop(0, 0, 0)]);
    let mut rng = rng_from_seed(1);
    // Enter the reloading state.
    let sounds = update(&UpdateArgs { dt: 655 }, &mut state, &mut rng);
    assert_eq!(sounds, vec![]);
    // Remaining 327680: a tick of 2.6 seconds crosses the half mark 163840.
    let sounds = update(&UpdateArgs { dt: 170394 }, &mut state, &mut rng);
    assert_eq!(sounds, vec![Sound::Reload]);
    // The next tick must not fire again.
    let sounds = update(&UpdateArgs { dt: 170394 }, &mut state, &mut rng);
    assert_eq!(sounds, vec![]);
}

#[test]
fn reload_sound_not_skipped_by_large_delta() {
    let mut state = empty_state(vec![cop(0, 0, 0)]);
    let mut rng = rng_from_seed(1);
    let sounds = update(&UpdateArgs { dt: 655 }, &mut state, &mut rng);
    assert_eq!(sounds, vec![]);
    // One enormous tick leaps from above the half mark to far below zero.
    let sounds = update(&UpdateArgs { dt: 1048576 }, &mut state, &mut rng);
    assert_eq!(sounds, vec![Sound::Reload]);
    // The following tick sees the timer expired: magazine restored, state
    // popped, no second sound.
    let sounds = update(&UpdateArgs { dt: 655 }, &mut state, &mut rng);
    assert_eq!(sounds, vec![]);
    assert_eq!(cop_rounds(&state, 0), COP_MAGAZINE_CAPACITY);
    assert!(cop_stack(&state, 0).is_empty());
}

#[test]
fn bullet_kill_with_clear_sight() {
    let mut state = empty_state(vec![zombie(131072, 0)]);
    state.projectiles.push(Projectile {
        position: v(0, 0),
        velocity: v(BULLET_SPEED, 0),
        kind: ProjectileKind::Bullet,
    });
    let mut rng = rng_from_seed(3);
    let sounds = update(&UpdateArgs { dt: SCALE }, &mut state, &mut rng);
    assert!(matches!(state.entities[0].behaviour, Behaviour::Dead));
    assert_eq!(sounds.iter().filter(|s| **s == Sound::ZombieDeath).count(), 1);
    assert_eq!(state.projectiles[0].velocity, v(0, 0));
    // The motionless bullet is pruned on the next tick's speed check.
    let _ = update(&UpdateArgs { dt: SCALE }, &mut state, &mut rng);
    assert!(state.projectiles.is_empty());
}

#[test]
fn bullet_blocked_by_building() {
    let mut state = empty_state(vec![zombie(131072, 0)]);
    state.buildings.push(square_building(52429, -32768, 78643, 32768));
    state.projectiles.push(Projectile {
        position: v(0, 0),
        velocity: v(BULLET_SPEED, 0),
        kind: ProjectileKind::Bullet,
    });
    let mut rng = rng_from_seed(3);
    let sounds = update(&UpdateArgs { dt: SCALE }, &mut state, &mut rng);
    // Occluded: nobody dies, the bullet stops at the obstruction.
    assert!(matches!(state.entities[0].behaviour, Behaviour::Zombie { .. }));
    assert!(sounds.iter().all(|s| *s != Sound::ZombieDeath));
    assert_eq!(state.projectiles[0].velocity, v(0, 0));
}

#[test]
fn waypoint_offset_leaves_building() {
    let building = square_building(52429, -32768, 78643, 32768);
    let mut state = empty_state(vec![cop(0, -131072, 6)]);
    state.buildings.push(square_building(52429, -32768, 78643, 32768));
    state.selection.push(0);
    let mut control = Control::new();
    let camera = Camera { center: v(0, 0), zoom: SCALE };
    // A mouse position that lands on the world point (1, 0), inside the
    // building: x at the right window edge, y at the middle.
    let window = (100u32, 100u32);
    let mouse = v(6553600, 3276800);
    control.issue_police_order(PoliceOrder::Move, &mut state, window, camera, mouse);
    let stack = cop_stack(&state, 0);
    assert_eq!(stack.len(), 1);
    match &stack[0] {
        CopState::Moving { waypoint, .. } => {
            assert!(!building.contains_point(*waypoint));
        },
        _ => panic!("expected a move order"),
    }
}

#[test]
fn double_click_selects_all_cops_on_screen() {
    // Two cops on screen, one far off screen, plus a zombie.
    let mut state = empty_state(vec![
        cop(0, 0, 6),
        cop(32768, 0, 6),
        cop(20 * SCALE, 0, 6),
        zombie(0, 32768),
    ]);
    let mut control = Control::new();
    let camera = Camera { center: v(0, 0), zoom: SCALE };
    let window = (100u32, 100u32);
    // Mouse at the window center clicks world (0, 0), on the first cop.
    let mouse = v(3276800, 3276800);
    control.double_click_select(&mut state, camera, mouse, window);
    assert_eq!(state.selection, vec![0, 1]);
}

#[test]
fn single_click_selects_first_in_scan_order() {
    // The second cop is nearer the click point, but the first cop's click
    // box also holds it: scan order wins.
    let mut state = empty_state(vec![cop(16384, 0, 6), cop(0, 0, 6)]);
    let mut control = Control::new();
    let camera = Camera { center: v(0, 0), zoom: SCALE };
    let window = (100u32, 100u32);
    let mouse = v(3276800, 3276800);
    control.click_select(&mut state, window, camera, mouse);
    assert_eq!(state.selection, vec![0]);
}

#[test]
fn drag_select_boxes_cops() {
    let mut state = empty_state(vec![cop(0, 0, 6), cop(32768, 0, 6), zombie(16384, 0)]);
    let mut control = Control::new();
    let camera = Camera { center: v(0, 0), zoom: SCALE };
    let window = (100u32, 100u32);
    // Drag from the window center to the bottom-right corner: the world box
    // spans (0,0) to (1,-1).
    control.update_drag_start(v(3276800, 3276800), window);
    control.drag_select(&mut state, window, camera, v(6553600, 6553600));
    assert_eq!(state.selection, vec![0, 1]);
}

#[test]
fn pause_toggles_on_space() {
    let mut state = empty_state(vec![]);
    let mut game_state = GameState { game_paused: false, zombies_win: false, humans_win: false };
    let mut control = Control::new();
    let camera = Camera { center: v(0, 0), zoom: SCALE };
    control.handle_event(
        InputEvent::KeyDown { key: Key::Space },
        (100, 100),
        camera,
        &mut state,
        &mut game_state,
        1000,
    );
    assert!(game_state.game_paused);
}

#[test]
fn sampled_draws_respect_bounds() {
    let mut rng = rng_from_seed(42);
    for _ in 0..200 {
        let t = sample_aim_time(&mut rng);
        assert!(AIM_TIME_MIN <= t && t <= AIM_TIME_MAX);
        let s = sample_deviation_sine(&mut rng);
        assert!(-DEVIATION_SINE_LIMIT <= s && s <= DEVIATION_SINE_LIMIT);
    }
}

#[test]
fn cop_acquires_visible_zombie() {
    let mut state = empty_state(vec![cop(0, 0, 6), zombie(262144, 0)]);
    let mut rng = rng_from_seed(5);
    let _ = update(&UpdateArgs { dt: 655 }, &mut state, &mut rng);
    let stack = cop_stack(&state, 0);
    assert_eq!(stack.len(), 1);
    assert!(matches!(stack[0], CopState::Aiming { target_index: 1, .. }));
}

#[test]
fn cop_with_empty_magazine_starts_reload() {
    let mut state = empty_state(vec![cop(0, 0, 0), zombie(262144, 0)]);
    let mut rng = rng_from_seed(5);
    let _ = update(&UpdateArgs { dt: 655 }, &mut state, &mut rng);
    let stack = cop_stack(&state, 0);
    assert_eq!(stack.len(), 1);
    assert!(matches!(
        stack[0],
        CopState::Reloading { reload_time_remaining: COP_RELOAD_COOLDOWN }
    ));
}

#[test]
fn human_flees_visible_zombie() {
    let mut state = empty_state(vec![human(0, 0), zombie(131072, 0)]);
    let mut rng = rng_from_seed(5);
    let _ = update(&UpdateArgs { dt: 6554 }, &mut state, &mut rng);
    // The human accelerates away from the zombie: negative x velocity (the
    // pair is too far apart for a collision impulse).
    assert!(state.entities[0].velocity.x < 0);
}

#[test]
fn zombie_chases_visible_human() {
    let mut state = empty_state(vec![human(131072, 0), zombie(0, 0)]);
    let mut rng = rng_from_seed(5);
    let _ = update(&UpdateArgs { dt: 6554 }, &mut state, &mut rng);
    match &state.entities[1].behaviour {
        Behaviour::Zombie { state: ZombieState::Chasing { target_index } } => {
            assert_eq!(*target_index, 0);
        },
        _ => panic!("zombie should chase"),
    }
    assert!(state.entities[1].velocity.x > 0);
}

#[test]
fn entities_are_never_removed() {
    let mut state = empty_state(vec![human(0, 0), zombie(26214, 0), cop(131072, 131072, 6)]);
    let mut rng = rng_from_seed(9);
    for _ in 0..10 {
        let _ = update(&UpdateArgs { dt: 3277 }, &mut state, &mut rng);
        assert_eq!(state.entities.len(), 3);
    }
}

#[test]
fn drag_applies_to_displacement() {
    // One human drifting freely: position += dt*v, then the velocity loses
    // the drag share of that displacement exactly.
    let mut e = human(0, 0);
    e.velocity = v(65536, 0);
    let mut state = empty_state(vec![e]);
    let mut rng = rng_from_seed(2);
    let _ = update(&UpdateArgs { dt: 32768 }, &mut state, &mut rng);
    // displacement = 0.5 * 1.0 = 0.5 world; drag = 1.0 * 0.5 = 0.5 of it.
    assert_eq!(state.entities[0].position, v(32768, 0));
    assert_eq!(state.entities[0].velocity, v(65536 - 32768, 0));
}

#[test]
fn no_infection_beyond_two_radii() {
    // A human and a zombie one and a half world units apart: farther than
    // twice the entity radius, so contact does not infect.
    let mut state = empty_state(vec![human(0, 0), zombie(98304, 0)]);
    let mut rng = rng_from_seed(7);
    let sounds = update(&UpdateArgs { dt: 3277 }, &mut state, &mut rng);
    assert!(matches!(state.entities[0].behaviour, Behaviour::Human));
    assert!(sounds.iter().all(|s| *s != Sound::PersonInfected));
}

#[test]
fn kill_keys_set_win_flags() {
    let mut state = empty_state(vec![human(0, 0), cop(65536, 0, 6), zombie(131072, 0)]);
    let mut game_state = GameState { game_paused: false, zombies_win: false, humans_win: false };
    let mut control = Control::new();
    let camera = Camera { center: v(0, 0), zoom: SCALE };
    control.handle_event(
        InputEvent::KeyDown { key: Key::KillAllHumans },
        (100, 100),
        camera,
        &mut state,
        &mut game_state,
        0,
    );
    assert!(game_state.zombies_win);
    assert!(matches!(state.entities[0].behaviour, Behaviour::Dead));
    assert!(matches!(state.entities[1].behaviour, Behaviour::Dead));
    assert!(matches!(state.entities[2].behaviour, Behaviour::Zombie { .. }));
}

#[test]
fn click_routing_through_events() {
    // A press and a quick small release: the first release is a single
    // click; a second release within the window doubles.
    let mut state = empty_state(vec![cop(0, 0, 6), cop(32768, 0, 6), cop(20 * SCALE, 0, 6)]);
    let mut game_state = GameState { game_paused: false, zombies_win: false, humans_win: false };
    let mut control = Control::new();
    let camera = Camera { center: v(0, 0), zoom: SCALE };
    let window = (100u32, 100u32);
    let center_px = 3276800;
    control.handle_event(
        InputEvent::MouseButtonDown { button: MouseButtonKind::Left, x: center_px, y: center_px },
        window,
        camera,
        &mut state,
        &mut game_state,
        1000,
    );
    control.handle_event(
        InputEvent::MouseButtonUp { button: MouseButtonKind::Left, x: center_px, y: center_px },
        window,
        camera,
        &mut state,
        &mut game_state,
        1000,
    );
    assert_eq!(state.selection, vec![0]);
    control.handle_event(
        InputEvent::MouseButtonDown { button: MouseButtonKind::Left, x: center_px, y: center_px },
        window,
        camera,
        &mut state,
        &mut game_state,
        1100,
    );
    control.handle_event(
        InputEvent::MouseButtonUp { button: MouseButtonKind::Left, x: center_px, y: center_px },
        window,
        camera,
        &mut state,
        &mut game_state,
        1100,
    );
    // Within the double-click window: every on-screen cop is selected.
    assert_eq!(state.selection, vec![0, 1]);
}

#[test]
fn right_click_issues_move_order() {
    let mut state = empty_state(vec![cop(0, -131072, 6)]);
    state.selection.push(0);
    let mut game_state = GameState { game_paused: false, zombies_win: false, humans_win: false };
    let mut control = Control::new();
    let camera = Camera { center: v(0, 0), zoom: SCALE };
    let window = (100u32, 100u32);
    control.handle_event(
        InputEvent::MouseButtonUp { button: MouseButtonKind::Right, x: 3276800, y: 3276800 },
        window,
        camera,
        &mut state,
        &mut game_state,
        1000,
    );
    let stack = cop_stack(&state, 0);
    assert_eq!(stack.len(), 1);
    assert!(matches!(
        stack[0],
        CopState::Moving { waypoint: Vec2 { x: 0, y: 0 }, mode: MoveMode::Moving, .. }
    ));
}
