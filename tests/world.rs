use tank_arena::collision::{CollisionEntity, CollisionSphere, destroyed_spheres, spheres_overlap};
use tank_arena::entity::{
    Brain, MAX_LIVE_SHELLS, SHELL_HIT_RADIUS, SHELL_LIFETIME, SHOT_COOLDOWN, TANK_HIT_RADIUS,
    decide_fire, shell_expired,
};
use tank_arena::world::World;

fn arena() -> World<(), ()> {
    World::new()
}

fn live(w: &World<(), ()>, id: usize) -> usize {
    w.tanks.get(id).unwrap().live_shells
}

#[test]
fn shell_expires_after_lifetime_and_count_returns_to_zero() {
    let mut w = arena();
    let a = w.spawn_tank((), Brain::DumbAI);
    w.advance_clock(SHOT_COOLDOWN + 1);
    assert!(w.fire_step(a, false, 100, ()));
    assert_eq!(live(&w, a), 1);
    assert_eq!(w.shells.count(), 1);
    w.advance_clock(SHELL_LIFETIME);
    w.expire_shells();
    assert_eq!(w.shells.count(), 1);
    w.advance_clock(1);
    w.expire_shells();
    assert_eq!(w.shells.count(), 0);
    assert_eq!(live(&w, a), 0);
}

#[test]
fn cooldown_separates_shots() {
    let mut w = arena();
    let a = w.spawn_tank((), Brain::DumbAI);
    w.advance_clock(SHOT_COOLDOWN);
    assert!(!w.fire_step(a, false, 100, ()));
    w.advance_clock(1);
    assert!(w.fire_step(a, false, 100, ()));
    let first = w.tanks.get(a).unwrap().last_shot_time;
    w.advance_clock(SHOT_COOLDOWN);
    assert!(!w.fire_step(a, false, 100, ()));
    w.advance_clock(1);
    assert!(w.fire_step(a, false, 100, ()));
    let second = w.tanks.get(a).unwrap().last_shot_time;
    assert_eq!(second - first, SHOT_COOLDOWN + 1);
}

#[test]
fn live_shell_cap_stops_an_ai_tank() {
    let mut w = arena();
    let a = w.spawn_tank((), Brain::DumbAI);
    let mut fired = 0;
    for _ in 0..20 {
        w.advance_clock(SHOT_COOLDOWN + 1);
        if w.fire_step(a, false, 100, ()) {
            fired += 1;
        }
    }
    assert_eq!(fired, MAX_LIVE_SHELLS);
    assert_eq!(live(&w, a), MAX_LIVE_SHELLS);
}

#[test]
fn turbo_lets_the_player_pass_the_cap() {
    let mut w = arena();
    let p = w.start_round((), ());
    w.advance_clock(1);
    let mut fired = 0;
    for _ in 0..8 {
        w.advance_clock(SHOT_COOLDOWN + 1);
        if w.fire_step(p, true, 100, ()) {
            fired += 1;
        }
    }
    assert_eq!(fired, 8);
    assert_eq!(live(&w, p), 8);
    assert!(w.tanks.get(p).unwrap().firing);
}

#[test]
fn single_click_fires_one_shell() {
    let mut w = arena();
    let p = w.start_round((), ());
    w.advance_clock(1);
    w.set_player_firing();
    assert!(w.fire_step(p, false, 100, ()));
    assert!(!w.tanks.get(p).unwrap().firing);
    w.advance_clock(SHOT_COOLDOWN + 1);
    assert!(!w.fire_step(p, false, 100, ()));
    assert_eq!(live(&w, p), 1);
}

#[test]
fn full_shell_buffer_blocks_firing() {
    let mut w = arena();
    let a = w.spawn_tank((), Brain::DumbAI);
    let b = w.spawn_tank((), Brain::DumbAI);
    w.advance_clock(SHOT_COOLDOWN + 1);
    assert!(w.fire_step(a, false, 0, ()));
    assert!(!w.fire_step(b, false, 0, ()));
}

#[test]
fn fire_decision_cases() {
    assert_eq!(decide_fire(false, false, true, 1_000_000, 0, 0, 0, 10), (false, false));
    assert_eq!(decide_fire(true, false, false, 1_000_000, 0, 0, 0, 10), (true, false));
    assert_eq!(decide_fire(true, false, false, SHOT_COOLDOWN, 0, 0, 0, 10), (false, false));
    assert_eq!(decide_fire(true, false, false, 1_000_000, 0, MAX_LIVE_SHELLS, 0, 10), (false, false));
    assert_eq!(decide_fire(false, true, true, 1_000_000, 0, MAX_LIVE_SHELLS, 0, 10), (true, true));
    assert_eq!(decide_fire(false, true, false, 1_000_000, 0, MAX_LIVE_SHELLS, 0, 10), (false, false));
    assert_eq!(decide_fire(true, false, false, 1_000_000, 0, 0, 11, 10), (false, false));
}

#[test]
fn expiry_is_strictly_after_lifetime() {
    assert!(!shell_expired(0, SHELL_LIFETIME));
    assert!(shell_expired(0, SHELL_LIFETIME + 1));
    assert!(!shell_expired(10, 20));
}

#[test]
fn player_moves_and_halts() {
    let mut w = arena();
    let p = w.start_round((), ());
    w.move_player(-4_000_000);
    w.rotate_player(3_141_593);
    assert_eq!(w.tanks.get(p).unwrap().speed, -4_000_000);
    w.move_player(4_000_000);
    assert_eq!(w.tanks.get(p).unwrap().speed, 0);
    w.halt_player();
    assert_eq!(w.tanks.get(p).unwrap().rotating, 0);
    w.move_player(i64::MAX);
    w.move_player(1);
    assert_eq!(w.tanks.get(p).unwrap().speed, i64::MAX);
}

#[test]
fn start_round_spawns_player_and_enemy() {
    let mut w = arena();
    w.advance_clock(500);
    let p = w.start_round((), ());
    assert_eq!(p, 0);
    assert_eq!(w.player, Some(0));
    assert_eq!(w.elapsed_time, 0);
    assert_eq!(w.tanks.count(), 2);
    assert_eq!(w.tanks.get(0).unwrap().brain, Brain::PlayerInput);
    assert_eq!(w.tanks.get(0).unwrap().last_shot_time, -SHOT_COOLDOWN);
    assert_eq!(w.tanks.get(1).unwrap().brain, Brain::DumbAI);
    w.clear();
    assert_eq!(w.tanks.len(), 0);
    assert_eq!(w.player, None);
}

fn sphere(x: i32, r: u32, target: CollisionEntity) -> CollisionSphere {
    CollisionSphere::new((x, 0, 0), r, target)
}

#[test]
fn shell_touching_tank_destroys_both_and_frees_shooter_count() {
    let mut w = arena();
    let victim = w.spawn_tank((), Brain::DumbAI);
    let shooter = w.spawn_tank((), Brain::DumbAI);
    w.advance_clock(SHOT_COOLDOWN + 1);
    assert!(w.fire_step(shooter, false, 100, ()));
    assert_eq!(live(&w, shooter), 1);
    let d = (TANK_HIT_RADIUS + SHELL_HIT_RADIUS) as i32;
    let spheres = vec![
        sphere(0, TANK_HIT_RADIUS, CollisionEntity::Tank(victim)),
        sphere(5_000_000, TANK_HIT_RADIUS, CollisionEntity::Tank(shooter)),
        sphere(d, SHELL_HIT_RADIUS, CollisionEntity::Shell(0)),
    ];
    w.resolve_collisions(&spheres);
    assert!(!w.tanks.contains(victim));
    assert!(w.tanks.contains(shooter));
    assert_eq!(w.shells.count(), 0);
    assert_eq!(live(&w, shooter), 0);
}

#[test]
fn spheres_just_apart_do_not_collide() {
    let d = (TANK_HIT_RADIUS + SHELL_HIT_RADIUS) as i32 + 1;
    let a = sphere(0, TANK_HIT_RADIUS, CollisionEntity::Tank(0));
    let b = sphere(d, SHELL_HIT_RADIUS, CollisionEntity::Shell(0));
    assert!(!spheres_overlap(&a, &b));
    let c = CollisionSphere::new((300_000, 300_000, 0), SHELL_HIT_RADIUS, CollisionEntity::Shell(1));
    assert!(spheres_overlap(&a, &c));
    assert_eq!(destroyed_spheres(&vec![a, b]), vec![false, false]);
}

#[test]
fn tanks_touching_tanks_are_left_alone() {
    let mut w = arena();
    let a = w.spawn_tank((), Brain::DumbAI);
    let b = w.spawn_tank((), Brain::DumbAI);
    let spheres = vec![
        sphere(0, TANK_HIT_RADIUS, CollisionEntity::Tank(a)),
        sphere(10, TANK_HIT_RADIUS, CollisionEntity::Tank(b)),
    ];
    assert_eq!(destroyed_spheres(&spheres), vec![false, false]);
    w.resolve_collisions(&spheres);
    assert_eq!(w.tanks.count(), 2);
}

#[test]
fn shells_touching_shells_destroy_each_other() {
    let mut w = arena();
    let a = w.spawn_tank((), Brain::DumbAI);
    let b = w.spawn_tank((), Brain::DumbAI);
    w.advance_clock(SHOT_COOLDOWN + 1);
    assert!(w.fire_step(a, false, 100, ()));
    assert!(w.fire_step(b, false, 100, ()));
    let spheres = vec![
        sphere(0, TANK_HIT_RADIUS, CollisionEntity::Tank(a)),
        sphere(9_000_000, TANK_HIT_RADIUS, CollisionEntity::Tank(b)),
        sphere(4_000_000, SHELL_HIT_RADIUS, CollisionEntity::Shell(0)),
        sphere(4_050_000, SHELL_HIT_RADIUS, CollisionEntity::Shell(1)),
    ];
    assert_eq!(destroyed_spheres(&spheres), vec![false, false, true, true]);
    w.resolve_collisions(&spheres);
    assert_eq!(w.tanks.count(), 2);
    assert_eq!(w.shells.count(), 0);
    assert_eq!(live(&w, a), 0);
    assert_eq!(live(&w, b), 0);
}

#[test]
fn shells_of_a_dead_tank_fly_on_without_shooter() {
    let mut w = arena();
    let a = w.spawn_tank((), Brain::DumbAI);
    w.advance_clock(SHOT_COOLDOWN + 1);
    assert!(w.fire_step(a, false, 100, ()));
    w.destroy_tank(a);
    assert_eq!(w.shells.get(0).unwrap().shooter, None);
    let again = w.spawn_tank((), Brain::DumbAI);
    assert_eq!(again, a);
    assert_eq!(live(&w, again), 0);
    w.destroy_shell(0);
    assert_eq!(live(&w, again), 0);
    assert_eq!(w.shells.count(), 0);
}

#[test]
fn destroying_the_player_clears_the_player_id() {
    let mut w = arena();
    let p = w.start_round((), ());
    w.destroy_tank(p);
    assert_eq!(w.player, None);
    w.move_player(5);
    assert_eq!(w.tanks.count(), 1);
}

#[test]
fn poses_are_carried() {
    let mut w: World<u32, u32> = World::new();
    let a = w.spawn_tank(1, Brain::DumbAI);
    w.set_tank_pose(a, 2);
    assert_eq!(w.tanks.get(a).unwrap().pose, 2);
    w.advance_clock(SHOT_COOLDOWN + 1);
    assert!(w.fire_step(a, false, 100, 7));
    w.set_shell_pose(0, 8);
    assert_eq!(w.shells.get(0).unwrap().pose, 8);
    assert_eq!(w.shells.get(0).unwrap().spawn_time, SHOT_COOLDOWN + 1);
}
