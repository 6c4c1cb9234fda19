use vstd::prelude::*;

verus! {

// Units: simulated time is counted in microseconds; lengths in millionths of a
// world unit; angles in millionths of a radian.

/// Forward speed contributed by one held movement key, per second.
pub const TANK_SPEED: i64 = 4_000_000;

/// Turning rate contributed by one held turning key, per second.
pub const TANK_ROTATION_SPEED: i64 = 3_141_593;

/// Minimum time between two shots of one tank.
pub const SHOT_COOLDOWN: i64 = 50_000;

/// Radius of a tank's hit sphere.
pub const TANK_HIT_RADIUS: u32 = 400_000;

/// Most shells a tank may have alive at once, turbo fire aside.
pub const MAX_LIVE_SHELLS: usize = 5;

/// Index of the hull among a tank's bones.
pub const HULL_INDEX: usize = 0;

/// Index of the turret among a tank's bones.
pub const TURRET_INDEX: usize = 1;

/// Speed of a fired shell, per second.
pub const SHELL_VELOCITY: i64 = 6_000_000;

/// How long a shell lives.
pub const SHELL_LIFETIME: i64 = 4_000_000;

/// Radius of a shell's hit sphere.
pub const SHELL_HIT_RADIUS: u32 = 50_000;

/// What decides a tank's aim and fire intent each tick.
#[derive(PartialEq, Eq, Structural, Clone, Copy, Debug)]
pub enum Brain {
    PlayerInput,
    DumbAI,
}

/// A tank. `pose` is the kinematic state (position, heading, bone transforms)
/// that the renderer and the integrator own; the rules here only carry it.
pub struct Tank<P> {
    pub pose: P,
    /// Signed sum of the movement contributions currently held.
    pub speed: i64,
    /// Signed sum of the turning contributions currently held.
    pub rotating: i64,
    pub last_shot_time: i64,
    /// Number of this tank's shells still alive.
    pub live_shells: usize,
    pub firing: bool,
    pub brain: Brain,
}

/// A resting tank that has never fired.
pub open spec fn fresh_tank<P>(pose: P, brain: Brain) -> Tank<P> {
    Tank { pose, speed: 0, rotating: 0, last_shot_time: 0, live_shells: 0, firing: false, brain }
}

impl<P> Tank<P> {
    /// A resting tank that has never fired.
    pub fn new(pose: P, brain: Brain) -> (r: Self)
        ensures
            r == fresh_tank(pose, brain),
    {
        Tank { pose, speed: 0, rotating: 0, last_shot_time: 0, live_shells: 0, firing: false, brain }
    }
}

/// A fired shell. `shooter` is the id of the tank that fired it, or `None` once
/// that tank is gone.
pub struct Shell<Q> {
    pub pose: Q,
    pub spawn_time: i64,
    pub shooter: Option<usize>,
}

/// Whether a shell spawned at `spawn_time` has outlived its lifetime at time `now`.
pub open spec fn expired_at(spawn_time: i64, now: i64) -> bool {
    now - spawn_time > SHELL_LIFETIME
}

/// Whether a shell spawned at `spawn_time` has outlived its lifetime at time `now`.
pub fn shell_expired(spawn_time: i64, now: i64) -> (r: bool)
    ensures
        r == expired_at(spawn_time, now),
{
    (now as i128) - (spawn_time as i128) > SHELL_LIFETIME as i128
}

/// Whether a tank that last fired at `last_shot_time` has cooled down at time `now`.
pub open spec fn cooled_down(last_shot_time: i64, now: i64) -> bool {
    now - last_shot_time > SHOT_COOLDOWN
}

/// The outcome of a tank's fire check: whether it fires, and its `firing` flag afterwards.
pub open spec fn fire_outcome(
    firing: bool,
    secondary_held: bool,
    is_player: bool,
    now: i64,
    last_shot_time: i64,
    live_shells: usize,
    total_shells: usize,
    capacity: usize,
) -> (bool, bool) {
    if firing || secondary_held {
        let timer_ready = cooled_down(last_shot_time, now);
        let has_room = total_shells <= capacity;
        let under_cap = live_shells < MAX_LIVE_SHELLS;
        let turbo = is_player && secondary_held && timer_ready;
        (((timer_ready && under_cap) || turbo) && has_room, turbo)
    } else {
        (false, firing)
    }
}

/// Decides whether a tank fires this tick, and what its `firing` flag becomes.
/// `total_shells` is the number of shells alive, `capacity` how many the shell
/// buffer can draw.
pub fn decide_fire(
    firing: bool,
    secondary_held: bool,
    is_player: bool,
    now: i64,
    last_shot_time: i64,
    live_shells: usize,
    total_shells: usize,
    capacity: usize,
) -> (r: (bool, bool))
    ensures
        r == fire_outcome(firing, secondary_held, is_player, now, last_shot_time, live_shells, total_shells, capacity),
{
    if firing || secondary_held {
        let timer_ready = (now as i128) - (last_shot_time as i128) > SHOT_COOLDOWN as i128;
        let has_room = total_shells <= capacity;
        let under_cap = live_shells < MAX_LIVE_SHELLS;
        let turbo = is_player && secondary_held && timer_ready;
        (((timer_ready && under_cap) || turbo) && has_room, turbo)
    } else {
        (false, firing)
    }
}

/// A tank fires only once its cooldown has passed since its previous shot, turbo
/// fire included.
pub proof fn lemma_fire_needs_cooldown(
    firing: bool,
    secondary_held: bool,
    is_player: bool,
    now: i64,
    last_shot_time: i64,
    live_shells: usize,
    total_shells: usize,
    capacity: usize,
)
    ensures
        fire_outcome(firing, secondary_held, is_player, now, last_shot_time, live_shells, total_shells, capacity).0
            ==> now - last_shot_time > SHOT_COOLDOWN,
{
}

/// A tank fires past `MAX_LIVE_SHELLS` live shells only in turbo fire, which only the
/// player has, with the secondary button held.
pub proof fn lemma_fire_respects_cap(
    firing: bool,
    secondary_held: bool,
    is_player: bool,
    now: i64,
    last_shot_time: i64,
    live_shells: usize,
    total_shells: usize,
    capacity: usize,
)
    ensures
        ({
            let (fire, turbo) = fire_outcome(firing, secondary_held, is_player, now, last_shot_time, live_shells, total_shells, capacity);
            fire && live_shells >= MAX_LIVE_SHELLS ==> turbo && is_player && secondary_held
        }),
{
}

} // verus!
