use vstd::prelude::*;
use crate::entity::{
    Brain, SHOT_COOLDOWN, Shell, Tank, decide_fire, expired_at, fire_outcome, fresh_tank,
    lemma_fire_needs_cooldown, shell_expired,
};
use crate::slot_store::{SlotStore, deleted, first_free, inserted, lemma_free_from_bounds, occupied};

verus! {

/// Whether slot content `sh` is a shell fired by tank `t`.
pub open spec fn shot_by<Q>(sh: Option<Shell<Q>>, t: int) -> bool {
    match sh {
        Some(s) => s.shooter matches Some(k) && k as int == t,
        None => false,
    }
}

/// Number of shells in `s` fired by tank `t`.
pub open spec fn shells_of<Q>(s: Seq<Option<Shell<Q>>>, t: int) -> nat
    decreases s.len(),
{
    if s.len() == 0 {
        0
    } else {
        shells_of(s.drop_last(), t) + if shot_by(s.last(), t) { 1nat } else { 0nat }
    }
}

/// `v + d`, or `v` where the sum does not fit: how a held-key contribution is added.
pub open spec fn accumulated(v: i64, d: i64) -> i64 {
    if i64::MIN <= v + d <= i64::MAX {
        (v + d) as i64
    } else {
        v
    }
}

/// Adds a held-key contribution `d` to the accumulator `v`.
pub fn accumulate(v: i64, d: i64) -> (r: i64)
    ensures
        r == accumulated(v, d),
{
    match v.checked_add(d) {
        Some(sum) => sum,
        None => v,
    }
}

/// A press contribution followed by its matching release contribution leaves the
/// accumulator exactly where it was.
pub proof fn lemma_accumulator_cancels(v: i64, d: i64, e: i64)
    requires
        e == -d,
        i64::MIN <= v + d <= i64::MAX,
    ensures
        accumulated(accumulated(v, d), e) == v,
{
}

/// The tanks after the player's speed takes contribution `delta`.
pub open spec fn player_moved<P>(tanks: Seq<Option<Tank<P>>>, player: Option<usize>, delta: i64) -> Seq<Option<Tank<P>>> {
    match player {
        Some(p) => tanks.update(p as int, Some(Tank { speed: accumulated(tanks[p as int].unwrap().speed, delta), ..tanks[p as int].unwrap() })),
        None => tanks,
    }
}

/// The tanks after the player's turning rate takes contribution `delta`.
pub open spec fn player_turned<P>(tanks: Seq<Option<Tank<P>>>, player: Option<usize>, delta: i64) -> Seq<Option<Tank<P>>> {
    match player {
        Some(p) => tanks.update(p as int, Some(Tank { rotating: accumulated(tanks[p as int].unwrap().rotating, delta), ..tanks[p as int].unwrap() })),
        None => tanks,
    }
}

/// The tanks after the player's tank is brought to rest.
pub open spec fn player_halted<P>(tanks: Seq<Option<Tank<P>>>, player: Option<usize>) -> Seq<Option<Tank<P>>> {
    match player {
        Some(p) => tanks.update(p as int, Some(Tank { speed: 0, rotating: 0, ..tanks[p as int].unwrap() })),
        None => tanks,
    }
}

/// The tanks after the player's tank is told to fire.
pub open spec fn player_fire_intent<P>(tanks: Seq<Option<Tank<P>>>, player: Option<usize>) -> Seq<Option<Tank<P>>> {
    match player {
        Some(p) => tanks.update(p as int, Some(Tank { firing: true, ..tanks[p as int].unwrap() })),
        None => tanks,
    }
}

/// The player's tank at the start of a round: at rest, and cooled down so that it can
/// fire at once.
pub open spec fn round_player<P>(pose: P) -> Tank<P> {
    Tank { last_shot_time: -SHOT_COOLDOWN as i64, ..fresh_tank(pose, Brain::PlayerInput) }
}

/// Shell slot content `sh` after the expiry pass at time `now`.
pub open spec fn after_expiry<Q>(sh: Option<Shell<Q>>, now: i64) -> Option<Shell<Q>> {
    if sh is Some && expired_at(sh.unwrap().spawn_time, now) {
        None
    } else {
        sh
    }
}

/// A tank with its shell count cleared: what stays fixed while shells come and go.
pub open spec fn body<P>(t: Tank<P>) -> Tank<P> {
    Tank { live_shells: 0, ..t }
}

/// Two tank slot sequences that agree on everything but the shell counts.
pub open spec fn tanks_agree<P>(a: Seq<Option<Tank<P>>>, b: Seq<Option<Tank<P>>>) -> bool {
    &&& a.len() == b.len()
    &&& forall|t: int|
        0 <= t < a.len() ==> (#[trigger] a[t] is Some) == (b[t] is Some) && (a[t] is Some ==> body(
            a[t].unwrap(),
        ) == body(b[t].unwrap()))
}

/// Shell slot content `sh` after tank `t` is gone: its shells keep flying, fired by no one.
pub open spec fn orphaned<Q>(sh: Option<Shell<Q>>, t: int) -> Option<Shell<Q>> {
    if shot_by(sh, t) {
        Some(Shell { shooter: None, ..sh.unwrap() })
    } else {
        sh
    }
}

pub proof fn lemma_shells_of_update<Q>(s: Seq<Option<Shell<Q>>>, i: int, v: Option<Shell<Q>>, t: int)
    requires
        0 <= i < s.len(),
    ensures
        shells_of(s.update(i, v), t) + (if shot_by(s[i], t) { 1int } else { 0int })
            == shells_of(s, t) + (if shot_by(v, t) { 1int } else { 0int }),
    decreases s.len(),
{
    let u = s.update(i, v);
    if i < s.len() - 1 {
        assert(u.drop_last() =~= s.drop_last().update(i, v));
        lemma_shells_of_update(s.drop_last(), i, v, t);
    } else {
        assert(u.drop_last() =~= s.drop_last());
    }
}

pub proof fn lemma_shells_of_none<Q>(s: Seq<Option<Shell<Q>>>, t: int)
    requires
        forall|i: int| 0 <= i < s.len() ==> !shot_by(#[trigger] s[i], t),
    ensures
        shells_of(s, t) == 0,
    decreases s.len(),
{
    if s.len() > 0 {
        lemma_shells_of_none(s.drop_last(), t);
    }
}

pub proof fn lemma_shells_of_le_len<Q>(s: Seq<Option<Shell<Q>>>, t: int)
    ensures
        shells_of(s, t) <= s.len(),
    decreases s.len(),
{
    if s.len() > 0 {
        lemma_shells_of_le_len(s.drop_last(), t);
    }
}

pub proof fn lemma_shells_of_inserted<Q>(s: Seq<Option<Shell<Q>>>, sh: Shell<Q>, t: int)
    ensures
        shells_of(inserted(s, sh), t) == shells_of(s, t) + (if shot_by(Some(sh), t) { 1int } else { 0int }),
{
    lemma_free_from_bounds(s, 0);
    if first_free(s) == s.len() {
        assert(inserted(s, sh).drop_last() =~= s);
    } else {
        lemma_shells_of_update(s, first_free(s), Some(sh), t);
    }
}

/// The arena's entities and clock.
pub struct World<P, Q> {
    pub tanks: SlotStore<Tank<P>>,
    pub shells: SlotStore<Shell<Q>>,
    /// Simulated time; it only advances while the game is being played.
    pub elapsed_time: i64,
    /// The id of the player's tank, while that tank exists.
    pub player: Option<usize>,
}

impl<P, Q> World<P, Q> {
    /// Every tank's `live_shells` is the number of live shells it fired, every
    /// shooter of a live shell is a live tank, and the player id names a live tank.
    pub open spec fn wf(&self) -> bool {
        &&& self.tanks.wf()
        &&& self.shells.wf()
        &&& self.elapsed_time >= 0
        &&& forall|t: int|
            0 <= t < self.tanks@.len() && (#[trigger] self.tanks@[t]) is Some
                ==> self.tanks@[t].unwrap().live_shells == shells_of(self.shells@, t)
        &&& forall|i: int|
            0 <= i < self.shells@.len() && (#[trigger] self.shells@[i]) is Some
                && self.shells@[i].unwrap().shooter is Some ==> {
                let t = self.shells@[i].unwrap().shooter.unwrap() as int;
                0 <= t < self.tanks@.len() && self.tanks@[t] is Some
            }
        &&& self.player matches Some(p) ==> p < self.tanks@.len() && self.tanks@[p as int] is Some
    }

    /// An empty arena at time zero.
    pub fn new() -> (r: Self)
        ensures
            r.wf(),
            r.tanks@.len() == 0,
            r.shells@.len() == 0,
            r.elapsed_time == 0,
            r.player is None,
    {
        World { tanks: SlotStore::new(), shells: SlotStore::new(), elapsed_time: 0, player: None }
    }

    /// Adds a new resting tank and returns its id.
    pub fn spawn_tank(&mut self, pose: P, brain: Brain) -> (id: usize)
        requires
            old(self).wf(),
            old(self).tanks@.len() < usize::MAX,
        ensures
            final(self).wf(),
            id == first_free(old(self).tanks@),
            final(self).tanks@ == inserted(old(self).tanks@, fresh_tank(pose, brain)),
            final(self).shells@ == old(self).shells@,
            final(self).elapsed_time == old(self).elapsed_time,
            final(self).player == old(self).player,
    {
        self.insert_tank(Tank::new(pose, brain))
    }

    fn insert_tank(&mut self, tank: Tank<P>) -> (id: usize)
        requires
            old(self).wf(),
            old(self).tanks@.len() < usize::MAX,
            tank.live_shells == 0,
        ensures
            final(self).wf(),
            id == first_free(old(self).tanks@),
            final(self).tanks@ == inserted(old(self).tanks@, tank),
            final(self).shells@ == old(self).shells@,
            final(self).elapsed_time == old(self).elapsed_time,
            final(self).player == old(self).player,
    {
        proof {
            lemma_free_from_bounds(self.tanks@, 0);
        }
        let ghost before = self.tanks@;
        let id = self.tanks.insert(tank);
        proof {
            assert forall|i: int| 0 <= i < self.shells@.len() implies !shot_by(
                #[trigger] self.shells@[i],
                id as int,
            ) by {
                if self.shells@[i] is Some && self.shells@[i].unwrap().shooter is Some {
                    let t = self.shells@[i].unwrap().shooter.unwrap() as int;
                    assert(0 <= t < before.len() && before[t] is Some);
                }
            }
            lemma_shells_of_none(self.shells@, id as int);
            assert forall|t: int|
                0 <= t < self.tanks@.len() && (#[trigger] self.tanks@[t]) is Some
                    implies self.tanks@[t].unwrap().live_shells == shells_of(self.shells@, t) by {
                if t != id {
                    assert(self.tanks@[t] == before[t]);
                }
            }
        }
        id
    }

    /// Removes shell `id`, first taking it off its shooter's count when the shooter is
    /// alive. A no-op on an empty slot.
    pub fn destroy_shell(&mut self, id: usize)
        requires
            old(self).wf(),
        ensures
            final(self).wf(),
            final(self).shells@ == deleted(old(self).shells@, id as int),
            tanks_agree(old(self).tanks@, final(self).tanks@),
            final(self).elapsed_time == old(self).elapsed_time,
            final(self).player == old(self).player,
    {
        let ghost s0 = self.shells@;
        let ghost t0 = self.tanks@;
        let taken = self.shells.take(id);
        match taken {
            None => {
                proof {
                    assert(self.shells@ =~= s0);
                }
            },
            Some(shell) => {
                proof {
                    lemma_shells_of_update(s0, id as int, None, 0);
                }
                match shell.shooter {
                    None => {
                        proof {
                            assert forall|t: int|
                                0 <= t < self.tanks@.len() && (#[trigger] self.tanks@[t]) is Some
                                    implies self.tanks@[t].unwrap().live_shells == shells_of(
                                    self.shells@,
                                    t,
                                ) by {
                                lemma_shells_of_update(s0, id as int, None, t);
                            }
                        }
                    },
                    Some(t) => {
                        proof {
                            assert(s0[id as int] is Some);
                            assert(t0[t as int] is Some);
                        }
                        let tank_opt = self.tanks.take(t);
                        match tank_opt {
                            None => {},
                            Some(tank) => {
                                let mut tank = tank;
                                proof {
                                    lemma_shells_of_update(s0, id as int, None, t as int);
                                    assert(shot_by(s0[id as int], t as int));
                                    assert(t0[t as int] == Some(tank));
                                    assert(tank.live_shells == shells_of(s0, t as int));
                                }
                                tank.live_shells = tank.live_shells - 1;
                                self.tanks.put(t, tank);
                                proof {
                                    assert(self.tanks@ =~= t0.update(t as int, Some(tank)));
                                    assert forall|u: int|
                                        0 <= u < self.tanks@.len() && (#[trigger] self.tanks@[u]) is Some
                                            implies self.tanks@[u].unwrap().live_shells == shells_of(
                                            self.shells@,
                                            u,
                                        ) by {
                                        lemma_shells_of_update(s0, id as int, None, u);
                                        assert(self.shells@ == s0.update(id as int, None));
                                        if u != t as int {
                                            assert(self.tanks@[u] == t0[u]);
                                            assert(t0[u] is Some);
                                            assert(s0[id as int].unwrap().shooter == Some(t));
                                            assert(!shot_by(s0[id as int], u));
                                        }
                                    }
                                }
                            },
                        }
                    },
                }
                proof {
                    assert forall|i: int|
                        0 <= i < self.shells@.len() && (#[trigger] self.shells@[i]) is Some
                            && self.shells@[i].unwrap().shooter is Some implies {
                            let t = self.shells@[i].unwrap().shooter.unwrap() as int;
                            0 <= t < self.tanks@.len() && self.tanks@[t] is Some
                        } by {
                        assert(self.shells@[i] == s0[i]);
                        let t = s0[i].unwrap().shooter.unwrap() as int;
                        assert(t0[t] is Some);
                    }
                }
            },
        }
    }

    /// Removes tank `id`. Its shells stay in flight with no shooter, and the player id
    /// is cleared when it named this tank. A no-op on an empty slot.
    pub fn destroy_tank(&mut self, id: usize)
        requires
            old(self).wf(),
        ensures
            final(self).wf(),
            final(self).tanks@ == deleted(old(self).tanks@, id as int),
            final(self).shells@.len() == old(self).shells@.len(),
            forall|i: int|
                0 <= i < old(self).shells@.len() ==> #[trigger] final(self).shells@[i] == orphaned(
                    old(self).shells@[i],
                    id as int,
                ),
            final(self).elapsed_time == old(self).elapsed_time,
            final(self).player == (if old(self).player == Some(id) {
                None
            } else {
                old(self).player
            }),
    {
        let ghost s0 = self.shells@;
        let ghost t0 = self.tanks@;
        let _gone = self.tanks.take(id);
        if self.player == Some(id) {
            self.player = None;
        }
        let n = self.shells.len();
        let mut i: usize = 0;
        while i < n
            invariant
                n == s0.len(),
                0 <= i <= n,
                self.tanks.wf(),
                self.shells.wf(),
                self.elapsed_time == old(self).elapsed_time,
                self.elapsed_time >= 0,
                self.player == (if old(self).player == Some(id) {
                    None
                } else {
                    old(self).player
                }),
                self.player matches Some(p) ==> p < self.tanks@.len() && self.tanks@[p as int] is Some,
                self.tanks@ == deleted(t0, id as int),
                self.shells@.len() == n,
                forall|j: int| 0 <= j < i ==> #[trigger] self.shells@[j] == orphaned(s0[j], id as int),
                forall|j: int| i <= j < n ==> #[trigger] self.shells@[j] == s0[j],
                forall|t: int|
                    0 <= t < self.tanks@.len() && (#[trigger] self.tanks@[t]) is Some
                        ==> self.tanks@[t].unwrap().live_shells == shells_of(self.shells@, t),
                forall|j: int|
                    0 <= j < n && (#[trigger] self.shells@[j]) is Some
                        && self.shells@[j].unwrap().shooter is Some
                        && self.shells@[j].unwrap().shooter != Some(id) ==> {
                        let t = self.shells@[j].unwrap().shooter.unwrap() as int;
                        0 <= t < self.tanks@.len() && self.tanks@[t] is Some
                    },
            decreases n - i,
        {
            let owned = match self.shells.get(i) {
                Some(sh) => sh.shooter == Some(id),
                None => false,
            };
            if owned {
                let ghost before = self.shells@;
                let taken = self.shells.take(i);
                match taken {
                    Some(shell) => {
                        let freed = Shell { pose: shell.pose, spawn_time: shell.spawn_time, shooter: None };
                        self.shells.put(i, freed);
                        proof {
                            assert(self.shells@ == before.update(i as int, Some(freed)));
                            assert forall|t: int|
                                0 <= t < self.tanks@.len() && (#[trigger] self.tanks@[t]) is Some
                                    implies self.tanks@[t].unwrap().live_shells == shells_of(
                                    self.shells@,
                                    t,
                                ) by {
                                lemma_shells_of_update(before, i as int, Some(freed), t);
                                assert(t != id as int);
                            }
                        }
                    },
                    None => {},
                }
            }
            i = i + 1;
        }
        proof {
            assert forall|t: int|
                0 <= t < self.tanks@.len() && (#[trigger] self.tanks@[t]) is Some
                    implies self.tanks@[t].unwrap().live_shells == shells_of(self.shells@, t) by {
            }
            assert forall|j: int|
                0 <= j < self.shells@.len() && (#[trigger] self.shells@[j]) is Some
                    && self.shells@[j].unwrap().shooter is Some implies {
                    let t = self.shells@[j].unwrap().shooter.unwrap() as int;
                    0 <= t < self.tanks@.len() && self.tanks@[t] is Some
                } by {
                assert(self.shells@[j] == orphaned(s0[j], id as int));
            }
        }
    }

    /// Advances the clock by `dt` microseconds, stopping at the largest time representable.
    pub fn advance_clock(&mut self, dt: i64)
        requires
            old(self).wf(),
            dt >= 0,
        ensures
            final(self).wf(),
            final(self).elapsed_time == if old(self).elapsed_time + dt <= i64::MAX {
                old(self).elapsed_time + dt
            } else {
                i64::MAX as int
            },
            final(self).tanks@ == old(self).tanks@,
            final(self).shells@ == old(self).shells@,
            final(self).player == old(self).player,
    {
        if dt > i64::MAX - self.elapsed_time {
            self.elapsed_time = i64::MAX;
        } else {
            self.elapsed_time = self.elapsed_time + dt;
        }
    }

    /// Replaces the pose of tank `id`; a no-op on an empty slot.
    pub fn set_tank_pose(&mut self, id: usize, pose: P)
        requires
            old(self).wf(),
        ensures
            final(self).wf(),
            final(self).tanks@ == (if id < old(self).tanks@.len() && old(self).tanks@[id as int] is Some {
                old(self).tanks@.update(id as int, Some(Tank { pose, ..old(self).tanks@[id as int].unwrap() }))
            } else {
                old(self).tanks@
            }),
            final(self).shells@ == old(self).shells@,
            final(self).elapsed_time == old(self).elapsed_time,
            final(self).player == old(self).player,
    {
        let ghost w0 = *self;
        if self.tanks.contains(id) {
            let taken = self.tanks.take(id);
            if let Some(tank) = taken {
                let edited = Tank { pose, ..tank };
                self.tanks.put(id, edited);
                proof {
                    assert(self.tanks@ =~= w0.tanks@.update(id as int, Some(edited)));
                    lemma_wf_after_tank_edit(w0, *self, id as int);
                }
            }
        }
    }

    /// Replaces the pose of shell `id`; a no-op on an empty slot.
    pub fn set_shell_pose(&mut self, id: usize, pose: Q)
        requires
            old(self).wf(),
        ensures
            final(self).wf(),
            final(self).shells@ == (if id < old(self).shells@.len() && old(self).shells@[id as int] is Some {
                old(self).shells@.update(id as int, Some(Shell { pose, ..old(self).shells@[id as int].unwrap() }))
            } else {
                old(self).shells@
            }),
            final(self).tanks@ == old(self).tanks@,
            final(self).elapsed_time == old(self).elapsed_time,
            final(self).player == old(self).player,
    {
        let ghost s0 = self.shells@;
        if self.shells.contains(id) {
            let taken = self.shells.take(id);
            if let Some(shell) = taken {
                let edited = Shell { pose, ..shell };
                self.shells.put(id, edited);
                proof {
                    assert(self.shells@ == s0.update(id as int, Some(edited)));
                    assert forall|t: int|
                        0 <= t < self.tanks@.len() && (#[trigger] self.tanks@[t]) is Some
                            implies self.tanks@[t].unwrap().live_shells == shells_of(self.shells@, t) by {
                        lemma_shells_of_update(s0, id as int, Some(edited), t);
                    }
                    assert forall|i: int|
                        0 <= i < self.shells@.len() && (#[trigger] self.shells@[i]) is Some
                            && self.shells@[i].unwrap().shooter is Some implies {
                            let t = self.shells@[i].unwrap().shooter.unwrap() as int;
                            0 <= t < self.tanks@.len() && self.tanks@[t] is Some
                        } by {
                        assert(s0[i] is Some);
                    }
                }
            }
        }
    }

    /// Adds `delta` to the player tank's speed; a no-op without a player tank, or where
    /// the sum would not fit.
    pub fn move_player(&mut self, delta: i64)
        requires
            old(self).wf(),
        ensures
            final(self).wf(),
            final(self).tanks@ == player_moved(old(self).tanks@, old(self).player, delta),
            final(self).shells@ == old(self).shells@,
            final(self).elapsed_time == old(self).elapsed_time,
            final(self).player == old(self).player,
    {
        let ghost w0 = *self;
        if let Some(p) = self.player {
            let taken = self.tanks.take(p);
            if let Some(tank) = taken {
                let speed = accumulate(tank.speed, delta);
                let edited = Tank { speed, ..tank };
                self.tanks.put(p, edited);
                proof {
                    assert(self.tanks@ =~= w0.tanks@.update(p as int, Some(edited)));
                    lemma_wf_after_tank_edit(w0, *self, p as int);
                }
            }
        }
    }

    /// Adds `delta` to the player tank's turning rate; a no-op without a player tank, or
    /// where the sum would not fit.
    pub fn rotate_player(&mut self, delta: i64)
        requires
            old(self).wf(),
        ensures
            final(self).wf(),
            final(self).tanks@ == player_turned(old(self).tanks@, old(self).player, delta),
            final(self).shells@ == old(self).shells@,
            final(self).elapsed_time == old(self).elapsed_time,
            final(self).player == old(self).player,
    {
        let ghost w0 = *self;
        if let Some(p) = self.player {
            let taken = self.tanks.take(p);
            if let Some(tank) = taken {
                let rotating = accumulate(tank.rotating, delta);
                let edited = Tank { rotating, ..tank };
                self.tanks.put(p, edited);
                proof {
                    assert(self.tanks@ =~= w0.tanks@.update(p as int, Some(edited)));
                    lemma_wf_after_tank_edit(w0, *self, p as int);
                }
            }
        }
    }

    /// Brings the player tank to rest: speed and turning rate become zero.
    pub fn halt_player(&mut self)
        requires
            old(self).wf(),
        ensures
            final(self).wf(),
            final(self).tanks@ == player_halted(old(self).tanks@, old(self).player),
            final(self).shells@ == old(self).shells@,
            final(self).elapsed_time == old(self).elapsed_time,
            final(self).player == old(self).player,
    {
        let ghost w0 = *self;
        if let Some(p) = self.player {
            let taken = self.tanks.take(p);
            if let Some(tank) = taken {
                let edited = Tank { speed: 0, rotating: 0, ..tank };
                self.tanks.put(p, edited);
                proof {
                    assert(self.tanks@ =~= w0.tanks@.update(p as int, Some(edited)));
                    lemma_wf_after_tank_edit(w0, *self, p as int);
                }
            }
        }
    }

    /// Raises the player tank's `firing` flag.
    pub fn set_player_firing(&mut self)
        requires
            old(self).wf(),
        ensures
            final(self).wf(),
            final(self).tanks@ == player_fire_intent(old(self).tanks@, old(self).player),
            final(self).shells@ == old(self).shells@,
            final(self).elapsed_time == old(self).elapsed_time,
            final(self).player == old(self).player,
    {
        let ghost w0 = *self;
        if let Some(p) = self.player {
            let taken = self.tanks.take(p);
            if let Some(tank) = taken {
                let edited = Tank { firing: true, ..tank };
                self.tanks.put(p, edited);
                proof {
                    assert(self.tanks@ =~= w0.tanks@.update(p as int, Some(edited)));
                    lemma_wf_after_tank_edit(w0, *self, p as int);
                }
            }
        }
    }

    /// Runs tank `id`'s fire check for this tick: an AI tank always wants to fire; the
    /// player's secondary button held makes every tank check. When the check passes, a
    /// shell with pose `shell_pose` is spawned for the tank, which records the shot.
    /// `capacity` is how many shells the renderer can draw. A no-op on an empty slot.
    pub fn fire_step(&mut self, id: usize, secondary_held: bool, capacity: usize, shell_pose: Q) -> (fired: bool)
        requires
            old(self).wf(),
            old(self).shells@.len() < usize::MAX,
        ensures
            final(self).wf(),
            final(self).elapsed_time == old(self).elapsed_time,
            final(self).player == old(self).player,
            !(id < old(self).tanks@.len() && old(self).tanks@[id as int] is Some) ==> {
                &&& !fired
                &&& final(self).tanks@ == old(self).tanks@
                &&& final(self).shells@ == old(self).shells@
            },
            id < old(self).tanks@.len() && old(self).tanks@[id as int] is Some ==> {
                let t = old(self).tanks@[id as int].unwrap();
                let now = old(self).elapsed_time;
                let (f, after) = fire_outcome(
                    t.firing || t.brain == Brain::DumbAI,
                    secondary_held,
                    old(self).player == Some(id),
                    now,
                    t.last_shot_time,
                    t.live_shells,
                    occupied(old(self).shells@) as usize,
                    capacity,
                );
                &&& fired == f
                &&& final(self).tanks@ == old(self).tanks@.update(id as int, Some(Tank {
                    firing: after,
                    last_shot_time: if f { now } else { t.last_shot_time },
                    live_shells: if f { (t.live_shells + 1) as usize } else { t.live_shells },
                    ..t
                }))
                &&& final(self).shells@ == if f {
                    inserted(old(self).shells@, Shell { pose: shell_pose, spawn_time: now, shooter: Some(id) })
                } else {
                    old(self).shells@
                }
            },
            fired ==> old(self).elapsed_time - old(self).tanks@[id as int].unwrap().last_shot_time
                > SHOT_COOLDOWN,
    {
        if !self.tanks.contains(id) {
            return false;
        }
        let ghost w0 = *self;
        let taken = self.tanks.take(id);
        let mut tank = match taken {
            Some(t) => t,
            None => {
                return false;
            },
        };
        if tank.brain == Brain::DumbAI {
            tank.firing = true;
        }
        let total = self.shells.count();
        let (fire, after) = decide_fire(
            tank.firing,
            secondary_held,
            self.player == Some(id),
            self.elapsed_time,
            tank.last_shot_time,
            tank.live_shells,
            total,
            capacity,
        );
        proof {
            lemma_fire_needs_cooldown(
                tank.firing,
                secondary_held,
                self.player == Some(id),
                self.elapsed_time,
                tank.last_shot_time,
                tank.live_shells,
                total,
                capacity,
            );
        }
        if fire {
            proof {
                lemma_shells_of_le_len(w0.shells@, id as int);
            }
            tank.last_shot_time = self.elapsed_time;
            tank.live_shells = tank.live_shells + 1;
            let shell = Shell { pose: shell_pose, spawn_time: self.elapsed_time, shooter: Some(id) };
            let ghost sh = shell;
            self.shells.insert(shell);
            proof {
                assert forall|t: int| true implies #[trigger] shells_of(self.shells@, t) == shells_of(
                    w0.shells@,
                    t,
                ) + (if shot_by(Some(sh), t) { 1int } else { 0int }) by {
                    lemma_shells_of_inserted(w0.shells@, sh, t);
                }
            }
        }
        tank.firing = after;
        self.tanks.put(id, tank);
        proof {
            assert(self.tanks@ =~= w0.tanks@.update(id as int, Some(tank)));
            lemma_free_from_bounds(w0.shells@, 0);
            assert forall|t: int|
                0 <= t < self.tanks@.len() && (#[trigger] self.tanks@[t]) is Some
                    implies self.tanks@[t].unwrap().live_shells == shells_of(self.shells@, t) by {
                assert(w0.tanks@[t] is Some);
            }
            assert forall|i: int|
                0 <= i < self.shells@.len() && (#[trigger] self.shells@[i]) is Some
                    && self.shells@[i].unwrap().shooter is Some implies {
                    let t = self.shells@[i].unwrap().shooter.unwrap() as int;
                    0 <= t < self.tanks@.len() && self.tanks@[t] is Some
                } by {
                if i < w0.shells@.len() && w0.shells@[i] is Some {
                    assert(w0.shells@[i] is Some);
                }
            }
        }
        fire
    }

    /// Removes every shell that has outlived its lifetime, taking each off its
    /// shooter's count.
    pub fn expire_shells(&mut self)
        requires
            old(self).wf(),
        ensures
            final(self).wf(),
            final(self).shells@.len() == old(self).shells@.len(),
            forall|i: int|
                0 <= i < old(self).shells@.len() ==> #[trigger] final(self).shells@[i] == after_expiry(
                    old(self).shells@[i],
                    old(self).elapsed_time,
                ),
            tanks_agree(old(self).tanks@, final(self).tanks@),
            final(self).elapsed_time == old(self).elapsed_time,
            final(self).player == old(self).player,
    {
        let ghost s0 = self.shells@;
        let ghost t0 = self.tanks@;
        let now = self.elapsed_time;
        let n = self.shells.len();
        let mut i: usize = 0;
        while i < n
            invariant
                self.wf(),
                n == s0.len(),
                0 <= i <= n,
                self.elapsed_time == now,
                now == old(self).elapsed_time,
                self.player == old(self).player,
                self.shells@.len() == n,
                forall|j: int|
                    0 <= j < i ==> #[trigger] self.shells@[j] == if s0[j] is Some && expired_at(
                        s0[j].unwrap().spawn_time,
                        now,
                    ) {
                        None
                    } else {
                        s0[j]
                    },
                forall|j: int| i <= j < n ==> #[trigger] self.shells@[j] == s0[j],
                tanks_agree(t0, self.tanks@),
            decreases n - i,
        {
            let expired = match self.shells.get(i) {
                Some(sh) => shell_expired(sh.spawn_time, now),
                None => false,
            };
            if expired {
                let ghost before = self.tanks@;
                self.destroy_shell(i);
                proof {
                    assert forall|t: int| 0 <= t < t0.len() implies (#[trigger] t0[t] is Some) == (
                    self.tanks@[t] is Some) && (t0[t] is Some ==> body(t0[t].unwrap()) == body(
                        self.tanks@[t].unwrap(),
                    )) by {
                        assert(before[t] is Some == t0[t] is Some);
                    }
                }
            }
            i = i + 1;
        }
    }

    /// Removes every tank and shell.
    pub fn clear(&mut self)
        requires
            old(self).wf(),
        ensures
            final(self).wf(),
            final(self).tanks@.len() == 0,
            final(self).shells@.len() == 0,
            final(self).player is None,
            final(self).elapsed_time == old(self).elapsed_time,
    {
        self.tanks.clear();
        self.shells.clear();
        self.player = None;
    }

    /// Starts a round: the clock goes back to zero, and a player tank, ready to fire at
    /// once, and an AI tank are added. Returns the player tank's id.
    pub fn start_round(&mut self, player_pose: P, enemy_pose: P) -> (id: usize)
        requires
            old(self).wf(),
            old(self).tanks@.len() < usize::MAX - 1,
        ensures
            final(self).wf(),
            final(self).elapsed_time == 0,
            id == first_free(old(self).tanks@),
            final(self).player == Some(id),
            final(self).tanks@ == inserted(
                inserted(old(self).tanks@, round_player(player_pose)),
                fresh_tank(enemy_pose, Brain::DumbAI),
            ),
            final(self).shells@ == old(self).shells@,
    {
        self.elapsed_time = 0;
        let mut tank = Tank::new(player_pose, Brain::PlayerInput);
        tank.last_shot_time = -SHOT_COOLDOWN;
        proof {
            lemma_free_from_bounds(self.tanks@, 0);
        }
        let id = self.insert_tank(tank);
        self.player = Some(id);
        let _enemy = self.insert_tank(Tank::new(enemy_pose, Brain::DumbAI));
        id
    }
}

/// In a well-formed arena, which every operation above preserves, each live tank's
/// `live_shells` is exactly the number of live shells whose shooter it is.
pub proof fn lemma_live_shells_counted<P, Q>(w: World<P, Q>, t: int)
    requires
        w.wf(),
        0 <= t < w.tanks@.len(),
        w.tanks@[t] is Some,
    ensures
        w.tanks@[t].unwrap().live_shells == shells_of(w.shells@, t),
{
}

/// Editing one live tank without touching its shell count keeps the arena well formed.
proof fn lemma_wf_after_tank_edit<P, Q>(w0: World<P, Q>, w1: World<P, Q>, id: int)
    requires
        w0.wf(),
        w1.tanks.wf(),
        w1.shells.wf(),
        0 <= id < w0.tanks@.len(),
        w0.tanks@[id] is Some,
        w1.tanks@ == w0.tanks@.update(id, w1.tanks@[id]),
        w1.tanks@[id] is Some,
        w1.tanks@[id].unwrap().live_shells == w0.tanks@[id].unwrap().live_shells,
        w1.shells@ == w0.shells@,
        w1.elapsed_time == w0.elapsed_time,
        w1.player == w0.player,
    ensures
        w1.wf(),
{
    assert forall|t: int|
        0 <= t < w1.tanks@.len() && (#[trigger] w1.tanks@[t]) is Some
            implies w1.tanks@[t].unwrap().live_shells == shells_of(w1.shells@, t) by {
        assert(w0.tanks@[t] is Some);
    }
    assert forall|i: int|
        0 <= i < w1.shells@.len() && (#[trigger] w1.shells@[i]) is Some
            && w1.shells@[i].unwrap().shooter is Some implies {
            let t = w1.shells@[i].unwrap().shooter.unwrap() as int;
            0 <= t < w1.tanks@.len() && w1.tanks@[t] is Some
        } by {
        assert(w0.shells@[i] is Some);
    }
}

} // verus!
