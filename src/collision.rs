use vstd::prelude::*;
use crate::entity::{SHELL_LIFETIME, Shell};
use crate::world::{World, after_expiry, body, orphaned, tanks_agree};

verus! {

/// What a hit sphere stands for: a tank or a shell, by id.
#[derive(PartialEq, Eq, Structural, Clone, Copy, Debug)]
pub enum CollisionEntity {
    Tank(usize),
    Shell(usize),
}

/// A hit sphere, rebuilt every tick. Coordinates and radius are in millionths of a
/// world unit.
#[derive(Clone, Copy, Debug)]
pub struct CollisionSphere {
    pub x: i32,
    pub y: i32,
    pub z: i32,
    pub radius: u32,
    pub target: CollisionEntity,
}

impl CollisionSphere {
    pub fn new(origin: (i32, i32, i32), radius: u32, target: CollisionEntity) -> (r: Self)
        ensures
            r.x == origin.0,
            r.y == origin.1,
            r.z == origin.2,
            r.radius == radius,
            r.target == target,
    {
        CollisionSphere { x: origin.0, y: origin.1, z: origin.2, radius, target }
    }
}

/// Whether two spheres touch or overlap: the distance of their centres is at most the
/// sum of their radii.
pub open spec fn overlaps(a: CollisionSphere, b: CollisionSphere) -> bool {
    let dx = a.x - b.x;
    let dy = a.y - b.y;
    let dz = a.z - b.z;
    let r = a.radius + b.radius;
    dx * dx + dy * dy + dz * dz <= r * r
}

fn square(d: i128) -> (r: i128)
    requires
        -0x2_0000_0000 <= d <= 0x2_0000_0000,
    ensures
        r == d * d,
        0 <= r <= 0x4_0000_0000_0000_0000,
{
    proof {
        assert(0 <= d * d <= 0x4_0000_0000_0000_0000) by (nonlinear_arith)
            requires
                -0x2_0000_0000 <= d <= 0x2_0000_0000,
        ;
    }
    d * d
}

/// Whether two spheres touch or overlap.
pub fn spheres_overlap(a: &CollisionSphere, b: &CollisionSphere) -> (r: bool)
    ensures
        r == overlaps(*a, *b),
{
    let dx = square(a.x as i128 - b.x as i128);
    let dy = square(a.y as i128 - b.y as i128);
    let dz = square(a.z as i128 - b.z as i128);
    let reach = square(a.radius as i128 + b.radius as i128);
    dx + dy + dz <= reach
}

/// Whether sphere `a` is destroyed by touching `b`: a shell is destroyed by anything it
/// touches, a tank only by a shell.
pub open spec fn destroys(a: CollisionSphere, b: CollisionSphere) -> bool {
    overlaps(a, b) && (a.target is Shell || b.target is Shell)
}

/// Whether sphere `i` of `sp` is destroyed by some other sphere of `sp`.
pub open spec fn sphere_destroyed(sp: Seq<CollisionSphere>, i: int) -> bool {
    exists|j: int| 0 <= j < sp.len() && j != i && #[trigger] destroys(sp[i], sp[j])
}

/// Whether some sphere of `spheres` other than sphere `i` destroys it.
pub fn is_destroyed(spheres: &Vec<CollisionSphere>, i: usize) -> (r: bool)
    requires
        i < spheres@.len(),
    ensures
        r == sphere_destroyed(spheres@, i as int),
{
    let n = spheres.len();
    let i_shell = match spheres[i].target {
        CollisionEntity::Shell(_) => true,
        CollisionEntity::Tank(_) => false,
    };
    let mut j: usize = 0;
    while j < n
        invariant
            n == spheres@.len(),
            i < n,
            0 <= j <= n,
            i_shell == spheres@[i as int].target is Shell,
            forall|y: int| 0 <= y < j && y != i ==> !#[trigger] destroys(spheres@[i as int], spheres@[y]),
        decreases n - j,
    {
        if j != i && spheres_overlap(&spheres[i], &spheres[j]) {
            let j_shell = match spheres[j].target {
                CollisionEntity::Shell(_) => true,
                CollisionEntity::Tank(_) => false,
            };
            if i_shell || j_shell {
                proof {
                    assert(destroys(spheres@[i as int], spheres@[j as int]));
                }
                return true;
            }
        }
        j = j + 1;
    }
    false
}

/// For each sphere, whether one of the others destroys it.
pub fn destroyed_spheres(spheres: &Vec<CollisionSphere>) -> (r: Vec<bool>)
    ensures
        r@.len() == spheres@.len(),
        forall|i: int| 0 <= i < spheres@.len() ==> #[trigger] r@[i] == sphere_destroyed(spheres@, i),
{
    let n = spheres.len();
    let mut marks: Vec<bool> = Vec::new();
    let mut i: usize = 0;
    while i < n
        invariant
            n == spheres@.len(),
            0 <= i <= n,
            marks@.len() == i,
            forall|x: int| 0 <= x < i ==> #[trigger] marks@[x] == sphere_destroyed(spheres@, x),
        decreases n - i,
    {
        let hit = is_destroyed(spheres, i);
        marks.push(hit);
        i = i + 1;
    }
    marks
}

/// Whether sphere `s` stands for tank `t`.
pub open spec fn targets_tank(s: CollisionSphere, t: int) -> bool {
    s.target matches CollisionEntity::Tank(k) && k as int == t
}

/// Whether sphere `s` stands for shell `i`.
pub open spec fn targets_shell(s: CollisionSphere, i: int) -> bool {
    s.target matches CollisionEntity::Shell(k) && k as int == i
}

/// Whether one of the first `n` spheres stands for tank `t` and is destroyed.
pub open spec fn tank_hit_upto(sp: Seq<CollisionSphere>, t: int, n: int) -> bool {
    exists|k: int| 0 <= k < n && #[trigger] targets_tank(sp[k], t) && sphere_destroyed(sp, k)
}

/// Whether one of the first `n` spheres stands for shell `i` and is destroyed.
pub open spec fn shell_hit_upto(sp: Seq<CollisionSphere>, i: int, n: int) -> bool {
    exists|k: int| 0 <= k < n && #[trigger] targets_shell(sp[k], i) && sphere_destroyed(sp, k)
}

/// Whether tank `t` is destroyed by the collision pass over `sp`.
pub open spec fn tank_hit(sp: Seq<CollisionSphere>, t: int) -> bool {
    tank_hit_upto(sp, t, sp.len() as int)
}

/// Whether shell `i` is destroyed by the collision pass over `sp`.
pub open spec fn shell_hit(sp: Seq<CollisionSphere>, i: int) -> bool {
    shell_hit_upto(sp, i, sp.len() as int)
}

/// Shell slot content `sh` once the tanks hit among the first `n` spheres are gone.
pub open spec fn released<Q>(sh: Option<Shell<Q>>, sp: Seq<CollisionSphere>, n: int) -> Option<Shell<Q>> {
    match sh {
        Some(s) => match s.shooter {
            Some(t) => if tank_hit_upto(sp, t as int, n) {
                Some(Shell { shooter: None, ..s })
            } else {
                sh
            },
            None => sh,
        },
        None => None,
    }
}

/// Shell slot content `sh`, in slot `i`, after the collision pass over `sp`.
pub open spec fn after_collisions<Q>(sh: Option<Shell<Q>>, sp: Seq<CollisionSphere>, i: int) -> Option<Shell<Q>> {
    if shell_hit(sp, i) {
        None
    } else {
        released(sh, sp, sp.len() as int)
    }
}

/// Over one tick, the expiry pass and then the collision pass, a live shell is
/// destroyed exactly when it has lived its lifetime or a collision destroys it. At
/// exactly its lifetime a shell is still alive: expiry asks for strictly more.
pub proof fn lemma_shell_fate<Q>(sh: Shell<Q>, now: i64, sp: Seq<CollisionSphere>, i: int)
    requires
        now - sh.spawn_time != SHELL_LIFETIME,
    ensures
        after_collisions(after_expiry(Some(sh), now), sp, i) is None <==> (now - sh.spawn_time
            >= SHELL_LIFETIME || shell_hit(sp, i)),
{
}

proof fn lemma_hit_step(sp: Seq<CollisionSphere>, k: int)
    requires
        0 <= k < sp.len(),
    ensures
        forall|t: int|
            #[trigger] tank_hit_upto(sp, t, k + 1) == (tank_hit_upto(sp, t, k) || (targets_tank(sp[k], t)
                && sphere_destroyed(sp, k))),
        forall|i: int|
            #[trigger] shell_hit_upto(sp, i, k + 1) == (shell_hit_upto(sp, i, k) || (targets_shell(sp[k], i)
                && sphere_destroyed(sp, k))),
{
    assert forall|t: int|
        #[trigger] tank_hit_upto(sp, t, k + 1) == (tank_hit_upto(sp, t, k) || (targets_tank(sp[k], t)
            && sphere_destroyed(sp, k))) by {
        if tank_hit_upto(sp, t, k + 1) && !(targets_tank(sp[k], t) && sphere_destroyed(sp, k)) {
            let w = choose|w: int| 0 <= w < k + 1 && #[trigger] targets_tank(sp[w], t) && sphere_destroyed(sp, w);
            assert(w != k);
        }
    }
    assert forall|i: int|
        #[trigger] shell_hit_upto(sp, i, k + 1) == (shell_hit_upto(sp, i, k) || (targets_shell(sp[k], i)
            && sphere_destroyed(sp, k))) by {
        if shell_hit_upto(sp, i, k + 1) && !(targets_shell(sp[k], i) && sphere_destroyed(sp, k)) {
            let w = choose|w: int| 0 <= w < k + 1 && #[trigger] targets_shell(sp[w], i) && sphere_destroyed(sp, w);
            assert(w != k);
        }
    }
}

impl<P, Q> World<P, Q> {
    /// One collision pass over this tick's hit spheres: a shell that touches any other
    /// sphere is destroyed, and so is a tank that touches a shell; tanks touching tanks
    /// are left alone. Shells of a destroyed tank stay in flight with no shooter.
    pub fn resolve_collisions(&mut self, spheres: &Vec<CollisionSphere>)
        requires
            old(self).wf(),
        ensures
            final(self).wf(),
            final(self).elapsed_time == old(self).elapsed_time,
            final(self).player == (match old(self).player {
                Some(p) => if tank_hit(spheres@, p as int) {
                    None
                } else {
                    Some(p)
                },
                None => None,
            }),
            final(self).tanks@.len() == old(self).tanks@.len(),
            forall|t: int|
                0 <= t < old(self).tanks@.len() ==> (#[trigger] final(self).tanks@[t] is Some) == (old(
                    self,
                ).tanks@[t] is Some && !tank_hit(spheres@, t)),
            forall|t: int|
                0 <= t < old(self).tanks@.len() && #[trigger] final(self).tanks@[t] is Some ==> body(
                    final(self).tanks@[t].unwrap(),
                ) == body(old(self).tanks@[t].unwrap()),
            final(self).shells@.len() == old(self).shells@.len(),
            forall|i: int|
                0 <= i < old(self).shells@.len() ==> #[trigger] final(self).shells@[i] == after_collisions(
                    old(self).shells@[i],
                    spheres@,
                    i,
                ),
    {
        let marks = destroyed_spheres(spheres);
        let n = spheres.len();
        let ghost sp = spheres@;
        let ghost s0 = self.shells@;
        let ghost t0 = self.tanks@;
        let mut k: usize = 0;
        while k < n
            invariant
                self.wf(),
                n == sp.len(),
                sp == spheres@,
                marks@.len() == n,
                forall|x: int| 0 <= x < n ==> #[trigger] marks@[x] == sphere_destroyed(sp, x),
                0 <= k <= n,
                self.elapsed_time == old(self).elapsed_time,
                self.player == old(self).player,
                tanks_agree(t0, self.tanks@),
                self.shells@.len() == s0.len(),
                forall|i: int|
                    0 <= i < s0.len() ==> #[trigger] self.shells@[i] == (if shell_hit_upto(sp, i, k as int) {
                        None
                    } else {
                        s0[i]
                    }),
            decreases n - k,
        {
            let ghost prev = self.shells@;
            let ghost prev_t = self.tanks@;
            if marks[k] {
                if let CollisionEntity::Shell(id) = spheres[k].target {
                    self.destroy_shell(id);
                }
            }
            proof {
                lemma_hit_step(sp, k as int);
                assert forall|i: int|
                    0 <= i < s0.len() implies #[trigger] self.shells@[i] == (if shell_hit_upto(
                        sp,
                        i,
                        k + 1,
                    ) {
                        None
                    } else {
                        s0[i]
                    }) by {
                    assert(shell_hit_upto(sp, i, k + 1) == (shell_hit_upto(sp, i, k as int) || (targets_shell(
                        sp[k as int],
                        i,
                    ) && sphere_destroyed(sp, k as int))));
                }
                assert forall|t: int| 0 <= t < t0.len() implies (#[trigger] t0[t] is Some) == (
                self.tanks@[t] is Some) && (t0[t] is Some ==> body(t0[t].unwrap()) == body(
                    self.tanks@[t].unwrap(),
                )) by {
                    assert(prev_t[t] is Some == t0[t] is Some);
                }
            }
            k = k + 1;
        }
        let ghost s1 = self.shells@;
        let ghost t1 = self.tanks@;
        let mut k: usize = 0;
        while k < n
            invariant
                self.wf(),
                n == sp.len(),
                sp == spheres@,
                marks@.len() == n,
                forall|x: int| 0 <= x < n ==> #[trigger] marks@[x] == sphere_destroyed(sp, x),
                0 <= k <= n,
                self.elapsed_time == old(self).elapsed_time,
                self.player == (match old(self).player {
                    Some(p) => if tank_hit_upto(sp, p as int, k as int) {
                        None
                    } else {
                        Some(p)
                    },
                    None => None,
                }),
                self.tanks@.len() == t1.len(),
                forall|t: int|
                    0 <= t < t1.len() ==> #[trigger] self.tanks@[t] == (if tank_hit_upto(sp, t, k as int) {
                        None
                    } else {
                        t1[t]
                    }),
                self.shells@.len() == s1.len(),
                forall|i: int| 0 <= i < s1.len() ==> #[trigger] self.shells@[i] == released(s1[i], sp, k as int),
            decreases n - k,
        {
            let ghost prev = self.shells@;
            let ghost prev_t = self.tanks@;
            let ghost prev_p = self.player;
            proof {
                lemma_hit_step(sp, k as int);
            }
            if marks[k] {
                if let CollisionEntity::Tank(id) = spheres[k].target {
                    self.destroy_tank(id);
                    proof {
                        assert forall|i: int| 0 <= i < s1.len() implies #[trigger] self.shells@[i]
                            == released(s1[i], sp, k + 1) by {
                            assert(self.shells@[i] == orphaned(prev[i], id as int));
                        }
                        assert forall|t: int| 0 <= t < t1.len() implies #[trigger] self.tanks@[t] == (
                        if tank_hit_upto(sp, t, k + 1) {
                            None
                        } else {
                            t1[t]
                        }) by {
                            assert(tank_hit_upto(sp, t, k + 1) == (tank_hit_upto(sp, t, k as int) || t
                                == id as int));
                        }
                    }
                }
            }
            proof {
                assert forall|i: int| 0 <= i < s1.len() implies #[trigger] self.shells@[i] == released(
                    s1[i],
                    sp,
                    k + 1,
                ) by {
                    if !(marks@[k as int] && sp[k as int].target is Tank) {
                        assert(self.shells@[i] == prev[i]);
                        if s1[i] is Some && s1[i].unwrap().shooter is Some {
                            let t = s1[i].unwrap().shooter.unwrap() as int;
                            assert(tank_hit_upto(sp, t, k + 1) == tank_hit_upto(sp, t, k as int));
                        }
                    }
                }
                assert forall|t: int| 0 <= t < t1.len() implies #[trigger] self.tanks@[t] == (
                if tank_hit_upto(sp, t, k + 1) {
                    None
                } else {
                    t1[t]
                }) by {
                    if !(marks@[k as int] && sp[k as int].target is Tank) {
                        assert(tank_hit_upto(sp, t, k + 1) == tank_hit_upto(sp, t, k as int));
                    }
                }
                if let Some(p) = old(self).player {
                    assert(tank_hit_upto(sp, p as int, k + 1) == (tank_hit_upto(sp, p as int, k as int)
                        || (targets_tank(sp[k as int], p as int) && sphere_destroyed(sp, k as int))));
                }
            }
            k = k + 1;
        }
        proof {
            assert forall|i: int| 0 <= i < s0.len() implies #[trigger] self.shells@[i] == after_collisions(
                s0[i],
                sp,
                i,
            ) by {
                assert(self.shells@[i] == released(s1[i], sp, n as int));
            }
            assert forall|t: int| 0 <= t < t0.len() implies (#[trigger] self.tanks@[t] is Some) == (
            t0[t] is Some && !tank_hit(sp, t)) by {
                assert(t1[t] is Some == t0[t] is Some);
            }
            assert forall|t: int|
                0 <= t < t0.len() && #[trigger] self.tanks@[t] is Some implies body(
                    self.tanks@[t].unwrap(),
                ) == body(t0[t].unwrap()) by {
                assert(t1[t] is Some == t0[t] is Some);
            }
        }
    }
}

} // verus!
