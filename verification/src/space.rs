//! The simulation engine.
//!
//! [`Space`] owns the live, insertion-ordered collection of planets
//! and exposes one step: [`Space::simulate`], which advances physics
//! by `time` units and reports a screen-shake impulse from large
//! collisions. The whole step is specified by [`simulate_spec`]:
//!
//! 1. *Gravity pass.* Planets are processed in index order. Planet `i`
//!    first accumulates, over every other planet `j`, a velocity
//!    impulse of magnitude `mass_j * time / d^3` per axis component
//!    (the integer form of `(mass_j / d^2) * time` scaled by the unit
//!    vector toward `j`), then immediately advances its position by
//!    `velocity * time`. Because each planet moves before later
//!    planets compute their distances, the integration is
//!    deliberately order-dependent (Gauss–Seidel-like, not a
//!    symmetric leapfrog); this mirrors the intended behavior and is
//!    pinned down exactly by [`gauss_upto`].
//!
//! 2. *Collision scan.* Every unordered pair `(i, j)`, `i < j`, is
//!    checked in index order against the squared merge distance. On a
//!    collision the planet of strictly smaller mass (ties keep the
//!    first index as the survivor) is absorbed: the survivor gains
//!    the absorbed mass and a momentum-weighted share
//!    `velocity_small * mass_small / mass_combined` of the absorbed
//!    velocity — deliberately this weighted add, not a textbook
//!    inelastic-collision formula. The absorbed planet is only marked;
//!    it keeps participating in later pairs of the same tick as a
//!    potential survivor with its updated state, but a planet already
//!    marked absorbed is never absorbed a second time. If both
//!    pre-merge masses exceed [`SHAKE_MASS_MIN`], their product is
//!    added to the tick's shake accumulator.
//!
//! 3. *Compaction.* Marked planets are dropped in one stable pass.
//!
//! The returned shake value is the sum of mass products of the tick's
//! large collisions; a presentation layer scales it down (the display
//! convention divides by `1e23`) before use.

use vstd::prelude::*;
use crate::num::{sadd, sat_add, sat_mul, sat_sub, sdiv, smul, sqrt_floor, ssub};
use crate::num::{isqrt, sat_div};
use crate::planet::Planet;
use crate::vector::{padd, pmul, vadd, vdiv, vmul, Position, Velocity};

verus! {

/// Two planets merge when the squared distance between their centers
/// is strictly below this bound (centers strictly closer than 400
/// position units).
pub const MERGE_DIST_SQ: i128 = 160000;

/// Both colliding masses must strictly exceed this for the collision
/// to contribute to the shake accumulator.
pub const SHAKE_MASS_MIN: i128 = 200000000000;

/// Squared Euclidean distance between two centers, in saturating
/// arithmetic.
pub open spec fn dist2(a: Position, b: Position) -> i128 {
    let dx = ssub(b.x, a.x);
    let dy = ssub(b.y, a.y);
    sadd(smul(dx, dx), smul(dy, dy))
}

/// The velocity impulse planet `j` (at `pj`, mass `m`) exerts over
/// `t` time units on a planet at `pi`: per component,
/// `m * t * delta / d^3`, the integer form of acceleration `m / d^2`
/// times `t`, directed along the unit vector from `pi` toward `pj`.
/// Coincident centers (distance zero) use distance 1, the smallest
/// positive representable value, which saturates to an enormous
/// impulse — the integer analogue of the unguarded division there.
pub open spec fn impulse_spec(pi: Position, pj: Position, m: i128, t: i128) -> Velocity {
    let dx = ssub(pj.x, pi.x);
    let dy = ssub(pj.y, pi.y);
    let d2 = dist2(pi, pj);
    let d2p: i128 = if d2 == 0 {
        1
    } else {
        d2
    };
    let d: i128 = sqrt_floor(d2p as int) as i128;
    let d3 = smul(d2p, d);
    Velocity { x: sdiv(smul(smul(m, t), dx), d3), y: sdiv(smul(smul(m, t), dy), d3) }
}

/// Planet `i`'s velocity after summing the impulses of planets
/// `0 .. k` (skipping `i` itself) in state `ps`.
pub open spec fn vel_accum(ps: Seq<Planet>, i: int, k: int, t: i128) -> Velocity
    decreases k,
{
    if k <= 0 {
        ps[i].velocity
    } else if k - 1 == i {
        vel_accum(ps, i, k - 1, t)
    } else {
        vadd(
            vel_accum(ps, i, k - 1, t),
            impulse_spec(ps[i].position, ps[k - 1].position, ps[k - 1].mass, t),
        )
    }
}

/// Planet `i` after its gravity step in state `ps`: full impulse sum
/// over all planets, then position advanced by the new velocity.
pub open spec fn step_planet(ps: Seq<Planet>, i: int, t: i128) -> Planet {
    let v = vel_accum(ps, i, ps.len() as int, t);
    Planet {
        velocity: v,
        position: padd(ps[i].position, pmul(Position { x: v.x, y: v.y }, t)),
        ..ps[i]
    }
}

/// The gravity pass applied to planets `0 .. k` in index order; each
/// step sees the already-updated positions of lower-indexed planets.
pub open spec fn gauss_upto(ps: Seq<Planet>, t: i128, k: int) -> Seq<Planet>
    decreases k,
{
    if k <= 0 {
        ps
    } else {
        let prev = gauss_upto(ps, t, k - 1);
        prev.update(k - 1, step_planet(prev, k - 1, t))
    }
}

/// The collision scan's running state: the planets (survivors carry
/// their merged mass and velocity), which indices are already
/// absorbed, and the shake accumulator.
pub struct ScanState {
    pub ps: Seq<Planet>,
    pub removed: Seq<bool>,
    pub shake: i128,
}

/// Index of the planet of strictly smaller mass in the pair `(i, j)`;
/// on a tie the second index `j` is the smaller party.
pub open spec fn smaller_of(ps: Seq<Planet>, i: int, j: int) -> int {
    if ps[i].mass < ps[j].mass {
        i
    } else {
        j
    }
}

/// Index of the surviving planet of the pair `(i, j)`.
pub open spec fn bigger_of(ps: Seq<Planet>, i: int, j: int) -> int {
    if ps[i].mass < ps[j].mass {
        j
    } else {
        i
    }
}

/// One pair check of the collision scan.
pub open spec fn collide_pair(st: ScanState, i: int, j: int) -> ScanState {
    let pi = st.ps[i];
    let pj = st.ps[j];
    if dist2(pi.position, pj.position) < MERGE_DIST_SQ {
        let b = bigger_of(st.ps, i, j);
        let s = smaller_of(st.ps, i, j);
        if st.removed[s] {
            st
        } else {
            let sm = st.ps[s].mass;
            let bm = st.ps[b].mass;
            let nm = sadd(bm, sm);
            let blend = vdiv(vmul(st.ps[s].velocity, sm), nm);
            let nb = Planet { mass: nm, velocity: vadd(st.ps[b].velocity, blend), ..st.ps[b] };
            ScanState {
                ps: st.ps.update(b, nb),
                removed: st.removed.update(s, true),
                shake: if pi.mass > SHAKE_MASS_MIN && pj.mass > SHAKE_MASS_MIN {
                    sadd(st.shake, smul(pi.mass, pj.mass))
                } else {
                    st.shake
                },
            }
        }
    } else {
        st
    }
}

/// Row `i` of the collision scan: pairs `(i, i+1) .. (i, j_end - 1)`
/// in order.
pub open spec fn scan_row(st: ScanState, i: int, j_end: int) -> ScanState
    decreases j_end,
{
    if i < 0 || j_end <= i + 1 {
        st
    } else {
        collide_pair(scan_row(st, i, j_end - 1), i, j_end - 1)
    }
}

/// The collision scan over the full rows `0 .. i_end`, each row
/// running its pairs up to `n`.
pub open spec fn scan_upto(st: ScanState, n: int, i_end: int) -> ScanState
    decreases i_end,
{
    if i_end <= 0 {
        st
    } else {
        scan_row(scan_upto(st, n, i_end - 1), i_end - 1, n)
    }
}

/// The scan's starting state: nothing absorbed, no shake.
pub open spec fn init_scan(ps: Seq<Planet>) -> ScanState {
    ScanState { ps, removed: Seq::new(ps.len(), |k: int| false), shake: 0 }
}

/// The first `k` planets with the absorbed ones dropped, order kept.
pub open spec fn compact(ps: Seq<Planet>, removed: Seq<bool>, k: int) -> Seq<Planet>
    decreases k,
{
    if k <= 0 {
        Seq::empty()
    } else {
        let prev = compact(ps, removed, k - 1);
        if removed[k - 1] {
            prev
        } else {
            prev.push(ps[k - 1])
        }
    }
}

/// The whole tick: gravity pass, collision scan, compaction. Yields
/// the new planet sequence and the tick's shake accumulator.
pub open spec fn simulate_spec(ps: Seq<Planet>, t: i128) -> (Seq<Planet>, i128) {
    let n = ps.len() as int;
    let g = gauss_upto(ps, t, n);
    let st = scan_upto(init_scan(g), n, n);
    (compact(st.ps, st.removed, n), st.shake)
}

#[derive(Debug, Clone, PartialEq)]
pub struct Space {
    pub planets: Vec<Planet>,
}

impl Space {
    /// An empty space.
    pub fn new() -> (s: Space)
        ensures
            s.planets@ == Seq::<Planet>::empty(),
    {
        Space { planets: Vec::new() }
    }

    /// Append a planet; it gets the highest index.
    pub fn insert(&mut self, planet: Planet)
        ensures
            final(self).planets@ == old(self).planets@.push(planet),
    {
        self.planets.push(planet);
    }

    /// Build a planet from the user-supplied values and append it.
    /// Its trail color is random; everything else is determined.
    pub fn create_and_insert(&mut self, mass: i128, position: Position, velocity: Velocity)
        ensures
            final(self).planets@.len() == old(self).planets@.len() + 1,
            forall|k: int|
                0 <= k < old(self).planets@.len() ==> final(self).planets@[k] == old(
                    self,
                ).planets@[k],
            final(self).planets@.last().mass == mass,
            final(self).planets@.last().position == position,
            final(self).planets@.last().last_position == position,
            final(self).planets@.last().velocity == velocity,
            final(self).planets@.last().trail_color.a == 255,
    {
        let p = Planet::new(mass, position, velocity);
        self.planets.push(p);
    }

    /// Remove every planet.
    pub fn clear(&mut self)
        ensures
            final(self).planets@ == Seq::<Planet>::empty(),
    {
        self.planets.clear();
    }

    /// Advance the simulation by `time` units and return the tick's
    /// shake accumulator, exactly as [`simulate_spec`] describes.
    pub fn simulate(&mut self, time: i128) -> (shake: i128)
        ensures
            final(self).planets@ == simulate_spec(old(self).planets@, time).0,
            shake == simulate_spec(old(self).planets@, time).1,
    {
        let ghost ps0 = self.planets@;
        let n: usize = self.planets.len();

        // Gravity pass: accumulate impulses on planet i, then move it.
        let mut i: usize = 0;
        while i < n
            invariant
                i <= n,
                self.planets.len() == n,
                ps0.len() == n,
                self.planets@ == gauss_upto(ps0, time, i as int),
            decreases n - i,
        {
            let ghost cur = self.planets@;
            let p_i = self.planets[i];
            let mut vx: i128 = p_i.velocity.x;
            let mut vy: i128 = p_i.velocity.y;
            let mut j: usize = 0;
            while j < n
                invariant
                    j <= n,
                    i < n,
                    self.planets.len() == n,
                    self.planets@ == cur,
                    cur.len() == n,
                    p_i == cur[i as int],
                    (Velocity { x: vx, y: vy }) == vel_accum(cur, i as int, j as int, time),
                decreases n - j,
            {
                if j != i {
                    let p_j = self.planets[j];
                    let iv = impulse(p_i.position, p_j.position, p_j.mass, time);
                    vx = sat_add(vx, iv.x);
                    vy = sat_add(vy, iv.y);
                }
                j = j + 1;
            }
            let mut p = p_i;
            p.velocity = Velocity { x: vx, y: vy };
            p.move_for(time);
            proof {
                assert(p == step_planet(cur, i as int, time));
            }
            self.planets[i] = p;
            proof {
                assert(self.planets@ == gauss_upto(ps0, time, i as int + 1));
            }
            i = i + 1;
        }
        let ghost g = self.planets@;

        // Collision scan.
        let mut removed: Vec<bool> = Vec::new();
        let mut k: usize = 0;
        while k < n
            invariant
                k <= n,
                removed@ == Seq::new(k as nat, |q: int| false),
            decreases n - k,
        {
            removed.push(false);
            proof {
                assert(removed@ =~= Seq::new((k + 1) as nat, |q: int| false));
            }
            k = k + 1;
        }
        let mut shake: i128 = 0;
        proof {
            assert(g.len() == n);
            assert((ScanState { ps: g, removed: removed@, shake: 0i128 }) == init_scan(g));
        }
        let mut i: usize = 0;
        while i < n
            invariant
                i <= n,
                self.planets.len() == n,
                removed.len() == n,
                g.len() == n,
                ps0.len() == n,
                (ScanState { ps: self.planets@, removed: removed@, shake: shake }) == scan_upto(
                    init_scan(g),
                    n as int,
                    i as int,
                ),
            decreases n - i,
        {
            let mut j: usize = i + 1;
            while j < n
                invariant
                    i < n,
                    i + 1 <= j <= n,
                    self.planets.len() == n,
                    removed.len() == n,
                    g.len() == n,
                    (ScanState { ps: self.planets@, removed: removed@, shake: shake })
                        == scan_row(
                        scan_upto(init_scan(g), n as int, i as int),
                        i as int,
                        j as int,
                    ),
                decreases n - j,
            {
                let ghost st_pre = ScanState {
                    ps: self.planets@,
                    removed: removed@,
                    shake: shake,
                };
                let p_i = self.planets[i];
                let p_j = self.planets[j];
                let dx: i128 = sat_sub(p_j.position.x, p_i.position.x);
                let dy: i128 = sat_sub(p_j.position.y, p_i.position.y);
                let d2: i128 = sat_add(sat_mul(dx, dx), sat_mul(dy, dy));
                if d2 < MERGE_DIST_SQ {
                    let b: usize = if p_i.mass < p_j.mass {
                        j
                    } else {
                        i
                    };
                    let s: usize = if p_i.mass < p_j.mass {
                        i
                    } else {
                        j
                    };
                    if !removed[s] {
                        let sp = self.planets[s];
                        let bp = self.planets[b];
                        let nm: i128 = sat_add(bp.mass, sp.mass);
                        let blend = sp.velocity.mul(sp.mass).div(nm);
                        let mut nb = bp;
                        nb.mass = nm;
                        nb.add_velocity(blend);
                        self.planets[b] = nb;
                        removed[s] = true;
                        if p_i.mass > SHAKE_MASS_MIN && p_j.mass > SHAKE_MASS_MIN {
                            shake = sat_add(shake, sat_mul(p_i.mass, p_j.mass));
                        }
                    }
                }
                proof {
                    assert((ScanState { ps: self.planets@, removed: removed@, shake: shake })
                        == collide_pair(st_pre, i as int, j as int));
                    assert(scan_row(
                        scan_upto(init_scan(g), n as int, i as int),
                        i as int,
                        j as int + 1,
                    ) == collide_pair(st_pre, i as int, j as int));
                }
                j = j + 1;
            }
            proof {
                assert(scan_upto(init_scan(g), n as int, i as int + 1) == scan_row(
                    scan_upto(init_scan(g), n as int, i as int),
                    i as int,
                    n as int,
                ));
            }
            i = i + 1;
        }
        let ghost stf = ScanState { ps: self.planets@, removed: removed@, shake: shake };

        // Compaction: keep the survivors, in order.
        let mut kept: Vec<Planet> = Vec::new();
        let mut k: usize = 0;
        while k < n
            invariant
                k <= n,
                self.planets.len() == n,
                removed.len() == n,
                self.planets@ == stf.ps,
                removed@ == stf.removed,
                kept@ == compact(stf.ps, stf.removed, k as int),
            decreases n - k,
        {
            if !removed[k] {
                kept.push(self.planets[k]);
            }
            k = k + 1;
        }
        self.planets = kept;
        proof {
            assert(stf == scan_upto(init_scan(g), n as int, n as int));
            assert(simulate_spec(ps0, time) == (compact(stf.ps, stf.removed, n as int), stf.shake));
        }
        shake
    }
}

/// The gravity impulse of one planet on another, as executable code;
/// exactly [`impulse_spec`].
fn impulse(pi: Position, pj: Position, m: i128, t: i128) -> (v: Velocity)
    ensures
        v == impulse_spec(pi, pj, m, t),
{
    let dx: i128 = sat_sub(pj.x, pi.x);
    let dy: i128 = sat_sub(pj.y, pi.y);
    let d2: i128 = sat_add(sat_mul(dx, dx), sat_mul(dy, dy));
    proof {
        assert((dx as int) * (dx as int) >= 0) by (nonlinear_arith);
        assert((dy as int) * (dy as int) >= 0) by (nonlinear_arith);
    }
    let d2p: i128 = if d2 == 0 {
        1
    } else {
        d2
    };
    let d: i128 = isqrt(d2p);
    let d3: i128 = sat_mul(d2p, d);
    let num_x: i128 = sat_mul(sat_mul(m, t), dx);
    let num_y: i128 = sat_mul(sat_mul(m, t), dy);
    Velocity { x: sat_div(num_x, d3), y: sat_div(num_y, d3) }
}

} // verus!
