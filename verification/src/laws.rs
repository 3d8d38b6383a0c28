//! The engine's global guarantees, proved once and for all against
//! the specification functions of [`crate::space`].
//!
//! Each proof function here is part of the library's stated
//! behavior: mass accounting of merges, the exact count of planets
//! a tick removes, the isolation of a single planet, the strictness
//! of the merge threshold, the shake threshold, the safety of
//! division by zero, and the monotonicity of the display radius.

use vstd::prelude::*;
use vstd::arithmetic::div_mod::{lemma_div_basics, lemma_div_is_ordered, lemma_div_pos_is_pos};
use vstd::arithmetic::mul::lemma_mul_inequality;
use crate::num::{
    cbrt_floor, lemma_cbrt_floor_bounds, lemma_cbrt_floor_monotone, sadd, sdiv, smul, tdiv,
};
use crate::planet::{moved, radius_spec, Planet};
use crate::space::{
    bigger_of, collide_pair, compact, dist2, gauss_upto, init_scan, scan_row, scan_upto,
    simulate_spec, smaller_of, step_planet, vel_accum, ScanState, MERGE_DIST_SQ, SHAKE_MASS_MIN,
};
use crate::vector::{pdiv, vdiv, Position, Velocity};

verus! {

// ---------------------------------------------------------------
// Mass accounting
// ---------------------------------------------------------------
/// The summed mass of the first `k` planets.
pub open spec fn mass_upto(ps: Seq<Planet>, k: int) -> int
    decreases k,
{
    if k <= 0 {
        0
    } else {
        mass_upto(ps, k - 1) + ps[k - 1].mass
    }
}

/// The total mass of a system.
pub open spec fn total_mass(ps: Seq<Planet>) -> int {
    mass_upto(ps, ps.len() as int)
}

/// The summed mass of the first `k` planets not marked absorbed.
pub open spec fn alive_mass(ps: Seq<Planet>, removed: Seq<bool>, k: int) -> int
    decreases k,
{
    if k <= 0 {
        0
    } else {
        alive_mass(ps, removed, k - 1) + if removed[k - 1] {
            0int
        } else {
            ps[k - 1].mass as int
        }
    }
}

/// How many of the first `k` marks are set.
pub open spec fn count_removed(removed: Seq<bool>, k: int) -> int
    decreases k,
{
    if k <= 0 {
        0
    } else {
        count_removed(removed, k - 1) + if removed[k - 1] {
            1int
        } else {
            0int
        }
    }
}

proof fn lemma_mass_upto_same_masses(ps: Seq<Planet>, qs: Seq<Planet>, k: int)
    requires
        forall|m: int| 0 <= m < k ==> ps[m].mass == qs[m].mass,
    ensures
        mass_upto(ps, k) == mass_upto(qs, k),
    decreases k,
{
    if k > 0 {
        lemma_mass_upto_same_masses(ps, qs, k - 1);
    }
}

proof fn lemma_alive_all_false(ps: Seq<Planet>, removed: Seq<bool>, k: int)
    requires
        forall|m: int| 0 <= m < k ==> !removed[m],
    ensures
        alive_mass(ps, removed, k) == mass_upto(ps, k),
    decreases k,
{
    if k > 0 {
        lemma_alive_all_false(ps, removed, k - 1);
    }
}

proof fn lemma_alive_mass_update_ps(ps: Seq<Planet>, removed: Seq<bool>, b: int, nb: Planet, k: int)
    requires
        0 <= b < ps.len(),
        k <= ps.len(),
    ensures
        alive_mass(ps.update(b, nb), removed, k) == alive_mass(ps, removed, k) + if b < k
            && !removed[b] {
            nb.mass - ps[b].mass
        } else {
            0int
        },
    decreases k,
{
    if k > 0 {
        lemma_alive_mass_update_ps(ps, removed, b, nb, k - 1);
    }
}

proof fn lemma_alive_mass_update_removed(ps: Seq<Planet>, removed: Seq<bool>, s: int, k: int)
    requires
        0 <= s < removed.len(),
        k <= removed.len(),
    ensures
        alive_mass(ps, removed.update(s, true), k) == alive_mass(ps, removed, k) - if s < k
            && !removed[s] {
            ps[s].mass as int
        } else {
            0int
        },
    decreases k,
{
    if k > 0 {
        lemma_alive_mass_update_removed(ps, removed, s, k - 1);
    }
}

proof fn lemma_count_removed_update(removed: Seq<bool>, s: int, k: int)
    requires
        0 <= s < removed.len(),
        !removed[s],
        k <= removed.len(),
    ensures
        count_removed(removed.update(s, true), k) == count_removed(removed, k) + if s < k {
            1int
        } else {
            0int
        },
    decreases k,
{
    if k > 0 {
        lemma_count_removed_update(removed, s, k - 1);
    }
}

proof fn lemma_compact_total(ps: Seq<Planet>, removed: Seq<bool>, k: int)
    requires
        0 <= k,
    ensures
        total_mass(compact(ps, removed, k)) == alive_mass(ps, removed, k),
        compact(ps, removed, k).len() == k - count_removed(removed, k),
        0 <= count_removed(removed, k) <= k,
    decreases k,
{
    if k > 0 {
        lemma_compact_total(ps, removed, k - 1);
        let prev = compact(ps, removed, k - 1);
        if !removed[k - 1] {
            lemma_mass_upto_same_masses(prev.push(ps[k - 1]), prev, prev.len() as int);
        }
    }
}

// ---------------------------------------------------------------
// Collision-scan cleanliness
// ---------------------------------------------------------------
/// A pair check is "clean" when, if it merges at all, the surviving
/// planet is not itself already marked absorbed (so no mass ends up
/// on a planet about to be dropped) and the combined mass stays
/// representable. A tick whose colliding pairs are disjoint is always
/// clean.
pub open spec fn pair_clean(st: ScanState, i: int, j: int) -> bool {
    (dist2(st.ps[i].position, st.ps[j].position) < MERGE_DIST_SQ && !st.removed[smaller_of(
        st.ps,
        i,
        j,
    )]) ==> {
        &&& !st.removed[bigger_of(st.ps, i, j)]
        &&& i128::MIN as int <= st.ps[bigger_of(st.ps, i, j)].mass + st.ps[smaller_of(
            st.ps,
            i,
            j,
        )].mass <= i128::MAX as int
    }
}

/// Every pair of row `i` up to `j_end` is clean, each in the state it
/// actually runs in.
pub open spec fn row_clean(st: ScanState, i: int, j_end: int) -> bool
    decreases j_end,
{
    if i < 0 || j_end <= i + 1 {
        true
    } else {
        row_clean(st, i, j_end - 1) && pair_clean(scan_row(st, i, j_end - 1), i, j_end - 1)
    }
}

/// Every pair of the whole scan is clean.
pub open spec fn scan_clean(st: ScanState, n: int, i_end: int) -> bool
    decreases i_end,
{
    if i_end <= 0 {
        true
    } else {
        scan_clean(st, n, i_end - 1) && row_clean(scan_upto(st, n, i_end - 1), i_end - 1, n)
    }
}

proof fn lemma_collide_pair_alive(st: ScanState, i: int, j: int)
    requires
        0 <= i < j < st.ps.len(),
        st.removed.len() == st.ps.len(),
        pair_clean(st, i, j),
    ensures
        collide_pair(st, i, j).ps.len() == st.ps.len(),
        collide_pair(st, i, j).removed.len() == st.ps.len(),
        alive_mass(collide_pair(st, i, j).ps, collide_pair(st, i, j).removed, st.ps.len() as int)
            == alive_mass(st.ps, st.removed, st.ps.len() as int),
{
    let n = st.ps.len() as int;
    let b = bigger_of(st.ps, i, j);
    let s = smaller_of(st.ps, i, j);
    if dist2(st.ps[i].position, st.ps[j].position) < MERGE_DIST_SQ && !st.removed[s] {
        let sm = st.ps[s].mass;
        let bm = st.ps[b].mass;
        assert(sadd(bm, sm) == bm + sm);
        let nb = collide_pair(st, i, j).ps[b];
        assert(b != s);
        lemma_alive_mass_update_ps(st.ps, st.removed, b, nb, n);
        lemma_alive_mass_update_removed(st.ps.update(b, nb), st.removed, s, n);
    }
}

proof fn lemma_scan_row_alive(st: ScanState, i: int, j_end: int)
    requires
        st.removed.len() == st.ps.len(),
        0 <= i < st.ps.len(),
        j_end <= st.ps.len(),
        row_clean(st, i, j_end),
    ensures
        scan_row(st, i, j_end).ps.len() == st.ps.len(),
        scan_row(st, i, j_end).removed.len() == st.ps.len(),
        alive_mass(scan_row(st, i, j_end).ps, scan_row(st, i, j_end).removed, st.ps.len() as int)
            == alive_mass(st.ps, st.removed, st.ps.len() as int),
    decreases j_end,
{
    if !(i < 0 || j_end <= i + 1) {
        lemma_scan_row_alive(st, i, j_end - 1);
        lemma_collide_pair_alive(scan_row(st, i, j_end - 1), i, j_end - 1);
    }
}

proof fn lemma_scan_upto_alive(st: ScanState, n: int, i_end: int)
    requires
        st.removed.len() == st.ps.len(),
        st.ps.len() == n,
        0 <= i_end <= n,
        scan_clean(st, n, i_end),
    ensures
        scan_upto(st, n, i_end).ps.len() == n,
        scan_upto(st, n, i_end).removed.len() == n,
        alive_mass(scan_upto(st, n, i_end).ps, scan_upto(st, n, i_end).removed, n) == alive_mass(
            st.ps,
            st.removed,
            n,
        ),
    decreases i_end,
{
    if i_end > 0 {
        lemma_scan_upto_alive(st, n, i_end - 1);
        lemma_scan_row_alive(scan_upto(st, n, i_end - 1), i_end - 1, n);
    }
}

proof fn lemma_gauss_mass(ps: Seq<Planet>, t: i128, k: int)
    requires
        0 <= k <= ps.len(),
    ensures
        gauss_upto(ps, t, k).len() == ps.len(),
        forall|m: int| 0 <= m < ps.len() ==> gauss_upto(ps, t, k)[m].mass == ps[m].mass,
    decreases k,
{
    if k > 0 {
        lemma_gauss_mass(ps, t, k - 1);
    }
}

// ---------------------------------------------------------------
// The laws themselves
// ---------------------------------------------------------------
/// The collision scan of one tick, after the gravity pass.
pub open spec fn tick_scan(ps: Seq<Planet>, t: i128) -> ScanState {
    let n = ps.len() as int;
    scan_upto(init_scan(gauss_upto(ps, t, n)), n, n)
}

/// The number of planets a tick absorbs. Each merge marks exactly one
/// previously unmarked planet, so this is also the number of merges.
pub open spec fn merge_count(ps: Seq<Planet>, t: i128) -> int {
    count_removed(tick_scan(ps, t).removed, ps.len() as int)
}

/// Merging conserves mass pairwise: the surviving planet of a clean
/// merge carries exactly the sum of the two colliding masses.
pub proof fn lemma_merge_mass_sum(st: ScanState, i: int, j: int)
    requires
        0 <= i < j < st.ps.len(),
        st.removed.len() == st.ps.len(),
        dist2(st.ps[i].position, st.ps[j].position) < MERGE_DIST_SQ,
        !st.removed[smaller_of(st.ps, i, j)],
        i128::MIN as int <= st.ps[i].mass + st.ps[j].mass <= i128::MAX as int,
    ensures
        collide_pair(st, i, j).ps[bigger_of(st.ps, i, j)].mass == st.ps[i].mass + st.ps[j].mass,
{
}

/// Mass conservation over a whole tick: when every merge of the tick
/// is clean (no survivor is itself already absorbed, no combined mass
/// saturates), the total mass after the tick equals the total mass
/// before it — merges reassign mass, never create or destroy it.
pub proof fn lemma_mass_conservation(ps: Seq<Planet>, t: i128)
    requires
        scan_clean(
            init_scan(gauss_upto(ps, t, ps.len() as int)),
            ps.len() as int,
            ps.len() as int,
        ),
    ensures
        total_mass(simulate_spec(ps, t).0) == total_mass(ps),
{
    let n = ps.len() as int;
    let g = gauss_upto(ps, t, n);
    lemma_gauss_mass(ps, t, n);
    lemma_mass_upto_same_masses(g, ps, n);
    let st0 = init_scan(g);
    lemma_alive_all_false(g, st0.removed, n);
    lemma_scan_upto_alive(st0, n, n);
    let stf = scan_upto(st0, n, n);
    lemma_compact_total(stf.ps, stf.removed, n);
    assert(compact(stf.ps, stf.removed, n) == simulate_spec(ps, t).0);
}

/// Mass conservation for a two-planet system, with no cleanliness
/// hypothesis: whether or not the pair collides, a tick preserves the
/// total mass whenever the combined mass is representable.
pub proof fn lemma_two_body_mass_conservation(ps: Seq<Planet>, t: i128)
    requires
        ps.len() == 2,
        i128::MIN as int <= ps[0].mass + ps[1].mass <= i128::MAX as int,
    ensures
        total_mass(simulate_spec(ps, t).0) == total_mass(ps),
{
    let g = gauss_upto(ps, t, 2);
    lemma_gauss_mass(ps, t, 2);
    let st0 = init_scan(g);
    assert(scan_upto(st0, 2, 0) == st0);
    assert(scan_row(st0, 0, 1) == st0);
    assert(row_clean(st0, 0, 1));
    assert(pair_clean(st0, 0, 1));
    assert(row_clean(st0, 0, 2));
    assert(scan_clean(st0, 2, 0));
    assert(scan_clean(st0, 2, 1));
    assert(row_clean(scan_upto(st0, 2, 1), 1, 2));
    assert(scan_clean(st0, 2, 2));
    lemma_mass_conservation(ps, t);
}

/// Count invariant: a tick with `k` merges removes exactly `k`
/// planets — never more, never less.
pub proof fn lemma_count_invariant(ps: Seq<Planet>, t: i128)
    ensures
        simulate_spec(ps, t).0.len() == ps.len() - merge_count(ps, t),
        0 <= merge_count(ps, t) <= ps.len(),
{
    let n = ps.len() as int;
    let stf = tick_scan(ps, t);
    lemma_compact_total(stf.ps, stf.removed, n);
}

/// Each pair check either changes nothing or marks exactly one
/// previously unmarked planet as absorbed.
pub proof fn lemma_collide_pair_marks(st: ScanState, i: int, j: int)
    requires
        0 <= i < j < st.ps.len(),
        st.removed.len() == st.ps.len(),
    ensures
        collide_pair(st, i, j) == st || count_removed(
            collide_pair(st, i, j).removed,
            st.removed.len() as int,
        ) == count_removed(st.removed, st.removed.len() as int) + 1,
{
    let s = smaller_of(st.ps, i, j);
    if dist2(st.ps[i].position, st.ps[j].position) < MERGE_DIST_SQ && !st.removed[s] {
        lemma_count_removed_update(st.removed, s, st.removed.len() as int);
    }
}

/// No self-interaction: a tick over a single planet leaves its
/// velocity unchanged and advances its position by `velocity * t`;
/// nothing merges and no shake is produced.
pub proof fn lemma_single_planet(ps: Seq<Planet>, t: i128)
    requires
        ps.len() == 1,
    ensures
        simulate_spec(ps, t).0.len() == 1,
        simulate_spec(ps, t).0[0] == moved(ps[0], t),
        simulate_spec(ps, t).0[0].velocity == ps[0].velocity,
        simulate_spec(ps, t).1 == 0,
{
    let g = gauss_upto(ps, t, 1);
    assert(vel_accum(ps, 0, 1, t) == vel_accum(ps, 0, 0, t));
    assert(gauss_upto(ps, t, 0) == ps);
    assert(g == ps.update(0, step_planet(ps, 0, t)));
    assert(step_planet(ps, 0, t) == moved(ps[0], t));
    let st0 = init_scan(g);
    assert(scan_upto(st0, 1, 1) == scan_row(scan_upto(st0, 1, 0), 0, 1));
    assert(scan_upto(st0, 1, 0) == st0);
    assert(scan_row(st0, 0, 1) == st0);
    assert(!st0.removed[0]);
    assert(compact(g, st0.removed, 1) == compact(g, st0.removed, 0).push(g[0]));
}

/// The merge threshold is strict: centers at squared distance exactly
/// `MERGE_DIST_SQ` (400 position units apart) or more never merge;
/// any closer pair whose smaller party is still alive does merge.
pub proof fn lemma_merge_threshold(st: ScanState, i: int, j: int)
    requires
        0 <= i < j < st.ps.len(),
        st.removed.len() == st.ps.len(),
    ensures
        dist2(st.ps[i].position, st.ps[j].position) >= MERGE_DIST_SQ ==> collide_pair(st, i, j)
            == st,
        (dist2(st.ps[i].position, st.ps[j].position) < MERGE_DIST_SQ && !st.removed[smaller_of(
            st.ps,
            i,
            j,
        )]) ==> collide_pair(st, i, j).removed[smaller_of(st.ps, i, j)],
{
}

/// Shake threshold: a merging pair contributes the product of its two
/// pre-merge masses to the shake accumulator exactly when both
/// strictly exceed `SHAKE_MASS_MIN`; otherwise it contributes nothing.
pub proof fn lemma_shake_threshold(st: ScanState, i: int, j: int)
    requires
        0 <= i < j < st.ps.len(),
        st.removed.len() == st.ps.len(),
        dist2(st.ps[i].position, st.ps[j].position) < MERGE_DIST_SQ,
        !st.removed[smaller_of(st.ps, i, j)],
    ensures
        (st.ps[i].mass > SHAKE_MASS_MIN && st.ps[j].mass > SHAKE_MASS_MIN) ==> collide_pair(
            st,
            i,
            j,
        ).shake == sadd(st.shake, smul(st.ps[i].mass, st.ps[j].mass)),
        !(st.ps[i].mass > SHAKE_MASS_MIN && st.ps[j].mass > SHAKE_MASS_MIN) ==> collide_pair(
            st,
            i,
            j,
        ).shake == st.shake,
{
}

/// Division by a zero scalar is safe and exact: the zero divisor is
/// replaced by `1`, so the vector comes back unchanged — in
/// particular always finite and representable.
pub proof fn lemma_sdiv_zero(a: i128)
    ensures
        sdiv(a, 0) == a,
{
    let x = a as int;
    if x > 0 {
        lemma_div_basics(x);
    } else if x < 0 {
        lemma_div_basics(x * -1);
    }
}

/// [`lemma_sdiv_zero`] lifted to positions.
pub proof fn lemma_pdiv_zero(p: Position)
    ensures
        pdiv(p, 0) == p,
{
    lemma_sdiv_zero(p.x);
    lemma_sdiv_zero(p.y);
}

/// [`lemma_sdiv_zero`] lifted to velocities.
pub proof fn lemma_vdiv_zero(v: Velocity)
    ensures
        vdiv(v, 0) == v,
{
    lemma_sdiv_zero(v.x);
    lemma_sdiv_zero(v.y);
}

/// The display radius never decreases with mass: it grows with the
/// cube root. (On integers it is weakly monotone: masses whose cube
/// roots truncate to the same integer share a radius.)
pub proof fn lemma_radius_monotone(m1: i128, m2: i128)
    requires
        0 < m1 <= m2,
    ensures
        radius_spec(m1) <= radius_spec(m2),
{
    lemma_cbrt_floor_bounds(m1 as int);
    lemma_cbrt_floor_bounds(m2 as int);
    lemma_cbrt_floor_monotone(m1 as int, m2 as int);
    let c1 = cbrt_floor(m1 as int);
    let c2 = cbrt_floor(m2 as int);
    assert(c2 < 6000000000000int) by (nonlinear_arith)
        requires
            c2 * c2 * c2 <= m2 as int,
            m2 as int <= i128::MAX as int,
            c2 >= 0,
    ;
    lemma_mul_inequality(c1, c2, 25);
    assert(smul(c1 as i128, 25) == c1 * 25);
    assert(smul(c2 as i128, 25) == c2 * 25);
    lemma_div_is_ordered(c1 * 25, c2 * 25, 88);
    lemma_div_pos_is_pos(c1 * 25, 88);
    lemma_div_pos_is_pos(c2 * 25, 88);
    assert(tdiv(c1 * 25, 88) == (c1 * 25) / 88);
    assert(tdiv(c2 * 25, 88) == (c2 * 25) / 88);
}

} // verus!

