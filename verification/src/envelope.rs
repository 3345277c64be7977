//! Mission envelope: a 4D feasibility grid keyed on (latitude, cloud cover,
//! altitude, day of year) for one vehicle, stored row-major with the day of
//! year innermost, plus a per-module breakdown of every cell.
//!
//! The envelope is generic over its axis bounds `A`, its cell summary `C`
//! and its per-module contribution `M`; it fixes how cells and
//! contributions are laid out, addressed and filled.

use vstd::prelude::*;
use crate::layout::{flat3, flat4, lemma_flat3_in_range, lemma_flat4_in_range, lemma_flat4_injective};
use vstd::arithmetic::div_mod::lemma_fundamental_div_mod_converse;

verus! {

/// Pre-computed 4D feasibility envelope.
pub struct MissionEnvelope<A, C, M> {
    pub vehicle: String,
    /// Bounds of the latitude, cloud-cover and altitude axes.
    pub axes: A,
    pub lat_bins: usize,
    pub cloud_bins: usize,
    pub alt_bins: usize,
    pub doy_min: u16,
    pub doy_max: u16,
    pub doy_bins: usize,
    /// Names of every tracked module.
    pub module_names: Vec<String>,
    /// Aggregate cells, one per grid point.
    pub cells: Vec<C>,
    /// Per-module breakdown: `module_names.len()` values per cell, cell by cell.
    pub module_contributions: Vec<M>,
}

impl<A, C, M> MissionEnvelope<A, C, M> {
    /// Number of grid points.
    pub open spec fn cell_count(&self) -> int {
        self.lat_bins * self.cloud_bins * self.alt_bins * self.doy_bins
    }

    /// Offset of cell (`li`, `ci`, `ai`, `di`).
    pub open spec fn cell_offset(&self, li: int, ci: int, ai: int, di: int) -> int {
        flat4(
            self.cloud_bins as int,
            self.alt_bins as int,
            self.doy_bins as int,
            li,
            ci,
            ai,
            di,
        )
    }

    /// One cell per grid point and one contribution per (cell, module).
    pub open spec fn well_formed(&self) -> bool {
        &&& self.cells@.len() == self.cell_count()
        &&& self.module_contributions@.len() == self.cells@.len() * self.module_names@.len()
    }

    /// Whether (`li`, `ci`, `ai`, `di`) is a grid point.
    pub open spec fn in_grid(&self, li: int, ci: int, ai: int, di: int) -> bool {
        &&& 0 <= li < self.lat_bins
        &&& 0 <= ci < self.cloud_bins
        &&& 0 <= ai < self.alt_bins
        &&& 0 <= di < self.doy_bins
    }

    /// Computing the offset of cell (`li`, `ci`, `ai`, `di`) stays within
    /// `usize` at every step.
    pub open spec fn offset_fits(&self, li: int, ci: int, ai: int, di: int) -> bool {
        &&& li * self.cloud_bins + ci <= usize::MAX
        &&& (li * self.cloud_bins + ci) * self.alt_bins + ai <= usize::MAX
        &&& self.cell_offset(li, ci, ai, di) <= usize::MAX
    }

    /// Offset of cell (`li`, `ci`, `ai`, `di`) in `cells`.
    pub fn cell_index(&self, li: usize, ci: usize, ai: usize, di: usize) -> (idx: usize)
        requires
            self.offset_fits(li as int, ci as int, ai as int, di as int),
        ensures
            idx == self.cell_offset(li as int, ci as int, ai as int, di as int),
            self.well_formed() && self.in_grid(li as int, ci as int, ai as int, di as int) ==> idx
                < self.cells@.len(),
    {
        proof {
            if self.well_formed() && self.in_grid(li as int, ci as int, ai as int, di as int) {
                lemma_flat4_in_range(
                    self.lat_bins as int,
                    self.cloud_bins as int,
                    self.alt_bins as int,
                    self.doy_bins as int,
                    li as int,
                    ci as int,
                    ai as int,
                    di as int,
                );
            }
            assert(li * self.cloud_bins <= li * self.cloud_bins + ci);
            assert((li * self.cloud_bins + ci) * self.alt_bins <= (li * self.cloud_bins + ci)
                * self.alt_bins + ai);
            assert(flat3(
                self.cloud_bins as int,
                self.alt_bins as int,
                li as int,
                ci as int,
                ai as int,
            ) * self.doy_bins <= self.cell_offset(li as int, ci as int, ai as int, di as int));
        }
        ((li * self.cloud_bins + ci) * self.alt_bins + ai) * self.doy_bins + di
    }

    /// The cell at grid point (`li`, `ci`, `ai`, `di`).
    pub fn cell_at(&self, li: usize, ci: usize, ai: usize, di: usize) -> (cell: C) where C: Copy
        requires
            self.offset_fits(li as int, ci as int, ai as int, di as int),
            self.cell_offset(li as int, ci as int, ai as int, di as int) < self.cells@.len(),
        ensures
            cell == self.cells@[self.cell_offset(li as int, ci as int, ai as int, di as int)],
    {
        self.cells[self.cell_index(li, ci, ai, di)]
    }
}

impl<A, C, M> MissionEnvelope<A, C, M> {
    /// The latitude x cloud slice at altitude bin `ai` and day bin `di`:
    /// entry `k` is the cell at latitude bin `k / cloud_bins` and cloud bin
    /// `k % cloud_bins`.
    pub open spec fn slice_view(&self, ai: int, di: int, count: int) -> Seq<C> {
        Seq::new(
            count as nat,
            |k: int|
                self.cells@[self.cell_offset(
                    k / (self.cloud_bins as int),
                    k % (self.cloud_bins as int),
                    ai,
                    di,
                )],
        )
    }

    /// Sample a 2D latitude x cloud slice at a fixed altitude bin and
    /// day-of-year bin, latitude-major.
    pub fn slice(&self, ai: usize, di: usize) -> (out: Vec<C>) where C: Copy
        requires
            forall|li: int, ci: int|
                0 <= li < self.lat_bins && 0 <= ci < self.cloud_bins ==> self.offset_fits(
                    li,
                    ci,
                    ai as int,
                    di as int,
                ) && #[trigger] self.cell_offset(li, ci, ai as int, di as int) < self.cells@.len(),
        ensures
            out@.len() == self.lat_bins * self.cloud_bins,
            out@ == self.slice_view(ai as int, di as int, self.lat_bins * self.cloud_bins),
    {
        let mut out: Vec<C> = Vec::new();
        assert(out@ =~= self.slice_view(ai as int, di as int, 0 * self.cloud_bins));
        for li in 0..self.lat_bins
            invariant
                forall|li: int, ci: int|
                    0 <= li < self.lat_bins && 0 <= ci < self.cloud_bins ==> self.offset_fits(
                        li,
                        ci,
                        ai as int,
                        di as int,
                    ) && #[trigger] self.cell_offset(li, ci, ai as int, di as int) < self.cells@.len(),
                out@ == self.slice_view(ai as int, di as int, li * self.cloud_bins),
        {
            for ci in 0..self.cloud_bins
                invariant
                    forall|li: int, ci: int|
                        0 <= li < self.lat_bins && 0 <= ci < self.cloud_bins ==> self.offset_fits(
                            li,
                            ci,
                            ai as int,
                            di as int,
                        ) && #[trigger] self.cell_offset(li, ci, ai as int, di as int)
                            < self.cells@.len(),
                    li < self.lat_bins,
                    out@ == self.slice_view(ai as int, di as int, li * self.cloud_bins + ci),
            {
                let ghost k: int = li * self.cloud_bins + ci;
                assert(self.cell_offset(li as int, ci as int, ai as int, di as int) < self.cells@.len());
                out.push(self.cell_at(li, ci, ai, di));
                proof {
                    lemma_fundamental_div_mod_converse(k, self.cloud_bins as int, li as int, ci as int);
                    assert(out@ =~= self.slice_view(ai as int, di as int, k + 1));
                }
            }
            assert(li * self.cloud_bins + self.cloud_bins == (li + 1) * self.cloud_bins)
                by (nonlinear_arith);
        }
        out
    }

    /// Store the simulated `cell` at offset `idx` together with its
    /// per-module breakdown `per_module` (one value per tracked module).
    pub fn store_cell(&mut self, idx: usize, cell: C, per_module: &Vec<M>) where M: Copy
        requires
            idx < old(self).cells@.len(),
            per_module@.len() == old(self).module_names@.len(),
            idx * per_module@.len() + per_module@.len() <= old(self).module_contributions@.len(),
        ensures
            old(self).well_formed() ==> final(self).well_formed(),
            final(self).cells@ == old(self).cells@.update(idx as int, cell),
            final(self).module_contributions@.len() == old(self).module_contributions@.len(),
            forall|k: int|
                0 <= k < final(self).module_contributions@.len()
                    ==> #[trigger] final(self).module_contributions@[k] == if idx * per_module@.len() <= k
                    < idx * per_module@.len() + per_module@.len() {
                    per_module@[k - idx * per_module@.len()]
                } else {
                    old(self).module_contributions@[k]
                },
            final(self).module_names == old(self).module_names,
            final(self).vehicle == old(self).vehicle,
            final(self).axes == old(self).axes,
            final(self).lat_bins == old(self).lat_bins,
            final(self).cloud_bins == old(self).cloud_bins,
            final(self).alt_bins == old(self).alt_bins,
            final(self).doy_min == old(self).doy_min,
            final(self).doy_max == old(self).doy_max,
            final(self).doy_bins == old(self).doy_bins,
    {
        let n = per_module.len();
        let total = self.module_contributions.len();
        proof {
            assert(idx * n <= idx * n + n);
        }
        self.cells.set(idx, cell);
        let base = idx * n;
        let ghost before = self.module_contributions@;
        for j in 0..n
            invariant
                n == per_module@.len(),
                base == idx * n,
                base + n <= total,
                total == before.len(),
                before == old(self).module_contributions@,
                self.module_contributions@.len() == total,
                self.cells@ == old(self).cells@.update(idx as int, cell),
                self.module_names == old(self).module_names,
                self.vehicle == old(self).vehicle,
                self.axes == old(self).axes,
                self.lat_bins == old(self).lat_bins,
                self.cloud_bins == old(self).cloud_bins,
                self.alt_bins == old(self).alt_bins,
                self.doy_min == old(self).doy_min,
                self.doy_max == old(self).doy_max,
                self.doy_bins == old(self).doy_bins,
                forall|k: int|
                    0 <= k < total ==> #[trigger] self.module_contributions@[k] == if base <= k < base
                        + j {
                        per_module@[k - base]
                    } else {
                        before[k]
                    },
        {
            self.module_contributions.set(base + j, per_module[j]);
        }
    }
}

/// Entry `li * cloud_bins + ci` of a slice is the cell at (`li`, `ci`) of
/// that slice's altitude and day bins.
pub proof fn lemma_slice_entry<A, C, M>(
    env: MissionEnvelope<A, C, M>,
    ai: int,
    di: int,
    li: int,
    ci: int,
)
    requires
        0 <= li < env.lat_bins,
        0 <= ci < env.cloud_bins,
    ensures
        0 <= li * env.cloud_bins + ci < env.lat_bins * env.cloud_bins,
        env.slice_view(ai, di, env.lat_bins * env.cloud_bins)[li * env.cloud_bins + ci]
            == env.cells@[env.cell_offset(li, ci, ai, di)],
{
    assert(0 <= li * env.cloud_bins + ci < env.lat_bins * env.cloud_bins) by (nonlinear_arith)
        requires
            0 <= li < env.lat_bins,
            0 <= ci < env.cloud_bins,
    ;
    lemma_fundamental_div_mod_converse(li * env.cloud_bins + ci, env.cloud_bins as int, li, ci);
}

/// Distinct grid points of an envelope occupy distinct cells.
pub proof fn lemma_cells_distinct<A, C, M>(
    env: MissionEnvelope<A, C, M>,
    li: int,
    ci: int,
    ai: int,
    di: int,
    lj: int,
    cj: int,
    aj: int,
    dj: int,
)
    requires
        env.in_grid(li, ci, ai, di),
        env.in_grid(lj, cj, aj, dj),
        (li, ci, ai, di) != (lj, cj, aj, dj),
    ensures
        env.cell_offset(li, ci, ai, di) != env.cell_offset(lj, cj, aj, dj),
{
    if env.cell_offset(li, ci, ai, di) == env.cell_offset(lj, cj, aj, dj) {
        lemma_flat4_injective(
            env.cloud_bins as int,
            env.alt_bins as int,
            env.doy_bins as int,
            li,
            ci,
            ai,
            di,
            lj,
            cj,
            aj,
            dj,
        );
    }
}

/// A well-formed envelope addresses every grid point: the offset of each
/// grid point is computed without overflow and names one of its cells.
pub proof fn lemma_grid_cells_addressable<A, C, M>(
    env: MissionEnvelope<A, C, M>,
    li: int,
    ci: int,
    ai: int,
    di: int,
)
    requires
        env.well_formed(),
        env.cells@.len() <= usize::MAX,
        env.in_grid(li, ci, ai, di),
    ensures
        env.offset_fits(li, ci, ai, di),
        env.cell_offset(li, ci, ai, di) < env.cells@.len(),
{
    lemma_flat4_in_range(
        env.lat_bins as int,
        env.cloud_bins as int,
        env.alt_bins as int,
        env.doy_bins as int,
        li,
        ci,
        ai,
        di,
    );
    let f3 = flat3(env.cloud_bins as int, env.alt_bins as int, li, ci, ai);
    assert(li * env.cloud_bins + ci <= f3) by (nonlinear_arith)
        requires
            ai >= 0,
            env.alt_bins >= 1,
            li * env.cloud_bins + ci >= 0,
            f3 == (li * env.cloud_bins + ci) * env.alt_bins + ai,
    ;
    assert(f3 <= env.cell_offset(li, ci, ai, di)) by (nonlinear_arith)
        requires
            di >= 0,
            env.doy_bins >= 1,
            f3 >= 0,
            env.cell_offset(li, ci, ai, di) == f3 * env.doy_bins + di,
    ;
}

/// The (latitude, cloud, altitude) bins simulated for one day of year, in
/// row-major order: entry `k` is (`k / (cloud_bins * alt_bins)`,
/// `(k / alt_bins) % cloud_bins`, `k % alt_bins`).
pub open spec fn task_view(cloud_bins: int, alt_bins: int, count: int) -> Seq<(usize, usize, usize)> {
    Seq::new(
        count as nat,
        |k: int|
            (
                (k / (cloud_bins * alt_bins)) as usize,
                ((k / alt_bins) % cloud_bins) as usize,
                (k % alt_bins) as usize,
            ),
    )
}

/// Enumerate every (latitude, cloud, altitude) grid point of one day of
/// year, latitude outermost and altitude innermost.
pub fn bake_tasks(lat_bins: usize, cloud_bins: usize, alt_bins: usize) -> (tasks: Vec<
    (usize, usize, usize),
>)
    ensures
        tasks@ == task_view(cloud_bins as int, alt_bins as int, lat_bins * cloud_bins * alt_bins),
{
    let mut tasks: Vec<(usize, usize, usize)> = Vec::new();
    assert(tasks@ =~= task_view(cloud_bins as int, alt_bins as int, 0 * cloud_bins * alt_bins));
    for li in 0..lat_bins
        invariant
            tasks@ == task_view(cloud_bins as int, alt_bins as int, li * cloud_bins * alt_bins),
    {
        for ci in 0..cloud_bins
            invariant
                li < lat_bins,
                tasks@ == task_view(
                    cloud_bins as int,
                    alt_bins as int,
                    (li * cloud_bins + ci) * alt_bins,
                ),
        {
            for ai in 0..alt_bins
                invariant
                    li < lat_bins,
                    ci < cloud_bins,
                    tasks@ == task_view(
                        cloud_bins as int,
                        alt_bins as int,
                        (li * cloud_bins + ci) * alt_bins + ai,
                    ),
            {
                let ghost k: int = (li * cloud_bins + ci) * alt_bins + ai;
                tasks.push((li, ci, ai));
                proof {
                    let ca: int = cloud_bins * alt_bins;
                    let r: int = ci * alt_bins + ai;
                    assert(k == li * ca + r && 0 <= r < ca) by (nonlinear_arith)
                        requires
                            k == (li * cloud_bins + ci) * alt_bins + ai,
                            ca == cloud_bins * alt_bins,
                            r == ci * alt_bins + ai,
                            ci < cloud_bins,
                            ai < alt_bins,
                    ;
                    lemma_fundamental_div_mod_converse(k, ca, li as int, r);
                    lemma_fundamental_div_mod_converse(
                        k,
                        alt_bins as int,
                        li * cloud_bins + ci,
                        ai as int,
                    );
                    lemma_fundamental_div_mod_converse(
                        li * cloud_bins + ci,
                        cloud_bins as int,
                        li as int,
                        ci as int,
                    );
                    assert(tasks@ =~= task_view(cloud_bins as int, alt_bins as int, k + 1));
                }
            }
            assert((li * cloud_bins + ci) * alt_bins + alt_bins == (li * cloud_bins + ci + 1)
                * alt_bins) by (nonlinear_arith);
        }
        assert((li * cloud_bins + cloud_bins) * alt_bins == (li + 1) * cloud_bins * alt_bins)
            by (nonlinear_arith);
        assert(li * cloud_bins * alt_bins == (li * cloud_bins + 0) * alt_bins) by (nonlinear_arith);
    }
    tasks
}

} // verus!
