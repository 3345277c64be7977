//! Layout of the pre-baked atmosphere table: a 3D grid indexed by
//! (altitude bin, hour bin, latitude bin), latitude outermost and altitude
//! innermost, sampled by blending the eight grid points around a query.

use vstd::prelude::*;
use crate::layout::{fill3, flat3, lemma_flat3_in_range, lemma_flat3_injective};

verus! {

/// Altitude bins: 0-20 km in 312.5 m steps.
pub const ALT_BINS: usize = 64;

/// Hour bins: 24 h in 15-minute steps.
pub const HOUR_BINS: usize = 96;

/// Latitude bins: -90 to +90 degrees in 5-degree steps.
pub const LAT_BINS: usize = 37;

/// Offset of the entry for (`alt_i`, `hour_i`, `lat_i`) in the table.
pub open spec fn entry_offset(alt_i: int, hour_i: int, lat_i: int) -> int {
    flat3(HOUR_BINS as int, ALT_BINS as int, lat_i, hour_i, alt_i)
}

/// The full pre-computed atmosphere table, one entry per grid point.
pub struct AtmosphereLut<E> {
    pub data: Vec<E>,
}

impl<E> AtmosphereLut<E> {
    /// The table holds exactly one entry per grid point.
    pub open spec fn well_formed(&self) -> bool {
        self.data@.len() == ALT_BINS * HOUR_BINS * LAT_BINS
    }

    /// Offset of the entry for (`alt_i`, `hour_i`, `lat_i`).
    pub fn entry_index(alt_i: usize, hour_i: usize, lat_i: usize) -> (idx: usize)
        requires
            entry_offset(alt_i as int, hour_i as int, lat_i as int) <= usize::MAX,
        ensures
            idx == entry_offset(alt_i as int, hour_i as int, lat_i as int),
            alt_i < ALT_BINS && hour_i < HOUR_BINS && lat_i < LAT_BINS ==> idx < ALT_BINS
                * HOUR_BINS * LAT_BINS,
    {
        proof {
            if alt_i < ALT_BINS && hour_i < HOUR_BINS && lat_i < LAT_BINS {
                lemma_flat3_in_range(
                    LAT_BINS as int,
                    HOUR_BINS as int,
                    ALT_BINS as int,
                    lat_i as int,
                    hour_i as int,
                    alt_i as int,
                );
            }
        }
        (lat_i * HOUR_BINS + hour_i) * ALT_BINS + alt_i
    }

    /// Bake the table: the entry of grid point (`alt_i`, `hour_i`, `lat_i`)
    /// is what `entry_at(lat_i, hour_i, alt_i)` computes (arguments in
    /// storage order, latitude outermost), each grid point computed once and
    /// stored at its offset.
    pub fn from_grid<F: Fn(usize, usize, usize) -> E>(entry_at: F) -> (lut: Self)
        requires
            forall|lat_i: usize, hour_i: usize, alt_i: usize|
                lat_i < LAT_BINS && hour_i < HOUR_BINS && alt_i < ALT_BINS ==> #[trigger] entry_at.requires(
                    (lat_i, hour_i, alt_i),
                ),
        ensures
            lut.well_formed(),
            forall|alt_i: usize, hour_i: usize, lat_i: usize|
                alt_i < ALT_BINS && hour_i < HOUR_BINS && lat_i < LAT_BINS ==> entry_at.ensures(
                    (lat_i, hour_i, alt_i),
                    #[trigger] lut.data@[entry_offset(alt_i as int, hour_i as int, lat_i as int)],
                ),
    {
        let data = fill3(LAT_BINS, HOUR_BINS, ALT_BINS, entry_at);
        AtmosphereLut { data }
    }

    /// Total entries in the table.
    pub fn len(&self) -> (n: usize)
        ensures
            n == self.data@.len(),
    {
        self.data.len()
    }

    /// The eight grid entries around the cell whose lowest corner is
    /// (`a0`, `h0`, `l0`), in the order c000, c100, c010, c110, c001, c101,
    /// c011, c111 (digits: altitude, hour, latitude step).
    pub fn sample_corners(&self, a0: usize, h0: usize, l0: usize) -> (corners: [E; 8]) where
        E: Copy,
        requires
            a0 + 1 < ALT_BINS,
            h0 + 1 < HOUR_BINS,
            l0 + 1 < LAT_BINS,
            entry_offset(a0 + 1, h0 + 1, l0 + 1) < self.data@.len(),
        ensures
            corners@[0] == self.data@[entry_offset(a0 as int, h0 as int, l0 as int)],
            corners@[1] == self.data@[entry_offset(a0 + 1, h0 as int, l0 as int)],
            corners@[2] == self.data@[entry_offset(a0 as int, h0 + 1, l0 as int)],
            corners@[3] == self.data@[entry_offset(a0 + 1, h0 + 1, l0 as int)],
            corners@[4] == self.data@[entry_offset(a0 as int, h0 as int, l0 + 1)],
            corners@[5] == self.data@[entry_offset(a0 + 1, h0 as int, l0 + 1)],
            corners@[6] == self.data@[entry_offset(a0 as int, h0 + 1, l0 + 1)],
            corners@[7] == self.data@[entry_offset(a0 + 1, h0 + 1, l0 + 1)],
    {
        let c000 = self.data[Self::entry_index(a0, h0, l0)];
        let c100 = self.data[Self::entry_index(a0 + 1, h0, l0)];
        let c010 = self.data[Self::entry_index(a0, h0 + 1, l0)];
        let c110 = self.data[Self::entry_index(a0 + 1, h0 + 1, l0)];
        let c001 = self.data[Self::entry_index(a0, h0, l0 + 1)];
        let c101 = self.data[Self::entry_index(a0 + 1, h0, l0 + 1)];
        let c011 = self.data[Self::entry_index(a0, h0 + 1, l0 + 1)];
        let c111 = self.data[Self::entry_index(a0 + 1, h0 + 1, l0 + 1)];
        [c000, c100, c010, c110, c001, c101, c011, c111]
    }
}

/// Every grid point of the table has its own entry: the offsets of the
/// grid points are inside a well-formed table and pairwise distinct.
pub proof fn lemma_entries_distinct<E>(
    lut: AtmosphereLut<E>,
    a: int,
    h: int,
    l: int,
    a2: int,
    h2: int,
    l2: int,
)
    requires
        lut.well_formed(),
        0 <= a < ALT_BINS && 0 <= h < HOUR_BINS && 0 <= l < LAT_BINS,
        0 <= a2 < ALT_BINS && 0 <= h2 < HOUR_BINS && 0 <= l2 < LAT_BINS,
    ensures
        0 <= entry_offset(a, h, l) < lut.data@.len(),
        entry_offset(a, h, l) == entry_offset(a2, h2, l2) ==> a == a2 && h == h2 && l == l2,
{
    lemma_flat3_in_range(LAT_BINS as int, HOUR_BINS as int, ALT_BINS as int, l, h, a);
    if entry_offset(a, h, l) == entry_offset(a2, h2, l2) {
        lemma_flat3_injective(HOUR_BINS as int, ALT_BINS as int, l, h, a, l2, h2, a2);
    }
}

/// In a well-formed table the eight corners of every interior cell exist,
/// so `sample_corners` can be asked for any cell the interpolation reaches.
pub proof fn lemma_corners_in_table<E>(lut: AtmosphereLut<E>, a0: int, h0: int, l0: int)
    requires
        lut.well_formed(),
        0 <= a0 && a0 + 1 < ALT_BINS,
        0 <= h0 && h0 + 1 < HOUR_BINS,
        0 <= l0 && l0 + 1 < LAT_BINS,
    ensures
        entry_offset(a0 + 1, h0 + 1, l0 + 1) < lut.data@.len(),
{
    lemma_flat3_in_range(LAT_BINS as int, HOUR_BINS as int, ALT_BINS as int, l0 + 1, h0 + 1, a0 + 1);
}

} // verus!
