//! Layout of the pre-baked MMAST module table: one entry (per-module power
//! and activity) per (hour bin, altitude bin, battery-temperature bin),
//! read back by nearest-neighbour lookup.

use vstd::prelude::*;
use crate::layout::{fill3, flat3, lemma_flat3_in_range};

verus! {

/// Hour bins: 24 h in 15-minute steps.
pub const HOUR_BINS: usize = 96;

/// Altitude bins: 0-20 km in 625 m steps.
pub const ALT_BINS: usize = 32;

/// Battery-temperature bins: 220-320 K in 6.25 K steps.
pub const BATT_TEMP_BINS: usize = 16;

/// Number of modules in the full MMAST stack.
pub const MODULE_COUNT: usize = 9;

/// Offset of the entry for (`hour_i`, `alt_i`, `batt_i`) in the table.
pub open spec fn entry_offset(hour_i: int, alt_i: int, batt_i: int) -> int {
    flat3(ALT_BINS as int, BATT_TEMP_BINS as int, hour_i, alt_i, batt_i)
}

/// `bin` clamped into `0..bins` (out-of-range bins read the last bin).
pub open spec fn clamp_bin(bin: int, bins: int) -> int {
    if bin < bins - 1 {
        bin
    } else {
        bins - 1
    }
}

/// The pre-computed MMAST module table.
pub struct MmastLut<E> {
    pub data: Vec<E>,
    /// Module names, in the order of each entry's per-module slots.
    pub module_names: Vec<&'static str>,
}

impl<E> MmastLut<E> {
    /// One entry per grid point and one name per module.
    pub open spec fn well_formed(&self) -> bool {
        &&& self.data@.len() == HOUR_BINS * ALT_BINS * BATT_TEMP_BINS
        &&& self.module_names@.len() == MODULE_COUNT
    }

    /// Offset of the entry for (`hour_i`, `alt_i`, `batt_i`).
    pub fn entry_index(hour_i: usize, alt_i: usize, batt_i: usize) -> (idx: usize)
        requires
            entry_offset(hour_i as int, alt_i as int, batt_i as int) <= usize::MAX,
        ensures
            idx == entry_offset(hour_i as int, alt_i as int, batt_i as int),
            hour_i < HOUR_BINS && alt_i < ALT_BINS && batt_i < BATT_TEMP_BINS ==> idx < HOUR_BINS
                * ALT_BINS * BATT_TEMP_BINS,
    {
        proof {
            if hour_i < HOUR_BINS && alt_i < ALT_BINS && batt_i < BATT_TEMP_BINS {
                lemma_flat3_in_range(
                    HOUR_BINS as int,
                    ALT_BINS as int,
                    BATT_TEMP_BINS as int,
                    hour_i as int,
                    alt_i as int,
                    batt_i as int,
                );
            }
        }
        (hour_i * ALT_BINS + alt_i) * BATT_TEMP_BINS + batt_i
    }

    /// Bake the table for the modules `module_names`: the entry of grid
    /// point (`hour_i`, `alt_i`, `batt_i`) is what `entry_at(hour_i, alt_i,
    /// batt_i)` computes, each grid point computed once and stored at its
    /// offset.
    pub fn from_grid<F: Fn(usize, usize, usize) -> E>(module_names: Vec<&'static str>, entry_at: F) -> (lut:
        Self)
        requires
            forall|hour_i: usize, alt_i: usize, batt_i: usize|
                hour_i < HOUR_BINS && alt_i < ALT_BINS && batt_i < BATT_TEMP_BINS
                    ==> #[trigger] entry_at.requires((hour_i, alt_i, batt_i)),
        ensures
            lut.data@.len() == HOUR_BINS * ALT_BINS * BATT_TEMP_BINS,
            lut.module_names@ == module_names@,
            forall|hour_i: usize, alt_i: usize, batt_i: usize|
                hour_i < HOUR_BINS && alt_i < ALT_BINS && batt_i < BATT_TEMP_BINS ==> entry_at.ensures(
                    (hour_i, alt_i, batt_i),
                    #[trigger] lut.data@[entry_offset(hour_i as int, alt_i as int, batt_i as int)],
                ),
    {
        let data = fill3(HOUR_BINS, ALT_BINS, BATT_TEMP_BINS, entry_at);
        MmastLut { data, module_names }
    }

    /// Nearest-neighbour lookup of the entry for the given hour, altitude and
    /// battery-temperature bins; a bin past the end of its axis reads the
    /// axis's last bin.
    pub fn sample(&self, hour_bin: usize, alt_bin: usize, batt_bin: usize) -> (entry: &E)
        requires
            entry_offset(
                clamp_bin(hour_bin as int, HOUR_BINS as int),
                clamp_bin(alt_bin as int, ALT_BINS as int),
                clamp_bin(batt_bin as int, BATT_TEMP_BINS as int),
            ) < self.data@.len(),
        ensures
            *entry == self.data@[entry_offset(
                clamp_bin(hour_bin as int, HOUR_BINS as int),
                clamp_bin(alt_bin as int, ALT_BINS as int),
                clamp_bin(batt_bin as int, BATT_TEMP_BINS as int),
            )],
            hour_bin < HOUR_BINS && alt_bin < ALT_BINS && batt_bin < BATT_TEMP_BINS ==> *entry
                == self.data@[entry_offset(hour_bin as int, alt_bin as int, batt_bin as int)],
    {
        let hi = if hour_bin < HOUR_BINS - 1 {
            hour_bin
        } else {
            HOUR_BINS - 1
        };
        let ai = if alt_bin < ALT_BINS - 1 {
            alt_bin
        } else {
            ALT_BINS - 1
        };
        let bi = if batt_bin < BATT_TEMP_BINS - 1 {
            batt_bin
        } else {
            BATT_TEMP_BINS - 1
        };
        proof {
            lemma_flat3_in_range(
                HOUR_BINS as int,
                ALT_BINS as int,
                BATT_TEMP_BINS as int,
                hi as int,
                ai as int,
                bi as int,
            );
        }
        &self.data[Self::entry_index(hi, ai, bi)]
    }

    /// Total entries.
    pub fn len(&self) -> (n: usize)
        ensures
            n == self.data@.len(),
    {
        self.data.len()
    }
}

/// A well-formed table answers every query: whatever the bins asked for,
/// the clamped entry lies inside the table.
pub proof fn lemma_every_sample_in_table<E>(lut: MmastLut<E>, hour_bin: int, alt_bin: int, batt_bin: int)
    requires
        lut.well_formed(),
        hour_bin >= 0,
        alt_bin >= 0,
        batt_bin >= 0,
    ensures
        0 <= entry_offset(
            clamp_bin(hour_bin, HOUR_BINS as int),
            clamp_bin(alt_bin, ALT_BINS as int),
            clamp_bin(batt_bin, BATT_TEMP_BINS as int),
        ) < lut.data@.len(),
{
    lemma_flat3_in_range(
        HOUR_BINS as int,
        ALT_BINS as int,
        BATT_TEMP_BINS as int,
        clamp_bin(hour_bin, HOUR_BINS as int),
        clamp_bin(alt_bin, ALT_BINS as int),
        clamp_bin(batt_bin, BATT_TEMP_BINS as int),
    );
}

/// Clamping leaves a bin inside its axis alone and sends every bin past
/// the end to the last one; so a lookup inside the grid reads the entry of
/// exactly the bins asked for.
pub proof fn lemma_clamp_bin(bin: int, bins: int)
    requires
        0 <= bin,
        0 < bins,
    ensures
        bin < bins ==> clamp_bin(bin, bins) == bin,
        bin >= bins ==> clamp_bin(bin, bins) == bins - 1,
        0 <= clamp_bin(bin, bins) < bins,
        clamp_bin(bin, bins) <= bin,
{
}

} // verus!
