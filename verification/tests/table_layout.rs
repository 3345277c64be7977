use mmast_sim::atmosphere_lut::{self, AtmosphereLut};
use mmast_sim::envelope::{bake_tasks, MissionEnvelope};
use mmast_sim::layout::fill3;
use mmast_sim::mmast_lut::{self, MmastLut, MODULE_COUNT};

fn atmosphere_table() -> AtmosphereLut<usize> {
    let n = atmosphere_lut::ALT_BINS * atmosphere_lut::HOUR_BINS * atmosphere_lut::LAT_BINS;
    AtmosphereLut { data: (0..n).collect() }
}

#[test]
fn atmosphere_table_layout_is_latitude_major() {
    assert_eq!(AtmosphereLut::<u8>::entry_index(0, 0, 0), 0);
    assert_eq!(AtmosphereLut::<u8>::entry_index(1, 0, 0), 1);
    assert_eq!(AtmosphereLut::<u8>::entry_index(0, 1, 0), 64);
    assert_eq!(AtmosphereLut::<u8>::entry_index(0, 0, 1), 64 * 96);
    assert_eq!(AtmosphereLut::<u8>::entry_index(63, 95, 36), 64 * 96 * 37 - 1);
}

#[test]
fn atmosphere_table_len() {
    let lut = atmosphere_table();
    assert_eq!(lut.len(), 227_328);
}

#[test]
fn atmosphere_corners_surround_the_cell() {
    let lut = atmosphere_table();
    let idx = |a: usize, h: usize, l: usize| (l * 96 + h) * 64 + a;
    let c = lut.sample_corners(10, 20, 30);
    assert_eq!(
        c,
        [
            idx(10, 20, 30),
            idx(11, 20, 30),
            idx(10, 21, 30),
            idx(11, 21, 30),
            idx(10, 20, 31),
            idx(11, 20, 31),
            idx(10, 21, 31),
            idx(11, 21, 31),
        ]
    );
}

fn module_table() -> MmastLut<usize> {
    let n = mmast_lut::HOUR_BINS * mmast_lut::ALT_BINS * mmast_lut::BATT_TEMP_BINS;
    MmastLut {
        data: (0..n).collect(),
        module_names: vec!["m"; MODULE_COUNT],
    }
}

#[test]
fn module_table_len() {
    let lut = module_table();
    assert_eq!(lut.len(), 96 * 32 * 16);
}

#[test]
fn module_table_sample_in_range() {
    let lut = module_table();
    // Noon (bin 48), 500 m (bin 0), 293 K (bin 11).
    assert_eq!(*lut.sample(48, 0, 11), (48 * 32 + 0) * 16 + 11);
}

#[test]
fn module_table_sample_clamps_each_axis() {
    let lut = module_table();
    assert_eq!(*lut.sample(1000, 3, 2), (95 * 32 + 3) * 16 + 2);
    assert_eq!(*lut.sample(5, 99, 2), (5 * 32 + 31) * 16 + 2);
    assert_eq!(*lut.sample(5, 3, usize::MAX), (5 * 32 + 3) * 16 + 15);
    assert_eq!(*lut.sample(usize::MAX, usize::MAX, usize::MAX), 96 * 32 * 16 - 1);
}

fn envelope(lat: usize, cloud: usize, alt: usize, doy: usize, modules: usize) -> MissionEnvelope<(), usize, i32> {
    let cells = lat * cloud * alt * doy;
    MissionEnvelope {
        vehicle: String::from("HALE Solar UAV"),
        axes: (),
        lat_bins: lat,
        cloud_bins: cloud,
        alt_bins: alt,
        doy_min: 172,
        doy_max: 172,
        doy_bins: doy,
        module_names: (0..modules).map(|m| format!("module {m}")).collect(),
        cells: (0..cells).collect(),
        module_contributions: vec![0; cells * modules],
    }
}

#[test]
fn envelope_cell_index_is_doy_innermost() {
    let env = envelope(4, 4, 3, 3, 12);
    assert_eq!(env.cell_index(0, 0, 0, 1), 1);
    assert_eq!(env.cell_index(0, 0, 1, 0), 3);
    assert_eq!(env.cell_index(0, 1, 0, 0), 9);
    assert_eq!(env.cell_index(1, 0, 0, 0), 36);
    assert_eq!(env.cell_index(3, 3, 2, 2), 4 * 4 * 3 * 3 - 1);
    assert_eq!(env.cell_at(2, 1, 0, 2), ((2 * 4 + 1) * 3 + 0) * 3 + 2);
}

#[test]
fn envelope_slice_shape() {
    let env = envelope(4, 4, 2, 1, 12);
    let slice = env.slice(0, 0);
    assert_eq!(slice.len(), 4 * 4);
}

#[test]
fn envelope_slice_is_latitude_major() {
    let env = envelope(3, 2, 2, 2, 1);
    let slice = env.slice(1, 0);
    let expect: Vec<usize> = (0..3)
        .flat_map(|li| (0..2).map(move |ci| ((li * 2 + ci) * 2 + 1) * 2))
        .collect();
    assert_eq!(slice, expect);
}

#[test]
fn envelope_store_cell_writes_cell_and_breakdown() {
    let mut env = envelope(2, 2, 1, 1, 3);
    env.store_cell(2, 99, &vec![5, -6, 7]);
    assert_eq!(env.cells, vec![0, 1, 99, 3]);
    assert_eq!(env.module_contributions, vec![0, 0, 0, 0, 0, 0, 5, -6, 7, 0, 0, 0]);
}

#[test]
fn bake_tasks_enumerate_the_grid() {
    let tasks = bake_tasks(2, 3, 2);
    assert_eq!(tasks.len(), 12);
    assert_eq!(tasks[0], (0, 0, 0));
    assert_eq!(tasks[1], (0, 0, 1));
    assert_eq!(tasks[2], (0, 1, 0));
    assert_eq!(tasks[11], (1, 2, 1));
    assert!(bake_tasks(0, 3, 2).is_empty());
}

#[test]
fn fill3_stores_each_cell_at_its_offset() {
    let data = fill3(2, 3, 4, |i0, i1, i2| (i0, i1, i2));
    assert_eq!(data.len(), 24);
    for i0 in 0..2 {
        for i1 in 0..3 {
            for i2 in 0..4 {
                assert_eq!(data[(i0 * 3 + i1) * 4 + i2], (i0, i1, i2));
            }
        }
    }
}

#[test]
fn fill3_of_an_empty_axis_is_empty() {
    let data = fill3(5, 0, 7, |i0, i1, i2| i0 + i1 + i2);
    assert!(data.is_empty());
}

#[test]
fn atmosphere_table_from_grid_matches_entry_index() {
    let lut = AtmosphereLut::from_grid(|lat_i, hour_i, alt_i| (alt_i, hour_i, lat_i));
    assert_eq!(lut.len(), 227_328);
    for &(a, h, l) in &[(0, 0, 0), (1, 0, 0), (0, 1, 0), (0, 0, 1), (10, 20, 30), (63, 95, 36)] {
        assert_eq!(lut.data[AtmosphereLut::<u8>::entry_index(a, h, l)], (a, h, l));
    }
}

#[test]
fn mmast_table_from_grid_matches_entry_index() {
    let names: Vec<&'static str> = vec!["m"; MODULE_COUNT];
    let lut = MmastLut::from_grid(names.clone(), |hi, ai, bi| (hi, ai, bi));
    assert_eq!(lut.len(), 96 * 32 * 16);
    assert_eq!(lut.module_names, names);
    for &(h, a, b) in &[(0, 0, 0), (0, 0, 1), (0, 1, 0), (1, 0, 0), (48, 0, 11), (95, 31, 15)] {
        assert_eq!(lut.data[MmastLut::<u8>::entry_index(h, a, b)], (h, a, b));
    }
}
