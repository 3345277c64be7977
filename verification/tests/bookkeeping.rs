use mmast_sim::energy::{module_column, module_slot, position_named, update_module_ledger};
use mmast_sim::geometry::GeometryError;
use mmast_sim::medium::{Medium, PropulsionType};
use mmast_sim::mesh_adapter::RenderableMesh;
use mmast_sim::presets::{browser_vehicle_preset, list_vehicle_presets, pick_vehicle, VehiclePreset};
use mmast_sim::render_stats::{BatchCounts, RenderStats};
use mmast_sim::terrain_scatter::xorshift32;
use mmast_sim::viewer_input::{viewer_key_action, ViewerAction, ViewerKey};

#[test]
fn render_stats_tally_batches() {
    let batches = vec![
        BatchCounts { index_count: 36, instance_count: 1 },
        BatchCounts { index_count: 6 * 80 * 80, instance_count: 1 },
    ];
    let cullable = vec![
        BatchCounts { index_count: 36, instance_count: 54 },
        BatchCounts { index_count: 36, instance_count: 200 },
    ];
    let stats = RenderStats::from_batches(&batches, &cullable);
    assert_eq!(stats.draw_calls, 4);
    assert_eq!(stats.total_instances, 1 + 1 + 54 + 200);
    assert_eq!(stats.total_triangles, 12 + 12800 + 12 * 54 + 12 * 200);
    assert_eq!(stats.cullable_source, 254);
}

#[test]
fn render_stats_of_empty_frame() {
    let stats = RenderStats::from_batches(&vec![], &vec![]);
    assert_eq!(stats.draw_calls, 0);
    assert_eq!(stats.total_triangles, 0);
    let d = RenderStats::default();
    assert_eq!((d.draw_calls, d.total_instances, d.total_triangles, d.cullable_source), (0, 0, 0, 0));
}

#[test]
fn render_stats_drop_partial_triangles() {
    let stats = RenderStats::from_batches(&vec![BatchCounts { index_count: 8, instance_count: 3 }], &vec![]);
    assert_eq!(stats.total_triangles, 6);
}

#[test]
fn geometry_error_message() {
    let e = GeometryError(String::from("kernel rejected box"));
    assert_eq!(e.message(), "geometry build failed: kernel rejected box");
}

#[test]
fn xorshift_known_sequence() {
    assert_eq!(xorshift32(1), 270369);
    assert_eq!(xorshift32(0), 0);
    let mut x = 42u32;
    for _ in 0..1000 {
        x = xorshift32(x);
        assert_ne!(x, 0);
    }
}

#[test]
fn module_slot_finds_or_appends() {
    let mut per_module: Vec<(String, i64)> = Vec::new();
    assert_eq!(module_slot(&mut per_module, &String::from("PV baseline"), 10), None);
    assert_eq!(module_slot(&mut per_module, &String::from("Skin TENG"), 2), None);
    assert_eq!(module_slot(&mut per_module, &String::from("PV baseline"), 5), Some(0));
    assert_eq!(module_slot(&mut per_module, &String::from("Skin TENG"), 5), Some(1));
    assert_eq!(
        per_module,
        vec![(String::from("PV baseline"), 10), (String::from("Skin TENG"), 2)]
    );
}

#[test]
fn pick_vehicle_by_name() {
    assert_eq!(pick_vehicle("hale"), Some(VehiclePreset::Hale));
    assert_eq!(pick_vehicle("quad"), Some(VehiclePreset::Quad));
    assert_eq!(pick_vehicle("strato"), Some(VehiclePreset::Strato));
    assert_eq!(pick_vehicle("auv"), Some(VehiclePreset::Auv));
    assert_eq!(pick_vehicle("airship"), Some(VehiclePreset::Airship));
    assert_eq!(pick_vehicle("carrier"), Some(VehiclePreset::CloudCarrier));
    assert_eq!(pick_vehicle("cloud_carrier"), Some(VehiclePreset::CloudCarrier));
    assert_eq!(pick_vehicle("rover"), Some(VehiclePreset::Rover));
    assert_eq!(pick_vehicle("zeppelin"), None);
    assert_eq!(pick_vehicle("HALE"), None);
}

#[test]
fn browser_preset_falls_back_to_hale() {
    assert_eq!(browser_vehicle_preset("rover"), VehiclePreset::Rover);
    assert_eq!(browser_vehicle_preset("carrier"), VehiclePreset::Hale);
    assert_eq!(browser_vehicle_preset(""), VehiclePreset::Hale);
}

#[test]
fn renderable_mesh_counts() {
    let m = RenderableMesh {
        positions: vec![[0.0f32; 3]; 4],
        normals: vec![[0.0f32, 1.0, 0.0]; 4],
        indices: vec![0, 1, 2, 0, 2, 3, 1],
    };
    assert_eq!(m.vertex_count(), 4);
    assert_eq!(m.triangle_count(), 2);
}

#[test]
fn media_and_propulsion_compare() {
    assert_eq!(Medium::Atmosphere, Medium::Atmosphere);
    assert_ne!(Medium::Space, Medium::Ground);
    assert_ne!(Some(PropulsionType::EadIon), Some(PropulsionType::Edf));
}

#[test]
fn browser_preset_list_is_json() {
    assert_eq!(
        list_vehicle_presets(),
        r#"["hale","quad","strato","auv","airship","rover"]"#
    );
}

#[test]
fn module_ledger_update_routes_each_record_to_its_name() {
    let mut ledger: Vec<(String, i64)> = vec![("pv".to_string(), 10), ("avionics".to_string(), -4)];
    let records: Vec<(String, bool, i64)> = vec![
        ("avionics".to_string(), true, -2),
        ("heater".to_string(), false, -7),
        ("battery".to_string(), true, 3),
        ("pv".to_string(), true, 5),
        ("battery".to_string(), true, 1),
        ("radio".to_string(), true, -1),
    ];
    let slots = update_module_ledger(&mut ledger, &records);
    assert_eq!(slots, vec![Some(1), None, None, Some(0), Some(2), None]);
    assert_eq!(
        ledger,
        vec![
            ("pv".to_string(), 10),
            ("avionics".to_string(), -4),
            ("battery".to_string(), 3),
            ("radio".to_string(), -1),
        ]
    );
    // Adding each routed energy gives the per-name totals.
    for ((_, _, energy), slot) in records.iter().zip(slots.iter()) {
        if let Some(i) = slot {
            ledger[*i].1 += *energy;
        }
    }
    assert_eq!(ledger[0].1, 15);
    assert_eq!(ledger[1].1, -6);
    assert_eq!(ledger[2].1, 4);
    assert_eq!(ledger[3].1, -1);
}

#[test]
fn module_ledger_update_with_no_active_record_changes_nothing() {
    let mut ledger: Vec<(String, i64)> = vec![("pv".to_string(), 1)];
    let records: Vec<(String, bool, i64)> = vec![("pv".to_string(), false, 9), ("cpu".to_string(), false, -3)];
    let slots = update_module_ledger(&mut ledger, &records);
    assert_eq!(slots, vec![None, None]);
    assert_eq!(ledger, vec![("pv".to_string(), 1)]);
}

#[test]
fn viewer_keys_pick_actions() {
    assert_eq!(viewer_key_action(&ViewerKey::Space), ViewerAction::TogglePause);
    assert_eq!(viewer_key_action(&ViewerKey::Escape), ViewerAction::Exit);
    assert_eq!(viewer_key_action(&ViewerKey::Other), ViewerAction::Ignore);
    let expected = [
        ("r", ViewerAction::ResetVehicle(VehiclePreset::Hale)),
        ("1", ViewerAction::ResetVehicle(VehiclePreset::Hale)),
        ("2", ViewerAction::ResetVehicle(VehiclePreset::Quad)),
        ("3", ViewerAction::ResetVehicle(VehiclePreset::Strato)),
        ("4", ViewerAction::ResetVehicle(VehiclePreset::Auv)),
        ("5", ViewerAction::ResetVehicle(VehiclePreset::Airship)),
        ("6", ViewerAction::ResetVehicle(VehiclePreset::Rover)),
        ("+", ViewerAction::SpeedUp),
        ("=", ViewerAction::SpeedUp),
        ("-", ViewerAction::SlowDown),
        ("7", ViewerAction::Ignore),
        ("R", ViewerAction::Ignore),
    ];
    for (text, action) in expected {
        assert_eq!(viewer_key_action(&ViewerKey::Character(text.to_string())), action, "key {text}");
    }
}

#[test]
fn module_column_takes_first_match_or_zero() {
    let names: Vec<String> = vec!["pv".into(), "radio".into(), "cpu".into()];
    let entries: Vec<(String, f32)> = vec![
        ("cpu".into(), -3.5),
        ("pv".into(), 12.0),
        ("cpu".into(), -9.0),
    ];
    assert_eq!(module_column(&names, &entries, 0.0_f32), vec![12.0, 0.0, -3.5]);
    assert_eq!(module_column(&Vec::new(), &entries, 0.0_f32), Vec::<f32>::new());
}

#[test]
fn position_named_finds_first() {
    let entries: Vec<(String, u8)> = vec![("a".into(), 1), ("b".into(), 2), ("a".into(), 3)];
    assert_eq!(position_named(&entries, &"a".to_string()), Some(0));
    assert_eq!(position_named(&entries, &"b".to_string()), Some(1));
    assert_eq!(position_named(&entries, &"c".to_string()), None);
}
