//! What the interactive viewer does with a pressed key.

use vstd::prelude::*;
use crate::presets::{browser_preset_named, browser_preset_names, is_named, VehiclePreset};

verus! {

/// A pressed key, as far as the viewer tells keys apart.
pub enum ViewerKey {
    Space,
    Escape,
    /// A key that types text, with that text.
    Character(String),
    Other,
}

/// What the viewer does in answer to a key.
#[derive(Debug, Clone, Copy, PartialEq, Eq, Structural)]
pub enum ViewerAction {
    TogglePause,
    Exit,
    /// Restart the simulation with this vehicle.
    ResetVehicle(VehiclePreset),
    /// Double the simulation speed (capped at one simulated day per second).
    SpeedUp,
    /// Halve the simulation speed (floored at real time).
    SlowDown,
    Ignore,
}

/// The viewer's answer to a typed `text`.
pub open spec fn character_action(text: Seq<char>) -> ViewerAction {
    if text == "r"@ || text == "1"@ {
        ViewerAction::ResetVehicle(VehiclePreset::Hale)
    } else if text == "2"@ {
        ViewerAction::ResetVehicle(VehiclePreset::Quad)
    } else if text == "3"@ {
        ViewerAction::ResetVehicle(VehiclePreset::Strato)
    } else if text == "4"@ {
        ViewerAction::ResetVehicle(VehiclePreset::Auv)
    } else if text == "5"@ {
        ViewerAction::ResetVehicle(VehiclePreset::Airship)
    } else if text == "6"@ {
        ViewerAction::ResetVehicle(VehiclePreset::Rover)
    } else if text == "+"@ || text == "="@ {
        ViewerAction::SpeedUp
    } else if text == "-"@ {
        ViewerAction::SlowDown
    } else {
        ViewerAction::Ignore
    }
}

/// The viewer's answer to `key`.
pub open spec fn key_action(key: ViewerKey) -> ViewerAction {
    match key {
        ViewerKey::Space => ViewerAction::TogglePause,
        ViewerKey::Escape => ViewerAction::Exit,
        ViewerKey::Character(text) => character_action(text@),
        ViewerKey::Other => ViewerAction::Ignore,
    }
}

/// Decide what the viewer does with a pressed key: space pauses or
/// resumes, escape quits, `r` and `1`..`6` restart with a vehicle preset,
/// `+`/`=` and `-` change the simulation speed; other keys do nothing.
pub fn viewer_key_action(key: &ViewerKey) -> (action: ViewerAction)
    ensures
        action == key_action(*key),
{
    match key {
        ViewerKey::Space => ViewerAction::TogglePause,
        ViewerKey::Escape => ViewerAction::Exit,
        ViewerKey::Character(text) => {
            if is_named(text, "r") || is_named(text, "1") {
                ViewerAction::ResetVehicle(VehiclePreset::Hale)
            } else if is_named(text, "2") {
                ViewerAction::ResetVehicle(VehiclePreset::Quad)
            } else if is_named(text, "3") {
                ViewerAction::ResetVehicle(VehiclePreset::Strato)
            } else if is_named(text, "4") {
                ViewerAction::ResetVehicle(VehiclePreset::Auv)
            } else if is_named(text, "5") {
                ViewerAction::ResetVehicle(VehiclePreset::Airship)
            } else if is_named(text, "6") {
                ViewerAction::ResetVehicle(VehiclePreset::Rover)
            } else if is_named(text, "+") || is_named(text, "=") {
                ViewerAction::SpeedUp
            } else if is_named(text, "-") {
                ViewerAction::SlowDown
            } else {
                ViewerAction::Ignore
            }
        },
        ViewerKey::Other => ViewerAction::Ignore,
    }
}

/// The keys that restart the viewer with a vehicle preset, in order.
pub open spec fn preset_keys() -> Seq<Seq<char>> {
    seq!["1"@, "2"@, "3"@, "4"@, "5"@, "6"@]
}

/// Only the bound keys act: a typed text other than `r`, `1` to `6`, `+`,
/// `=` and `-` does nothing; only `r` and `1` restart with the HALE UAV;
/// the digit keys `1` to `6` restart with the browser's presets in the
/// order the browser lists them; and keys other than space, escape and
/// typed text do nothing.
pub proof fn lemma_only_bound_keys_act(text: Seq<char>)
    ensures
        character_action(text) != ViewerAction::Ignore ==> (text == "r"@ || text == "1"@ || text
            == "2"@ || text == "3"@ || text == "4"@ || text == "5"@ || text == "6"@ || text == "+"@
            || text == "="@ || text == "-"@),
        character_action(text) == ViewerAction::ResetVehicle(VehiclePreset::Hale) ==> (text == "r"@
            || text == "1"@),
        character_action(text) == ViewerAction::SpeedUp ==> (text == "+"@ || text == "="@),
        character_action(text) == ViewerAction::SlowDown ==> text == "-"@,
        forall|i: int|
            0 <= i < 6 ==> character_action(#[trigger] preset_keys()[i])
                == ViewerAction::ResetVehicle(browser_preset_named(browser_preset_names()[i])),
        key_action(ViewerKey::Other) == ViewerAction::Ignore,
{
    reveal_strlit("r");
    reveal_strlit("1");
    reveal_strlit("2");
    reveal_strlit("3");
    reveal_strlit("4");
    reveal_strlit("5");
    reveal_strlit("6");
    reveal_strlit("+");
    reveal_strlit("=");
    reveal_strlit("-");
    reveal_strlit("hale");
    reveal_strlit("quad");
    reveal_strlit("strato");
    reveal_strlit("auv");
    reveal_strlit("airship");
    reveal_strlit("rover");
    assert("r"@[0] == 'r' && "1"@[0] == '1' && "2"@[0] == '2' && "3"@[0] == '3' && "4"@[0] == '4');
    assert("5"@[0] == '5' && "6"@[0] == '6' && "+"@[0] == '+' && "="@[0] == '=' && "-"@[0] == '-');
    assert("hale"@[0] == 'h' && "quad"@[0] == 'q' && "strato"@[0] == 's' && "rover"@[0] == 'r');
    assert("auv"@[0] == 'a' && "auv"@[1] == 'u' && "airship"@[0] == 'a' && "airship"@[1] == 'i');
    let digits = preset_keys();
    let names = browser_preset_names();
    assert(names[0] == "hale"@ && names[1] == "quad"@ && names[2] == "strato"@);
    assert(names[3] == "auv"@ && names[4] == "airship"@ && names[5] == "rover"@);
    assert(digits[0] == "1"@ && digits[1] == "2"@ && digits[2] == "3"@);
    assert(digits[3] == "4"@ && digits[4] == "5"@ && digits[5] == "6"@);
}

} // verus!
