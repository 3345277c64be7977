//! Vehicle presets selectable by name from the command line and the
//! browser front end.

use vstd::prelude::*;
use vstd::string::StringExecFns;

verus! {

/// Vehicle archetype presets.
#[derive(Debug, Clone, Copy, PartialEq, Eq, Structural)]
pub enum VehiclePreset {
    Hale,
    Quad,
    Strato,
    Auv,
    Airship,
    CloudCarrier,
    Rover,
}

/// The preset the command line selects by `name`, if any.
pub open spec fn preset_named(name: Seq<char>) -> Option<VehiclePreset> {
    if name == "hale"@ {
        Some(VehiclePreset::Hale)
    } else if name == "quad"@ {
        Some(VehiclePreset::Quad)
    } else if name == "strato"@ {
        Some(VehiclePreset::Strato)
    } else if name == "auv"@ {
        Some(VehiclePreset::Auv)
    } else if name == "airship"@ {
        Some(VehiclePreset::Airship)
    } else if name == "carrier"@ || name == "cloud_carrier"@ {
        Some(VehiclePreset::CloudCarrier)
    } else if name == "rover"@ {
        Some(VehiclePreset::Rover)
    } else {
        None
    }
}

/// The preset the browser time-series entry point selects by `name`:
/// no cloud carrier there, and any unknown name means the HALE UAV.
pub open spec fn browser_preset_named(name: Seq<char>) -> VehiclePreset {
    if name == "quad"@ {
        VehiclePreset::Quad
    } else if name == "strato"@ {
        VehiclePreset::Strato
    } else if name == "auv"@ {
        VehiclePreset::Auv
    } else if name == "airship"@ {
        VehiclePreset::Airship
    } else if name == "rover"@ {
        VehiclePreset::Rover
    } else {
        VehiclePreset::Hale
    }
}

/// Whether `name` spells `literal`.
pub(crate) fn is_named(name: &String, literal: &str) -> (b: bool)
    ensures
        b == (name@ == literal@),
{
    let lit = String::from_str(literal);
    name.eq(&lit)
}

/// Select a vehicle preset by its command-line name; `None` for an unknown
/// name (the caller warns and falls back to the HALE UAV).
pub fn pick_vehicle(name: &str) -> (preset: Option<VehiclePreset>)
    ensures
        preset == preset_named(name@),
{
    let name = String::from_str(name);
    if is_named(&name, "hale") {
        Some(VehiclePreset::Hale)
    } else if is_named(&name, "quad") {
        Some(VehiclePreset::Quad)
    } else if is_named(&name, "strato") {
        Some(VehiclePreset::Strato)
    } else if is_named(&name, "auv") {
        Some(VehiclePreset::Auv)
    } else if is_named(&name, "airship") {
        Some(VehiclePreset::Airship)
    } else if is_named(&name, "carrier") || is_named(&name, "cloud_carrier") {
        Some(VehiclePreset::CloudCarrier)
    } else if is_named(&name, "rover") {
        Some(VehiclePreset::Rover)
    } else {
        None
    }
}

/// Select the vehicle preset of a browser time-series run by name.
pub fn browser_vehicle_preset(name: &str) -> (preset: VehiclePreset)
    ensures
        preset == browser_preset_named(name@),
{
    let name = String::from_str(name);
    if is_named(&name, "quad") {
        VehiclePreset::Quad
    } else if is_named(&name, "strato") {
        VehiclePreset::Strato
    } else if is_named(&name, "auv") {
        VehiclePreset::Auv
    } else if is_named(&name, "airship") {
        VehiclePreset::Airship
    } else if is_named(&name, "rover") {
        VehiclePreset::Rover
    } else {
        VehiclePreset::Hale
    }
}

/// Declares `serde_json::Error`, the failure of a JSON rendering.
#[verifier::external_type_specification]
#[verifier::external_body]
pub struct ExJsonError(serde_json::Error);

/// Lower-case hexadecimal digit for `n` (0 to 15).
pub open spec fn hex_digit(n: int) -> char {
    seq!['0', '1', '2', '3', '4', '5', '6', '7', '8', '9', 'a', 'b', 'c', 'd', 'e', 'f'][n]
}

/// How a JSON string literal writes the character `c`: a quote and a
/// backslash behind a backslash; backspace, tab, line feed, form feed and
/// carriage return as `\b`, `\t`, `\n`, `\f`, `\r`; any other control
/// character below U+0020 as `\u00` and two lower-case hex digits; every
/// other character as itself.
pub open spec fn json_escaped_char(c: char) -> Seq<char> {
    if c == '"' {
        seq!['\\', '"']
    } else if c == '\\' {
        seq!['\\', '\\']
    } else if c == '\x08' {
        seq!['\\', 'b']
    } else if c == '\t' {
        seq!['\\', 't']
    } else if c == '\n' {
        seq!['\\', 'n']
    } else if c == '\x0c' {
        seq!['\\', 'f']
    } else if c == '\r' {
        seq!['\\', 'r']
    } else if (c as u32) < 0x20 {
        seq!['\\', 'u', '0', '0', hex_digit((c as u32) as int / 16), hex_digit((c as u32) as int % 16)]
    } else {
        seq![c]
    }
}

/// The characters of `s`, each written as a JSON string literal writes it.
pub open spec fn json_escaped(s: Seq<char>) -> Seq<char>
    decreases s.len(),
{
    if s.len() == 0 {
        Seq::empty()
    } else {
        json_escaped(s.drop_last()) + json_escaped_char(s.last())
    }
}

/// `s` as a JSON string literal: its escaped characters between double
/// quotes.
pub open spec fn json_string_literal(s: Seq<char>) -> Seq<char> {
    seq!['"'] + json_escaped(s) + seq!['"']
}

/// The parts separated by commas, in order.
pub open spec fn comma_joined(parts: Seq<Seq<char>>) -> Seq<char>
    decreases parts.len(),
{
    if parts.len() == 0 {
        Seq::empty()
    } else if parts.len() == 1 {
        parts[0]
    } else {
        comma_joined(parts.drop_last()) + seq![','] + parts.last()
    }
}

/// A compact JSON array of the items as string literals: `[`, the
/// literals separated by commas, `]`.
pub open spec fn json_string_array(items: Seq<Seq<char>>) -> Seq<char> {
    seq!['['] + comma_joined(items.map_values(|s: Seq<char>| json_string_literal(s))) + seq![']']
}

/// No character of `s` is one that a JSON string literal must escape: a
/// quote, a backslash or a control character below U+0020.
pub open spec fn needs_no_json_escape(s: Seq<char>) -> bool {
    forall|j: int| 0 <= j < s.len() ==> {
        let c = #[trigger] s[j];
        c != '"' && c != '\\' && (c as u32) >= 0x20
    }
}

/// Text with nothing to escape is written as it is.
pub proof fn lemma_plain_text_is_unescaped(s: Seq<char>)
    requires
        needs_no_json_escape(s),
    ensures
        json_escaped(s) == s,
    decreases s.len(),
{
    if s.len() > 0 {
        let shorter = s.drop_last();
        assert forall|j: int| 0 <= j < shorter.len() implies {
            let c = #[trigger] shorter[j];
            c != '"' && c != '\\' && (c as u32) >= 0x20
        } by {
            assert(shorter[j] == s[j]);
        }
        lemma_plain_text_is_unescaped(shorter);
        let c = s[s.len() - 1];
        assert(c != '"' && c != '\\' && (c as u32) >= 0x20);
        assert(s =~= shorter + seq![c]);
    }
}

/// Renders `names` with `serde_json::to_string`. Claimed: the rendering
/// succeeds, and its text is the compact JSON array of the names as string
/// literals, escaped as `json_escaped_char` says (the `ESCAPE` table and
/// `CompactFormatter` of serde_json). `to_string` writes into an in-memory
/// `Vec<u8>`, whose writes never fail, and a sequence of strings holds no
/// map key and no value whose `Serialize` impl can fail, so no error path
/// of `to_string` is reachable here.
#[verifier::external_body]
fn json_of_names(names: &Vec<&str>) -> (rendered: Result<String, serde_json::Error>)
    ensures
        rendered is Ok,
        rendered matches Ok(text) ==> text@ == json_string_array(names@.map_values(|n: &str| n@)),
{
    serde_json::to_string(names)
}

/// Names of the presets offered to the browser, in order.
pub open spec fn browser_preset_names() -> Seq<Seq<char>> {
    seq!["hale"@, "quad"@, "strato"@, "auv"@, "airship"@, "rover"@]
}

/// JSON list of the vehicle presets offered to the browser, in order.
pub fn list_vehicle_presets() -> (json: String)
    ensures
        json@ == json_string_array(browser_preset_names()),
        json@ == "[\"hale\",\"quad\",\"strato\",\"auv\",\"airship\",\"rover\"]"@,
{
    let mut names: Vec<&str> = Vec::new();
    names.push("hale");
    names.push("quad");
    names.push("strato");
    names.push("auv");
    names.push("airship");
    names.push("rover");
    proof {
        reveal_strlit("hale");
        reveal_strlit("quad");
        reveal_strlit("strato");
        reveal_strlit("auv");
        reveal_strlit("airship");
        reveal_strlit("rover");
        reveal_strlit("[\"hale\",\"quad\",\"strato\",\"auv\",\"airship\",\"rover\"]");
        assert(names@.map_values(|n: &str| n@) =~= browser_preset_names());
        let items = browser_preset_names();
        assert forall|i: int| 0 <= i < items.len() implies needs_no_json_escape(#[trigger] items[i]) by {}
        let literals = items.map_values(|s: Seq<char>| json_string_literal(s));
        assert forall|i: int| 0 <= i < items.len() implies #[trigger] literals[i] == seq!['"'] + items[i]
            + seq!['"'] by {
            lemma_plain_text_is_unescaped(items[i]);
        }
        reveal_with_fuel(comma_joined, 7);
        assert(json_string_array(items)
            =~= "[\"hale\",\"quad\",\"strato\",\"auv\",\"airship\",\"rover\"]"@);
    }
    match json_of_names(&names) {
        Ok(text) => text,
        Err(_) => String::new(),
    }
}

/// The presets offered to the browser, in the order of their names.
pub open spec fn browser_presets() -> Seq<VehiclePreset> {
    seq![
        VehiclePreset::Hale,
        VehiclePreset::Quad,
        VehiclePreset::Strato,
        VehiclePreset::Auv,
        VehiclePreset::Airship,
        VehiclePreset::Rover,
    ]
}

/// Every name the browser list advertises selects the preset of that name,
/// in the browser as on the command line, and distinct advertised names
/// select distinct presets; any other name falls back to the HALE UAV.
pub proof fn lemma_advertised_names_select_their_presets(name: Seq<char>)
    ensures
        forall|i: int|
            0 <= i < browser_preset_names().len() ==> {
                &&& browser_preset_named(#[trigger] browser_preset_names()[i]) == browser_presets()[i]
                &&& preset_named(browser_preset_names()[i]) == Some(browser_presets()[i])
            },
        forall|i: int, j: int|
            0 <= i < j < browser_preset_names().len() ==> browser_preset_named(
                #[trigger] browser_preset_names()[i],
            ) != browser_preset_named(#[trigger] browser_preset_names()[j]),
        !browser_preset_names().contains(name) ==> browser_preset_named(name) == VehiclePreset::Hale,
        browser_preset_names().contains(name) ==> preset_named(name) == Some(browser_preset_named(name)),
{
    reveal_strlit("hale");
    reveal_strlit("quad");
    reveal_strlit("strato");
    reveal_strlit("auv");
    reveal_strlit("airship");
    reveal_strlit("rover");
    reveal_strlit("carrier");
    reveal_strlit("cloud_carrier");
    assert("hale"@[0] == 'h' && "quad"@[0] == 'q' && "strato"@[0] == 's' && "rover"@[0] == 'r');
    assert("auv"@[0] == 'a' && "auv"@[1] == 'u' && "airship"@[0] == 'a' && "airship"@[1] == 'i');
    assert("carrier"@[0] == 'c' && "cloud_carrier"@[0] == 'c');
    let names = browser_preset_names();
    assert(names[0] == "hale"@ && names[1] == "quad"@ && names[2] == "strato"@);
    assert(names[3] == "auv"@ && names[4] == "airship"@ && names[5] == "rover"@);
    if !names.contains(name) {
        assert(name != names[1] && name != names[2] && name != names[3]);
        assert(name != names[4] && name != names[5]);
    } else {
        let k = choose|k: int| 0 <= k < names.len() && names[k] == name;
        assert(names[k] == name);
    }
}

} // verus!
