//! The debug rendering of requests: the text whose length weighs a request
//! against the scheduler's byte budgets and whose hash tells repetitions
//! of a request apart. Texts are quoted and escaped, integers decimal,
//! records written `Name { field: value, .. }`, and JSON values as the
//! serde_json `Value` renders them (`Object {"key": Number(1)}`).
use vstd::prelude::*;
use crate::json::{JsonNumber, JsonValue};
use crate::services::{decimal_digits, decimal_u64};
use crate::text;
use crate::types::{CapabilitySet, CoreRequest, SurfaceRole, TabFocusTarget};

verus! {

/// The character of a hexadecimal digit.
pub open spec fn hex_char(d: nat) -> char {
    seq!['0', '1', '2', '3', '4', '5', '6', '7', '8', '9', 'a', 'b', 'c', 'd', 'e', 'f'][d as int]
}

/// The lowercase hexadecimal digits of `n`, without leading zeros.
pub open spec fn hex_digits(n: nat) -> Seq<char>
    decreases n,
{
    if n < 16 {
        seq![hex_char(n)]
    } else {
        hex_digits(n / 16).push(hex_char(n % 16))
    }
}

fn hex_digit_text(d: u32) -> (r: &'static str)
    requires
        d < 16,
    ensures
        r@ == seq![hex_char(d as nat)],
{
    match d {
        0 => {
            proof {
                reveal_strlit("0");
            }
            "0"
        },
        1 => {
            proof {
                reveal_strlit("1");
            }
            "1"
        },
        2 => {
            proof {
                reveal_strlit("2");
            }
            "2"
        },
        3 => {
            proof {
                reveal_strlit("3");
            }
            "3"
        },
        4 => {
            proof {
                reveal_strlit("4");
            }
            "4"
        },
        5 => {
            proof {
                reveal_strlit("5");
            }
            "5"
        },
        6 => {
            proof {
                reveal_strlit("6");
            }
            "6"
        },
        7 => {
            proof {
                reveal_strlit("7");
            }
            "7"
        },
        8 => {
            proof {
                reveal_strlit("8");
            }
            "8"
        },
        9 => {
            proof {
                reveal_strlit("9");
            }
            "9"
        },
        10 => {
            proof {
                reveal_strlit("a");
            }
            "a"
        },
        11 => {
            proof {
                reveal_strlit("b");
            }
            "b"
        },
        12 => {
            proof {
                reveal_strlit("c");
            }
            "c"
        },
        13 => {
            proof {
                reveal_strlit("d");
            }
            "d"
        },
        14 => {
            proof {
                reveal_strlit("e");
            }
            "e"
        },
        _ => {
            proof {
                reveal_strlit("f");
            }
            "f"
        },
    }
}

fn hex_text(n: u32) -> (r: String)
    ensures
        r@ == hex_digits(n as nat),
    decreases n,
{
    if n < 16 {
        String::from_str(hex_digit_text(n))
    } else {
        hex_text(n / 16).concat(hex_digit_text(n % 16))
    }
}

/// How a character stands inside a quoted text: quotes, backslashes and
/// the common control characters by their escapes, other control
/// characters as `\u{..}`, every other character as itself.
pub open spec fn escape_char(c: char) -> Seq<char> {
    if c == '"' {
        seq!['\\', '"']
    } else if c == '\\' {
        seq!['\\', '\\']
    } else if c == '\n' {
        seq!['\\', 'n']
    } else if c == '\r' {
        seq!['\\', 'r']
    } else if c == '\t' {
        seq!['\\', 't']
    } else if c == '\0' {
        seq!['\\', '0']
    } else if (c as u32) < 0x20 || (c as u32) == 0x7f {
        seq!['\\', 'u', '{'] + hex_digits(c as nat) + seq!['}']
    } else {
        seq![c]
    }
}

pub open spec fn escaped(s: Seq<char>) -> Seq<char>
    decreases s.len(),
{
    if s.len() == 0 {
        seq![]
    } else {
        escaped(s.drop_last()) + escape_char(s.last())
    }
}

/// A text in double quotes, escaped.
pub open spec fn quoted(s: Seq<char>) -> Seq<char> {
    seq!['"'] + escaped(s) + seq!['"']
}

/// The escape of a character that needs one.
fn escape_of(c: char) -> (r: Option<String>)
    ensures
        match r {
            Some(e) => e@ == escape_char(c),
            None => escape_char(c) == seq![c],
        },
{
    proof {
        reveal_strlit("\\\"");
        reveal_strlit("\\\\");
        reveal_strlit("\\n");
        reveal_strlit("\\r");
        reveal_strlit("\\t");
        reveal_strlit("\\0");
        reveal_strlit("\\u{");
        reveal_strlit("}");
    }
    if c == '"' {
        Some(String::from_str("\\\""))
    } else if c == '\\' {
        Some(String::from_str("\\\\"))
    } else if c == '\n' {
        Some(String::from_str("\\n"))
    } else if c == '\r' {
        Some(String::from_str("\\r"))
    } else if c == '\t' {
        Some(String::from_str("\\t"))
    } else if c == '\0' {
        Some(String::from_str("\\0"))
    } else if (c as u32) < 0x20 || (c as u32) == 0x7f {
        let r = text::concat3("\\u{", hex_text(c as u32).as_str(), "}");
        proof {
            assert(r@ =~= escape_char(c));
        }
        Some(r)
    } else {
        None
    }
}

/// `s` in double quotes, escaped.
pub fn quoted_text(s: &str) -> (r: String)
    ensures
        r@ == quoted(s@),
{
    proof {
        reveal_strlit("\"");
    }
    let n = s.unicode_len();
    let mut out = String::from_str("\"");
    let mut i: usize = 0;
    while i < n
        invariant
            n == s@.len(),
            i <= n,
            out@ == seq!['"'] + escaped(s@.subrange(0, i as int)),
        decreases n - i,
    {
        let c = text::char_at(s, i);
        let piece = match escape_of(c) {
            Some(e) => e,
            None => text::char_slice(s, i, i + 1),
        };
        proof {
            assert(s@.subrange(0, i + 1).drop_last() =~= s@.subrange(0, i as int));
            assert(s@.subrange(0, i + 1).last() == c);
            assert(s@.subrange(i as int, i + 1) =~= seq![c]);
        }
        out = out.concat(piece.as_str());
        proof {
            assert(out@ =~= seq!['"'] + escaped(s@.subrange(0, i + 1)));
        }
        i = i + 1;
    }
    proof {
        assert(s@.subrange(0, n as int) =~= s@);
    }
    let r = out.concat("\"");
    proof {
        assert(r@ =~= quoted(s@));
    }
    r
}

/// Texts separated by `, `.
pub open spec fn joined(parts: Seq<Seq<char>>) -> Seq<char>
    decreases parts.len(),
{
    if parts.len() == 0 {
        seq![]
    } else if parts.len() == 1 {
        parts[0]
    } else {
        joined(parts.drop_last()) + ", "@ + parts.last()
    }
}

pub open spec fn texts_of(parts: Seq<String>) -> Seq<Seq<char>> {
    Seq::new(parts.len(), |i: int| parts[i]@)
}

fn join_texts(parts: &Vec<String>) -> (r: String)
    ensures
        r@ == joined(texts_of(parts@)),
{
    if parts.len() == 0 {
        proof {
            reveal_strlit("");
        }
        return String::from_str("");
    }
    let mut out = parts[0].clone();
    let mut i: usize = 1;
    proof {
        assert(texts_of(parts@.subrange(0, 1)) =~= seq![parts@[0]@]);
    }
    while i < parts.len()
        invariant
            1 <= i <= parts@.len(),
            out@ == joined(texts_of(parts@.subrange(0, i as int))),
        decreases parts.len() - i,
    {
        proof {
            assert(texts_of(parts@.subrange(0, i + 1)).drop_last() =~= texts_of(parts@.subrange(0, i as int)));
            assert(texts_of(parts@.subrange(0, i + 1)).last() == parts@[i as int]@);
        }
        out = out.concat(", ").concat(parts[i].as_str());
        i = i + 1;
    }
    proof {
        assert(parts@.subrange(0, i as int) =~= parts@);
    }
    out
}

pub open spec fn bool_text(b: bool) -> Seq<char> {
    if b {
        "true"@
    } else {
        "false"@
    }
}

fn bool_str(b: bool) -> (r: String)
    ensures
        r@ == bool_text(b),
{
    if b {
        String::from_str("true")
    } else {
        String::from_str("false")
    }
}

/// The decimal digits of `n`, after a minus sign when negative.
pub open spec fn signed_digits(n: int) -> Seq<char> {
    if n < 0 {
        seq!['-'] + decimal_digits((-n) as nat)
    } else {
        decimal_digits(n as nat)
    }
}

fn signed_text(n: i64) -> (r: String)
    ensures
        r@ == signed_digits(n as int),
{
    if n < 0 {
        proof {
            reveal_strlit("-");
        }
        let magnitude: u64 = (0i128 - n as i128) as u64;
        let r = String::from_str("-").concat(decimal_u64(magnitude).as_str());
        proof {
            assert(r@ =~= signed_digits(n as int));
        }
        r
    } else {
        decimal_u64(n as u64)
    }
}

/// A JSON value as the serde_json `Value` renders it for debugging.
pub open spec fn json_debug(v: JsonValue) -> Seq<char>
    decreases v,
{
    match v {
        JsonValue::Null => "Null"@,
        JsonValue::Bool(b) => "Bool("@ + bool_text(b) + ")"@,
        JsonValue::Number(JsonNumber::PosInt(n)) => "Number("@ + decimal_digits(n as nat) + ")"@,
        JsonValue::Number(JsonNumber::NegInt(n)) => "Number("@ + signed_digits(n as int) + ")"@,
        JsonValue::Number(JsonNumber::Float(t)) => "Number("@ + t@ + ")"@,
        JsonValue::Str(t) => "String("@ + quoted(t@) + ")"@,
        JsonValue::Array(items) => "Array ["@ + joined(items_debug(items@)) + "]"@,
        JsonValue::Object(members) => "Object {"@ + joined(members_debug(members@)) + "}"@,
    }
}

pub open spec fn items_debug(items: Seq<JsonValue>) -> Seq<Seq<char>>
    decreases items,
{
    if items.len() == 0 {
        Seq::empty()
    } else {
        items_debug(items.drop_last()).push(json_debug(items.last()))
    }
}

pub open spec fn members_debug(members: Seq<(String, JsonValue)>) -> Seq<Seq<char>>
    decreases members,
{
    if members.len() == 0 {
        Seq::empty()
    } else {
        members_debug(members.drop_last()).push(quoted(members.last().0@) + ": "@ + json_debug(members.last().1))
    }
}

/// The debug rendering of a JSON value.
#[verifier::loop_isolation(false)]
pub fn json_debug_text(v: &JsonValue) -> (r: String)
    ensures
        r@ == json_debug(*v),
    decreases v,
{
    match v {
        JsonValue::Null => String::from_str("Null"),
        JsonValue::Bool(b) => String::from_str("Bool(").concat(bool_str(*b).as_str()).concat(")"),
        JsonValue::Number(JsonNumber::PosInt(n)) => String::from_str("Number(").concat(decimal_u64(*n).as_str()).concat(
            ")",
        ),
        JsonValue::Number(JsonNumber::NegInt(n)) => String::from_str("Number(").concat(signed_text(*n).as_str()).concat(
            ")",
        ),
        JsonValue::Number(JsonNumber::Float(t)) => String::from_str("Number(").concat(t.as_str()).concat(")"),
        JsonValue::Str(t) => String::from_str("String(").concat(quoted_text(t.as_str()).as_str()).concat(")"),
        JsonValue::Array(items) => {
            let mut parts: Vec<String> = Vec::new();
            let mut i: usize = 0;
            while i < items.len()
                invariant
                    i <= items@.len(),
                    texts_of(parts@) == items_debug(items@.subrange(0, i as int)),
                decreases items.len() - i,
            {
                assert(decreases_to!(items@ => items@[i as int]));
                let part = json_debug_text(&items[i]);
                let ghost before = parts@;
                parts.push(part);
                proof {
                    assert(items@.subrange(0, i + 1).drop_last() =~= items@.subrange(0, i as int));
                    assert(texts_of(parts@) =~= texts_of(before).push(part@));
                }
                i = i + 1;
            }
            proof {
                assert(items@.subrange(0, i as int) =~= items@);
            }
            String::from_str("Array [").concat(join_texts(&parts).as_str()).concat("]")
        },
        JsonValue::Object(members) => {
            let mut parts: Vec<String> = Vec::new();
            let mut i: usize = 0;
            while i < members.len()
                invariant
                    i <= members@.len(),
                    texts_of(parts@) == members_debug(members@.subrange(0, i as int)),
                decreases members.len() - i,
            {
                assert(decreases_to!(members@ => members@[i as int]));
                assert(decreases_to!(members@[i as int] => members@[i as int].1));
                let value = json_debug_text(&members[i].1);
                let part = quoted_text(members[i].0.as_str()).concat(": ").concat(value.as_str());
                let ghost before = parts@;
                parts.push(part);
                proof {
                    assert(members@.subrange(0, i + 1).drop_last() =~= members@.subrange(0, i as int));
                    assert(texts_of(parts@) =~= texts_of(before).push(part@));
                }
                i = i + 1;
            }
            proof {
                assert(members@.subrange(0, i as int) =~= members@);
            }
            String::from_str("Object {").concat(join_texts(&parts).as_str()).concat("}")
        },
    }
}

pub open spec fn role_debug(r: SurfaceRole) -> Seq<char> {
    match r {
        SurfaceRole::Layer => "Layer"@,
        SurfaceRole::Window => "Window"@,
    }
}

fn role_text(r: SurfaceRole) -> (t: String)
    ensures
        t@ == role_debug(r),
{
    match r {
        SurfaceRole::Layer => String::from_str("Layer"),
        SurfaceRole::Window => String::from_str("Window"),
    }
}

pub open spec fn tab_target_debug(t: TabFocusTarget) -> Seq<char> {
    match t {
        TabFocusTarget::First => "First"@,
        TabFocusTarget::AtKey(k) => "AtKey("@ + quoted(k@) + ")"@,
    }
}

fn tab_target_text(t: &TabFocusTarget) -> (r: String)
    ensures
        r@ == tab_target_debug(*t),
{
    match t {
        TabFocusTarget::First => String::from_str("First"),
        TabFocusTarget::AtKey(k) => String::from_str("AtKey(").concat(quoted_text(k.as_str()).as_str()).concat(")"),
    }
}

pub open spec fn opt_quoted(o: Option<String>) -> Seq<char> {
    match o {
        Some(t) => "Some("@ + quoted(t@) + ")"@,
        None => "None"@,
    }
}

fn opt_quoted_text(o: &Option<String>) -> (r: String)
    ensures
        r@ == opt_quoted(*o),
{
    match o {
        Some(t) => String::from_str("Some(").concat(quoted_text(t.as_str()).as_str()).concat(")"),
        None => String::from_str("None"),
    }
}

pub open spec fn opt_pair_debug(o: Option<(String, String)>) -> Seq<char> {
    match o {
        Some((a, b)) => "Some(("@ + quoted(a@) + ", "@ + quoted(b@) + "))"@,
        None => "None"@,
    }
}

fn opt_pair_text(o: &Option<(String, String)>) -> (r: String)
    ensures
        r@ == opt_pair_debug(*o),
{
    match o {
        Some((a, b)) => String::from_str("Some((").concat(quoted_text(a.as_str()).as_str()).concat(", ").concat(
            quoted_text(b.as_str()).as_str(),
        ).concat("))"),
        None => String::from_str("None"),
    }
}

pub open spec fn quoted_all(ts: Seq<String>) -> Seq<Seq<char>> {
    Seq::new(ts.len(), |i: int| quoted(ts[i]@))
}

pub open spec fn caps_debug(c: CapabilitySet) -> Seq<char> {
    "CapabilitySet { granted: ["@ + joined(quoted_all(c.granted@)) + "] }"@
}

fn caps_debug_text(c: &CapabilitySet) -> (r: String)
    ensures
        r@ == caps_debug(*c),
{
    let mut parts: Vec<String> = Vec::new();
    let mut i: usize = 0;
    while i < c.granted.len()
        invariant
            i <= c.granted@.len(),
            texts_of(parts@) == quoted_all(c.granted@.subrange(0, i as int)),
        decreases c.granted.len() - i,
    {
        let part = quoted_text(c.granted[i].as_str());
        let ghost before = parts@;
        parts.push(part);
        proof {
            assert(texts_of(parts@) =~= texts_of(before).push(part@));
            assert(quoted_all(c.granted@.subrange(0, i + 1)) =~= quoted_all(c.granted@.subrange(0, i as int)).push(
                quoted(c.granted@[i as int]@),
            ));
        }
        i = i + 1;
    }
    proof {
        assert(c.granted@.subrange(0, i as int) =~= c.granted@);
    }
    String::from_str("CapabilitySet { granted: [").concat(join_texts(&parts).as_str()).concat("] }")
}

/// The debug rendering of a request: its variant's name and its fields, in
/// declaration order.
pub open spec fn request_debug(r: CoreRequest) -> Seq<char> {
    match r {
        CoreRequest::PositionSurface { surface_id, margin_top, margin_left } => "PositionSurface { surface_id: "@ + quoted(surface_id@) + ", margin_top: "@ + signed_digits(margin_top as int) + ", margin_left: "@ + signed_digits(margin_left as int) + " }"@,
        CoreRequest::ToggleSurface { surface_id } => "ToggleSurface { surface_id: "@ + quoted(surface_id@) + " }"@,
        CoreRequest::ShowSurface { surface_id } => "ShowSurface { surface_id: "@ + quoted(surface_id@) + " }"@,
        CoreRequest::HideSurface { surface_id } => "HideSurface { surface_id: "@ + quoted(surface_id@) + " }"@,
        CoreRequest::HidePopover { surface_id, defer_for_hover_bridge } => "HidePopover { surface_id: "@ + quoted(surface_id@) + ", defer_for_hover_bridge: "@ + bool_text(defer_for_hover_bridge) + " }"@,
        CoreRequest::SetSurfaceRole { surface_id, role } => "SetSurfaceRole { surface_id: "@ + quoted(surface_id@) + ", role: "@ + role_debug(role) + " }"@,
        CoreRequest::ToggleSurfaceRole { surface_id } => "ToggleSurfaceRole { surface_id: "@ + quoted(surface_id@) + " }"@,
        CoreRequest::SetChildSurfaceRole { surface_id, node_key, role } => "SetChildSurfaceRole { surface_id: "@ + quoted(surface_id@) + ", node_key: "@ + quoted(node_key@) + ", role: "@ + role_debug(role) + " }"@,
        CoreRequest::PublishDiagnostics { message } => "PublishDiagnostics { message: "@ + quoted(message@) + " }"@,
        CoreRequest::WriteClipboard { text } => "WriteClipboard { text: "@ + quoted(text@) + " }"@,
        CoreRequest::ServiceCommand { interface, command, payload, source_module_id, source_capabilities } => "ServiceCommand { interface: "@ + quoted(interface@) + ", command: "@ + quoted(command@) + ", payload: "@ + json_debug(payload) + ", source_module_id: "@ + quoted(source_module_id@) + ", source_capabilities: "@ + caps_debug(source_capabilities) + " }"@,
        CoreRequest::ServiceCall { interface, command, payload, call_id, source_instance_id, source_module_id, source_capabilities } => "ServiceCall { interface: "@ + quoted(interface@) + ", command: "@ + quoted(command@) + ", payload: "@ + json_debug(payload) + ", call_id: "@ + decimal_digits(call_id as nat) + ", source_instance_id: "@ + quoted(source_instance_id@) + ", source_module_id: "@ + quoted(source_module_id@) + ", source_capabilities: "@ + caps_debug(source_capabilities) + " }"@,
        CoreRequest::CancelServiceCall { interface, call_id, source_instance_id, source_module_id, source_capabilities } => "CancelServiceCall { interface: "@ + quoted(interface@) + ", call_id: "@ + decimal_digits(call_id as nat) + ", source_instance_id: "@ + quoted(source_instance_id@) + ", source_module_id: "@ + quoted(source_module_id@) + ", source_capabilities: "@ + caps_debug(source_capabilities) + " }"@,
        CoreRequest::ActivatePopover { surface_id, trigger_surface, trigger_key, focus } => "ActivatePopover { surface_id: "@ + quoted(surface_id@) + ", trigger_surface: "@ + quoted(trigger_surface@) + ", trigger_key: "@ + quoted(trigger_key@) + ", focus: "@ + bool_text(focus) + " }"@,
        CoreRequest::TransferTabFocus { from_surface, to_surface, target, return_target, target_closes_on_leave, close_source } => "TransferTabFocus { from_surface: "@ + quoted(from_surface@) + ", to_surface: "@ + quoted(to_surface@) + ", target: "@ + tab_target_debug(target) + ", return_target: "@ + opt_pair_debug(return_target) + ", target_closes_on_leave: "@ + bool_text(target_closes_on_leave) + ", close_source: "@ + opt_quoted(close_source) + " }"@,
        CoreRequest::SetTheme { theme_id } => "SetTheme { theme_id: "@ + quoted(theme_id@) + " }"@,
        CoreRequest::SetThemeMode { mode } => "SetThemeMode { mode: "@ + quoted(mode@) + " }"@,
        CoreRequest::SetLocale { locale } => "SetLocale { locale: "@ + quoted(locale@) + " }"@,
        CoreRequest::SetIconTheme { theme_id } => "SetIconTheme { theme_id: "@ + quoted(theme_id@) + " }"@,
        CoreRequest::SetFontFamily { family } => "SetFontFamily { family: "@ + quoted(family@) + " }"@,
        CoreRequest::SetProvider { interface, provider_id } => "SetProvider { interface: "@ + quoted(interface@) + ", provider_id: "@ + quoted(provider_id@) + " }"@,
        CoreRequest::SetModuleEnabled { module_id, enabled } => "SetModuleEnabled { module_id: "@ + quoted(module_id@) + ", enabled: "@ + bool_text(enabled) + " }"@,
        CoreRequest::InstallModule { source, profile_id, available_only, allow_elevated, allow_high } => "InstallModule { source: "@ + quoted(source@) + ", profile_id: "@ + opt_quoted(profile_id) + ", available_only: "@ + bool_text(available_only) + ", allow_elevated: "@ + bool_text(allow_elevated) + ", allow_high: "@ + bool_text(allow_high) + " }"@,
        CoreRequest::UninstallModule { module_id, force } => "UninstallModule { module_id: "@ + quoted(module_id@) + ", force: "@ + bool_text(force) + " }"@,
        CoreRequest::SetModuleProp { module_id, instance_id, prop, value } => "SetModuleProp { module_id: "@ + quoted(module_id@) + ", instance_id: "@ + opt_quoted(instance_id) + ", prop: "@ + quoted(prop@) + ", value: "@ + json_debug(value) + " }"@,
        CoreRequest::UnsetModuleProp { module_id, instance_id, prop } => "UnsetModuleProp { module_id: "@ + quoted(module_id@) + ", instance_id: "@ + opt_quoted(instance_id) + ", prop: "@ + quoted(prop@) + " }"@,
        CoreRequest::ApplyNodeSlot { profile_id, root_instance, slot, nodes, expected_generation } => "ApplyNodeSlot { profile_id: "@ + quoted(profile_id@) + ", root_instance: "@ + quoted(root_instance@) + ", slot: "@ + quoted(slot@) + ", nodes: "@ + json_debug(nodes) + ", expected_generation: "@ + quoted(expected_generation@) + " }"@,
        CoreRequest::ResetNodeSlot { profile_id, root_instance, slot, expected_generation } => "ResetNodeSlot { profile_id: "@ + quoted(profile_id@) + ", root_instance: "@ + quoted(root_instance@) + ", slot: "@ + quoted(slot@) + ", expected_generation: "@ + quoted(expected_generation@) + " }"@,
        CoreRequest::SwitchProfile { profile_id } => "SwitchProfile { profile_id: "@ + quoted(profile_id@) + " }"@,
        CoreRequest::ToggleDebugOverlay => "ToggleDebugOverlay"@,
        CoreRequest::ToggleDebugLayoutBounds => "ToggleDebugLayoutBounds"@,
        CoreRequest::ToggleDebugElementPicker => "ToggleDebugElementPicker"@,
        CoreRequest::OpenDebugSource { path, line } => "OpenDebugSource { path: "@ + quoted(path@) + ", line: "@ + decimal_digits(line as nat) + " }"@,
        CoreRequest::ToggleDebugProfiling => "ToggleDebugProfiling"@,
        CoreRequest::RunDebugBenchmark { scenario_id } => "RunDebugBenchmark { scenario_id: "@ + quoted(scenario_id@) + " }"@,
        CoreRequest::CycleDebugTab => "CycleDebugTab"@,
        CoreRequest::Shutdown => "Shutdown"@,
    }
}

/// The debug rendering of a request.
#[verifier::rlimit(40)]
pub fn request_debug_text(r: &CoreRequest) -> (t: String)
    ensures
        t@ == request_debug(*r),
{
    match r {
        CoreRequest::PositionSurface { surface_id, margin_top, margin_left } => String::from_str("PositionSurface { surface_id: ").concat(quoted_text(surface_id.as_str()).as_str()).concat(", margin_top: ").concat(signed_text(*margin_top as i64).as_str()).concat(", margin_left: ").concat(signed_text(*margin_left as i64).as_str()).concat(" }"),
        CoreRequest::ToggleSurface { surface_id } => String::from_str("ToggleSurface { surface_id: ").concat(quoted_text(surface_id.as_str()).as_str()).concat(" }"),
        CoreRequest::ShowSurface { surface_id } => String::from_str("ShowSurface { surface_id: ").concat(quoted_text(surface_id.as_str()).as_str()).concat(" }"),
        CoreRequest::HideSurface { surface_id } => String::from_str("HideSurface { surface_id: ").concat(quoted_text(surface_id.as_str()).as_str()).concat(" }"),
        CoreRequest::HidePopover { surface_id, defer_for_hover_bridge } => String::from_str("HidePopover { surface_id: ").concat(quoted_text(surface_id.as_str()).as_str()).concat(", defer_for_hover_bridge: ").concat(bool_str(*defer_for_hover_bridge).as_str()).concat(" }"),
        CoreRequest::SetSurfaceRole { surface_id, role } => String::from_str("SetSurfaceRole { surface_id: ").concat(quoted_text(surface_id.as_str()).as_str()).concat(", role: ").concat(role_text(*role).as_str()).concat(" }"),
        CoreRequest::ToggleSurfaceRole { surface_id } => String::from_str("ToggleSurfaceRole { surface_id: ").concat(quoted_text(surface_id.as_str()).as_str()).concat(" }"),
        CoreRequest::SetChildSurfaceRole { surface_id, node_key, role } => String::from_str("SetChildSurfaceRole { surface_id: ").concat(quoted_text(surface_id.as_str()).as_str()).concat(", node_key: ").concat(quoted_text(node_key.as_str()).as_str()).concat(", role: ").concat(role_text(*role).as_str()).concat(" }"),
        CoreRequest::PublishDiagnostics { message } => String::from_str("PublishDiagnostics { message: ").concat(quoted_text(message.as_str()).as_str()).concat(" }"),
        CoreRequest::WriteClipboard { text } => String::from_str("WriteClipboard { text: ").concat(quoted_text(text.as_str()).as_str()).concat(" }"),
        CoreRequest::ServiceCommand { interface, command, payload, source_module_id, source_capabilities } => String::from_str("ServiceCommand { interface: ").concat(quoted_text(interface.as_str()).as_str()).concat(", command: ").concat(quoted_text(command.as_str()).as_str()).concat(", payload: ").concat(json_debug_text(payload).as_str()).concat(", source_module_id: ").concat(quoted_text(source_module_id.as_str()).as_str()).concat(", source_capabilities: ").concat(caps_debug_text(source_capabilities).as_str()).concat(" }"),
        CoreRequest::ServiceCall { interface, command, payload, call_id, source_instance_id, source_module_id, source_capabilities } => String::from_str("ServiceCall { interface: ").concat(quoted_text(interface.as_str()).as_str()).concat(", command: ").concat(quoted_text(command.as_str()).as_str()).concat(", payload: ").concat(json_debug_text(payload).as_str()).concat(", call_id: ").concat(decimal_u64(*call_id).as_str()).concat(", source_instance_id: ").concat(quoted_text(source_instance_id.as_str()).as_str()).concat(", source_module_id: ").concat(quoted_text(source_module_id.as_str()).as_str()).concat(", source_capabilities: ").concat(caps_debug_text(source_capabilities).as_str()).concat(" }"),
        CoreRequest::CancelServiceCall { interface, call_id, source_instance_id, source_module_id, source_capabilities } => String::from_str("CancelServiceCall { interface: ").concat(quoted_text(interface.as_str()).as_str()).concat(", call_id: ").concat(decimal_u64(*call_id).as_str()).concat(", source_instance_id: ").concat(quoted_text(source_instance_id.as_str()).as_str()).concat(", source_module_id: ").concat(quoted_text(source_module_id.as_str()).as_str()).concat(", source_capabilities: ").concat(caps_debug_text(source_capabilities).as_str()).concat(" }"),
        CoreRequest::ActivatePopover { surface_id, trigger_surface, trigger_key, focus } => String::from_str("ActivatePopover { surface_id: ").concat(quoted_text(surface_id.as_str()).as_str()).concat(", trigger_surface: ").concat(quoted_text(trigger_surface.as_str()).as_str()).concat(", trigger_key: ").concat(quoted_text(trigger_key.as_str()).as_str()).concat(", focus: ").concat(bool_str(*focus).as_str()).concat(" }"),
        CoreRequest::TransferTabFocus { from_surface, to_surface, target, return_target, target_closes_on_leave, close_source } => String::from_str("TransferTabFocus { from_surface: ").concat(quoted_text(from_surface.as_str()).as_str()).concat(", to_surface: ").concat(quoted_text(to_surface.as_str()).as_str()).concat(", target: ").concat(tab_target_text(target).as_str()).concat(", return_target: ").concat(opt_pair_text(return_target).as_str()).concat(", target_closes_on_leave: ").concat(bool_str(*target_closes_on_leave).as_str()).concat(", close_source: ").concat(opt_quoted_text(close_source).as_str()).concat(" }"),
        CoreRequest::SetTheme { theme_id } => String::from_str("SetTheme { theme_id: ").concat(quoted_text(theme_id.as_str()).as_str()).concat(" }"),
        CoreRequest::SetThemeMode { mode } => String::from_str("SetThemeMode { mode: ").concat(quoted_text(mode.as_str()).as_str()).concat(" }"),
        CoreRequest::SetLocale { locale } => String::from_str("SetLocale { locale: ").concat(quoted_text(locale.as_str()).as_str()).concat(" }"),
        CoreRequest::SetIconTheme { theme_id } => String::from_str("SetIconTheme { theme_id: ").concat(quoted_text(theme_id.as_str()).as_str()).concat(" }"),
        CoreRequest::SetFontFamily { family } => String::from_str("SetFontFamily { family: ").concat(quoted_text(family.as_str()).as_str()).concat(" }"),
        CoreRequest::SetProvider { interface, provider_id } => String::from_str("SetProvider { interface: ").concat(quoted_text(interface.as_str()).as_str()).concat(", provider_id: ").concat(quoted_text(provider_id.as_str()).as_str()).concat(" }"),
        CoreRequest::SetModuleEnabled { module_id, enabled } => String::from_str("SetModuleEnabled { module_id: ").concat(quoted_text(module_id.as_str()).as_str()).concat(", enabled: ").concat(bool_str(*enabled).as_str()).concat(" }"),
        CoreRequest::InstallModule { source, profile_id, available_only, allow_elevated, allow_high } => String::from_str("InstallModule { source: ").concat(quoted_text(source.as_str()).as_str()).concat(", profile_id: ").concat(opt_quoted_text(profile_id).as_str()).concat(", available_only: ").concat(bool_str(*available_only).as_str()).concat(", allow_elevated: ").concat(bool_str(*allow_elevated).as_str()).concat(", allow_high: ").concat(bool_str(*allow_high).as_str()).concat(" }"),
        CoreRequest::UninstallModule { module_id, force } => String::from_str("UninstallModule { module_id: ").concat(quoted_text(module_id.as_str()).as_str()).concat(", force: ").concat(bool_str(*force).as_str()).concat(" }"),
        CoreRequest::SetModuleProp { module_id, instance_id, prop, value } => String::from_str("SetModuleProp { module_id: ").concat(quoted_text(module_id.as_str()).as_str()).concat(", instance_id: ").concat(opt_quoted_text(instance_id).as_str()).concat(", prop: ").concat(quoted_text(prop.as_str()).as_str()).concat(", value: ").concat(json_debug_text(value).as_str()).concat(" }"),
        CoreRequest::UnsetModuleProp { module_id, instance_id, prop } => String::from_str("UnsetModuleProp { module_id: ").concat(quoted_text(module_id.as_str()).as_str()).concat(", instance_id: ").concat(opt_quoted_text(instance_id).as_str()).concat(", prop: ").concat(quoted_text(prop.as_str()).as_str()).concat(" }"),
        CoreRequest::ApplyNodeSlot { profile_id, root_instance, slot, nodes, expected_generation } => String::from_str("ApplyNodeSlot { profile_id: ").concat(quoted_text(profile_id.as_str()).as_str()).concat(", root_instance: ").concat(quoted_text(root_instance.as_str()).as_str()).concat(", slot: ").concat(quoted_text(slot.as_str()).as_str()).concat(", nodes: ").concat(json_debug_text(nodes).as_str()).concat(", expected_generation: ").concat(quoted_text(expected_generation.as_str()).as_str()).concat(" }"),
        CoreRequest::ResetNodeSlot { profile_id, root_instance, slot, expected_generation } => String::from_str("ResetNodeSlot { profile_id: ").concat(quoted_text(profile_id.as_str()).as_str()).concat(", root_instance: ").concat(quoted_text(root_instance.as_str()).as_str()).concat(", slot: ").concat(quoted_text(slot.as_str()).as_str()).concat(", expected_generation: ").concat(quoted_text(expected_generation.as_str()).as_str()).concat(" }"),
        CoreRequest::SwitchProfile { profile_id } => String::from_str("SwitchProfile { profile_id: ").concat(quoted_text(profile_id.as_str()).as_str()).concat(" }"),
        CoreRequest::ToggleDebugOverlay => String::from_str("ToggleDebugOverlay"),
        CoreRequest::ToggleDebugLayoutBounds => String::from_str("ToggleDebugLayoutBounds"),
        CoreRequest::ToggleDebugElementPicker => String::from_str("ToggleDebugElementPicker"),
        CoreRequest::OpenDebugSource { path, line } => String::from_str("OpenDebugSource { path: ").concat(quoted_text(path.as_str()).as_str()).concat(", line: ").concat(decimal_u64(*line as u64).as_str()).concat(" }"),
        CoreRequest::ToggleDebugProfiling => String::from_str("ToggleDebugProfiling"),
        CoreRequest::RunDebugBenchmark { scenario_id } => String::from_str("RunDebugBenchmark { scenario_id: ").concat(quoted_text(scenario_id.as_str()).as_str()).concat(" }"),
        CoreRequest::CycleDebugTab => String::from_str("CycleDebugTab"),
        CoreRequest::Shutdown => String::from_str("Shutdown"),
    }
}

} // verus!
