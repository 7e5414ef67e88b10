use std::collections::hash_map::DefaultHasher;
use std::hash::{Hash, Hasher};

use mesh_shell::debug_text::{json_debug_text, quoted_text, request_debug_text};
use mesh_shell::effects::{effect_fingerprint, effect_weight};
use mesh_shell::json::{JsonNumber, JsonValue};
use mesh_shell::services::service_update_metadata_fingerprint;
use mesh_shell::types::{CapabilitySet, CoreRequest, TabFocusTarget};

fn sample_json() -> JsonValue {
    JsonValue::Object(vec![
        ("a".to_string(), JsonValue::Array(vec![JsonValue::Null, JsonValue::Bool(true)])),
        ("b".to_string(), JsonValue::Number(JsonNumber::NegInt(-7))),
        ("c".to_string(), JsonValue::Str("tab\tquote\" \u{1b}".to_string())),
        ("d".to_string(), JsonValue::Number(JsonNumber::PosInt(42))),
        ("e".to_string(), JsonValue::Object(Vec::new())),
    ])
}

fn sample_serde() -> serde_json::Value {
    let mut map = serde_json::Map::new();
    map.insert(
        "a".to_string(),
        serde_json::Value::Array(vec![serde_json::Value::Null, serde_json::Value::Bool(true)]),
    );
    map.insert("b".to_string(), serde_json::Value::from(-7i64));
    map.insert("c".to_string(), serde_json::Value::String("tab\tquote\" \u{1b}".to_string()));
    map.insert("d".to_string(), serde_json::Value::from(42u64));
    map.insert("e".to_string(), serde_json::Value::Object(serde_json::Map::new()));
    serde_json::Value::Object(map)
}

#[test]
fn json_values_render_as_serde_json_renders_them() {
    assert_eq!(json_debug_text(&sample_json()), format!("{:?}", sample_serde()));
    assert_eq!(json_debug_text(&JsonValue::Array(Vec::new())), "Array []");
}

#[test]
fn texts_are_quoted_and_escaped_as_rust_debug_quotes_them() {
    for text in ["plain", "", "a\"b\\c", "line\nbreak\r\t\0", "bell\u{7}del\u{7f}", "grüße"] {
        assert_eq!(quoted_text(text), format!("{:?}", text));
    }
}

#[test]
fn requests_render_with_their_variant_and_fields() {
    assert_eq!(request_debug_text(&CoreRequest::Shutdown), "Shutdown");
    assert_eq!(
        request_debug_text(&CoreRequest::PositionSurface {
            surface_id: "@mesh/panel".to_string(),
            margin_top: -3,
            margin_left: 24,
        }),
        "PositionSurface { surface_id: \"@mesh/panel\", margin_top: -3, margin_left: 24 }"
    );
    let command = CoreRequest::ServiceCommand {
        interface: "mesh.audio".to_string(),
        command: "set_muted".to_string(),
        payload: JsonValue::Object(vec![("muted".to_string(), JsonValue::Bool(false))]),
        source_module_id: "@mesh/panel".to_string(),
        source_capabilities: CapabilitySet { granted: vec!["service.audio.control".to_string()] },
    };
    assert_eq!(
        request_debug_text(&command),
        "ServiceCommand { interface: \"mesh.audio\", command: \"set_muted\", payload: Object {\"muted\": Bool(false)}, \
         source_module_id: \"@mesh/panel\", source_capabilities: CapabilitySet { granted: [\"service.audio.control\"] } }"
    );
    assert_eq!(
        request_debug_text(&CoreRequest::TransferTabFocus {
            from_surface: "a".to_string(),
            to_surface: "b".to_string(),
            target: TabFocusTarget::AtKey("k".to_string()),
            return_target: Some(("a".to_string(), "x".to_string())),
            target_closes_on_leave: true,
            close_source: None,
        }),
        "TransferTabFocus { from_surface: \"a\", to_surface: \"b\", target: AtKey(\"k\"), return_target: Some((\"a\", \"x\")), \
         target_closes_on_leave: true, close_source: None }"
    );
}

#[test]
fn weights_and_fingerprints_follow_the_rendering() {
    let request = CoreRequest::SetLocale { locale: "de-DE".to_string() };
    let text = request_debug_text(&request);
    assert_eq!(text, "SetLocale { locale: \"de-DE\" }");
    assert_eq!(effect_weight(&request), 64 + text.len());
    let mut hasher = DefaultHasher::new();
    text.as_str().hash(&mut hasher);
    assert_eq!(effect_fingerprint(&request), hasher.finish());
}

#[test]
fn metadata_fingerprints_hash_both_texts_in_order() {
    let mut hasher = DefaultHasher::new();
    "audio".hash(&mut hasher);
    "@mesh/pipewire-audio".hash(&mut hasher);
    assert_eq!(service_update_metadata_fingerprint("audio", "@mesh/pipewire-audio"), hasher.finish());
    assert_ne!(
        service_update_metadata_fingerprint("audio", "@mesh/pipewire-audio"),
        service_update_metadata_fingerprint("@mesh/pipewire-audio", "audio")
    );
}
