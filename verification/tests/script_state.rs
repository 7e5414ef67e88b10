use mesh_shell::json::JsonValue;
use mesh_shell::script_state::{
    apply_service_update, apply_service_update_with_name_and_fingerprint, seed_service_state, FingerprintedUpdate,
    ScriptState,
};

fn object(members: &[(&str, JsonValue)]) -> JsonValue {
    let mut v = JsonValue::empty_object();
    for (k, m) in members {
        v.set_field(k, m.duplicate());
    }
    v
}

fn trace(name: &str, source_module: &str) -> JsonValue {
    object(&[("name", JsonValue::text(name)), ("source_module", JsonValue::text(source_module))])
}

#[test]
fn apply_service_update_does_not_leak_metadata_without_read_capability() {
    let mut state = ScriptState::new();
    seed_service_state(&mut state);

    apply_service_update(
        &mut state,
        false,
        "mesh.audio",
        "@mesh/pipewire-audio",
        &object(&[("percent", JsonValue::unsigned(42))]),
    );

    assert!(state.get("last_service_update").is_some_and(|v| v.same_as(&trace("", ""))));
    assert!(state.get("audio").is_none());
}

#[test]
fn service_update_populates_frontend_state() {
    let mut state = ScriptState::new();
    seed_service_state(&mut state);
    apply_service_update(
        &mut state,
        true,
        "audio",
        "@mesh/pipewire-audio",
        &object(&[
            ("available", JsonValue::boolean(true)),
            ("percent", JsonValue::unsigned(65)),
            ("label", JsonValue::text("65%")),
        ]),
    );

    let audio = state.get("audio").expect("audio state should exist");
    assert_eq!(audio.get("label").and_then(|v| v.as_str()), Some("65%"));
    assert_eq!(audio.get("percent").and_then(|v| v.as_u64()), Some(65));
}

#[test]
fn service_update_gated_by_capability() {
    let mut state = ScriptState::new();
    seed_service_state(&mut state);
    apply_service_update(
        &mut state,
        false,
        "audio",
        "@mesh/pipewire-audio",
        &object(&[("available", JsonValue::boolean(true)), ("percent", JsonValue::unsigned(99))]),
    );
    assert!(state.get("audio").is_none());
}

#[test]
fn service_update_accepts_canonical_interface_name() {
    let mut state = ScriptState::new();
    seed_service_state(&mut state);
    apply_service_update(
        &mut state,
        true,
        "mesh.audio",
        "@mesh/pipewire-audio",
        &object(&[("available", JsonValue::boolean(true)), ("percent", JsonValue::unsigned(42))]),
    );
    assert_eq!(
        state
            .get("last_service_update")
            .and_then(|v| v.get("name"))
            .and_then(|v| v.as_str())
            .map(str::to_string),
        Some("audio".to_string())
    );
}

#[test]
fn fingerprinted_service_metadata_preserves_update_shape() {
    let payload = object(&[("available", JsonValue::boolean(true))]);
    // The payload's fingerprint, as the script runtime computes it.
    let fingerprint = 0x5eed;
    let mut state = ScriptState::new();

    match apply_service_update_with_name_and_fingerprint(true, true, "audio", "@mesh/pipewire", fingerprint) {
        FingerprintedUpdate::Observed { trace: written, name, fingerprint: f, .. } => {
            assert_eq!(f, fingerprint);
            state.set("last_service_update", written);
            state.set(&name, payload.duplicate());
        }
        other => panic!("an observed, readable update writes its trace and value, got {other:?}"),
    }

    assert!(state.get("audio").is_some_and(|v| v.same_as(&payload)));
    assert!(state.get("last_service_update").is_some_and(|v| v.same_as(&trace("audio", "@mesh/pipewire"))));
}

#[test]
fn fingerprinted_updates_skip_unreadable_and_unobserved_traces() {
    assert!(matches!(
        apply_service_update_with_name_and_fingerprint(false, true, "audio", "@m", 1),
        FingerprintedUpdate::Skip
    ));
    assert!(matches!(
        apply_service_update_with_name_and_fingerprint(true, false, "audio", "@m", 1),
        FingerprintedUpdate::Unobserved { ref name, fingerprint: 1 } if name == "audio"
    ));
    let a = apply_service_update_with_name_and_fingerprint(true, true, "audio", "@m", 1);
    let b = apply_service_update_with_name_and_fingerprint(true, true, "audio", "@m", 2);
    match (a, b) {
        (
            FingerprintedUpdate::Observed { trace_fingerprint: x, .. },
            FingerprintedUpdate::Observed { trace_fingerprint: y, .. },
        ) => assert_eq!(x, y, "the trace's fingerprint depends on the service and source alone"),
        _ => panic!("both updates are observed"),
    }
}
