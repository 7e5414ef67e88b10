use mesh_shell::backend::BackendRuntimeStatus;
use mesh_shell::bound_state::{ServiceStateCache, StateBinding};
use mesh_shell::dispatch::{bind_call_state, mark_state_bound, service_send_answer, SendOutcome};
use mesh_shell::contracts::FieldCheck;
use mesh_shell::shell::Shell;
use mesh_shell::json::{JsonNumber, JsonValue};

fn float(text: &str) -> JsonValue {
    JsonValue::Number(JsonNumber::Float(text.to_string()))
}

fn object(members: &[(&str, JsonValue)]) -> JsonValue {
    let mut v = JsonValue::empty_object();
    for (k, m) in members {
        v.set_field(k, m.duplicate());
    }
    v
}

fn audio(percent: &str) -> JsonValue {
    object(&[("available", JsonValue::boolean(true)), ("percent", float(percent))])
}

fn percent_of(cache: &ServiceStateCache, interface: &str) -> Option<String> {
    match cache.latest_state(interface).and_then(|l| l.state.get("percent")) {
        Some(JsonValue::Number(JsonNumber::Float(text))) => Some(text.clone()),
        _ => None,
    }
}

/// A snapshot from `provider` while `running` (with `identity`) is the
/// provider running for the interface.
fn broadcast(cache: &mut ServiceStateCache, provider: &str, payload: &JsonValue, running: &str, identity: u64) -> bool {
    cache.record_latest_service_state_at_identity(
        "mesh.audio",
        provider,
        payload,
        identity,
        Some(running.to_string()),
        provider == running,
        false,
    )
}

#[test]
fn latest_service_state_is_keyed_by_interface() {
    let mut cache = ServiceStateCache::new();
    // "audio" names the interface whose canonical name is "mesh.audio".
    assert!(cache.record_latest_service_state_at_identity(
        "mesh.audio",
        "@mesh/pipewire-audio",
        &audio("42.0"),
        0,
        None,
        false,
        false,
    ));

    assert!(cache.latest_state("mesh.audio").is_some());
    assert!(cache.latest_state("audio").is_none());
    let latest = cache.latest_state("mesh.audio").unwrap();
    assert_eq!(latest.interface, "mesh.audio");
    assert_eq!(percent_of(&cache, "mesh.audio"), Some("42.0".to_string()));
}

#[test]
fn latest_service_state_tracks_provider_metadata_separately() {
    let mut cache = ServiceStateCache::new();
    let payload = object(&[
        ("available", JsonValue::boolean(true)),
        ("percent", float("65.0")),
        ("muted", JsonValue::boolean(false)),
    ]);
    assert!(cache.record_latest_service_state_at_identity(
        "mesh.audio",
        "@mesh/pipewire-audio",
        &payload,
        0,
        None,
        false,
        false,
    ));

    let latest = cache.latest_state("mesh.audio").unwrap();
    assert_eq!(latest.provider_id, "@mesh/pipewire-audio");
    assert_eq!(latest.state.get("available").and_then(|v| v.as_bool()), Some(true));
    assert!(latest.state.get("source_module").is_none());
}

#[test]
fn identical_service_state_is_deduplicated_before_delivery() {
    let mut cache = ServiceStateCache::new();
    let event = object(&[
        ("available", JsonValue::boolean(true)),
        ("percent", float("65.0")),
        ("muted", JsonValue::boolean(false)),
    ]);
    let record = |cache: &mut ServiceStateCache, payload: &JsonValue| {
        cache.record_latest_service_state_at_identity(
            "mesh.audio",
            "@mesh/pipewire-audio",
            payload,
            0,
            None,
            false,
            false,
        )
    };

    assert!(record(&mut cache, &event));
    assert!(!record(&mut cache, &event));

    let changed = object(&[
        ("available", JsonValue::boolean(true)),
        ("percent", float("66.0")),
        ("muted", JsonValue::boolean(false)),
    ]);
    assert!(record(&mut cache, &changed));
}

#[test]
fn provider_swap_replaces_interface_latest_state() {
    let mut cache = ServiceStateCache::new();
    assert!(broadcast(&mut cache, "@mesh/pipewire-audio", &audio("40.0"), "@mesh/pipewire-audio", 1));
    assert!(broadcast(&mut cache, "@mesh/pulseaudio-audio", &audio("55.0"), "@mesh/pulseaudio-audio", 2));

    assert!(cache.latest_state("mesh.audio").is_some());
    let latest = cache.latest_state("mesh.audio").unwrap();
    assert_eq!(latest.interface, "mesh.audio");
    assert_eq!(latest.provider_id, "@mesh/pulseaudio-audio");
    assert_eq!(percent_of(&cache, "mesh.audio"), Some("55.0".to_string()));
    assert_ne!(latest.provider_id, "@mesh/pipewire-audio");
}

#[test]
fn stale_provider_update_does_not_replace_current_latest_state() {
    let mut cache = ServiceStateCache::new();
    assert!(broadcast(&mut cache, "@mesh/pipewire-audio", &audio("40.0"), "@mesh/pipewire-audio", 1));
    assert!(broadcast(&mut cache, "@mesh/pulseaudio-audio", &audio("55.0"), "@mesh/pulseaudio-audio", 2));
    assert!(!broadcast(&mut cache, "@mesh/pipewire-audio", &audio("5.0"), "@mesh/pulseaudio-audio", 2));

    let latest = cache.latest_state("mesh.audio").unwrap();
    assert_eq!(latest.provider_id, "@mesh/pulseaudio-audio");
    assert_eq!(percent_of(&cache, "mesh.audio"), Some("55.0".to_string()));
}

#[test]
fn stale_provider_update_does_not_reach_components() {
    let mut cache = ServiceStateCache::new();
    let mut seen: Vec<(&str, &str)> = Vec::new();
    let updates = [
        ("@mesh/pipewire-audio", "40.0", "@mesh/pipewire-audio", 1),
        ("@mesh/pulseaudio-audio", "55.0", "@mesh/pulseaudio-audio", 2),
        ("@mesh/pipewire-audio", "5.0", "@mesh/pulseaudio-audio", 2),
    ];
    for (provider, percent, running, identity) in updates {
        // Only a recorded update is delivered to components.
        if broadcast(&mut cache, provider, &audio(percent), running, identity) {
            seen.push((provider, percent));
        }
    }

    assert_eq!(seen.len(), 2);
    assert_eq!(seen[0], ("@mesh/pipewire-audio", "40.0"));
    assert_eq!(*seen.last().unwrap(), ("@mesh/pulseaudio-audio", "55.0"));
}

#[test]
fn terminal_provider_update_does_not_replace_latest_state_or_reach_components() {
    let mut cache = ServiceStateCache::new();
    let mut seen = 0;
    if broadcast(&mut cache, "@mesh/pipewire-audio", &audio("40.0"), "@mesh/pipewire-audio", 1) {
        seen += 1;
    }

    // The runtime stopped: no provider runs for the interface, and the
    // provider's recorded status refuses its messages.
    let rejects = BackendRuntimeStatus::Stopped.rejects_provider_messages();
    if cache.record_latest_service_state_at_identity(
        "mesh.audio",
        "@mesh/pipewire-audio",
        &audio("5.0"),
        0,
        None,
        false,
        rejects,
    ) {
        seen += 1;
    }

    assert_eq!(seen, 1);
    assert_eq!(percent_of(&cache, "mesh.audio"), Some("40.0".to_string()));
}

fn check(name: &str, declared_type: &str, matches: bool) -> FieldCheck {
    FieldCheck { name: name.to_string(), declared_type: declared_type.to_string(), optional: false, matches }
}

#[test]
fn state_shape_mismatch_records_service_contract_warning() {
    let mut shell = Shell::new();
    let mut cache = ServiceStateCache::new();
    let payload = object(&[("available", JsonValue::boolean(true)), ("percent", JsonValue::text("loud"))]);
    // The audio contract's state fields, as the type grammar judges this payload.
    let checks = vec![
        check("available", "boolean", true),
        check("percent", "float", false),
        check("muted", "boolean", true),
        check("source_module", "string", true),
    ];

    let valid = shell.validate_service_state_shape("mesh.audio", "@mesh/pipewire-audio", checks, &payload);
    assert!(!valid);
    assert!(cache.record_latest_service_state_at_identity(
        "mesh.audio",
        "@mesh/pipewire-audio",
        &payload,
        0,
        None,
        false,
        false,
    ));

    assert!(shell.diagnostics.iter().any(|error| error.module_id == "@mesh/pipewire-audio"
        && error.message.contains("service_contract_warning")));
    let latest = cache.latest_state("mesh.audio").unwrap();
    assert!(latest.state.get("source_module").is_none());
}

/// The value a pending write shows for a field, if a write owns it.
fn pending_optimistic_state(cache: &ServiceStateCache, interface: &str, field: &str) -> Option<JsonValue> {
    cache
        .owned_field_values(interface)
        .into_iter()
        .find(|(owned, _)| owned == field)
        .map(|(_, value)| value)
}

#[test]
fn set_muted_command_broadcasts_optimistic_audio_state_until_backend_confirms() {
    let mut shell = Shell::new();
    let mut cache = ServiceStateCache::new();
    let running = Some(("@mesh/pipewire-audio".to_string(), 1));
    let snapshot = |muted: bool| {
        object(&[("available", JsonValue::boolean(true)), ("percent", float("42.0")), ("muted", JsonValue::boolean(muted))])
    };
    assert!(broadcast(&mut cache, "@mesh/pipewire-audio", &snapshot(true), "@mesh/pipewire-audio", 1));

    // set_muted binds the "muted" field to its "muted" argument.
    let payload = object(&[("device_id", JsonValue::text("default")), ("muted", JsonValue::boolean(false))]);
    let binding = StateBinding { field: "muted".into(), from_arg: Some("muted".into()), toggle: false };
    let value = cache.bound_value_for_command("mesh.audio", &binding, &payload).expect("the argument is bound");
    let published = cache.apply_bound_service_state("mesh.audio", "muted", value, Some(11), running.clone());
    let (result, _) = shell.finish_service_dispatch(
        "mesh.audio",
        "set_muted",
        "@mesh/audio-popover",
        11,
        mark_state_bound(service_send_answer(SendOutcome::Sent)),
    );
    assert_eq!(result.get("ok").and_then(|v| v.as_bool()), Some(true));
    assert_eq!(result.get("optimistic").and_then(|v| v.as_bool()), Some(true));
    assert_eq!(
        published.payload.get("muted").and_then(|v| v.as_bool()),
        Some(false),
        "optimistic set_muted(false) should update frontend consumers immediately"
    );

    // A provider that is not the running one neither delivers nor clears the write.
    let stale = cache.normalize_service_event(
        "mesh.audio",
        "@mesh/stale-audio",
        snapshot(false),
        Some("@mesh/pipewire-audio".into()),
        false,
        vec![true],
    );
    assert!(
        !broadcast(&mut cache, "@mesh/stale-audio", &stale, "@mesh/pipewire-audio", 1),
        "inactive providers must not deliver audio state while set_muted is pending"
    );
    assert_eq!(
        pending_optimistic_state(&cache, "mesh.audio", "muted").and_then(|v| v.as_bool()),
        Some(false),
        "inactive provider updates must not clear pending mute state"
    );

    // The running provider's stale muted=true is overridden by the pending write.
    let kept = cache.normalize_service_event(
        "mesh.audio",
        "@mesh/pipewire-audio",
        snapshot(true),
        Some("@mesh/pipewire-audio".into()),
        false,
        vec![false],
    );
    let last_delivered = if broadcast(&mut cache, "@mesh/pipewire-audio", &kept, "@mesh/pipewire-audio", 1) {
        kept
    } else {
        published.payload
    };
    assert_eq!(
        last_delivered.get("muted").and_then(|v| v.as_bool()),
        Some(false),
        "stale backend muted=true must not flip UI while set_muted(false) is pending"
    );

    // A confirming snapshot ends the write.
    cache.normalize_service_event(
        "mesh.audio",
        "@mesh/pipewire-audio",
        snapshot(false),
        Some("@mesh/pipewire-audio".into()),
        false,
        vec![true],
    );
    assert!(
        pending_optimistic_state(&cache, "mesh.audio", "muted").is_none(),
        "matching backend confirmation should clear pending mute state"
    );
}

#[test]
fn a_bound_command_writes_its_field_only_when_the_call_succeeded() {
    let mut cache = ServiceStateCache::new();
    let running = Some(("@mesh/pipewire-audio".to_string(), 1));
    let snapshot = object(&[("available", JsonValue::boolean(true)), ("muted", JsonValue::boolean(true))]);
    assert!(broadcast(&mut cache, "@mesh/pipewire-audio", &snapshot, "@mesh/pipewire-audio", 1));
    let payload = object(&[("muted", JsonValue::boolean(false))]);
    let binding = || Some(StateBinding { field: "muted".into(), from_arg: Some("muted".into()), toggle: false });

    let (refused, nothing) = bind_call_state(
        &mut cache,
        "mesh.audio",
        binding(),
        &payload,
        7,
        service_send_answer(SendOutcome::Closed),
        running.clone(),
    );
    assert!(nothing.is_none());
    assert!(refused.get("optimistic").is_none());
    assert!(pending_optimistic_state(&cache, "mesh.audio", "muted").is_none());

    let (answer, published) = bind_call_state(
        &mut cache,
        "mesh.audio",
        binding(),
        &payload,
        8,
        service_send_answer(SendOutcome::Sent),
        running,
    );
    assert_eq!(answer.get("optimistic").and_then(|v| v.as_bool()), Some(true));
    assert_eq!(answer.get("state_bound").and_then(|v| v.as_bool()), Some(true));
    let published = published.expect("the write is published");
    assert_eq!(published.payload.get("muted").and_then(|v| v.as_bool()), Some(false));
    assert_eq!(
        pending_optimistic_state(&cache, "mesh.audio", "muted").and_then(|v| v.as_bool()),
        Some(false)
    );
}
