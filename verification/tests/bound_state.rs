use mesh_shell::bound_state::{ServiceStateCache, StateBinding};
use mesh_shell::json::JsonValue;

fn object(members: &[(&str, JsonValue)]) -> JsonValue {
    let mut v = JsonValue::empty_object();
    for (k, m) in members {
        v.set_field(k, m.duplicate());
    }
    v
}

fn field_of(cache: &ServiceStateCache, interface: &str, field: &str) -> Option<bool> {
    cache.latest_state(interface).and_then(|l| l.state.get(field)).and_then(|v| v.as_bool())
}

fn running() -> Option<(String, u64)> {
    Some(("@mesh/pipewire-audio".to_string(), 3))
}

fn with_snapshot(muted: bool) -> ServiceStateCache {
    let mut cache = ServiceStateCache::new();
    let snapshot = object(&[("available", JsonValue::boolean(true)), ("muted", JsonValue::boolean(muted))]);
    assert!(cache.record_latest_service_state_at_identity(
        "mesh.audio",
        "@mesh/pipewire-audio",
        &snapshot,
        3,
        Some("@mesh/pipewire-audio".into()),
        true,
        false,
    ));
    cache
}

#[test]
fn a_bound_write_is_published_at_once() {
    let mut cache = ServiceStateCache::new();
    let published = cache.apply_bound_service_state("mesh.audio", "muted", JsonValue::boolean(true), Some(1), running());
    assert_eq!(published.interface, "mesh.audio");
    assert_eq!(published.provider_id, "@mesh/pipewire-audio");
    assert_eq!(published.payload.get("muted").and_then(|v| v.as_bool()), Some(true));
    assert_eq!(published.payload.get("available").and_then(|v| v.as_bool()), Some(true));
    let latest = cache.latest_state("mesh.audio").expect("published state is the latest");
    assert_eq!(latest.generation, 1);
    assert_eq!(latest.identity, 3);
    assert_eq!(cache.settling_field(1), Some(("mesh.audio".to_string(), "muted".to_string())));
}

#[test]
fn without_a_provider_the_shell_publishes_the_write() {
    let mut cache = ServiceStateCache::new();
    let published = cache.apply_bound_service_state("mesh.network", "enabled", JsonValue::boolean(false), None, None);
    assert_eq!(published.provider_id, "@mesh/shell");
    assert!(cache.settling_field(0).is_none());
}

#[test]
fn a_completed_write_keeps_its_value() {
    let mut cache = with_snapshot(false);
    cache.apply_bound_service_state("mesh.audio", "muted", JsonValue::boolean(true), Some(7), running());
    assert!(cache.settle_bound_service_state(7, "completed", running()).is_empty());
    assert_eq!(field_of(&cache, "mesh.audio", "muted"), Some(true));
}

#[test]
fn a_failed_write_restores_the_value_before_it() {
    let mut cache = with_snapshot(false);
    cache.apply_bound_service_state("mesh.audio", "muted", JsonValue::boolean(true), Some(7), running());
    let published = cache.settle_bound_service_state(7, "queue_full", running());
    assert_eq!(published.len(), 1);
    assert_eq!(published[0].payload.get("muted").and_then(|v| v.as_bool()), Some(false));
    assert_eq!(field_of(&cache, "mesh.audio", "muted"), Some(false));
    assert!(cache.settling_field(7).is_none(), "the failed write is forgotten");
    assert_eq!(cache.latest_state("mesh.audio").unwrap().generation, 3);
}

#[test]
fn an_older_failure_never_overwrites_a_newer_write() {
    let mut cache = with_snapshot(false);
    cache.apply_bound_service_state("mesh.audio", "muted", JsonValue::boolean(true), Some(3), running());
    cache.apply_bound_service_state("mesh.audio", "muted", JsonValue::boolean(false), Some(4), running());
    assert!(cache.settle_bound_service_state(3, "failed", running()).is_empty());
    assert_eq!(field_of(&cache, "mesh.audio", "muted"), Some(false));

    let published = cache.settle_bound_service_state(4, "failed", running());
    assert_eq!(published.len(), 1, "both writes failed: the value before the first comes back");
    assert_eq!(published[0].payload.get("muted").and_then(|v| v.as_bool()), Some(false));
}

#[test]
fn a_failed_write_returns_the_field_to_the_write_before_it() {
    let mut cache = with_snapshot(false);
    cache.apply_bound_service_state("mesh.audio", "muted", JsonValue::boolean(true), Some(3), running());
    cache.apply_bound_service_state("mesh.audio", "muted", JsonValue::boolean(false), Some(4), running());
    let published = cache.settle_bound_service_state(4, "failed", running());
    assert_eq!(published.len(), 1);
    assert_eq!(published[0].payload.get("muted").and_then(|v| v.as_bool()), Some(true));
    assert_eq!(
        cache.settling_field(3),
        Some(("mesh.audio".to_string(), "muted".to_string())),
        "the earlier write owns the field again"
    );
}

#[test]
fn provider_snapshots_confirm_or_yield_to_bound_writes() {
    let mut cache = with_snapshot(false);
    cache.apply_bound_service_state("mesh.audio", "muted", JsonValue::boolean(true), Some(9), running());
    cache.apply_bound_service_state("mesh.audio", "percent", JsonValue::unsigned(40), Some(10), running());
    let owned = cache.owned_field_values("mesh.audio");
    assert_eq!(owned.len(), 2);
    assert_eq!(owned[0].0, "muted");
    assert_eq!(owned[1].0, "percent");

    let stale = object(&[("muted", JsonValue::boolean(false)), ("percent", JsonValue::unsigned(40))]);
    let confirmed = vec![false, true];
    let normalized = cache.normalize_service_event(
        "mesh.audio",
        "@mesh/pipewire-audio",
        stale,
        Some("@mesh/pipewire-audio".into()),
        false,
        confirmed,
    );
    assert_eq!(normalized.get("muted").and_then(|v| v.as_bool()), Some(true), "an unconfirmed write wins over the stale value");
    assert_eq!(normalized.get("percent").and_then(|v| v.as_u64()), Some(40));
    assert!(cache.settling_field(10).is_none(), "a confirmed write is forgotten");
    assert!(cache.settling_field(9).is_some());
}

#[test]
fn snapshots_from_another_provider_are_left_alone() {
    let mut cache = with_snapshot(false);
    cache.apply_bound_service_state("mesh.audio", "muted", JsonValue::boolean(true), Some(9), running());
    let snapshot = object(&[("muted", JsonValue::boolean(false))]);
    let normalized = cache.normalize_service_event(
        "mesh.audio",
        "@mesh/pulse-audio",
        snapshot,
        Some("@mesh/pipewire-audio".into()),
        false,
        vec![false],
    );
    assert_eq!(normalized.get("muted").and_then(|v| v.as_bool()), Some(false));
    assert!(!cache.record_latest_service_state_at_identity(
        "mesh.audio",
        "@mesh/pulse-audio",
        &object(&[("muted", JsonValue::boolean(false))]),
        0,
        Some("@mesh/pipewire-audio".into()),
        true,
        false,
    ));
}

#[test]
fn repeated_snapshots_are_not_recorded() {
    let mut cache = with_snapshot(false);
    let same = object(&[("available", JsonValue::boolean(true)), ("muted", JsonValue::boolean(false))]);
    assert!(!cache.record_latest_service_state_at_identity(
        "mesh.audio",
        "@mesh/pipewire-audio",
        &same,
        3,
        Some("@mesh/pipewire-audio".into()),
        true,
        false,
    ));
    let changed = object(&[("muted", JsonValue::boolean(true))]);
    assert!(cache.record_latest_service_state_at_identity(
        "mesh.audio",
        "@mesh/pipewire-audio",
        &changed,
        3,
        Some("@mesh/pipewire-audio".into()),
        true,
        false,
    ));
    assert!(!cache.record_latest_service_state_at_identity("mesh.audio", "@mesh/gone", &changed, 5, None, true, false));
    assert!(cache.record_latest_service_state_at_identity("mesh.audio", "@mesh/gone", &changed, 0, None, true, false));
    assert_eq!(cache.latest_state("mesh.audio").unwrap().generation, 3);
}

#[test]
fn bound_values_copy_an_argument_or_toggle_the_field() {
    let cache = with_snapshot(true);
    let copy = StateBinding { field: "percent".into(), from_arg: Some("value".into()), toggle: false };
    let payload = object(&[("value", JsonValue::unsigned(55))]);
    assert_eq!(cache.bound_value_for_command("mesh.audio", &copy, &payload).and_then(|v| v.as_u64()), Some(55));

    let toggle = StateBinding { field: "muted".into(), from_arg: None, toggle: true };
    assert_eq!(
        cache.bound_value_for_command("mesh.audio", &toggle, &JsonValue::Null).and_then(|v| v.as_bool()),
        Some(false)
    );
    let neither = StateBinding { field: "muted".into(), from_arg: None, toggle: false };
    assert!(cache.bound_value_for_command("mesh.audio", &neither, &JsonValue::Null).is_none());
}
