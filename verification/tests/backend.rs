use mesh_shell::backend::{
    BackendRuntimeStatus, ModuleGraph, ProviderContribution, ProviderSwitch,
};
use mesh_shell::requests::BenchmarkScenarioId;
use mesh_shell::shell::{BackendSlot, Shell};

#[test]
fn backend_lifecycle_status_names_match_phase_contract() {
    let statuses = [
        BackendRuntimeStatus::NoActiveProvider,
        BackendRuntimeStatus::UnmetBackendRequirement,
        BackendRuntimeStatus::InvalidManifest,
        BackendRuntimeStatus::MissingCapability,
        BackendRuntimeStatus::MissingEntrypoint,
        BackendRuntimeStatus::MissingBinary,
        BackendRuntimeStatus::InitFailed,
        BackendRuntimeStatus::Running,
        BackendRuntimeStatus::PollFailed,
        BackendRuntimeStatus::Failed,
        BackendRuntimeStatus::Stopped,
    ]
    .map(BackendRuntimeStatus::as_str);

    assert_eq!(
        statuses,
        [
            "no_active_provider",
            "unmet_backend_requirement",
            "invalid_manifest",
            "missing_capability",
            "missing_entrypoint",
            "missing_binary",
            "init_failed",
            "running",
            "poll_failed",
            "failed",
            "stopped",
        ]
    );
}

#[test]
fn status_names_round_trip() {
    for status in [
        BackendRuntimeStatus::NoActiveProvider,
        BackendRuntimeStatus::MissingBinary,
        BackendRuntimeStatus::Running,
        BackendRuntimeStatus::Quarantined,
        BackendRuntimeStatus::Stopped,
    ] {
        assert_eq!(BackendRuntimeStatus::from_str(status.as_str()), status);
    }
    assert_eq!(BackendRuntimeStatus::from_str("bogus"), BackendRuntimeStatus::Failed);
}

#[test]
fn debug_snapshot_includes_backend_lifecycle_status() {
    let mut shell = Shell::new();
    shell.record_backend_runtime_status(
        "mesh.audio".to_string(),
        "@mesh/pipewire-audio".to_string(),
        BackendRuntimeStatus::Running,
        "backend runtime started".to_string(),
    );

    let snapshot = shell.build_debug_snapshot();
    assert!(snapshot.backend_runtimes.iter().any(|entry| {
        entry.interface == "mesh.audio"
            && entry.provider_id == "@mesh/pipewire-audio"
            && entry.status == "running"
    }));
}

#[test]
fn backend_lifecycle_debug_snapshot_includes_failure_counts() {
    let mut shell = Shell::new();
    shell.record_backend_runtime_status(
        "mesh.audio".to_string(),
        "@mesh/pipewire-audio".to_string(),
        BackendRuntimeStatus::PollFailed,
        "poll failure 1".to_string(),
    );
    shell.record_backend_runtime_status(
        "mesh.audio".to_string(),
        "@mesh/pipewire-audio".to_string(),
        BackendRuntimeStatus::PollFailed,
        "poll failure 2".to_string(),
    );
    shell.record_backend_runtime_status(
        "mesh.audio".to_string(),
        "@mesh/pipewire-audio".to_string(),
        BackendRuntimeStatus::PollFailed,
        "poll failure 3".to_string(),
    );

    let snapshot = shell.build_debug_snapshot();
    let entry = snapshot
        .backend_runtimes
        .iter()
        .find(|e| e.interface == "mesh.audio" && e.provider_id == "@mesh/pipewire-audio")
        .expect("backend runtime entry must be present in debug snapshot");

    assert_eq!(
        entry.failure_count, 3,
        "debug snapshot must include cumulative failure count for the provider"
    );
    assert_eq!(entry.status, "poll_failed");
    assert!(
        !entry.provider_id.is_empty(),
        "debug snapshot must include provider identity"
    );
}

#[test]
fn backend_runtime_status_records_provider_identity_for_failures() {
    let mut shell = Shell::new();
    shell.record_backend_runtime_status(
        "mesh.network".to_string(),
        "@mesh/networkmanager-network".to_string(),
        BackendRuntimeStatus::InitFailed,
        "dbus connection refused".to_string(),
    );

    let entry = shell
        .backend_runtime_status("mesh.network", "@mesh/networkmanager-network")
        .expect("runtime status must be recorded for the failed provider");
    assert_eq!(
        entry.provider_id, "@mesh/networkmanager-network",
        "runtime status must identify the failed provider"
    );
    assert_eq!(
        entry.interface, "mesh.network",
        "runtime status must identify the interface"
    );
    assert_eq!(
        entry.status.as_str(),
        "init_failed",
        "runtime status must record the lifecycle stage"
    );
    assert_eq!(
        entry.failure_count, 1,
        "first failure must set failure_count to 1"
    );
    assert!(
        entry.message.contains("dbus connection refused"),
        "runtime status must preserve the failure message"
    );

    shell.record_backend_runtime_status(
        "mesh.network".to_string(),
        "@mesh/networkmanager-network".to_string(),
        BackendRuntimeStatus::InitFailed,
        "still failing".to_string(),
    );
    let entry = shell
        .backend_runtime_status("mesh.network", "@mesh/networkmanager-network")
        .unwrap();
    assert_eq!(
        entry.failure_count, 2,
        "repeated failure must increment failure_count"
    );
}

#[test]
fn running_keeps_the_failure_count_and_other_providers_are_separate() {
    let mut shell = Shell::new();
    shell.record_backend_runtime_status("mesh.audio".into(), "@a".into(), BackendRuntimeStatus::Failed, "x".into());
    shell.record_backend_runtime_status("mesh.audio".into(), "@a".into(), BackendRuntimeStatus::Running, "ok".into());
    shell.record_backend_runtime_status("mesh.audio".into(), "@b".into(), BackendRuntimeStatus::Running, "ok".into());
    let a = shell.backend_runtime_status("mesh.audio", "@a").unwrap();
    assert_eq!(a.failure_count, 1);
    assert_eq!(a.status, BackendRuntimeStatus::Running);
    assert_eq!(shell.backend_runtime_status("mesh.audio", "@b").unwrap().failure_count, 0);
    assert!(shell.backend_runtime_status("mesh.power", "@a").is_none());
    assert!(BackendRuntimeStatus::Stopped.rejects_provider_messages());
    assert!(!BackendRuntimeStatus::Running.rejects_provider_messages());
}

#[test]
fn benchmark_snapshot_exposes_canonical_and_interaction_scenarios() {
    let shell = Shell::new();
    let snapshot = shell.build_debug_snapshot();

    assert_eq!(snapshot.benchmarks.scenarios.len(), 12);
    assert_eq!(
        snapshot
            .benchmarks
            .scenarios
            .iter()
            .map(|scenario| scenario.id.id())
            .collect::<Vec<_>>(),
        vec![
            "idle",
            "hover",
            "surface_open_close",
            "pointer_update",
            "text_update",
            "scroll",
            "icon_grid",
            "animation",
            "theme_reload",
            "resize",
            "keyboard_traversal",
            "backend_update",
        ]
    );
    assert_eq!(snapshot.benchmarks.scenarios[1].id, BenchmarkScenarioId::Hover);
}

#[test]
fn debug_snapshot_omits_profiling_payload_when_disabled() {
    let shell = Shell::new();
    let snapshot = shell.build_debug_snapshot();
    assert!(
        snapshot.profiling.is_none(),
        "profiling payload must be absent while profiling is disabled"
    );
}

fn contribution(module_id: &str, interface: &str) -> ProviderContribution {
    ProviderContribution { module_id: module_id.into(), interface: interface.into() }
}

fn audio_graph(active: &str) -> ModuleGraph {
    ModuleGraph {
        modules: vec!["@mesh/pipewire-audio".into(), "@mesh/pulseaudio-audio".into()],
        root_layout: None,
        provider_contributions: vec![
            contribution("@mesh/pipewire-audio", "mesh.audio"),
            contribution("@mesh/pulseaudio-audio", "mesh.audio"),
            contribution("@mesh/pipewire-audio", "mesh.video"),
        ],
        active_providers: vec![contribution(active, "mesh.audio"), contribution("@mesh/pipewire-audio", "mesh.video")],
    }
}

#[test]
fn newly_active_interfaces_skip_ones_already_running_the_module() {
    let mut shell = Shell::new();
    let graph = audio_graph("@mesh/pipewire-audio");
    assert_eq!(
        shell.newly_active_backend_interfaces(&graph, "@mesh/pipewire-audio"),
        vec!["mesh.audio".to_string(), "mesh.video".to_string()]
    );
    shell.backend_runtimes.push(BackendSlot {
        interface: "mesh.audio".into(),
        provider_id: "@mesh/pipewire-audio".into(),
        generation: 1,
    });
    assert_eq!(
        shell.newly_active_backend_interfaces(&graph, "@mesh/pipewire-audio"),
        vec!["mesh.video".to_string()]
    );
    assert!(shell.newly_active_backend_interfaces(&graph, "@mesh/pulseaudio-audio").is_empty());
}

#[test]
fn provider_selection_decisions() {
    let mut shell = Shell::new();
    let graph = audio_graph("@mesh/pipewire-audio");

    let (step, _) = shell.apply_set_provider("mesh.audio", "@mesh/pulseaudio-audio", Ok(&graph), true, false, true);
    assert_eq!(step, ProviderSwitch::Ignored);

    let (step, _) = shell.apply_set_provider("mesh.audio", "@mesh/unknown", Ok(&graph), false, false, true);
    assert_eq!(step, ProviderSwitch::Rejected);
    assert_eq!(shell.diagnostics.last().unwrap().code, "invalid_provider_selection");

    let (step, _) = shell.apply_set_provider("mesh.audio", "@mesh/pulseaudio-audio", Err("graph.json: broken"), false, false, true);
    assert_eq!(step, ProviderSwitch::Rejected);
    assert_eq!(
        shell.diagnostics.last().unwrap().message,
        "cannot select provider @mesh/pulseaudio-audio for mesh.audio: failed to load graph.json: broken"
    );

    let (step, _) = shell.apply_set_provider("mesh.audio", "@mesh/pulseaudio-audio", Ok(&graph), false, false, false);
    assert_eq!(step, ProviderSwitch::Rejected);
    assert_eq!(shell.diagnostics.last().unwrap().code, "provider_switch_runtime_unavailable");

    let (step, retired) = shell.apply_set_provider("mesh.audio", "@mesh/pulseaudio-audio", Ok(&graph), false, false, true);
    assert_eq!(step, ProviderSwitch::StartCandidate);
    assert!(retired.is_none());

    shell.pending_backend_runtimes.push(BackendSlot {
        interface: "mesh.audio".into(),
        provider_id: "@mesh/pulseaudio-audio".into(),
        generation: 2,
    });
    let (step, _) = shell.apply_set_provider("mesh.audio", "@mesh/pulseaudio-audio", Ok(&graph), false, false, true);
    assert_eq!(step, ProviderSwitch::AlreadyPending);

    shell.backend_runtimes.push(BackendSlot {
        interface: "mesh.audio".into(),
        provider_id: "@mesh/pipewire-audio".into(),
        generation: 1,
    });
    let (step, retired) = shell.apply_set_provider("mesh.audio", "@mesh/pipewire-audio", Ok(&graph), false, true, true);
    assert_eq!(step, ProviderSwitch::AlreadyActive);
    let retired = retired.expect("the prepared switch is cancelled");
    assert_eq!(retired.provider_id, "@mesh/pulseaudio-audio");
    assert!(shell.pending_backend_runtimes.is_empty());
    let record = shell.backend_runtime_status("mesh.audio", "@mesh/pulseaudio-audio").unwrap();
    assert_eq!(record.status, BackendRuntimeStatus::Stopped);
    assert_eq!(record.message, "provider switch cancelled");

    let other = audio_graph("@mesh/pulseaudio-audio");
    let (step, _) = shell.apply_set_provider("mesh.audio", "@mesh/pipewire-audio", Ok(&other), false, true, true);
    assert_eq!(step, ProviderSwitch::SaveSelection { in_background: true });
}
