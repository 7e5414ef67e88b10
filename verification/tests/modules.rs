use mesh_shell::backend::{ModuleGraph, ProviderContribution};
use mesh_shell::modules::ModuleEnableVerdict;
use mesh_shell::shell::{BackendSlot, Shell};

fn contribution(module_id: &str, interface: &str) -> ProviderContribution {
    ProviderContribution { module_id: module_id.into(), interface: interface.into() }
}

fn graph() -> ModuleGraph {
    ModuleGraph {
        modules: vec![
            "@mesh/settings".into(),
            "@mesh/panel-layout".into(),
            "@mesh/pipewire-audio".into(),
            "@mesh/clock".into(),
        ],
        root_layout: Some("@mesh/panel-layout".into()),
        provider_contributions: vec![contribution("@mesh/pipewire-audio", "mesh.audio")],
        active_providers: vec![contribution("@mesh/pipewire-audio", "mesh.audio")],
    }
}

fn rejection(verdict: ModuleEnableVerdict) -> (String, String) {
    match verdict {
        ModuleEnableVerdict::Rejected { code, message } => (code, message),
        other => panic!("expected a rejection, got {other:?}"),
    }
}

#[test]
fn ordinary_modules_can_be_toggled() {
    let mut shell = Shell::new();
    let g = graph();
    assert!(matches!(
        shell.check_module_enabled_change("@mesh/clock", false, false, false, false, Ok(&g), "graph.json"),
        ModuleEnableVerdict::Proceed
    ));
    assert!(shell.diagnostics.is_empty());
}

#[test]
fn recovery_refuses_and_profile_switches_drop_changes() {
    let mut shell = Shell::new();
    let g = graph();
    let (code, message) = rejection(shell.check_module_enabled_change("@mesh/clock", true, true, false, false, Ok(&g), "graph.json"));
    assert_eq!(code, "configured_composition_recovery");
    assert_eq!(message, "cannot change module @mesh/clock while the shell is in configured composition recovery");
    assert_eq!(shell.diagnostics.len(), 1);
    assert_eq!(shell.diagnostics[0].module_id, "@mesh/settings");

    assert!(matches!(
        shell.check_module_enabled_change("@mesh/clock", true, false, true, false, Ok(&g), "graph.json"),
        ModuleEnableVerdict::Ignored
    ));
    assert_eq!(shell.diagnostics.len(), 1, "a dropped change records nothing");
}

#[test]
fn essential_modules_cannot_be_disabled() {
    let mut shell = Shell::new();
    let g = graph();
    let (_, message) = rejection(shell.check_module_enabled_change("@mesh/settings", false, false, false, false, Ok(&g), "g"));
    assert_eq!(message, "cannot disable @mesh/settings from its own settings surface");
    let (_, message) = rejection(shell.check_module_enabled_change("@mesh/panel-layout", false, false, false, false, Ok(&g), "g"));
    assert_eq!(message, "cannot disable @mesh/panel-layout while it is the active root layout");
    assert!(matches!(
        shell.check_module_enabled_change("@mesh/panel-layout", false, false, false, true, Ok(&g), "g"),
        ModuleEnableVerdict::Proceed
    ), "a profile owns its root layout");
    let (code, message) = rejection(shell.check_module_enabled_change("@mesh/pipewire-audio", false, false, false, false, Ok(&g), "g"));
    assert_eq!(code, "invalid_module_enabled_selection");
    assert_eq!(
        message,
        "cannot disable @mesh/pipewire-audio while it is the active provider for mesh.audio; select another provider first"
    );
}

#[test]
fn unknown_modules_unloadable_graphs_and_preparing_providers_are_refused() {
    let mut shell = Shell::new();
    let g = graph();
    let (_, message) = rejection(shell.check_module_enabled_change("@mesh/ghost", true, false, false, false, Ok(&g), "g"));
    assert_eq!(message, "cannot update unknown module @mesh/ghost");
    let (_, message) = rejection(shell.check_module_enabled_change("@mesh/clock", true, false, false, false, Err("bad toml".into()), "/etc/mesh/graph.toml"));
    assert_eq!(message, "cannot update module @mesh/clock: failed to load /etc/mesh/graph.toml: bad toml");

    shell.pending_backend_runtimes.push(BackendSlot { interface: "mesh.audio".into(), provider_id: "@mesh/clock".into(), generation: 2 });
    let (_, message) = rejection(shell.check_module_enabled_change("@mesh/clock", false, false, false, false, Ok(&g), "g"));
    assert_eq!(message, "cannot disable @mesh/clock while it is being prepared as an active provider");
    assert_eq!(shell.diagnostics.len(), 3);
}

use mesh_shell::modules::{ProfileWriteOperation, ProfileWriteResult, ProfileWriteStep};

#[test]
fn a_rejected_provider_selection_write_fails_the_switch() {
    let mut shell = Shell::new();
    let step = shell.complete_profile_write(
        ProfileWriteOperation::BackendProviderSelection {
            interface: "mesh.audio".into(),
            provider_id: "@mesh/pipewire-audio".into(),
        },
        Err("disk full".into()),
    );
    assert!(matches!(
        step,
        ProfileWriteStep::FailProviderSwitch { ref message, .. }
            if message == "provider @mesh/pipewire-audio became ready for mesh.audio, but its selection could not be saved: disk full"
    ));
    assert_eq!(shell.diagnostics.len(), 1);
    assert_eq!(shell.diagnostics[0].code, "profile_write_rejected");
    assert_eq!(shell.diagnostics[0].message, "disk full");
}

#[test]
fn finished_profile_writes_lead_to_their_next_step() {
    let mut shell = Shell::new();
    assert!(matches!(
        shell.complete_profile_write(
            ProfileWriteOperation::NodeSlot { profile_id: "work".into(), apply_switch: true },
            Ok(ProfileWriteResult::Complete)
        ),
        ProfileWriteStep::SwitchProfile { ref profile_id } if profile_id == "work"
    ));
    assert!(matches!(
        shell.complete_profile_write(
            ProfileWriteOperation::BackendProviderSelection { interface: "mesh.audio".into(), provider_id: "@p".into() },
            Ok(ProfileWriteResult::Complete)
        ),
        ProfileWriteStep::CompleteProviderSwitch { .. }
    ));
    assert!(matches!(
        shell.complete_profile_write(
            ProfileWriteOperation::ModuleEnabled { module_id: "@mesh/clock".into(), active_profile_id: None },
            Ok(ProfileWriteResult::Rollback)
        ),
        ProfileWriteStep::ActivateGraph { ref module_id } if module_id == "@mesh/clock"
    ));
    assert!(shell.diagnostics.is_empty());

    assert!(matches!(
        shell.complete_profile_write(
            ProfileWriteOperation::ModuleEnabled { module_id: "@mesh/clock".into(), active_profile_id: Some("work".into()) },
            Ok(ProfileWriteResult::Complete)
        ),
        ProfileWriteStep::Nothing
    ));
    assert_eq!(shell.diagnostics[0].code, "module_enabled_write_invalid_result");
    assert_eq!(shell.diagnostics[0].message, "enabled state write for @mesh/clock returned no rollback");
}

#[test]
fn graph_reload_failures_are_recorded() {
    let mut shell = Shell::new();
    assert!(!shell.record_selection_reload_outcome("mesh.audio", Some("parse error".into()), None));
    assert_eq!(
        shell.diagnostics[0].message,
        "provider selection for mesh.audio was saved but the candidate graph could not be loaded: parse error"
    );
    assert!(shell.record_selection_reload_outcome("mesh.audio", None, None));
    shell.record_module_graph_reload_failure("@mesh/clock", "bad graph", Some("read-only".into()));
    assert_eq!(
        shell.diagnostics[1].message,
        "module @mesh/clock update produced an unloadable graph: bad graph; rollback also failed: read-only"
    );
}
