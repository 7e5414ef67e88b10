use mesh_shell::effects::{EffectSchedulerReport, EffectSource};
use mesh_shell::keyed::keyed_get;
use mesh_shell::shell::{
    ChildSurface, ChildSurfaceKind, ComponentRuntime, InterfaceContract, MethodContract, Shell,
    ShellAction, SurfaceState, SurfaceTarget, TargetRef,
};
use mesh_shell::types::{CoreRequest, KeyboardMode, SurfaceRole};

fn component(id: &str, hide_transition_ms: u64) -> ComponentRuntime {
    ComponentRuntime {
        component_id: id.to_string(),
        surface_id: id.to_string(),
        quarantined: false,
        failure_count: 0,
        popup_parent_surface: None,
        popup_promoted: false,
        hide_transition_ms,
        surface_exiting: false,
        keyboard_mode_override: None,
        paint_requested: false,
        force_full_present: false,
        theme_changed: false,
        locale_changed: false,
        children: Vec::new(),
    }
}

fn shown(shell: &mut Shell, id: &str) {
    shell.surfaces.push((
        id.to_string(),
        SurfaceTarget { visible: true, keyboard_mode: KeyboardMode::OnDemand, role: SurfaceRole::Layer },
    ));
}

fn core_state(shell: &Shell, id: &str) -> SurfaceState {
    keyed_get(&shell.core_surfaces, id).expect("surface state")
}

#[test]
fn hide_surface_uses_configured_exit_transition_before_unmapping() {
    let mut shell = Shell::new();
    shell.components.push(component("@test/transition", 120));
    shown(&mut shell, "@test/transition");

    let emitted = shell.set_surface_visibility("@test/transition", false, 1_000);
    assert!(
        emitted.is_empty(),
        "hide transition should not broadcast hidden until the timer elapses"
    );
    let surface = core_state(&shell, "@test/transition");
    assert!(surface.visible);
    assert!(surface.closing_until.is_some());
    assert!(shell.components[0].surface_exiting);

    let emitted = shell.complete_due_surface_transitions(1_120);
    assert!(matches!(
        emitted.as_slice(),
        [ShellAction::BroadcastVisibility { surface_id, visible: false }] if surface_id == "@test/transition"
    ));
    let surface = core_state(&shell, "@test/transition");
    assert!(!surface.visible);
    assert!(surface.closing_until.is_none());
    assert!(!shell.components[0].surface_exiting);
}

#[test]
fn hide_surface_without_transition_unmaps_immediately() {
    let mut shell = Shell::new();
    shell.components.push(component("@test/immediate", 0));
    shown(&mut shell, "@test/immediate");

    let emitted = shell.set_surface_visibility("@test/immediate", false, 1_000);
    assert!(matches!(
        emitted.as_slice(),
        [ShellAction::BroadcastVisibility { visible: false, .. }]
    ));
    let surface = core_state(&shell, "@test/immediate");
    assert!(!surface.visible);
    assert!(surface.closing_until.is_none());
    assert!(!shell.components[0].surface_exiting);
}

#[test]
fn visibility_requests_are_idempotent() {
    let mut shell = Shell::new();
    shell.components.push(component("@test/panel", 0));
    assert!(shell.set_surface_visibility("@test/panel", false, 0).is_empty());
    assert_eq!(shell.set_surface_visibility("@test/panel", true, 0).len(), 1);
    assert!(shell.set_surface_visibility("@test/panel", true, 0).is_empty());
    assert_eq!(shell.set_surface_visibility("@test/panel", false, 0).len(), 1);
    assert!(shell.set_surface_visibility("@test/panel", false, 0).is_empty());
}

#[test]
fn showing_a_closing_surface_cancels_its_exit() {
    let mut shell = Shell::new();
    shell.components.push(component("@test/panel", 200));
    shown(&mut shell, "@test/panel");
    shell.set_surface_visibility("@test/panel", false, 10);
    assert!(shell.set_surface_visibility("@test/panel", false, 20).is_empty(), "a second hide is ignored");
    let emitted = shell.set_surface_visibility("@test/panel", true, 30);
    assert_eq!(emitted.len(), 1);
    assert_eq!(core_state(&shell, "@test/panel"), SurfaceState { visible: true, closing_until: None });
    assert!(!shell.components[0].surface_exiting);
}

#[test]
fn hiding_the_focused_surface_drops_focus_and_debug_inspector_follows_visibility() {
    let mut shell = Shell::new();
    shell.components.push(component("@mesh/debug-inspector", 0));
    shell.keyboard_focus_surface = Some("@mesh/debug-inspector".to_string());
    shell.set_surface_visibility_now("@mesh/debug-inspector", true);
    assert!(shell.debug.enabled);
    shell.set_surface_visibility_now("@mesh/debug-inspector", false);
    assert!(!shell.debug.enabled);
    assert!(shell.keyboard_focus_surface.is_none());
}

#[test]
fn hiding_a_promoted_popover_destroys_its_popup_and_children() {
    let mut shell = Shell::new();
    let mut popover = component("@test/popover", 0);
    popover.popup_parent_surface = Some("@test/panel".to_string());
    popover.popup_promoted = true;
    popover.children.push(ChildSurface {
        surface_id: "@test/popover/child".to_string(),
        node_key: "child".to_string(),
        kind: ChildSurfaceKind::Popover,
        popup_parent_surface: Some("@test/popover".to_string()),
        force_full_present: false,
    });
    shell.components.push(popover);
    let actions = shell.set_surface_visibility_now("@test/popover", false);
    assert!(matches!(
        actions.as_slice(),
        [
            ShellAction::DestroyPopup { surface_id: popover },
            ShellAction::DestroyPopup { surface_id: child },
            ShellAction::BroadcastVisibility { visible: false, .. },
        ] if popover == "@test/popover" && child == "@test/popover/child"
    ));
    assert!(shell.components[0].popup_parent_surface.is_none());
    assert!(!shell.components[0].popup_promoted);
    assert!(shell.components[0].children.is_empty());
}

fn panel_with_child_popover() -> Shell {
    let mut shell = Shell::new();
    let mut panel = component("@test/panel", 0);
    panel.children.push(ChildSurface {
        surface_id: "@test/panel/menu".to_string(),
        node_key: "menu".to_string(),
        kind: ChildSurfaceKind::Popover,
        popup_parent_surface: Some("@test/panel".to_string()),
        force_full_present: false,
    });
    panel.children.push(ChildSurface {
        surface_id: "@test/panel/overflow".to_string(),
        node_key: "overflow".to_string(),
        kind: ChildSurfaceKind::Overflow,
        popup_parent_surface: Some("@test/panel".to_string()),
        force_full_present: false,
    });
    shell.components.push(panel);
    shell
}

#[test]
fn surface_targets_resolve_parents_before_children() {
    let shell = panel_with_child_popover();
    assert_eq!(shell.component_target_for_surface("@test/panel"), Some((0, TargetRef::Parent)));
    assert_eq!(shell.component_target_for_surface("@test/panel/menu"), Some((0, TargetRef::Child(0))));
    assert_eq!(shell.component_target_for_surface("@test/missing"), None);
    assert!(shell.surface_is_promoted_popover("@test/panel/menu"));
    assert!(!shell.surface_is_promoted_popover("@test/panel"));
}

#[test]
fn parent_pointer_leave_defers_child_popover_hides_and_the_deadline_synthesizes_a_pointer_leave() {
    let mut shell = panel_with_child_popover();
    shell.defer_child_popover_hides_for_parent("@test/panel", 1_000);
    assert_eq!(keyed_get(&shell.pending_popover_hides, "@test/panel/menu"), Some(1_180));
    assert_eq!(keyed_get(&shell.pending_popover_hides, "@test/panel/overflow"), None);

    assert!(shell.complete_due_surface_transitions(1_100).is_empty());
    let actions = shell.complete_due_surface_transitions(1_180);
    assert!(matches!(
        actions.as_slice(),
        [ShellAction::ChildPointerLeave { component: 0, node_key }] if node_key == "menu"
    ));
    assert!(shell.pending_popover_hides.is_empty());
}

#[test]
fn pointer_entering_a_popover_cancels_its_pending_hide() {
    let mut shell = panel_with_child_popover();
    shell.defer_child_popover_hides_for_parent("@test/panel", 0);
    assert!(shell.cancel_pending_popover_hide("@test/panel/menu"));
    assert!(!shell.cancel_pending_popover_hide("@test/panel/menu"));
    assert!(shell.pending_popover_hides.is_empty());
}

#[test]
fn hover_bridge_hide_defers_promoted_popover_close_until_deadline() {
    let mut shell = Shell::new();
    let mut popover = component("@test/popover", 0);
    popover.popup_parent_surface = Some("@test/panel".to_string());
    shell.components.push(popover);
    shown(&mut shell, "@test/popover");
    assert!(shell.hide_popover("@test/popover", true, 500).is_empty());
    assert_eq!(keyed_get(&shell.pending_popover_hides, "@test/popover"), Some(680));
    let actions = shell.complete_due_surface_transitions(680);
    assert!(matches!(
        actions.as_slice(),
        [ShellAction::DestroyPopup { .. }, ShellAction::BroadcastVisibility { visible: false, .. }]
    ));
    assert!(!core_state(&shell, "@test/popover").visible);
}

#[test]
fn hiding_an_overflow_child_only_forgets_its_pending_hide() {
    let mut shell = panel_with_child_popover();
    shell.pending_popover_hides.push(("@test/panel/overflow".to_string(), 5));
    assert!(shell.hide_popover("@test/panel/overflow", false, 0).is_empty());
    assert!(shell.pending_popover_hides.is_empty());
}

#[test]
fn sibling_popovers_of_the_same_trigger_are_hidden() {
    let mut shell = Shell::new();
    for id in ["@test/a", "@test/b", "@test/c"] {
        let mut popover = component(id, 0);
        popover.popup_parent_surface = Some("@test/bar".to_string());
        shell.components.push(popover);
        shown(&mut shell, id);
    }
    shell.components[2].popup_parent_surface = Some("@test/other".to_string());
    let hides = shell.sibling_popover_hides("@test/a", "@test/bar");
    assert!(matches!(
        hides.as_slice(),
        [CoreRequest::HidePopover { surface_id, defer_for_hover_bridge: false }] if surface_id == "@test/b"
    ));
    assert!(shell.sibling_popover_hides("@test/a", "").is_empty());
}

#[test]
fn claiming_focus_hands_back_transfer_owned_keyboard_modes() {
    let mut shell = Shell::new();
    let mut a = component("@test/a", 0);
    a.keyboard_mode_override = Some(KeyboardMode::Exclusive);
    let mut b = component("@test/b", 0);
    b.keyboard_mode_override = Some(KeyboardMode::Exclusive);
    shell.components.push(a);
    shell.components.push(b);
    shown(&mut shell, "@test/a");
    shell.keyboard_focus_surface = Some("@test/a".to_string());
    shell.transfer_owned_keyboard_modes.push(("@test/a".to_string(), KeyboardMode::OnDemand));

    let actions = shell.claim_keyboard_focus_for_surface("@test/b");
    assert_eq!(shell.keyboard_focus_surface.as_deref(), Some("@test/b"));
    assert!(shell.transfer_owned_keyboard_modes.is_empty());
    assert!(shell.components[0].keyboard_mode_override.is_none());
    assert!(shell.components[1].keyboard_mode_override.is_none());
    assert!(matches!(
        actions.as_slice(),
        [ShellAction::ConfigureKeyboardMode { surface_id, mode: KeyboardMode::NoInteractivity }] if surface_id == "@test/a"
    ));
    assert_eq!(keyed_get(&shell.surfaces, "@test/a").unwrap().keyboard_mode, KeyboardMode::OnDemand);
}

#[test]
fn requests_are_charged_to_the_component_owning_their_surface() {
    let mut shell = panel_with_child_popover();
    shell.activation_generation = 7;
    let source = shell.effect_source_for_request(&CoreRequest::ShowSurface { surface_id: "@test/panel/menu".into() });
    assert_eq!(source.module_id, "@test/panel");
    assert_eq!(source.runtime_id, "@test/panel/menu");
    assert_eq!(source.generation, 7);
    let shell_source = shell.effect_source_for_request(&CoreRequest::ToggleDebugOverlay);
    assert_eq!((shell_source.module_id.as_str(), shell_source.runtime_id.as_str()), ("@mesh/shell", "shell"));
    let orphan = shell.effect_source_for_surface("@test/nowhere");
    assert_eq!(orphan, ("@mesh/shell".to_string(), "@test/nowhere".to_string()));

    shell.enqueue_effects(vec![
        CoreRequest::ShowSurface { surface_id: "@test/panel".into() },
        CoreRequest::ToggleDebugOverlay,
    ]);
    assert_eq!(shell.effect_scheduler.pending_len(), 2);
    assert_eq!(shell.discard_scheduled_effects(), 2);
    shell.enqueue_effects(Vec::new());
    assert_eq!(shell.effect_scheduler.pending_len(), 0);
}

#[test]
fn scheduler_reports_become_diagnostics_and_quarantine_the_producer() {
    let mut shell = panel_with_child_popover();
    let report = EffectSchedulerReport {
        deferred: 0,
        dropped: 0,
        cycle_breaks: 2,
        transaction_budget_exceeded: 0,
        source_budget_exceeded: 1,
        quarantined_sources: vec![EffectSource::new("@test/panel", "@test/panel", 0)],
    };
    shell.report_effect_scheduler(&report);
    let codes = shell.diagnostics.iter().map(|d| d.code.as_str()).collect::<Vec<_>>();
    assert_eq!(
        codes,
        vec![
            "effect_scheduler_cycle_detected",
            "effect_scheduler_source_budget_exceeded",
            "effect_scheduler_quarantined"
        ]
    );
    assert_eq!(shell.diagnostics[0].message, "stopped 2 repeated causal shell effect cycle(s)");
    assert_eq!(
        shell.diagnostics[2].message,
        "quarantined effect producer '@test/panel' (@test/panel) after repeated scheduler budget violations"
    );
    assert!(shell.components[0].quarantined);
}

#[test]
fn contracts_decide_supported_and_coalescable_commands() {
    let mut shell = Shell::new();
    shell.interface_contracts.push(InterfaceContract {
        interface: "mesh.audio".to_string(),
        methods: vec![
            MethodContract { name: "set_volume".to_string(), coalesce: true },
            MethodContract { name: "set_muted".to_string(), coalesce: false },
        ],
        state_fields: vec!["source_module".to_string(), "percent".to_string()],
    });
    assert!(shell.service_command_is_supported("mesh.audio", "set_volume"));
    assert!(!shell.service_command_is_supported("mesh.audio", "explode"));
    assert!(shell.service_command_is_supported("mesh.unknown", "anything"));
    assert!(shell.service_command_is_coalescable("mesh.audio", "set_volume"));
    assert!(!shell.service_command_is_coalescable("mesh.audio", "set_muted"));
    assert!(!shell.service_command_is_coalescable("mesh.unknown", "set_volume"));
    assert!(shell.service_requires_initial_state("mesh.audio"));
    assert!(!shell.service_requires_initial_state("mesh.unknown"));
    assert_eq!(shell.active_service_provider_or("mesh.audio", "@mesh/shell"), "@mesh/shell");
    assert!(Shell::is_failed_bound_service_status("queue_full"));
    assert!(!Shell::is_failed_bound_service_status("completed"));
    shell.record_service_contract_warning("mesh.audio", "@mesh/pipewire-audio", "bad field");
    assert_eq!(shell.diagnostics[0].module_id, "@mesh/pipewire-audio");
    assert_eq!(shell.diagnostics[0].message, "service_contract_warning: mesh.audio: bad field");
}
