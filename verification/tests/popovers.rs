use mesh_shell::apply::ApplyOutcome;
use mesh_shell::events::RoutedEvent;
use mesh_shell::keyed::{keyed_find, keyed_get};
use mesh_shell::shell::{
    ChildSurface, ChildSurfaceKind, ComponentRuntime, Shell, ShellAction, SurfaceTarget, TargetRef,
};
use mesh_shell::types::{CoreRequest, KeyboardMode, SurfaceRole, TabFocusTarget};

fn component(id: &str) -> ComponentRuntime {
    ComponentRuntime {
        component_id: id.to_string(),
        surface_id: id.to_string(),
        quarantined: false,
        failure_count: 0,
        popup_parent_surface: None,
        popup_promoted: false,
        hide_transition_ms: 0,
        surface_exiting: false,
        keyboard_mode_override: None,
        paint_requested: false,
        force_full_present: false,
        theme_changed: false,
        locale_changed: false,
        children: Vec::new(),
    }
}

/// A shell with a registered component, and its layer surface, per id.
fn shell_with(ids: &[&str]) -> Shell {
    let mut shell = Shell::new();
    for id in ids {
        shell.components.push(component(id));
        shell.surfaces.push((
            id.to_string(),
            SurfaceTarget { visible: false, keyboard_mode: KeyboardMode::OnDemand, role: SurfaceRole::Layer },
        ));
    }
    shell
}

fn set_mode(shell: &mut Shell, id: &str, mode: KeyboardMode) {
    let i = shell.surfaces.iter().position(|(s, _)| s == id).expect("surface");
    shell.surfaces[i].1.keyboard_mode = mode;
}

fn mode_of(shell: &Shell, id: &str) -> Option<KeyboardMode> {
    keyed_get(&shell.surfaces, id).map(|t| t.keyboard_mode)
}

fn visible(shell: &Shell, id: &str) -> bool {
    keyed_get(&shell.core_surfaces, id).is_some_and(|s| s.visible)
}

/// Applies a request and, as the runtime does, every request that follows
/// from it; returns every action.
fn apply_and_drain(shell: &mut Shell, request: CoreRequest) -> Vec<ShellAction> {
    let mut actions = Vec::new();
    let mut queue = vec![request];
    let mut first = true;
    while !queue.is_empty() {
        let next = queue.remove(0);
        match shell.apply_request(next, 0) {
            ApplyOutcome::Applied { requests, actions: a } => {
                actions.extend(a);
                queue.extend(requests);
            }
            other if first => panic!("expected the request to be applied, got {other:?}"),
            _ => {}
        }
        first = false;
    }
    actions
}

fn activate(shell: &mut Shell, surface_id: &str, trigger_key: &str) {
    apply_and_drain(
        shell,
        CoreRequest::ActivatePopover {
            surface_id: surface_id.into(),
            trigger_surface: "@mesh/navigation-bar".into(),
            trigger_key: trigger_key.into(),
            focus: false,
        },
    );
}

#[test]
fn pointer_enter_cancels_hover_bridge_popover_hide() {
    let mut shell = shell_with(&["@mesh/navigation-bar", "@mesh/quick-settings"]);
    shell.popup_supported = true;
    activate(&mut shell, "@mesh/quick-settings", "settings-button");
    apply_and_drain(
        &mut shell,
        CoreRequest::HidePopover { surface_id: "@mesh/quick-settings".into(), defer_for_hover_bridge: true },
    );
    assert!(keyed_find(&shell.pending_popover_hides, "@mesh/quick-settings").is_some());

    shell.route_window_event("@mesh/quick-settings", RoutedEvent::PointerMove, 0);

    assert!(keyed_find(&shell.pending_popover_hides, "@mesh/quick-settings").is_none());
    assert!(visible(&shell, "@mesh/quick-settings"));
}

#[test]
fn pointer_leave_from_promoted_popover_schedules_hover_bridge_hide() {
    let mut shell = shell_with(&["@mesh/navigation-bar", "@mesh/quick-settings"]);
    shell.popup_supported = true;
    activate(&mut shell, "@mesh/quick-settings", "settings-button");

    shell.route_window_event("@mesh/quick-settings", RoutedEvent::PointerLeave, 0);

    assert!(keyed_find(&shell.pending_popover_hides, "@mesh/quick-settings").is_some());
    assert!(visible(&shell, "@mesh/quick-settings"));
}

#[test]
fn activating_popover_closes_promoted_sibling_from_same_trigger_surface() {
    let mut shell = shell_with(&["@mesh/navigation-bar", "@mesh/quick-settings", "@mesh/language-popover"]);
    shell.popup_supported = true;
    activate(&mut shell, "@mesh/quick-settings", "settings-button");

    let emitted = match shell.apply_request(
        CoreRequest::ActivatePopover {
            surface_id: "@mesh/language-popover".into(),
            trigger_surface: "@mesh/navigation-bar".into(),
            trigger_key: "language-button".into(),
            focus: false,
        },
        0,
    ) {
        ApplyOutcome::Applied { requests, .. } => requests,
        other => panic!("expected the activation to be applied, got {other:?}"),
    };

    assert!(emitted.iter().any(|request| matches!(
        request,
        CoreRequest::HidePopover { surface_id, defer_for_hover_bridge: false }
            if surface_id == "@mesh/quick-settings"
    )));
    assert!(emitted.iter().any(|request| matches!(
        request,
        CoreRequest::ShowSurface { surface_id } if surface_id == "@mesh/language-popover"
    )));
}

#[test]
fn leaving_popover_keeps_return_surface_as_keyboard_owner() {
    let mut shell = shell_with(&["@mesh/navigation-bar", "@mesh/audio-popover"]);

    let actions = apply_and_drain(
        &mut shell,
        CoreRequest::TransferTabFocus {
            from_surface: "@mesh/audio-popover".into(),
            to_surface: "@mesh/navigation-bar".into(),
            target: TabFocusTarget::AtKey("volume-button".into()),
            return_target: None,
            target_closes_on_leave: false,
            close_source: Some("@mesh/audio-popover".into()),
        },
    );

    assert_eq!(shell.keyboard_focus_surface.as_deref(), Some("@mesh/navigation-bar"));
    assert_eq!(mode_of(&shell, "@mesh/navigation-bar"), Some(KeyboardMode::Exclusive));
    let received: Vec<_> = actions
        .iter()
        .filter_map(|action| match action {
            ShellAction::ReceiveFocusTransfer { component, target, return_target, closes_on_leave } => {
                Some((*component, target.clone(), return_target.clone(), *closes_on_leave))
            }
            _ => None,
        })
        .collect();
    assert_eq!(received.len(), 1);
    assert_eq!(received[0].0, 0);
    assert!(matches!(&received[0].1, TabFocusTarget::AtKey(key) if key == "volume-button"));
    assert_eq!(received[0].2, None);
    assert!(!received[0].3);
}

#[test]
fn pointer_click_claims_keyboard_owner_without_forcing_exclusive_mode() {
    let mut shell = shell_with(&["@mesh/navigation-bar", "@mesh/audio-popover"]);
    shell.keyboard_focus_surface = Some("@mesh/audio-popover".into());
    set_mode(&mut shell, "@mesh/navigation-bar", KeyboardMode::OnDemand);
    set_mode(&mut shell, "@mesh/audio-popover", KeyboardMode::Exclusive);

    shell.claim_keyboard_focus_for_surface("@mesh/navigation-bar");

    assert_eq!(shell.keyboard_focus_surface.as_deref(), Some("@mesh/navigation-bar"));
    assert_eq!(mode_of(&shell, "@mesh/navigation-bar"), Some(KeyboardMode::OnDemand));
    assert_eq!(mode_of(&shell, "@mesh/audio-popover"), Some(KeyboardMode::Exclusive));
    assert_eq!(shell.components[1].keyboard_mode_override, None);
    assert_eq!(shell.components[0].keyboard_mode_override, None);
}

#[test]
fn pointer_click_after_transfer_clears_transfer_forced_exclusive_override() {
    let mut shell = shell_with(&["@mesh/navigation-bar", "@mesh/audio-popover"]);
    shell.keyboard_focus_surface = Some("@mesh/navigation-bar".into());
    set_mode(&mut shell, "@mesh/audio-popover", KeyboardMode::OnDemand);
    apply_and_drain(
        &mut shell,
        CoreRequest::TransferTabFocus {
            from_surface: "@mesh/navigation-bar".into(),
            to_surface: "@mesh/audio-popover".into(),
            target: TabFocusTarget::First,
            return_target: Some(("@mesh/navigation-bar".into(), "volume-button".into())),
            target_closes_on_leave: true,
            close_source: None,
        },
    );

    assert_eq!(mode_of(&shell, "@mesh/audio-popover"), Some(KeyboardMode::Exclusive));
    assert_eq!(shell.components[1].keyboard_mode_override, Some(KeyboardMode::Exclusive));

    shell.claim_keyboard_focus_for_surface("@mesh/audio-popover");

    assert_eq!(shell.components[1].keyboard_mode_override, None);
    assert_eq!(mode_of(&shell, "@mesh/audio-popover"), Some(KeyboardMode::OnDemand));
}

fn popover_child(parent: &str, child: &str, node_key: &str) -> ChildSurface {
    ChildSurface {
        surface_id: child.to_string(),
        node_key: node_key.to_string(),
        kind: ChildSurfaceKind::Popover,
        popup_parent_surface: Some(parent.to_string()),
        force_full_present: false,
    }
}

#[test]
fn component_runtime_resolves_parent_and_child_surface_targets() {
    let mut shell = Shell::new();
    shell.components.push(component("@test/recording"));
    let parent_id = "@test/recording";
    let child_id = "@test/recording#popover:0";

    assert_eq!(shell.component_target_for_surface(parent_id), Some((0, TargetRef::Parent)));
    assert_eq!(shell.component_target_for_surface(child_id), None);

    shell.components[0].children.push(popover_child(parent_id, child_id, "root/0/popover"));

    assert_eq!(shell.component_target_for_surface(parent_id), Some((0, TargetRef::Parent)));
    assert_eq!(shell.component_target_for_surface(child_id), Some((0, TargetRef::Child(0))));
    assert_eq!(shell.components[0].children[0].node_key, "root/0/popover");

    shell.components[0].children[0].force_full_present = true;
    assert!(shell.components[0].children[0].force_full_present);
    assert!(!shell.components[0].force_full_present);
}

#[test]
fn hiding_parent_surface_destroys_child_popups_and_clears_child_keyboard_focus() {
    let mut shell = Shell::new();
    shell.popup_supported = true;
    shell.components.push(component("@test/popover-host"));
    let child_id = "@test/popover-host#popover:0";
    shell.components[0].children.push(popover_child("@test/popover-host", child_id, "root/popover"));
    shell.keyboard_focus_surface = Some(child_id.to_string());

    let actions = shell.set_surface_visibility_now("@test/popover-host", false);

    assert!(shell.components[0].children.is_empty());
    assert!(actions.iter().any(|action| matches!(
        action,
        ShellAction::DestroyPopup { surface_id } if surface_id == child_id
    )));
    assert!(keyed_get(&shell.core_surfaces, child_id).is_none());
    assert!(keyed_get(&shell.surfaces, child_id).is_none());
    assert!(shell.component_target_for_surface(child_id).is_none());
    assert_eq!(shell.keyboard_focus_surface, None);
}

fn host_with_child() -> (Shell, String) {
    let mut shell = Shell::new();
    shell.popup_supported = true;
    shell.components.push(component("@test/popover-host"));
    shell.surfaces.push((
        "@test/popover-host".to_string(),
        SurfaceTarget { visible: true, keyboard_mode: KeyboardMode::OnDemand, role: SurfaceRole::Layer },
    ));
    let child_id = "@test/popover-host#popover:0".to_string();
    shell.components[0].children.push(popover_child("@test/popover-host", &child_id, "root/popover"));
    (shell, child_id)
}

#[test]
fn parent_pointer_leave_defers_child_popover_close() {
    let (mut shell, child_id) = host_with_child();

    shell.route_window_event("@test/popover-host", RoutedEvent::PointerLeave, 0);
    assert!(
        keyed_find(&shell.pending_popover_hides, &child_id).is_some(),
        "leaving the parent trigger surface should arm a bridge hide for its child popup"
    );

    shell.route_window_event(&child_id, RoutedEvent::PointerMove, 10);
    assert!(
        keyed_find(&shell.pending_popover_hides, &child_id).is_none(),
        "entering the promoted child popup should cancel the bridge hide"
    );
}

#[test]
fn child_popover_hover_bridge_deadline_synthesizes_pointer_leave() {
    let (mut shell, child_id) = host_with_child();

    shell.route_window_event("@test/popover-host", RoutedEvent::PointerLeave, 0);
    let deadline = keyed_get(&shell.pending_popover_hides, &child_id).expect("a bridge hide is armed");

    let actions = shell.complete_due_surface_transitions(deadline);

    assert!(
        actions.iter().any(|action| matches!(
            action,
            ShellAction::ChildPointerLeave { component: 0, node_key } if node_key == "root/popover"
        )),
        "bridge deadline should route PointerLeave into the child popup component"
    );
    assert!(
        keyed_find(&shell.pending_popover_hides, &child_id).is_none(),
        "bridge deadline should drain the pending hide"
    );
}

#[test]
fn moving_focus_drops_both_owners_overrides_and_leaves_the_rest() {
    let mut shell = shell_with(&["@mesh/navigation-bar", "@mesh/audio-popover", "@mesh/clock"]);
    shell.keyboard_focus_surface = Some("@mesh/audio-popover".into());
    for component in shell.components.iter_mut() {
        component.keyboard_mode_override = Some(KeyboardMode::Exclusive);
    }

    shell.claim_keyboard_focus_for_surface("@mesh/navigation-bar");

    assert_eq!(shell.components[0].keyboard_mode_override, None);
    assert_eq!(shell.components[1].keyboard_mode_override, None);
    assert_eq!(shell.components[2].keyboard_mode_override, Some(KeyboardMode::Exclusive));
}
