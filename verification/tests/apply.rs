use mesh_shell::apply::ApplyOutcome;
use mesh_shell::keyed::keyed_get;
use mesh_shell::requests::BenchmarkScenarioId;
use mesh_shell::shell::{ComponentRuntime, Shell, ShellAction, SurfaceTarget};
use mesh_shell::types::{CoreRequest, KeyboardMode, SurfaceRole, TabFocusTarget};

fn component(id: &str) -> ComponentRuntime {
    ComponentRuntime {
        component_id: id.to_string(),
        surface_id: id.to_string(),
        quarantined: false,
        failure_count: 0,
        popup_parent_surface: None,
        popup_promoted: false,
        hide_transition_ms: 0,
        surface_exiting: false,
        keyboard_mode_override: None,
        paint_requested: false,
        force_full_present: false,
        theme_changed: false,
        locale_changed: false,
        children: Vec::new(),
    }
}

fn target(shell: &mut Shell, id: &str, visible: bool, mode: KeyboardMode) {
    shell.surfaces.push((id.to_string(), SurfaceTarget { visible, keyboard_mode: mode, role: SurfaceRole::Layer }));
}

fn applied(outcome: ApplyOutcome) -> (Vec<CoreRequest>, Vec<ShellAction>) {
    match outcome {
        ApplyOutcome::Applied { requests, actions } => (requests, actions),
        other => panic!("expected the request to be applied here, got {other:?}"),
    }
}

#[test]
fn debug_profiling_request_toggles_independent_session_state() {
    let mut shell = Shell::new();

    assert!(!shell.debug.profiling_enabled);
    assert_eq!(shell.debug.profiling_session_id, 0);
    assert!(!shell.debug.show_layout_bounds);

    applied(shell.apply_request(CoreRequest::ToggleDebugProfiling, 0));
    assert!(shell.debug.profiling_enabled);
    assert_eq!(shell.debug.profiling_session_id, 1);

    applied(shell.apply_request(CoreRequest::ToggleDebugProfiling, 0));
    assert!(!shell.debug.profiling_enabled);
    assert_eq!(
        shell.debug.profiling_session_id, 1,
        "disabling profiling should not fabricate a new session"
    );

    applied(shell.apply_request(CoreRequest::ToggleDebugOverlay, 0));
    assert!(
        !shell.debug.profiling_enabled,
        "debug overlay visibility must remain independent from profiling state"
    );
    assert!(
        !shell.debug.show_layout_bounds,
        "profiling changes must remain independent from layout-bounds debugging"
    );
}

#[test]
fn debug_layout_bounds_toggle_remains_independent_from_overlay_visibility() {
    let mut shell = Shell::new();

    applied(shell.apply_request(CoreRequest::ToggleDebugLayoutBounds, 0));
    assert!(shell.debug.show_layout_bounds);
    assert!(!shell.debug.enabled);
    assert!(!shell.debug.profiling_enabled);

    applied(shell.apply_request(CoreRequest::ToggleDebugOverlay, 0));
    assert!(shell.debug.show_layout_bounds);

    applied(shell.apply_request(CoreRequest::ToggleDebugLayoutBounds, 0));
    assert!(!shell.debug.show_layout_bounds);
}

#[test]
fn benchmark_run_request_does_not_enable_profiling() {
    let mut shell = Shell::new();

    let (emitted, _) = applied(shell.apply_request(
        CoreRequest::RunDebugBenchmark { scenario_id: "surface_open_close".into() },
        0,
    ));

    assert!(!shell.debug.profiling_enabled, "benchmark requests must not enable profiling");
    assert_eq!(shell.debug.latest_benchmark_run.map(|run| run.id()), Some("surface_open_close"));
    assert_eq!(emitted.len(), 1);
    assert!(matches!(
        &emitted[0],
        CoreRequest::ToggleSurface { surface_id } if surface_id == "@mesh/audio-popover"
    ));

    applied(shell.apply_request(CoreRequest::ToggleDebugProfiling, 0));
    assert!(shell.debug.profiling_enabled);
    applied(shell.apply_request(
        CoreRequest::RunDebugBenchmark { scenario_id: "keyboard_traversal".into() },
        0,
    ));
    assert!(shell.debug.profiling_enabled, "benchmark requests must preserve existing profiling state");
    assert_eq!(shell.debug.latest_benchmark_run, Some(BenchmarkScenarioId::KeyboardTraversal));
}

#[test]
fn unknown_benchmark_scenario_is_answered_with_a_diagnostic() {
    let mut shell = Shell::new();
    let (emitted, actions) = applied(shell.apply_request(
        CoreRequest::RunDebugBenchmark { scenario_id: "warp_drive".into() },
        0,
    ));
    assert!(actions.is_empty());
    assert!(shell.debug.latest_benchmark_run.is_none());
    assert!(matches!(
        emitted.as_slice(),
        [CoreRequest::PublishDiagnostics { message }] if message == "unknown debug benchmark scenario: warp_drive"
    ));
}

#[test]
fn element_picker_opens_the_inspector_and_invalidates_every_target() {
    let mut shell = Shell::new();
    shell.components.push(component("@test/panel"));

    let (_, actions) = applied(shell.apply_request(CoreRequest::ToggleDebugElementPicker, 5));
    assert!(shell.debug.element_picker_enabled);
    assert!(shell.debug.enabled, "enabling the picker shows the debug overlay");
    assert!(shell.components[0].paint_requested);
    assert!(shell.components[0].force_full_present);
    assert!(matches!(
        actions.as_slice(),
        [ShellAction::BroadcastVisibility { surface_id, visible: true }] if surface_id == "@mesh/debug-inspector"
    ));

    let (_, actions) = applied(shell.apply_request(CoreRequest::ToggleDebugElementPicker, 6));
    assert!(!shell.debug.element_picker_enabled);
    assert!(shell.debug.enabled, "disabling the picker leaves the overlay as it is");
    assert!(actions.is_empty());
}

#[test]
fn a_shutting_down_shell_refuses_all_but_shutdown() {
    let mut shell = Shell::new();
    shell.accepting_work = false;
    assert!(matches!(shell.apply_request(CoreRequest::ToggleDebugOverlay, 0), ApplyOutcome::Refused));
    assert!(!shell.debug.enabled);
    assert!(matches!(shell.apply_request(CoreRequest::Shutdown, 0), ApplyOutcome::Delegated(CoreRequest::Shutdown)));
}

#[test]
fn work_outside_the_shell_bookkeeping_is_handed_back() {
    let mut shell = Shell::new();
    let outcome = shell.apply_request(CoreRequest::SetTheme { theme_id: "dark".into() }, 0);
    assert!(matches!(outcome, ApplyOutcome::Delegated(CoreRequest::SetTheme { theme_id }) if theme_id == "dark"));
}

#[test]
fn toggle_surface_shows_an_unknown_surface_and_hides_a_shown_one() {
    let mut shell = Shell::new();
    shell.components.push(component("@test/panel"));
    applied(shell.apply_request(CoreRequest::ToggleSurface { surface_id: "@test/panel".into() }, 0));
    assert!(keyed_get(&shell.core_surfaces, "@test/panel").unwrap().visible);
    applied(shell.apply_request(CoreRequest::ToggleSurface { surface_id: "@test/panel".into() }, 1));
    assert!(!keyed_get(&shell.core_surfaces, "@test/panel").unwrap().visible);
}

#[test]
fn activate_popover_registers_its_trigger_shows_it_and_enters_the_focus_chain() {
    let mut shell = Shell::new();
    shell.components.push(component("@mesh/navigation-bar"));
    shell.components.push(component("@mesh/audio-popover"));

    let (requests, actions) = applied(shell.apply_request(
        CoreRequest::ActivatePopover {
            surface_id: "@mesh/audio-popover".into(),
            trigger_surface: "@mesh/navigation-bar".into(),
            trigger_key: "volume-button".into(),
            focus: true,
        },
        0,
    ));

    assert!(matches!(
        actions.as_slice(),
        [ShellAction::RegisterPopoverTrigger { component: 0, trigger_key, surface_id }]
            if trigger_key == "volume-button" && surface_id == "@mesh/audio-popover"
    ));
    assert_eq!(requests.len(), 2);
    assert!(matches!(&requests[0], CoreRequest::ShowSurface { surface_id } if surface_id == "@mesh/audio-popover"));
    assert!(matches!(
        &requests[1],
        CoreRequest::TransferTabFocus {
            from_surface,
            to_surface,
            target: TabFocusTarget::First,
            return_target: Some((back_surface, back_key)),
            target_closes_on_leave: true,
            close_source: None,
        } if from_surface == "@mesh/navigation-bar"
            && to_surface == "@mesh/audio-popover"
            && back_surface == "@mesh/navigation-bar"
            && back_key == "volume-button"
    ));
}

#[test]
fn activate_popover_promotes_to_a_popup_where_supported() {
    let mut shell = Shell::new();
    shell.popup_supported = true;
    shell.components.push(component("@mesh/navigation-bar"));
    shell.components.push(component("@mesh/language-popover"));

    let (_, actions) = applied(shell.apply_request(
        CoreRequest::ActivatePopover {
            surface_id: "@mesh/language-popover".into(),
            trigger_surface: "@mesh/navigation-bar".into(),
            trigger_key: "language-button".into(),
            focus: false,
        },
        0,
    ));
    assert!(shell.components[1].popup_promoted);
    assert_eq!(shell.components[1].popup_parent_surface.as_deref(), Some("@mesh/navigation-bar"));
    assert!(matches!(
        actions.last(),
        Some(ShellAction::PromotePopup { surface_id, .. }) if surface_id == "@mesh/language-popover"
    ));
}

#[test]
fn tab_focus_transfer_hands_the_keyboard_to_the_target() {
    let mut shell = Shell::new();
    shell.components.push(component("@mesh/navigation-bar"));
    shell.components.push(component("@mesh/audio-popover"));
    target(&mut shell, "@mesh/navigation-bar", true, KeyboardMode::OnDemand);
    target(&mut shell, "@mesh/audio-popover", true, KeyboardMode::OnDemand);

    let (requests, actions) = applied(shell.apply_request(
        CoreRequest::TransferTabFocus {
            from_surface: "@mesh/navigation-bar".into(),
            to_surface: "@mesh/audio-popover".into(),
            target: TabFocusTarget::First,
            return_target: Some(("@mesh/navigation-bar".into(), "volume-button".into())),
            target_closes_on_leave: true,
            close_source: None,
        },
        0,
    ));

    assert!(requests.is_empty());
    assert!(matches!(
        actions.as_slice(),
        [
            ShellAction::ReleaseFocusForTransfer { component: 0 },
            ShellAction::ConfigureKeyboardMode { surface_id, mode: KeyboardMode::NoInteractivity },
            ShellAction::ReceiveFocusTransfer { component: 1, closes_on_leave: true, .. },
        ] if surface_id == "@mesh/navigation-bar"
    ));
    assert_eq!(shell.keyboard_focus_surface.as_deref(), Some("@mesh/audio-popover"));
    assert_eq!(
        keyed_get(&shell.surfaces, "@mesh/navigation-bar").unwrap().keyboard_mode,
        KeyboardMode::NoInteractivity
    );
    assert_eq!(keyed_get(&shell.surfaces, "@mesh/audio-popover").unwrap().keyboard_mode, KeyboardMode::Exclusive);
    assert_eq!(
        keyed_get(&shell.transfer_owned_keyboard_modes, "@mesh/audio-popover"),
        Some(KeyboardMode::OnDemand),
        "the target's previous mode is kept to be handed back"
    );
    assert_eq!(shell.components[1].keyboard_mode_override, Some(KeyboardMode::Exclusive));
    assert_eq!(shell.components[0].keyboard_mode_override, None);
}

#[test]
fn tab_focus_transfer_closing_the_source_asks_to_hide_it() {
    let mut shell = Shell::new();
    shell.components.push(component("@mesh/audio-popover"));
    shell.components.push(component("@mesh/navigation-bar"));

    let (requests, _) = applied(shell.apply_request(
        CoreRequest::TransferTabFocus {
            from_surface: "@mesh/audio-popover".into(),
            to_surface: "@mesh/navigation-bar".into(),
            target: TabFocusTarget::First,
            return_target: None,
            target_closes_on_leave: false,
            close_source: Some("@mesh/audio-popover".into()),
        },
        0,
    ));
    assert!(matches!(
        requests.as_slice(),
        [CoreRequest::HideSurface { surface_id }] if surface_id == "@mesh/audio-popover"
    ));
    assert_eq!(
        keyed_get(&shell.transfer_owned_keyboard_modes, "@mesh/navigation-bar"),
        Some(KeyboardMode::NoInteractivity)
    );
}

#[test]
fn tab_focus_transfer_to_an_unknown_surface_keeps_focus_where_it_was() {
    let mut shell = Shell::new();
    shell.components.push(component("@mesh/navigation-bar"));
    shell.keyboard_focus_surface = Some("@mesh/navigation-bar".into());

    let (requests, actions) = applied(shell.apply_request(
        CoreRequest::TransferTabFocus {
            from_surface: "@mesh/navigation-bar".into(),
            to_surface: "@mesh/missing".into(),
            target: TabFocusTarget::First,
            return_target: None,
            target_closes_on_leave: true,
            close_source: None,
        },
        0,
    ));
    assert!(requests.is_empty());
    assert!(matches!(actions.as_slice(), [ShellAction::ReleaseFocusForTransfer { component: 0 }]));
    assert_eq!(shell.keyboard_focus_surface.as_deref(), Some("@mesh/navigation-bar"));
}
