use mesh_shell::input::{
    component_key_pressed_input, component_key_released_input, parse_ipc_command,
    profiling_trigger_for_event, shell_global_shortcut_request, ComponentInput, KeyModifiers,
    WindowEventKind,
};
use mesh_shell::types::CoreRequest;

#[test]
fn selection_input_contract_key_pressed_preserves_modifiers() {
    let input = component_key_pressed_input("C".into(), true, false, true);
    match input {
        ComponentInput::KeyPressed { key, modifiers } => {
            assert_eq!(key, "C");
            assert!(modifiers.ctrl);
            assert!(!modifiers.shift);
            assert!(modifiers.alt);
        }
        other => panic!("expected key press input, got {other:?}"),
    }
}

#[test]
fn selection_input_contract_key_released_preserves_modifiers() {
    let input = component_key_released_input(
        "Enter".into(),
        KeyModifiers {
            ctrl: true,
            shift: true,
            alt: false,
        },
    );
    match input {
        ComponentInput::KeyReleased { key, modifiers } => {
            assert_eq!(key, "Enter");
            assert!(modifiers.ctrl);
            assert!(modifiers.shift);
            assert!(!modifiers.alt);
        }
        other => panic!("expected key release input, got {other:?}"),
    }
}

#[test]
fn selection_input_contract_debug_shortcuts_remain_global() {
    assert!(matches!(
        shell_global_shortcut_request("d", true, true, false),
        Some(CoreRequest::ToggleDebugOverlay)
    ));
    assert!(matches!(
        shell_global_shortcut_request("Tab", true, false, true),
        Some(CoreRequest::CycleDebugTab)
    ));
    assert!(shell_global_shortcut_request("c", true, false, false).is_none());
}

#[test]
fn keyboard_shortcuts_shell_global_shortcuts_still_win() {
    assert!(matches!(
        shell_global_shortcut_request("d", true, true, false),
        Some(CoreRequest::ToggleDebugOverlay)
    ));
    assert!(matches!(
        shell_global_shortcut_request("Tab", true, false, true),
        Some(CoreRequest::CycleDebugTab)
    ));
}

#[test]
fn keyboard_regression_shell_global_shortcut_precedence_stays_global() {
    assert!(matches!(
        shell_global_shortcut_request("d", true, true, false),
        Some(CoreRequest::ToggleDebugOverlay)
    ));
    assert!(matches!(
        shell_global_shortcut_request("Tab", true, false, true),
        Some(CoreRequest::CycleDebugTab)
    ));
    assert!(shell_global_shortcut_request("m", false, false, false).is_none());
}

#[test]
fn debug_tab_cycling_needs_the_overlay_shown() {
    assert!(shell_global_shortcut_request("Tab", true, false, false).is_none());
    assert!(shell_global_shortcut_request("d", true, false, true).is_none());
}

#[test]
fn benchmark_ipc_command_maps_to_run_request() {
    match parse_ipc_command("shell:debug_benchmark:pointer_update") {
        Some(CoreRequest::RunDebugBenchmark { scenario_id }) => {
            assert_eq!(scenario_id, "pointer_update");
        }
        other => panic!("expected RunDebugBenchmark request, got {other:?}"),
    }
}

#[test]
fn ipc_commands_without_a_scenario_or_known_prefix_map_to_nothing() {
    assert!(parse_ipc_command("shell:debug_benchmark:").is_none());
    assert!(parse_ipc_command("shell:reload").is_none());
}

#[test]
fn window_event_profiling_triggers() {
    assert_eq!(profiling_trigger_for_event(WindowEventKind::PointerMove), "pointer_move");
    assert_eq!(profiling_trigger_for_event(WindowEventKind::Key), "key");
    assert_eq!(profiling_trigger_for_event(WindowEventKind::Char), "char");
}
