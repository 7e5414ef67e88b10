use mesh_shell::events::{EventDelivery, RoutedEvent};
use mesh_shell::input::KeyModifiers;
use mesh_shell::keyed::keyed_get;
use mesh_shell::shell::{ComponentRuntime, Shell, SurfaceState, SurfaceTarget, TargetRef};
use mesh_shell::types::{CoreRequest, KeyboardMode, SurfaceRole};

fn component(id: &str) -> ComponentRuntime {
    ComponentRuntime {
        component_id: id.to_string(),
        surface_id: id.to_string(),
        quarantined: false,
        failure_count: 0,
        popup_parent_surface: None,
        popup_promoted: false,
        hide_transition_ms: 0,
        surface_exiting: false,
        keyboard_mode_override: None,
        paint_requested: false,
        force_full_present: false,
        theme_changed: false,
        locale_changed: false,
        children: Vec::new(),
    }
}

fn presented(shell: &mut Shell, id: &str) {
    shell.surfaces.push((
        id.to_string(),
        SurfaceTarget { visible: true, keyboard_mode: KeyboardMode::OnDemand, role: SurfaceRole::Layer },
    ));
}

fn two_panels() -> Shell {
    let mut shell = Shell::new();
    shell.components.push(component("@test/panel"));
    shell.components.push(component("@test/launcher"));
    presented(&mut shell, "@test/panel");
    presented(&mut shell, "@test/launcher");
    shell
}

fn key(k: &str, ctrl: bool, shift: bool) -> RoutedEvent {
    RoutedEvent::KeyPressed { key: k.to_string(), mods: KeyModifiers { ctrl, shift, alt: false } }
}

#[test]
fn keyboard_events_follow_keyboard_focus() {
    let mut shell = two_panels();
    shell.keyboard_focus_surface = Some("@test/launcher".into());

    let routed = shell.route_window_event("@test/panel", key("a", false, false), 0);
    assert!(matches!(
        routed.delivery,
        EventDelivery::Deliver { component: 1, target: TargetRef::Parent, ref surface_id } if surface_id == "@test/launcher"
    ));

    let pointer = shell.route_window_event("@test/panel", RoutedEvent::PointerMove, 0);
    assert!(matches!(
        pointer.delivery,
        EventDelivery::Deliver { component: 0, ref surface_id, .. } if surface_id == "@test/panel"
    ));
}

#[test]
fn keyboard_events_skip_a_hidden_focus_surface() {
    let mut shell = two_panels();
    shell.keyboard_focus_surface = Some("@test/launcher".into());
    shell.core_surfaces.push(("@test/launcher".into(), SurfaceState { visible: false, closing_until: None }));

    let routed = shell.route_window_event("@test/panel", RoutedEvent::Char { ch: 'x' }, 0);
    assert!(matches!(
        routed.delivery,
        EventDelivery::Deliver { component: 0, ref surface_id, .. } if surface_id == "@test/panel"
    ));
}

#[test]
fn shell_shortcuts_win_over_component_keys() {
    let mut shell = two_panels();
    let routed = shell.route_window_event("@test/panel", key("D", true, true), 0);
    assert!(matches!(routed.delivery, EventDelivery::Shortcut(CoreRequest::ToggleDebugOverlay)));

    let tab = shell.route_window_event("@test/panel", key("Tab", true, false), 0);
    assert!(
        matches!(tab.delivery, EventDelivery::Deliver { .. }),
        "ctrl+tab belongs to components while the debug overlay is hidden"
    );
    shell.debug.enabled = true;
    let tab = shell.route_window_event("@test/panel", key("Tab", true, false), 0);
    assert!(matches!(tab.delivery, EventDelivery::Shortcut(CoreRequest::CycleDebugTab)));
}

#[test]
fn events_without_a_component_or_target_are_dropped() {
    let mut shell = two_panels();
    let routed = shell.route_window_event("@test/unknown", RoutedEvent::PointerMove, 0);
    assert!(matches!(routed.delivery, EventDelivery::Dropped));

    shell.components.push(component("@test/unpresented"));
    let routed = shell.route_window_event("@test/unpresented", key("D", true, true), 0);
    assert!(matches!(routed.delivery, EventDelivery::Dropped));
}

#[test]
fn pressing_claims_keyboard_focus() {
    let mut shell = two_panels();
    shell.keyboard_focus_surface = Some("@test/panel".into());
    let routed = shell.route_window_event("@test/launcher", RoutedEvent::PointerButton { pressed: true }, 0);
    assert!(matches!(routed.delivery, EventDelivery::Deliver { component: 1, .. }));
    assert_eq!(shell.keyboard_focus_surface.as_deref(), Some("@test/launcher"));

    shell.route_window_event("@test/panel", RoutedEvent::PointerButton { pressed: false }, 0);
    assert_eq!(
        shell.keyboard_focus_surface.as_deref(),
        Some("@test/launcher"),
        "a release does not move focus"
    );
}

#[test]
fn leaving_a_popup_defers_its_hide_for_the_hover_bridge() {
    let mut shell = two_panels();
    shell.components[1].popup_parent_surface = Some("@test/panel".into());
    shell.core_surfaces.push(("@test/launcher".into(), SurfaceState { visible: true, closing_until: None }));

    let routed = shell.route_window_event("@test/launcher", RoutedEvent::PointerLeave, 1_000);
    assert!(matches!(routed.delivery, EventDelivery::Deliver { component: 1, .. }));
    assert_eq!(keyed_get(&shell.pending_popover_hides, "@test/launcher"), Some(1_180));
    assert!(keyed_get(&shell.core_surfaces, "@test/launcher").unwrap().visible);

    shell.route_window_event("@test/launcher", RoutedEvent::PointerMove, 1_050);
    assert_eq!(
        keyed_get(&shell.pending_popover_hides, "@test/launcher"),
        None,
        "the pointer coming back cancels the pending hide"
    );
}
