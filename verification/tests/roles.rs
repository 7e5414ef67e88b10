use mesh_shell::keyed::keyed_get;
use mesh_shell::roles::toggled_surface_role;
use mesh_shell::shell::{ChildSurface, ChildSurfaceKind, ComponentRuntime, Shell, ShellAction, SurfaceState};
use mesh_shell::types::{KeyboardMode, SurfaceRole};

fn component(id: &str) -> ComponentRuntime {
    ComponentRuntime {
        component_id: id.to_string(),
        surface_id: id.to_string(),
        quarantined: false,
        failure_count: 0,
        popup_parent_surface: None,
        popup_promoted: false,
        hide_transition_ms: 0,
        surface_exiting: false,
        keyboard_mode_override: Some(KeyboardMode::Exclusive),
        paint_requested: false,
        force_full_present: false,
        theme_changed: false,
        locale_changed: false,
        children: Vec::new(),
    }
}

fn panel_with_menu() -> Shell {
    let mut shell = Shell::new();
    let mut panel = component("@test/panel");
    panel.children.push(ChildSurface {
        surface_id: "@test/panel#popover:0".to_string(),
        node_key: "root/menu".to_string(),
        kind: ChildSurfaceKind::Popover,
        popup_parent_surface: Some("@test/panel".to_string()),
        force_full_present: false,
    });
    shell.components.push(panel);
    shell
        .core_surfaces
        .push(("@test/panel#popover:0".to_string(), SurfaceState { visible: true, closing_until: None }));
    shell.keyboard_focus_surface = Some("@test/panel".to_string());
    shell.transfer_owned_keyboard_modes.push(("@test/panel".to_string(), KeyboardMode::OnDemand));
    shell
}

#[test]
fn toggling_switches_between_layer_and_window() {
    assert_eq!(toggled_surface_role(SurfaceRole::Layer), SurfaceRole::Window);
    assert_eq!(toggled_surface_role(SurfaceRole::Window), SurfaceRole::Layer);
}

#[test]
fn refused_role_changes_change_nothing() {
    let mut shell = panel_with_menu();
    assert!(shell.set_surface_role("@test/missing", SurfaceRole::Window, SurfaceRole::Layer, true, true).is_empty());
    assert!(shell.set_surface_role("@test/panel", SurfaceRole::Layer, SurfaceRole::Layer, true, true).is_empty());
    assert!(shell.set_surface_role("@test/panel", SurfaceRole::Window, SurfaceRole::Layer, false, true).is_empty());
    assert!(shell.set_surface_role("@test/panel", SurfaceRole::Window, SurfaceRole::Layer, true, false).is_empty());
    shell.components[0].popup_parent_surface = Some("@test/bar".to_string());
    assert!(shell.set_surface_role("@test/panel", SurfaceRole::Window, SurfaceRole::Layer, true, true).is_empty());
    assert_eq!(shell.components[0].children.len(), 1);
    assert_eq!(shell.keyboard_focus_surface.as_deref(), Some("@test/panel"));
}

#[test]
fn promoting_to_a_window_tears_down_children_and_keyboard_state() {
    let mut shell = panel_with_menu();
    let actions = shell.set_surface_role("@test/panel", SurfaceRole::Window, SurfaceRole::Layer, true, true);

    assert!(matches!(
        actions.as_slice(),
        [
            ShellAction::DestroyPopup { surface_id: child },
            ShellAction::DestroySurface { surface_id },
            ShellAction::ChangeSurfaceRole { component: 0, role: SurfaceRole::Window },
        ] if child == "@test/panel#popover:0" && surface_id == "@test/panel"
    ));
    assert!(shell.components[0].children.is_empty());
    assert!(keyed_get(&shell.core_surfaces, "@test/panel#popover:0").is_none());
    assert_eq!(shell.components[0].keyboard_mode_override, None);
    assert!(shell.components[0].force_full_present);
    assert!(shell.transfer_owned_keyboard_modes.is_empty());
    assert_eq!(shell.keyboard_focus_surface, None);
}

#[test]
fn demoting_to_a_layer_keeps_keyboard_state() {
    let mut shell = panel_with_menu();
    let actions = shell.toggle_surface_role("@test/panel", SurfaceRole::Window, true, true);

    assert!(matches!(
        actions.last(),
        Some(ShellAction::ChangeSurfaceRole { component: 0, role: SurfaceRole::Layer })
    ));
    assert!(shell.components[0].children.is_empty());
    assert_eq!(shell.components[0].keyboard_mode_override, Some(KeyboardMode::Exclusive));
    assert_eq!(shell.transfer_owned_keyboard_modes.len(), 1);
    assert_eq!(shell.keyboard_focus_surface.as_deref(), Some("@test/panel"));
}

#[test]
fn widget_role_changes_of_the_root_or_an_unknown_surface_are_refused() {
    let shell = panel_with_menu();
    assert!(shell.child_surface_role_change_refused("@test/panel", "", SurfaceRole::Window, true));
    assert!(shell.child_surface_role_change_refused("@test/panel", "root", SurfaceRole::Window, true));
    assert!(shell.child_surface_role_change_refused("@test/missing", "root/menu", SurfaceRole::Window, true));
    assert!(shell.child_surface_role_change_refused("@test/panel", "root/menu", SurfaceRole::Window, false));
    assert!(!shell.child_surface_role_change_refused("@test/panel", "root/menu", SurfaceRole::Layer, false));
    assert!(!shell.child_surface_role_change_refused("@test/panel", "root/menu", SurfaceRole::Window, true));
}

#[test]
fn a_switched_widget_loses_its_child_surface() {
    let mut shell = panel_with_menu();
    shell.keyboard_focus_surface = Some("@test/panel#popover:0".to_string());
    assert!(shell.destroy_child_surface_for_node("@test/panel", "root/other").is_empty());
    assert_eq!(shell.components[0].children.len(), 1);

    let actions = shell.destroy_child_surface_for_node("@test/panel", "root/menu");
    assert!(matches!(
        actions.as_slice(),
        [ShellAction::DestroyPopup { surface_id }] if surface_id == "@test/panel#popover:0"
    ));
    assert!(shell.components[0].children.is_empty());
    assert!(keyed_get(&shell.core_surfaces, "@test/panel#popover:0").is_none());
    assert_eq!(shell.keyboard_focus_surface, None);
}
