use mesh_shell::json::{JsonNumber, JsonValue};
use mesh_shell::routing::{
    script_event_to_request, script_events_to_requests, service_capabilities,
    service_name_from_interface, PublishedEvent,
};
use mesh_shell::types::{CapabilitySet, CoreRequest, SurfaceRole};

fn object(members: Vec<(&str, JsonValue)>) -> JsonValue {
    let mut value = JsonValue::empty_object();
    for (key, member) in members {
        value.set_field(key, member);
    }
    value
}

fn caps(granted: &[&str]) -> CapabilitySet {
    let mut capabilities = CapabilitySet::new();
    for capability in granted {
        capabilities.grant(capability);
    }
    capabilities
}

fn event_with(channel: &str, payload: JsonValue, module: &str, granted: &[&str]) -> PublishedEvent {
    PublishedEvent {
        channel: channel.into(),
        payload,
        source_module_id: module.into(),
        source_capabilities: caps(granted),
        call_id: None,
        source_instance_id: None,
    }
}

fn route(events: Vec<PublishedEvent>) -> Vec<CoreRequest> {
    script_events_to_requests(events.into_iter().map(|event| (event, None)).collect())
}

#[test]
fn normalizes_service_names_from_interfaces() {
    assert_eq!(service_name_from_interface("mesh.audio"), "audio");
    assert_eq!(service_name_from_interface("audio"), "audio");
}

#[test]
fn service_capabilities_include_control_capability() {
    let caps = service_capabilities("mesh.audio");

    assert_eq!(caps.service_name, "audio");
    assert_eq!(caps.read, "service.audio.read");
    assert_eq!(caps.control, "service.audio.control");
    assert!(caps.theme.is_none());
    assert_eq!(service_capabilities("mesh.theme").theme.as_deref(), Some("theme.read"));
    assert_eq!(service_capabilities("mesh.locale").locale.as_deref(), Some("locale.read"));
}

#[test]
fn script_events_to_requests_maps_named_proxy_commands() {
    let requests = route(vec![
        PublishedEvent {
            channel: "mesh.audio.set_volume".into(),
            payload: object(vec![("percent", JsonValue::unsigned(55))]),
            source_module_id: "@mesh/quick-settings".into(),
            source_capabilities: caps(&["service.audio.control"]),
            call_id: None,
            source_instance_id: None,
        },
        PublishedEvent {
            channel: "mesh.network.set_wifi_enabled".into(),
            payload: object(vec![("enabled", JsonValue::boolean(true))]),
            source_module_id: "@mesh/quick-settings".into(),
            source_capabilities: caps(&["service.network.control"]),
            call_id: None,
            source_instance_id: None,
        },
    ]);

    assert_eq!(requests.len(), 2);
    match &requests[0] {
        CoreRequest::ServiceCommand {
            interface,
            command,
            payload,
            source_module_id,
            source_capabilities,
        } => {
            assert_eq!(interface, "mesh.audio");
            assert_eq!(command, "set_volume");
            assert!(payload.same_as(&object(vec![("percent", JsonValue::unsigned(55))])));
            assert_eq!(source_module_id, "@mesh/quick-settings");
            assert!(source_capabilities.is_granted("service.audio.control"));
        }
        other => panic!("expected audio ServiceCommand, got {other:?}"),
    }
    match &requests[1] {
        CoreRequest::ServiceCommand {
            interface,
            command,
            payload,
            source_module_id,
            source_capabilities,
        } => {
            assert_eq!(interface, "mesh.network");
            assert_eq!(command, "set_wifi_enabled");
            assert!(payload.same_as(&object(vec![("enabled", JsonValue::boolean(true))])));
            assert_eq!(source_module_id, "@mesh/quick-settings");
            assert!(source_capabilities.is_granted("service.network.control"));
        }
        other => panic!("expected network ServiceCommand, got {other:?}"),
    }
}

#[test]
fn script_events_to_requests_preserves_ticket_route_identity() {
    let requests = route(vec![PublishedEvent {
        channel: "mesh.audio.set_volume".into(),
        payload: object(vec![("percent", JsonValue::unsigned(55))]),
        source_module_id: "@mesh/audio-popover".into(),
        source_capabilities: caps(&["service.audio.control"]),
        call_id: Some(1u64 << 63),
        source_instance_id: Some("@mesh/audio-popover#bottom".into()),
    }]);

    assert!(matches!(
        requests.as_slice(),
        [CoreRequest::ServiceCall {
            call_id,
            source_instance_id,
            ..
        }] if *call_id == 1u64 << 63 && source_instance_id == "@mesh/audio-popover#bottom"
    ));

    let cancel_requests = route(vec![PublishedEvent {
        channel: "mesh.service.cancel".into(),
        payload: object(vec![
            ("interface", JsonValue::text("mesh.audio")),
            ("call_id", JsonValue::unsigned(1u64 << 63)),
        ]),
        source_module_id: "@mesh/audio-popover".into(),
        source_capabilities: caps(&["service.audio.control"]),
        call_id: Some(1u64 << 63),
        source_instance_id: Some("@mesh/audio-popover#bottom".into()),
    }]);
    assert!(matches!(
        cancel_requests.as_slice(),
        [CoreRequest::CancelServiceCall {
            call_id,
            source_instance_id,
            ..
        }] if *call_id == 1u64 << 63 && source_instance_id == "@mesh/audio-popover#bottom"
    ));
}

#[test]
fn script_events_to_requests_maps_widget_role_operations() {
    let requests = route(vec![
        event_with(
            "shell.promote-widget",
            object(vec![
                ("surface_id", JsonValue::text("@mesh/panel")),
                ("node_key", JsonValue::text("root/widgets/media")),
            ]),
            "@mesh/panel",
            &["shell.surface"],
        ),
        event_with(
            "shell.set-widget-role",
            object(vec![
                ("surface_id", JsonValue::text("@mesh/panel")),
                ("node_key", JsonValue::text("root/widgets/media")),
                ("role", JsonValue::text("layer")),
            ]),
            "@mesh/panel",
            &["shell.surface"],
        ),
    ]);

    assert!(matches!(
        &requests[..],
        [
            CoreRequest::SetChildSurfaceRole {
                surface_id,
                node_key,
                role: SurfaceRole::Window,
            },
            CoreRequest::SetChildSurfaceRole {
                surface_id: second_surface_id,
                node_key: second_node_key,
                role: SurfaceRole::Layer,
            },
        ] if surface_id == "@mesh/panel"
            && node_key == "root/widgets/media"
            && second_surface_id == surface_id
            && second_node_key == node_key
    ));
}

#[test]
fn provider_selection_is_a_capability_gated_service_command() {
    let requests = route(vec![event_with(
        "mesh.packages.set_provider",
        object(vec![
            ("interface", JsonValue::text("mesh.audio")),
            ("provider_id", JsonValue::text("@mesh/pulseaudio-audio")),
        ]),
        "@mesh/some-third-party-settings",
        &["service.packages.control"],
    )]);

    assert!(matches!(
        requests.as_slice(),
        [CoreRequest::ServiceCommand { interface, command, .. }]
            if interface == "mesh.packages" && command == "set_provider"
    ));
}

#[test]
fn a_module_without_the_packages_capability_cannot_select_a_provider() {
    let requests = route(vec![event_with(
        "mesh.packages.set_provider",
        object(vec![
            ("interface", JsonValue::text("mesh.audio")),
            ("provider_id", JsonValue::text("@mesh/pulseaudio-audio")),
        ]),
        "@mesh/navigation-bar",
        &[],
    )]);

    assert!(matches!(
        requests.as_slice(),
        [CoreRequest::PublishDiagnostics { message }]
            if message.contains("service.packages.control")
    ));
}

#[test]
fn the_settings_module_id_grants_nothing_by_itself() {
    let requests = route(vec![event_with(
        "mesh.packages.set_module_enabled",
        object(vec![
            ("module_id", JsonValue::text("@mesh/audio-popover")),
            ("enabled", JsonValue::boolean(false)),
        ]),
        "@mesh/settings",
        &[],
    )]);

    assert!(matches!(
        requests.as_slice(),
        [CoreRequest::PublishDiagnostics { message }]
            if message.contains("service.packages.control")
    ));
}

#[test]
fn module_enabled_command_carries_its_payload_through() {
    let payload = object(vec![
        ("module_id", JsonValue::text("@mesh/audio-popover")),
        ("enabled", JsonValue::boolean(false)),
    ]);
    let requests = route(vec![event_with(
        "mesh.packages.set_module_enabled",
        payload.duplicate(),
        "@mesh/settings",
        &["service.packages.control"],
    )]);

    assert!(matches!(
        requests.as_slice(),
        [CoreRequest::ServiceCommand { interface, command, payload: p, .. }]
            if interface == "mesh.packages"
                && command == "set_module_enabled"
                && p.same_as(&payload)
    ));
}

#[test]
fn prop_writes_are_settings_service_commands() {
    let requests = route(vec![
        event_with(
            "mesh.settings.set_prop",
            object(vec![
                ("module_id", JsonValue::text("@mesh/navigation-bar")),
                ("prop", JsonValue::text("blur_enabled")),
                ("value", JsonValue::boolean(false)),
            ]),
            "@mesh/settings",
            &["service.settings.control"],
        ),
        event_with(
            "mesh.settings.unset_prop",
            object(vec![
                ("module_id", JsonValue::text("@mesh/navigation-bar")),
                ("prop", JsonValue::text("blur_enabled")),
            ]),
            "@mesh/settings",
            &["service.settings.control"],
        ),
    ]);

    assert!(matches!(
        requests.as_slice(),
        [
            CoreRequest::ServiceCommand { interface, command, .. },
            CoreRequest::ServiceCommand { interface: unset_interface, command: unset_command, .. },
        ] if interface == "mesh.settings"
            && command == "set_prop"
            && unset_interface == interface
            && unset_command == "unset_prop"
    ));
}

#[test]
fn appearance_writes_are_theme_service_commands() {
    let requests = route(vec![
        event_with(
            "mesh.theme.set_icon_theme",
            object(vec![("theme_id", JsonValue::text("Papirus-Dark"))]),
            "@mesh/settings",
            &["service.theme.control"],
        ),
        event_with(
            "mesh.theme.set_font_family",
            object(vec![("family", JsonValue::text("Noto Sans"))]),
            "@mesh/settings",
            &["service.theme.control"],
        ),
    ]);

    assert!(matches!(
        requests.as_slice(),
        [
            CoreRequest::ServiceCommand { command, .. },
            CoreRequest::ServiceCommand { command: font_command, .. },
        ] if command == "set_icon_theme" && font_command == "set_font_family"
    ));
}

#[test]
fn setting_the_theme_now_requires_a_capability() {
    let requests = route(vec![event_with(
        "mesh.theme.set_theme",
        object(vec![("theme_id", JsonValue::text("mesh-default-dark"))]),
        "@mesh/some-widget",
        &[],
    )]);

    assert!(matches!(
        requests.as_slice(),
        [CoreRequest::PublishDiagnostics { message }]
            if message.contains("service.theme.control")
    ));
}

#[test]
fn prop_writes_preserve_instance_scope() {
    let requests = route(vec![event_with(
        "mesh.settings.set_prop",
        object(vec![
            ("module_id", JsonValue::text("@mesh/navigation-bar")),
            ("instance_id", JsonValue::text("@mesh/navigation-bar#bottom")),
            ("prop", JsonValue::text("blur_enabled")),
            ("value", JsonValue::boolean(false)),
        ]),
        "@mesh/settings",
        &["service.settings.control"],
    )]);

    assert!(matches!(
        requests.as_slice(),
        [CoreRequest::ServiceCommand { payload, .. }]
            if payload.get("instance_id").and_then(|v| v.as_str())
                == Some("@mesh/navigation-bar#bottom")
    ));
}

#[test]
fn script_events_to_requests_maps_popover_focus_option() {
    let requests = route(vec![PublishedEvent {
        channel: "shell.activate-popover".into(),
        payload: object(vec![
            ("surface_id", JsonValue::text("@mesh/audio-popover")),
            ("trigger_surface", JsonValue::text("@mesh/navigation-bar")),
            ("trigger_key", JsonValue::text("volume-button")),
            ("focus", JsonValue::boolean(false)),
        ]),
        source_module_id: "@mesh/navigation-bar".into(),
        source_capabilities: caps(&["shell.surface"]),
        call_id: None,
        source_instance_id: None,
    }]);

    match requests.as_slice() {
        [CoreRequest::ActivatePopover {
            surface_id,
            trigger_surface,
            trigger_key,
            focus,
        }] => {
            assert_eq!(surface_id, "@mesh/audio-popover");
            assert_eq!(trigger_surface, "@mesh/navigation-bar");
            assert_eq!(trigger_key, "volume-button");
            assert!(!focus);
        }
        other => panic!("expected ActivatePopover request, got {other:?}"),
    }
}

#[test]
fn script_events_to_requests_maps_popover_hover_bridge_hide() {
    let requests = route(vec![PublishedEvent {
        channel: "shell.hide-popover".into(),
        payload: object(vec![
            ("surface_id", JsonValue::text("@mesh/quick-settings")),
            ("defer_for_hover_bridge", JsonValue::boolean(true)),
        ]),
        source_module_id: "@mesh/quick-settings".into(),
        source_capabilities: caps(&["shell.surface"]),
        call_id: None,
        source_instance_id: None,
    }]);

    match requests.as_slice() {
        [CoreRequest::HidePopover {
            surface_id,
            defer_for_hover_bridge,
        }] => {
            assert_eq!(surface_id, "@mesh/quick-settings");
            assert!(*defer_for_hover_bridge);
        }
        other => panic!("expected HidePopover request, got {other:?}"),
    }
}

#[test]
fn script_events_to_requests_denies_uncontrolled_service_command() {
    let requests = route(vec![PublishedEvent {
        channel: "mesh.audio.set_volume".into(),
        payload: object(vec![("percent", JsonValue::unsigned(55))]),
        source_module_id: "@mesh/panel".into(),
        source_capabilities: caps(&["service.audio.read"]),
        call_id: None,
        source_instance_id: None,
    }]);

    match requests.as_slice() {
        [CoreRequest::PublishDiagnostics { message }] => {
            assert!(message.contains("service.audio.control"));
        }
        other => panic!("expected denied diagnostic request, got {other:?}"),
    }
}

#[test]
fn script_events_to_requests_maps_debug_control_events() {
    let inspector = "@mesh/debug-inspector";
    let requests = route(vec![
        event_with("shell.toggle-debug-overlay", JsonValue::empty_object(), inspector, &["service.debug.read"]),
        event_with("shell.toggle-debug-layout-bounds", JsonValue::empty_object(), inspector, &["service.debug.read"]),
        event_with("shell.toggle-debug-element-picker", JsonValue::empty_object(), inspector, &["service.debug.read"]),
        event_with(
            "shell.open-debug-source",
            object(vec![
                ("path", JsonValue::text("/tmp/example.mesh")),
                ("line", JsonValue::unsigned(42)),
            ]),
            inspector,
            &["service.debug.read"],
        ),
        event_with("shell.toggle-debug-profiling", JsonValue::empty_object(), inspector, &["service.debug.read"]),
    ]);

    assert!(matches!(requests.first(), Some(CoreRequest::ToggleDebugOverlay)));
    assert!(matches!(requests.get(1), Some(CoreRequest::ToggleDebugLayoutBounds)));
    assert!(matches!(requests.get(2), Some(CoreRequest::ToggleDebugElementPicker)));
    assert!(matches!(
        requests.get(3),
        Some(CoreRequest::OpenDebugSource { path, line })
            if path == "/tmp/example.mesh" && *line == 42
    ));
    assert!(matches!(requests.get(4), Some(CoreRequest::ToggleDebugProfiling)));
}

#[test]
fn script_events_to_requests_rejects_unknown_shell_channels() {
    let event = event_with(
        "shell.brightness-down",
        object(vec![("step", JsonValue::unsigned(10))]),
        "@mesh/navigation-bar",
        &["service.shell.control"],
    );
    let requests = script_events_to_requests(vec![(
        event,
        Some("Unknown shell channel 'shell.brightness-down'".to_string()),
    )]);
    match requests.as_slice() {
        [CoreRequest::PublishDiagnostics { message }] => {
            assert!(message.contains("Unknown shell channel"));
            assert!(message.contains("shell.brightness-down"));
        }
        other => panic!("unknown shell.* channels must never become service commands, got {other:?}"),
    }
}

#[test]
fn a_registry_rejection_of_a_shell_operation_becomes_its_diagnostic() {
    let event = event_with(
        "shell.brightness-down",
        object(vec![("step", JsonValue::unsigned(10))]),
        "@mesh/navigation-bar",
        &["service.shell.control"],
    );
    let request = script_event_to_request(event, Some("Unknown shell channel 'shell.brightness-down'".into()));
    assert!(matches!(
        request,
        Some(CoreRequest::PublishDiagnostics { message })
            if message.contains("Unknown shell channel") && message.contains("shell.brightness-down")
    ));
}

#[test]
fn shell_operations_without_an_owner_and_unroutable_channels_are_dropped_with_a_diagnostic() {
    let requests = route(vec![
        event_with("shell.brightness-down", JsonValue::empty_object(), "@mesh/panel", &[]),
        event_with("nodots", JsonValue::empty_object(), "@mesh/panel", &[]),
        event_with(
            "shell.open-debug-source",
            object(vec![("path", JsonValue::text("/tmp/x.mesh"))]),
            "@mesh/panel",
            &[],
        ),
    ]);
    assert_eq!(requests.len(), 3);
    assert!(matches!(&requests[0], CoreRequest::PublishDiagnostics { message } if message.contains("shell.brightness-down")));
    assert!(matches!(&requests[1], CoreRequest::PublishDiagnostics { message } if message.contains("not routable")));
    assert!(matches!(&requests[2], CoreRequest::PublishDiagnostics { .. }));
}

#[test]
fn surface_operations_missing_their_surface_route_nowhere() {
    let requests = route(vec![
        event_with("shell.show-surface", JsonValue::empty_object(), "@mesh/panel", &["shell.surface"]),
        event_with(
            "shell.position-surface",
            object(vec![
                ("surface_id", JsonValue::text("@mesh/popover")),
                ("margin_top", JsonValue::Number(JsonNumber::NegInt(-3))),
                ("margin_left", JsonValue::unsigned(24)),
            ]),
            "@mesh/panel",
            &["shell.surface"],
        ),
        event_with(
            "shell.position-surface",
            object(vec![
                ("surface_id", JsonValue::text("@mesh/popover")),
                ("margin_top", JsonValue::unsigned(u64::MAX)),
                ("margin_left", JsonValue::unsigned(24)),
            ]),
            "@mesh/panel",
            &["shell.surface"],
        ),
    ]);
    assert_eq!(requests.len(), 1);
    assert!(matches!(
        &requests[0],
        CoreRequest::PositionSurface { surface_id, margin_top: -3, margin_left: 24 } if surface_id == "@mesh/popover"
    ));
}

#[test]
fn debug_benchmark_requests_need_a_scenario() {
    let requests = route(vec![
        event_with("shell.run-debug-benchmark", object(vec![("scenario_id", JsonValue::text("hover"))]), "@mesh/debug-inspector", &[]),
        event_with("shell.run-debug-benchmark", object(vec![("scenario_id", JsonValue::text(""))]), "@mesh/debug-inspector", &[]),
    ]);
    assert!(matches!(&requests[0], CoreRequest::RunDebugBenchmark { scenario_id } if scenario_id == "hover"));
    assert!(matches!(&requests[1], CoreRequest::PublishDiagnostics { message } if message == "debug benchmark request missing scenario_id"));
}
