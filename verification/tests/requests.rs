use mesh_shell::json::{JsonNumber, JsonValue};
use mesh_shell::requests::{
    benchmark_scenario_id, core_service_request, profiling_trigger_for_request,
    request_changes_debug_snapshot, service_queue_full_response, service_unavailable_response,
    BenchmarkScenarioId,
};
use mesh_shell::types::CoreRequest;

fn object(members: Vec<(&str, JsonValue)>) -> JsonValue {
    let mut value = JsonValue::empty_object();
    for (key, member) in members {
        value.set_field(key, member);
    }
    value
}

fn text(s: &str) -> JsonValue {
    JsonValue::text(s)
}

#[test]
fn composition_slot_commands_become_typed_requests() {
    let node = object(vec![
        ("id", text("clock")),
        ("use", text("@mesh/navigation-bar:clock")),
        ("props", JsonValue::empty_object()),
    ]);
    let apply = core_service_request(
        "mesh.composition",
        "apply_node_slot",
        &object(vec![
            ("profile_id", text("desk")),
            ("root_instance", text("@mesh/navigation-bar#default")),
            ("slot", text("end")),
            ("nodes", JsonValue::Array(vec![node])),
            ("expected_generation", text("abc")),
        ]),
    )
    .unwrap();
    assert!(matches!(
        apply,
        CoreRequest::ApplyNodeSlot {
            profile_id,
            root_instance,
            slot,
            expected_generation,
            ..
        } if profile_id == "desk"
            && root_instance == "@mesh/navigation-bar#default"
            && slot == "end"
            && expected_generation == "abc"
    ));
}

#[test]
fn package_install_and_uninstall_commands_become_typed_requests() {
    let install = core_service_request(
        "mesh.packages",
        "install",
        &object(vec![
            ("source", text("/tmp/example-module")),
            ("profile_id", text("desktop")),
            ("available_only", JsonValue::boolean(true)),
            ("allow_elevated", JsonValue::boolean(true)),
            ("allow_high", JsonValue::boolean(false)),
        ]),
    )
    .expect("install should be a core-provided package method");
    assert!(matches!(
        install,
        CoreRequest::InstallModule {
            source,
            profile_id: Some(profile_id),
            available_only: true,
            allow_elevated: true,
            allow_high: false,
        } if source == "/tmp/example-module" && profile_id == "desktop"
    ));

    let uninstall = core_service_request(
        "mesh.packages",
        "uninstall",
        &object(vec![
            ("module_id", text("@example/module")),
            ("force", JsonValue::boolean(true)),
        ]),
    )
    .expect("uninstall should be a core-provided package method");
    assert!(matches!(
        uninstall,
        CoreRequest::UninstallModule { module_id, force }
            if module_id == "@example/module" && force
    ));
}

#[test]
fn core_service_request_rejects_blank_or_missing_arguments() {
    assert!(core_service_request(
        "mesh.packages",
        "switch_profile",
        &object(vec![("profile_id", text("   "))])
    )
    .is_none());
    assert!(core_service_request("mesh.packages", "set_module_enabled", &object(vec![
        ("module_id", text("@mesh/x")),
        ("enabled", text("yes")),
    ]))
    .is_none());
    assert!(core_service_request("mesh.audio", "set_volume", &object(vec![])).is_none());
    let unset = core_service_request(
        "mesh.settings",
        "unset_prop",
        &object(vec![
            ("module_id", text("@mesh/navigation-bar")),
            ("instance_id", text("")),
            ("prop", text("blur_enabled")),
        ]),
    )
    .unwrap();
    assert!(matches!(
        unset,
        CoreRequest::UnsetModuleProp { module_id, instance_id: Some(instance), prop }
            if module_id == "@mesh/navigation-bar" && instance.is_empty() && prop == "blur_enabled"
    ));
    let install = core_service_request(
        "mesh.packages",
        "install",
        &object(vec![("source", text("pkg")), ("profile_id", text(" "))]),
    )
    .unwrap();
    assert!(matches!(
        install,
        CoreRequest::InstallModule { profile_id: None, available_only: false, allow_elevated: false, allow_high: false, .. }
    ));
}

#[test]
fn set_prop_carries_the_value_and_provider_switches_both_ids() {
    let value = JsonValue::Number(JsonNumber::PosInt(3));
    let request = core_service_request(
        "mesh.settings",
        "set_prop",
        &object(vec![
            ("module_id", text("@mesh/navigation-bar")),
            ("prop", text("height")),
            ("value", value.duplicate()),
        ]),
    )
    .unwrap();
    match request {
        CoreRequest::SetModuleProp { module_id, instance_id, prop, value: v } => {
            assert_eq!(module_id, "@mesh/navigation-bar");
            assert!(instance_id.is_none());
            assert_eq!(prop, "height");
            assert!(v.same_as(&value));
        }
        other => panic!("expected SetModuleProp, got {other:?}"),
    }
    let switch = core_service_request(
        "mesh.packages",
        "set_provider",
        &object(vec![
            ("interface", text("mesh.audio")),
            ("provider_id", text("@mesh/pulseaudio-audio")),
        ]),
    )
    .unwrap();
    assert!(matches!(
        switch,
        CoreRequest::SetProvider { interface, provider_id }
            if interface == "mesh.audio" && provider_id == "@mesh/pulseaudio-audio"
    ));
}

#[test]
fn failure_responses_carry_error_and_status() {
    let unavailable = service_unavailable_response();
    assert_eq!(unavailable.get("ok").and_then(|v| v.as_bool()), Some(false));
    assert_eq!(unavailable.get("error").and_then(|v| v.as_str()), Some("service_unavailable"));
    assert_eq!(unavailable.get("status").and_then(|v| v.as_str()), Some("service_unavailable"));
    let full = service_queue_full_response();
    assert_eq!(full.get("error").and_then(|v| v.as_str()), Some("command_queue_full"));
    assert_eq!(full.get("status").and_then(|v| v.as_str()), Some("queue_full"));
}

#[test]
fn debug_snapshot_changes_and_profiling_triggers_follow_the_request_kind() {
    let position = CoreRequest::PositionSurface {
        surface_id: "@mesh/panel".to_string(),
        margin_top: 1,
        margin_left: 2,
    };
    assert!(!request_changes_debug_snapshot(&position));
    assert!(!request_changes_debug_snapshot(&CoreRequest::Shutdown));
    assert!(request_changes_debug_snapshot(&CoreRequest::ToggleDebugOverlay));
    assert!(request_changes_debug_snapshot(&CoreRequest::ShowSurface {
        surface_id: "@mesh/panel".to_string()
    }));
    assert_eq!(profiling_trigger_for_request(&position), "position_surface");
    assert_eq!(
        profiling_trigger_for_request(&CoreRequest::SetThemeMode { mode: "dark".to_string() }),
        "set_mode"
    );
    assert_eq!(profiling_trigger_for_request(&CoreRequest::CycleDebugTab), "cycle_debug_tab");
}

#[test]
fn different_request_kinds_are_profiled_under_different_names() {
    let id = || "@mesh/panel".to_string();
    let requests = vec![
        CoreRequest::ToggleSurface { surface_id: id() },
        CoreRequest::ShowSurface { surface_id: id() },
        CoreRequest::HideSurface { surface_id: id() },
        CoreRequest::ToggleSurfaceRole { surface_id: id() },
        CoreRequest::SetThemeMode { mode: "dark".to_string() },
        CoreRequest::SetLocale { locale: "de".to_string() },
        CoreRequest::ToggleDebugOverlay,
        CoreRequest::ToggleDebugProfiling,
        CoreRequest::CycleDebugTab,
        CoreRequest::Shutdown,
    ];
    let labels: Vec<&str> = requests.iter().map(profiling_trigger_for_request).collect();
    for (i, a) in labels.iter().enumerate() {
        for b in &labels[i + 1..] {
            assert_ne!(a, b);
        }
    }
    assert_eq!(labels[1], "show_surface");
    assert_eq!(labels[9], "shutdown");
}

#[test]
fn benchmark_scenarios_round_trip_through_their_ids() {
    let all = BenchmarkScenarioId::all();
    assert_eq!(all.len(), 12);
    for scenario in all {
        assert_eq!(benchmark_scenario_id(scenario.id()), Some(scenario));
    }
    assert_eq!(benchmark_scenario_id("hover"), Some(BenchmarkScenarioId::Hover));
    assert_eq!(benchmark_scenario_id("unknown"), None);
}
