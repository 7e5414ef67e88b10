use mesh_shell::contracts::{
    contract_warnings, empty_event_payload_warnings, event_contract_warnings, json_type_name, method_result_warnings,
    undeclared_event_text, undeclared_method_text, unknown_interface_event_text, ContractSubject, FieldCheck,
};
use mesh_shell::delivery::{interface_event_delivery, DeliveryStep, InterfaceEventVerdict};
use mesh_shell::shell::BackendSlot;
use mesh_shell::json::{JsonNumber, JsonValue};
use mesh_shell::shell::Shell;

/// A field as the type grammar judged it: `optional` for a type that admits
/// absence, `matches` for whether the value sent has the type.
fn check(name: &str, declared_type: &str, optional: bool, matches: bool) -> FieldCheck {
    FieldCheck { name: name.to_string(), declared_type: declared_type.to_string(), optional, matches }
}

fn object(members: &[(&str, JsonValue)]) -> JsonValue {
    let mut v = JsonValue::empty_object();
    for (k, m) in members {
        v.set_field(k, m.duplicate());
    }
    v
}

fn event(interface: &str, name: &str) -> ContractSubject {
    ContractSubject::Event { interface: interface.to_string(), event: name.to_string() }
}

#[test]
fn structured_event_validation_preserves_warnings() {
    let payload = object(&[("device_id", JsonValue::unsigned(7)), ("other", JsonValue::boolean(true))]);
    // A number is no "string"; "level" is absent and "float" does not admit absence.
    let warnings = contract_warnings(
        &event("mesh.audio", "VolumeChanged"),
        &vec![check("device_id", "string", false, false), check("level", "float", false, true)],
        &payload,
    );

    assert_eq!(warnings.len(), 2);
    assert!(warnings[0].contains("payload field 'device_id' expected string, got number"));
    assert!(warnings[1].contains("missing required payload field 'level'"));
}

#[test]
fn event_validation_rejects_non_object_payload() {
    let warnings = contract_warnings(
        &event("mesh.audio", "VolumeChanged"),
        &vec![check("level", "float", false, true)],
        &JsonValue::unsigned(42),
    );
    assert_eq!(warnings.len(), 1);
    assert!(warnings[0].contains("must be a JSON object"));
}

#[test]
fn cached_contract_validation_preserves_warning_text() {
    let mut shell = Shell::new();
    let state = object(&[("available", JsonValue::boolean(true)), ("percent", JsonValue::text("loud"))]);
    let valid = shell.validate_service_state_shape(
        "mesh.audio",
        "@mesh/pipewire-audio",
        vec![
            check("available", "boolean", false, true),
            check("percent", "float", false, false),
            check("source_module", "string", false, false),
        ],
        &state,
    );
    assert!(!valid);
    assert_eq!(shell.diagnostics.len(), 1);
    assert!(shell.diagnostics[0].message.contains("state field 'percent'"));

    let event_warnings = contract_warnings(
        &event("mesh.audio", "Event1"),
        &vec![check("field_0", "float", false, false), check("field_1", "float", false, true)],
        &object(&[("field_0", JsonValue::text("bad"))]),
    );
    assert_eq!(event_warnings.len(), 2);
    assert!(event_warnings[0].contains("payload field 'field_0' expected float"));
    assert!(event_warnings[1].contains("missing required payload field 'field_1'"));
}

#[test]
fn state_checks_name_the_field_and_interface() {
    let subject = ContractSubject::State { interface: "mesh.power".to_string() };
    let warnings = contract_warnings(
        &subject,
        &vec![check("percentage", "float", false, true), check("charging", "boolean?", true, true)],
        &JsonValue::empty_object(),
    );
    assert_eq!(warnings, vec!["missing required state field 'percentage' for mesh.power".to_string()]);
    let not_object = contract_warnings(&subject, &Vec::new(), &JsonValue::text("x"));
    assert_eq!(not_object, vec!["state for mesh.power must be a JSON object, got string".to_string()]);
}

#[test]
fn method_arguments_and_results_are_checked() {
    let subject = ContractSubject::MethodInput { interface: "mesh.audio".to_string(), command: "set_volume".to_string() };
    let warnings = contract_warnings(
        &subject,
        &vec![check("percent", "int", false, false), check("device", "string", false, true)],
        &object(&[("percent", JsonValue::text("loud"))]),
    );
    assert_eq!(
        warnings,
        vec![
            "method 'set_volume' for mesh.audio argument 'percent' expected int, got string".to_string(),
            "method 'set_volume' for mesh.audio missing required argument 'device'".to_string(),
        ]
    );
    assert_eq!(
        contract_warnings(&subject, &Vec::new(), &JsonValue::Null),
        vec!["method 'set_volume' for mesh.audio must receive a JSON object, got null".to_string()]
    );
    assert_eq!(undeclared_method_text("mesh.audio", "explode"), "method 'explode' is not declared for mesh.audio");
    assert_eq!(
        method_result_warnings("mesh.audio", "get", "Device", false, &JsonValue::boolean(true)),
        vec!["method 'get' for mesh.audio returned Device, got boolean".to_string()]
    );
    assert!(method_result_warnings("mesh.audio", "get", "Device", true, &JsonValue::Null).is_empty());
}

#[test]
fn events_without_fields_expect_an_empty_object() {
    assert!(empty_event_payload_warnings("mesh.audio", "Reset", &JsonValue::empty_object()).is_empty());
    assert_eq!(
        empty_event_payload_warnings("mesh.audio", "Reset", &object(&[("x", JsonValue::Null)])),
        vec!["event 'Reset' for mesh.audio expected an empty object payload".to_string()]
    );
    assert_eq!(
        empty_event_payload_warnings("mesh.audio", "Reset", &JsonValue::Array(Vec::new())),
        vec!["event 'Reset' for mesh.audio must be a JSON object, got array".to_string()]
    );
    assert_eq!(undeclared_event_text("mesh.audio", "Boom"), "event 'Boom' is not declared for mesh.audio");
    assert_eq!(
        unknown_interface_event_text("mesh.nothing", "Boom"),
        "event 'Boom' emitted for unknown interface mesh.nothing"
    );
}

#[test]
fn json_values_are_named_by_their_type() {
    assert_eq!(json_type_name(&JsonValue::Number(JsonNumber::Float("1.5".into()))), "number");
    assert_eq!(json_type_name(&JsonValue::empty_object()), "object");
    assert_eq!(json_type_name(&JsonValue::Null), "null");
}

fn audio_shell() -> Shell {
    let mut shell = Shell::new();
    shell.backend_runtimes.push(BackendSlot {
        interface: "mesh.audio".to_string(),
        provider_id: "@mesh/pipewire-audio".to_string(),
        generation: 1,
    });
    shell
}

/// The `VolumeChanged` fields of the audio contract, judged against a payload
/// whose `level` is a float (`level_is_float`) or not.
fn volume_checks(level_is_float: bool) -> Option<Option<Vec<FieldCheck>>> {
    Some(Some(vec![check("device_id", "string", false, true), check("level", "float", false, level_is_float)]))
}

#[test]
fn backend_interface_event_validates_and_delivers_to_components() {
    let mut shell = audio_shell();
    let payload = object(&[
        ("device_id", JsonValue::text("default")),
        ("level", JsonValue::Number(JsonNumber::Float("42.0".into()))),
    ]);
    let warnings = event_contract_warnings("mesh.audio", "VolumeChanged", volume_checks(true), &payload);
    let verdict =
        shell.admit_backend_interface_event("mesh.audio", "@mesh/pipewire-audio", 0, true, warnings);
    assert_eq!(verdict, InterfaceEventVerdict::Deliver);

    // One recording component without a summary observes every event.
    let plan = interface_event_delivery(&vec![None], &vec![false], "audio", "VolumeChanged");
    assert_eq!(plan, vec![DeliveryStep::Probe(0)]);
    assert!(shell.diagnostics.is_empty());
}

#[test]
fn backend_interface_event_drops_invalid_payload_with_diagnostic() {
    let mut shell = audio_shell();
    let payload = object(&[("device_id", JsonValue::text("default")), ("level", JsonValue::text("loud"))]);
    let warnings = event_contract_warnings("mesh.audio", "VolumeChanged", volume_checks(false), &payload);
    let verdict =
        shell.admit_backend_interface_event("mesh.audio", "@mesh/pipewire-audio", 0, true, warnings);

    assert_eq!(verdict, InterfaceEventVerdict::InvalidPayload);
    assert!(shell.diagnostics.iter().any(|error| error.module_id == "@mesh/pipewire-audio"
        && error.message.contains("payload field 'level' expected float")));
}

#[test]
fn interface_events_from_stale_or_inactive_providers_are_ignored() {
    let mut shell = audio_shell();
    assert_eq!(
        shell.admit_backend_interface_event("mesh.audio", "@mesh/pipewire-audio", 2, true, Vec::new()),
        InterfaceEventVerdict::StaleGeneration
    );
    assert_eq!(
        shell.admit_backend_interface_event("mesh.power", "@mesh/upower", 1, true, Vec::new()),
        InterfaceEventVerdict::StaleGeneration
    );
    assert_eq!(
        shell.admit_backend_interface_event("mesh.audio", "@mesh/old-audio", 1, false, vec!["x".to_string()]),
        InterfaceEventVerdict::InactiveProvider
    );
    assert!(shell.diagnostics.is_empty());
    assert_eq!(
        shell.admit_backend_interface_event("mesh.audio", "@mesh/pipewire-audio", 1, true, Vec::new()),
        InterfaceEventVerdict::Deliver
    );
}

#[test]
fn shell_interface_events_with_warnings_are_not_delivered() {
    let mut shell = Shell::new();
    assert!(shell.admit_shell_interface_event("mesh.theme", Vec::new()));
    assert!(!shell.admit_shell_interface_event("mesh.theme", vec!["bad".to_string()]));
    assert_eq!(shell.diagnostics.len(), 1);
    assert_eq!(shell.diagnostics[0].module_id, "@mesh/shell");
    assert_eq!(shell.diagnostics[0].message, "service_contract_warning: mesh.theme: bad");
}

#[test]
fn event_warnings_follow_what_the_contract_declares() {
    let payload = JsonValue::empty_object();
    assert_eq!(
        event_contract_warnings("mesh.nothing", "Boom", None, &payload),
        vec!["event 'Boom' emitted for unknown interface mesh.nothing".to_string()]
    );
    assert_eq!(
        event_contract_warnings("mesh.audio", "Boom", Some(None), &payload),
        vec!["event 'Boom' is not declared for mesh.audio".to_string()]
    );
    assert!(event_contract_warnings("mesh.audio", "Reset", Some(Some(Vec::new())), &payload).is_empty());
}
