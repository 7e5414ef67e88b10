use mesh_shell::coalesce::command_coalescing_key;
use mesh_shell::dispatch::{
    CoreDispatch, SendOutcome, ServiceRoute, admit_coalesced_call, core_service_answer, service_send_answer,
    service_superseded_answer, throttle_admission_answer,
};
use mesh_shell::json::JsonNumber;
use mesh_shell::json::JsonValue;
use mesh_shell::shell::{BackendSlot, InterfaceContract, MethodContract, Shell, ShellAction};
use mesh_shell::throttle::{CommandThrottle, ThrottleAdmission, MAX_COALESCED_COMMAND_KEYS};
use mesh_shell::types::{CapabilitySet, CoreRequest};

fn object(members: &[(&str, JsonValue)]) -> JsonValue {
    let mut v = JsonValue::empty_object();
    for (k, m) in members {
        v.set_field(k, m.duplicate());
    }
    v
}

fn text_of<'a>(v: &'a JsonValue, key: &str) -> Option<&'a str> {
    v.get(key).and_then(|m| m.as_str())
}

fn caps(granted: &[&str]) -> CapabilitySet {
    let mut c = CapabilitySet::new();
    for g in granted {
        c.grant(g);
    }
    c
}

fn audio_contract(coalesce: bool) -> InterfaceContract {
    InterfaceContract {
        interface: "mesh.audio".into(),
        methods: vec![MethodContract { name: "set_volume".into(), coalesce }],
        state_fields: vec!["percent".into()],
    }
}

#[test]
fn uncontracted_command_needs_the_control_capability() {
    let mut shell = Shell::new();
    let refused = shell
        .gate_service_command("mesh.audio", "mesh.audio", "set_volume", "@test/module", &caps(&[]), true, None, vec![], 7)
        .expect("a caller without service.audio.control is refused");
    let (answer, record) = refused;
    assert_eq!(answer.get("ok").and_then(|v| v.as_bool()), Some(false));
    assert_eq!(text_of(&answer, "error"), Some("capability_denied"));
    assert_eq!(text_of(&answer, "status"), Some("capability_denied"));
    assert_eq!(answer.get("call_id").and_then(|v| v.as_u64()), Some(7));
    assert!(record.result.get("call_id").is_none(), "the denial is recorded without its call id");
    assert_eq!(record.status, "capability_denied");
    assert!(shell.diagnostics.is_empty());

    let allowed = shell.gate_service_command(
        "mesh.audio",
        "mesh.audio",
        "set_volume",
        "@test/module",
        &caps(&["service.audio.control"]),
        false,
        None,
        vec![],
        8,
    );
    assert!(allowed.is_none());
}

#[test]
fn contracted_command_follows_the_contract_verdict_and_declarations() {
    let mut shell = Shell::new();
    shell.interface_contracts.push(audio_contract(false));

    let denied = shell.gate_service_command("audio", "mesh.audio", "set_volume", "@m", &caps(&["service.audio.control"]), false, None, vec![], 1);
    assert!(denied.is_some(), "with a contract the interface layer's verdict decides");

    let (answer, _) = shell
        .gate_service_command("audio", "mesh.audio", "mute", "@m", &caps(&[]), true, None, vec![], 2)
        .expect("an undeclared method is refused");
    assert_eq!(text_of(&answer, "error"), Some("unsupported_service_command: audio.mute"));
    assert_eq!(text_of(&answer, "status"), Some("unsupported_service_command"));
    assert_eq!(shell.diagnostics.len(), 1);
    assert_eq!(shell.diagnostics[0].module_id, "@m");
    assert_eq!(shell.diagnostics[0].code, "unsupported_service_command");
}

#[test]
fn invalid_payloads_are_refused_in_order() {
    let mut shell = Shell::new();
    shell.interface_contracts.push(audio_contract(false));

    let (answer, record) = shell
        .gate_service_command("mesh.audio", "mesh.audio", "set_volume", "@m", &caps(&[]), true, Some("payload too large".into()), vec!["ignored".into()], 3)
        .expect("invalid arguments are refused");
    assert_eq!(text_of(&answer, "status"), Some("invalid_arguments"));
    assert_eq!(text_of(&answer, "error"), Some("payload too large"));
    assert_eq!(record.result.get("call_id").and_then(|v| v.as_u64()), Some(3));
    assert!(shell.diagnostics.is_empty());

    let (answer, _) = shell
        .gate_service_command(
            "mesh.audio",
            "mesh.audio",
            "set_volume",
            "@m",
            &caps(&[]),
            true,
            None,
            vec!["missing argument 'percent'".into(), "argument 'muted' expected boolean".into()],
            4,
        )
        .expect("a payload that breaks the contract is refused");
    assert_eq!(text_of(&answer, "status"), Some("invalid_service_command_payload"));
    assert_eq!(
        text_of(&answer, "error"),
        Some("missing argument 'percent'; argument 'muted' expected boolean")
    );
    assert_eq!(shell.diagnostics.len(), 1);
    assert_eq!(shell.diagnostics[0].code, "invalid_service_command_payload");
}

#[test]
fn routes_prefer_core_providers_then_shell_interfaces_then_handlers() {
    let mut shell = Shell::new();
    shell.interface_contracts.push(audio_contract(true));
    let empty = JsonValue::empty_object();

    let provided = shell.service_command_route("mesh.audio", "set_volume", &empty, Some(CoreRequest::ToggleDebugOverlay), true);
    assert!(matches!(provided, ServiceRoute::Core(CoreRequest::ToggleDebugOverlay)));

    let payload = object(&[("module_id", JsonValue::text("@mesh/clock")), ("enabled", JsonValue::boolean(false))]);
    let settings = shell.service_command_route("mesh.packages", "set_module_enabled", &payload, None, false);
    assert!(matches!(
        settings,
        ServiceRoute::Core(CoreRequest::SetModuleEnabled { module_id, enabled: false }) if module_id == "@mesh/clock"
    ));

    assert!(matches!(
        shell.service_command_route("mesh.audio", "set_volume", &empty, None, true),
        ServiceRoute::Handler { coalesce: true }
    ));
    assert!(matches!(
        shell.service_command_route("mesh.network", "scan", &empty, None, true),
        ServiceRoute::Handler { coalesce: false }
    ));
    assert!(matches!(
        shell.service_command_route("mesh.network", "scan", &empty, None, false),
        ServiceRoute::Unavailable
    ));
}

#[test]
fn core_requests_apply_at_once_outside_an_effect() {
    let mut shell = Shell::new();
    let outcome = shell.apply_core_service_request(CoreRequest::ToggleDebugOverlay, 0);
    assert!(matches!(
        outcome,
        CoreDispatch::Applied { actions } if matches!(actions.as_slice(), [ShellAction::BroadcastVisibility { visible: true, .. }])
    ));
    assert!(shell.debug.enabled);

    let delegated = shell.apply_core_service_request(CoreRequest::SetLocale { locale: "de".into() }, 0);
    assert!(matches!(delegated, CoreDispatch::Delegated(CoreRequest::SetLocale { locale }) if locale == "de"));
}

#[test]
fn answers_carry_ok_status_and_errors() {
    let applied = core_service_answer(None);
    assert_eq!(applied.get("ok").and_then(|v| v.as_bool()), Some(true));
    assert_eq!(text_of(&applied, "status"), Some("applied"));
    let failed = core_service_answer(Some("no such theme".into()));
    assert_eq!(text_of(&failed, "status"), Some("failed"));
    assert_eq!(text_of(&failed, "error"), Some("no such theme"));

    let sent = service_send_answer(SendOutcome::Sent);
    assert_eq!(sent.get("queued").and_then(|v| v.as_bool()), Some(true));
    assert_eq!(text_of(&service_send_answer(SendOutcome::Full), "status"), Some("queue_full"));
    assert_eq!(text_of(&service_send_answer(SendOutcome::Closed), "status"), Some("service_unavailable"));

    let superseded = service_superseded_answer();
    assert_eq!(text_of(&superseded, "status"), Some("superseded"));
    assert_eq!(text_of(&superseded, "error"), Some("throttled by a newer invocation"));
}

#[test]
fn finished_dispatch_records_the_running_provider_and_status() {
    let mut shell = Shell::new();
    shell.backend_runtimes.push(BackendSlot {
        interface: "mesh.audio".into(),
        provider_id: "@mesh/pipewire-audio".into(),
        generation: 1,
    });
    let (answer, record) = shell.finish_service_dispatch(
        "mesh.audio",
        "set_volume",
        "@m",
        42,
        service_send_answer(SendOutcome::Sent),
    );
    assert_eq!(answer.get("call_id").and_then(|v| v.as_u64()), Some(42));
    assert_eq!(record.provider_id.as_deref(), Some("@mesh/pipewire-audio"));
    assert_eq!(record.status, "queued", "a queued answer without a status is recorded as queued");
    assert!(record.queued);
    assert!(record.error.is_none());

    let (_, record) = shell.finish_service_dispatch("mesh.network", "scan", "@m", 43, core_service_answer(None));
    assert_eq!(record.status, "applied");
    assert!(record.provider_id.is_none());
    assert!(!record.queued);
}

#[test]
fn coalescing_key_keeps_only_identity_members() {
    let payload = object(&[
        ("percent", JsonValue::unsigned(40)),
        ("sink_id", JsonValue::unsigned(7)),
        ("device", JsonValue::text("hdmi")),
    ]);
    assert_eq!(command_coalescing_key("set_volume", &payload), "set_volume:{\"device\":\"hdmi\",\"sink_id\":7}");

    let other = object(&[("percent", JsonValue::unsigned(80)), ("sink_id", JsonValue::unsigned(7)), ("device", JsonValue::text("hdmi"))]);
    assert_eq!(
        command_coalescing_key("set_volume", &payload),
        command_coalescing_key("set_volume", &other),
        "calls differing only in non-identity members share a key"
    );
    assert_eq!(command_coalescing_key("set_brightness", &JsonValue::boolean(true)), "set_brightness:{}");
}

#[test]
fn throttle_sends_on_the_leading_edge_and_parks_the_latest_call() {
    let mut throttle = CommandThrottle::new();
    let payload = |percent: u64| object(&[("sink_id", JsonValue::unsigned(1)), ("percent", JsonValue::unsigned(percent))]);

    let first = admit_coalesced_call(&mut throttle, "mesh.audio", "set_volume", &payload(10), 1, 1_000);
    assert!(matches!(first, ThrottleAdmission::Send));
    assert!(throttle_admission_answer(&first).is_none());

    let second = admit_coalesced_call(&mut throttle, "mesh.audio", "set_volume", &payload(20), 2, 1_050);
    assert!(matches!(second, ThrottleAdmission::Parked { superseded: None }));
    let answer = throttle_admission_answer(&second).expect("a parked call is answered at once");
    assert_eq!(answer.get("throttled").and_then(|v| v.as_bool()), Some(true));

    let third = admit_coalesced_call(&mut throttle, "mesh.audio", "set_volume", &payload(30), 3, 1_080);
    assert!(matches!(third, ThrottleAdmission::Parked { superseded: Some(ref p) } if p.call_id == 2));

    assert!(throttle.take_due(1_099).is_empty(), "nothing is due before the interval passes");
    let due = throttle.take_due(1_100);
    assert_eq!(due.len(), 1);
    assert_eq!(due[0].pending.call_id, 3);
    assert_eq!(due[0].pending.payload.get("percent").and_then(|v| v.as_u64()), Some(30));
    assert!(throttle.take_due(1_150).is_empty());
    assert_eq!(throttle.len(), 1);
    assert!(throttle.take_due(1_900).is_empty());
    assert_eq!(throttle.len(), 0, "an idle key with nothing pending is forgotten");

    let later = admit_coalesced_call(&mut throttle, "mesh.audio", "set_volume", &payload(40), 4, 2_000);
    assert!(matches!(later, ThrottleAdmission::Send));
}

#[test]
fn throttle_refuses_new_keys_when_full_and_cancels_parked_calls() {
    let mut throttle = CommandThrottle::new();
    for i in 0..MAX_COALESCED_COMMAND_KEYS {
        let key = format!("k{i}");
        assert!(matches!(throttle.admit_call("mesh.audio", "set_volume", &key, i as u64, JsonValue::Null, 0), ThrottleAdmission::Send));
    }
    let full = throttle.admit_call("mesh.audio", "set_volume", "one-more", 999, JsonValue::Null, 0);
    assert!(matches!(full, ThrottleAdmission::QueueFull));
    assert_eq!(
        throttle_admission_answer(&full).and_then(|a| a.get("status").and_then(|s| s.as_str()).map(str::to_string)),
        Some("queue_full".to_string())
    );

    let parked = throttle.admit_call("mesh.audio", "set_volume", "k0", 1_000, JsonValue::Null, 10);
    assert!(matches!(parked, ThrottleAdmission::Parked { superseded: None }));
    assert!(throttle.cancel_call(1_000));
    assert_eq!(throttle.len(), MAX_COALESCED_COMMAND_KEYS - 1);
    assert!(!throttle.cancel_call(1_000));
}

fn audio_shell_with_provider() -> Shell {
    let mut shell = Shell::new();
    shell.interface_contracts.push(InterfaceContract {
        interface: "mesh.audio".into(),
        methods: vec![
            MethodContract { name: "set_volume".into(), coalesce: false },
            MethodContract { name: "set_muted".into(), coalesce: false },
        ],
        state_fields: vec!["available".into(), "percent".into(), "muted".into(), "source_module".into()],
    });
    shell.backend_runtimes.push(BackendSlot {
        interface: "mesh.audio".into(),
        provider_id: "@mesh/pipewire-audio".into(),
        generation: 1,
    });
    shell
}

fn volume_payload() -> JsonValue {
    object(&[("volume", JsonValue::Number(JsonNumber::Float("0.4".into())))])
}

#[test]
fn service_contract_unknown_service_command_returns_failure_result() {
    let mut shell = audio_shell_with_provider();
    let control = caps(&["service.audio.control"]);

    let (result, _) = shell
        .gate_service_command("mesh.audio", "mesh.audio", "explode", "@mesh/panel", &control, true, None, vec![], 1)
        .expect("an undeclared command is refused before any send");

    assert_eq!(result.get("ok").and_then(|v| v.as_bool()), Some(false));
    assert_eq!(text_of(&result, "status"), Some("unsupported_service_command"));
    assert!(shell.diagnostics.iter().any(|error| error.module_id == "@mesh/panel"
        && error.message.contains("unsupported_service_command")));
}

#[test]
fn service_command_dispatch_records_debug_method_call() {
    let mut shell = audio_shell_with_provider();
    let control = caps(&["service.audio.control"]);
    let payload = volume_payload();

    assert!(shell
        .gate_service_command("mesh.audio", "mesh.audio", "set_volume", "@mesh/panel", &control, true, None, vec![], 9)
        .is_none());
    let route = shell.service_command_route("mesh.audio", "set_volume", &payload, None, true);
    assert!(matches!(route, ServiceRoute::Handler { coalesce: false }));
    // The handler took the command.
    let (result, entry) =
        shell.finish_service_dispatch("mesh.audio", "set_volume", "@mesh/panel", 9, service_send_answer(SendOutcome::Sent));

    assert_eq!(result.get("ok").and_then(|v| v.as_bool()), Some(true));
    assert_eq!(entry.interface, "mesh.audio");
    assert_eq!(entry.provider_id.as_deref(), Some("@mesh/pipewire-audio"));
    assert_eq!(entry.source_module_id, "@mesh/panel");
    assert_eq!(entry.command, "set_volume");
    assert_eq!(entry.status, "queued");
    assert!(entry.queued);
}

#[test]
fn closed_service_command_channel_returns_unavailable_result() {
    let mut shell = audio_shell_with_provider();
    let control = caps(&["service.audio.control"]);
    assert!(shell
        .gate_service_command("mesh.audio", "mesh.audio", "set_volume", "@mesh/panel", &control, true, None, vec![], 5)
        .is_none());
    // The handler's channel is closed.
    let (result, _) =
        shell.finish_service_dispatch("mesh.audio", "set_volume", "@mesh/panel", 5, service_send_answer(SendOutcome::Closed));

    assert_eq!(result.get("ok").and_then(|v| v.as_bool()), Some(false));
    assert_eq!(text_of(&result, "status"), Some("service_unavailable"));
}
