use mesh_shell::dispatch::{
    service_call_cancel_decision, service_cancelled_call_answer, CancelDecision, ServiceCallRoute,
};
use mesh_shell::shell::Shell;
use mesh_shell::types::CapabilitySet;

fn caps(granted: &[&str]) -> CapabilitySet {
    let mut set = CapabilitySet::new();
    for g in granted {
        set.grant(g);
    }
    set
}

fn route() -> ServiceCallRoute {
    ServiceCallRoute {
        interface: "mesh.audio".to_string(),
        module_id: "@mesh/quick-settings".to_string(),
        instance_id: "instance-1".to_string(),
    }
}

#[test]
fn only_the_calling_instance_with_control_may_cancel() {
    let control = caps(&["service.audio.control"]);
    let r = route();
    assert_eq!(
        service_call_cancel_decision(None, "mesh.audio", "instance-1", "@mesh/quick-settings", &control),
        CancelDecision::NotRouted
    );
    assert_eq!(
        service_call_cancel_decision(Some(&r), "mesh.audio", "instance-1", "@mesh/quick-settings", &control),
        CancelDecision::Cancel
    );
    assert_eq!(
        service_call_cancel_decision(Some(&r), "mesh.audio", "instance-2", "@mesh/quick-settings", &control),
        CancelDecision::Denied
    );
    assert_eq!(
        service_call_cancel_decision(Some(&r), "mesh.audio", "instance-1", "@mesh/panel", &control),
        CancelDecision::Denied
    );
    assert_eq!(
        service_call_cancel_decision(
            Some(&r),
            "mesh.audio",
            "instance-1",
            "@mesh/quick-settings",
            &caps(&["service.audio.read"])
        ),
        CancelDecision::Denied
    );
}

#[test]
fn cancelled_calls_are_answered_by_when_they_were_cancelled() {
    let before = service_cancelled_call_answer(true);
    assert_eq!(before.get("ok").and_then(|v| v.as_bool()), Some(false));
    assert_eq!(before.get("status").and_then(|v| v.as_str()), Some("cancelled"));
    assert_eq!(before.get("error").and_then(|v| v.as_str()), Some("cancelled before dispatch"));
    let after = service_cancelled_call_answer(false);
    assert_eq!(after.get("error").and_then(|v| v.as_str()), Some("cancelled"));
    assert_eq!(after.get("status").and_then(|v| v.as_str()), Some("cancelled"));
}

#[test]
fn denied_cancellations_and_dropped_results_are_recorded() {
    let mut shell = Shell::new();
    shell.record_cancel_denied("mesh.audio", 42, "@mesh/panel");
    shell.record_dropped_call_result(&route(), 7, "completed");
    assert_eq!(shell.diagnostics.len(), 2);
    assert_eq!(shell.diagnostics[0].module_id, "@mesh/panel");
    assert_eq!(shell.diagnostics[0].code, "service_call_cancel_denied");
    assert_eq!(shell.diagnostics[0].message, "denied cancellation for mesh.audio call 42");
    assert_eq!(shell.diagnostics[1].module_id, "@mesh/quick-settings");
    assert_eq!(shell.diagnostics[1].code, "service_call_result_dropped");
    assert_eq!(
        shell.diagnostics[1].message,
        "dropped completed result for mesh.audio call 7: originating instance 'instance-1' is no longer mounted"
    );
}
