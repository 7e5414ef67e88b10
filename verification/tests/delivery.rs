use mesh_shell::delivery::{
    has_interface_event_observers, interface_event_delivery, service_update_delivery, DeliveryStep,
    ServiceObservationSummary,
};
use mesh_shell::routing::service_name_from_interface;

fn updates(services: &[&str]) -> Option<ServiceObservationSummary> {
    Some(ServiceObservationSummary {
        update_services: services.iter().map(|s| s.to_string()).collect(),
        cached_update_services: Vec::new(),
        interface_events: Vec::new(),
    })
}

fn steps_for(plan: &[DeliveryStep], component: usize) -> usize {
    plan.iter()
        .filter(|step| match step {
            DeliveryStep::Probe(c) | DeliveryStep::Handle(c) | DeliveryStep::Cache(c) => *c == component,
        })
        .count()
}

#[test]
fn service_delivery_index_routes_updates_without_scanning_unrelated_components() {
    let summaries = vec![updates(&["audio"]), updates(&["power"]), None];
    let quarantined = vec![false, false, false];
    let service = service_name_from_interface("mesh.audio");
    let plan = service_update_delivery(&summaries, &quarantined, &service);

    assert_eq!(steps_for(&plan, 0), 1);
    assert!(plan.contains(&DeliveryStep::Handle(0)));
    assert_eq!(
        steps_for(&plan, 1),
        0,
        "summarized components for other services should not be scanned"
    );
    assert!(!plan.contains(&DeliveryStep::Handle(1)));
    assert_eq!(
        steps_for(&plan, 2),
        1,
        "unknown-summary components keep the legacy observation gate"
    );
    assert!(plan.contains(&DeliveryStep::Probe(2)));
}

#[test]
fn service_delivery_index_routes_interface_events_by_name() {
    let summaries = vec![Some(ServiceObservationSummary {
        update_services: Vec::new(),
        cached_update_services: Vec::new(),
        interface_events: vec![("audio".to_string(), "volume_changed".to_string())],
    })];
    let quarantined = vec![false];
    let service = service_name_from_interface("mesh.audio");

    let first = interface_event_delivery(&summaries, &quarantined, &service, "device_changed");
    let second = interface_event_delivery(&summaries, &quarantined, &service, "volume_changed");

    assert_eq!(first.len() + second.len(), 1);
    assert_eq!(second.len(), 1);
    assert_eq!(second, vec![DeliveryStep::Handle(0)]);
}

#[test]
fn service_delivery_index_rebuilds_when_marked_dirty() {
    let quarantined = vec![false];
    let mut handled = Vec::new();

    let summaries = vec![updates(&["audio"])];
    let plan = service_update_delivery(&summaries, &quarantined, &service_name_from_interface("mesh.audio"));
    handled.extend(plan.into_iter().map(|step| ("mesh.audio", step)));

    let summaries = vec![updates(&["power"])];
    let plan = service_update_delivery(&summaries, &quarantined, &service_name_from_interface("mesh.audio"));
    handled.extend(plan.into_iter().map(|step| ("mesh.audio", step)));
    let plan = service_update_delivery(&summaries, &quarantined, &service_name_from_interface("mesh.power"));
    handled.extend(plan.into_iter().map(|step| ("mesh.power", step)));

    assert_eq!(handled.len(), 2);
    assert_eq!(handled.iter().filter(|(_, step)| *step == DeliveryStep::Handle(0)).count(), 2);
    assert_eq!(handled[1].0, "mesh.power");
}

#[test]
fn quarantined_components_receive_no_updates() {
    let summaries = vec![updates(&["audio"]), None, updates(&["audio"])];
    let quarantined = vec![true, true, false];
    let plan = service_update_delivery(&summaries, &quarantined, "audio");
    assert_eq!(plan, vec![DeliveryStep::Handle(2)]);
}

#[test]
fn update_plan_probes_then_handles_then_caches_in_component_order() {
    let summaries = vec![
        Some(ServiceObservationSummary {
            update_services: Vec::new(),
            cached_update_services: vec!["audio".to_string()],
            interface_events: Vec::new(),
        }),
        updates(&["audio"]),
        None,
        Some(ServiceObservationSummary {
            update_services: vec!["audio".to_string()],
            cached_update_services: vec!["audio".to_string()],
            interface_events: Vec::new(),
        }),
        None,
    ];
    let quarantined = vec![false; 5];
    let plan = service_update_delivery(&summaries, &quarantined, "audio");
    assert_eq!(
        plan,
        vec![
            DeliveryStep::Probe(2),
            DeliveryStep::Probe(4),
            DeliveryStep::Handle(1),
            DeliveryStep::Handle(3),
            DeliveryStep::Cache(0),
        ]
    );
}

#[test]
fn interface_event_observers_include_components_without_summary() {
    let declared = vec![Some(ServiceObservationSummary {
        update_services: Vec::new(),
        cached_update_services: Vec::new(),
        interface_events: vec![("audio".to_string(), "volume_changed".to_string())],
    })];
    assert!(has_interface_event_observers(&declared, "audio", "volume_changed"));
    assert!(!has_interface_event_observers(&declared, "audio", "device_changed"));
    let mut with_fallback = declared;
    with_fallback.push(None);
    assert!(has_interface_event_observers(&with_fallback, "audio", "device_changed"));
    assert!(!has_interface_event_observers(&Vec::new(), "audio", "volume_changed"));
}
