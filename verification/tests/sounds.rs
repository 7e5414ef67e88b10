use mesh_shell::services::{service_update_metadata, service_update_metadata_fingerprint};
use mesh_shell::sounds::{shell_sound_request, ShellSounds, SoundKind};
use mesh_shell::types::CoreRequest;

fn no_sounds() -> ShellSounds {
    ShellSounds {
        startup: None,
        shutdown: None,
        device_connected: None,
        device_disconnected: None,
        error: None,
        notification: None,
    }
}

#[test]
fn configured_sound_becomes_a_generic_service_request() {
    let sounds = ShellSounds {
        startup: Some("sounds/startup.wav".to_string()),
        ..no_sounds()
    };

    let request = shell_sound_request(SoundKind::Startup, &sounds)
        .expect("configured startup sound should produce a request");
    let CoreRequest::ServiceCommand {
        interface,
        command,
        payload,
        source_module_id,
        source_capabilities,
    } = request
    else {
        panic!("shell sound must use generic service routing");
    };

    assert_eq!(interface, "mesh.audio");
    assert_eq!(command, "play_sound");
    assert_eq!(payload.get("path").and_then(|v| v.as_str()), Some("sounds/startup.wav"));
    assert_eq!(source_module_id, "@mesh/shell");
    assert!(source_capabilities.is_granted("service.audio.control"));
}

#[test]
fn unconfigured_sound_produces_no_request() {
    assert!(shell_sound_request(SoundKind::Startup, &no_sounds()).is_none());
}

#[test]
fn service_update_metadata_names_service_and_source() {
    let metadata = service_update_metadata("audio", "@mesh/pipewire");
    assert_eq!(metadata.get("name").and_then(|v| v.as_str()), Some("audio"));
    assert_eq!(metadata.get("source_module").and_then(|v| v.as_str()), Some("@mesh/pipewire"));
    assert_eq!(
        service_update_metadata_fingerprint("audio", "@mesh/pipewire"),
        service_update_metadata_fingerprint("audio", "@mesh/pipewire")
    );
    assert_ne!(
        service_update_metadata_fingerprint("audio", "@mesh/pipewire"),
        service_update_metadata_fingerprint("audio", "@mesh/pulse")
    );
}
