//! Shell sounds: a configured sound for a shell event becomes an ordinary
//! service command to the active audio provider, which plays it.
use vstd::prelude::*;
use crate::json::{JsonValue, JsonView};
use crate::types::{CapabilitySet, CoreRequest, RequestView, opt_request, opt_text};

verus! {

/// The shell events that can play a sound.
#[derive(Debug, Clone, Copy, PartialEq, Eq, Structural)]
pub enum SoundKind {
    Startup,
    Shutdown,
    DeviceConnected,
    DeviceDisconnected,
    Error,
    Notification,
}

/// The sound file configured for each shell event, if any.
#[derive(Debug)]
pub struct ShellSounds {
    pub startup: Option<String>,
    pub shutdown: Option<String>,
    pub device_connected: Option<String>,
    pub device_disconnected: Option<String>,
    pub error: Option<String>,
    pub notification: Option<String>,
}

pub open spec fn configured_sound(kind: SoundKind, sounds: ShellSounds) -> Option<Seq<char>> {
    match kind {
        SoundKind::Startup => opt_text(sounds.startup),
        SoundKind::Shutdown => opt_text(sounds.shutdown),
        SoundKind::DeviceConnected => opt_text(sounds.device_connected),
        SoundKind::DeviceDisconnected => opt_text(sounds.device_disconnected),
        SoundKind::Error => opt_text(sounds.error),
        SoundKind::Notification => opt_text(sounds.notification),
    }
}

/// The request that plays a configured sound: `play_sound` on `mesh.audio`
/// with the sound's path, from the shell, holding audio control.
pub open spec fn sound_request(kind: SoundKind, sounds: ShellSounds) -> Option<RequestView> {
    match configured_sound(kind, sounds) {
        Some(path) => Some(
            RequestView::ServiceCommand {
                interface: "mesh.audio"@,
                command: "play_sound"@,
                payload: JsonView::Object(seq![]).with_field("path"@, JsonView::Str(path)),
                source_module_id: "@mesh/shell"@,
                source_capabilities: seq!["service.audio.control"@],
            },
        ),
        None => None,
    }
}

pub fn shell_sound_request(kind: SoundKind, sounds: &ShellSounds) -> (r: Option<CoreRequest>)
    ensures
        opt_request(r) == sound_request(kind, *sounds),
{
    let path = match kind {
        SoundKind::Startup => &sounds.startup,
        SoundKind::Shutdown => &sounds.shutdown,
        SoundKind::DeviceConnected => &sounds.device_connected,
        SoundKind::DeviceDisconnected => &sounds.device_disconnected,
        SoundKind::Error => &sounds.error,
        SoundKind::Notification => &sounds.notification,
    };
    match path {
        Some(path) => {
            let mut payload = JsonValue::empty_object();
            payload.set_field("path", JsonValue::text(path.as_str()));
            let mut source_capabilities = CapabilitySet::new();
            source_capabilities.grant("service.audio.control");
            proof {
                assert(source_capabilities@ =~= seq!["service.audio.control"@]);
            }
            Some(CoreRequest::ServiceCommand {
                interface: String::from_str("mesh.audio"),
                command: String::from_str("play_sound"),
                payload,
                source_module_id: String::from_str("@mesh/shell"),
                source_capabilities,
            })
        },
        None => None,
    }
}

/// The sound file a request plays: the `path` of a `play_sound` command.
pub open spec fn played_path(r: Option<RequestView>) -> Option<Seq<char>> {
    match r {
        Some(RequestView::ServiceCommand { command, payload, .. }) => if command == "play_sound"@ {
            match payload.field("path"@) {
                Some(JsonView::Str(path)) => Some(path),
                _ => None,
            }
        } else {
            None
        },
        _ => None,
    }
}

/// Each shell event plays the sound configured for that same event, and
/// nothing when none is configured for it; the sound goes to the audio
/// interface as a `play_sound` command of the shell.
pub proof fn law_each_event_plays_its_own_sound(kind: SoundKind, sounds: ShellSounds)
    ensures
        kind == SoundKind::Startup ==> played_path(sound_request(kind, sounds)) == opt_text(sounds.startup),
        kind == SoundKind::Shutdown ==> played_path(sound_request(kind, sounds)) == opt_text(sounds.shutdown),
        kind == SoundKind::DeviceConnected ==> played_path(sound_request(kind, sounds)) == opt_text(
            sounds.device_connected,
        ),
        kind == SoundKind::DeviceDisconnected ==> played_path(sound_request(kind, sounds)) == opt_text(
            sounds.device_disconnected,
        ),
        kind == SoundKind::Error ==> played_path(sound_request(kind, sounds)) == opt_text(sounds.error),
        kind == SoundKind::Notification ==> played_path(sound_request(kind, sounds)) == opt_text(sounds.notification),
        sound_request(kind, sounds) is None || (sound_request(kind, sounds) matches Some(
            RequestView::ServiceCommand { interface, command, source_module_id, source_capabilities, .. },
        ) && interface == "mesh.audio"@ && command == "play_sound"@ && source_module_id == "@mesh/shell"@
            && source_capabilities == seq!["service.audio.control"@]),
{
    if let Some(path) = configured_sound(kind, sounds) {
        crate::json::lemma_with_field_reads_back(JsonView::Object(seq![]), "path"@, JsonView::Str(path));
    }
}

} // verus!
