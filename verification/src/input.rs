//! Keyboard input handed to components, the shell's own global shortcuts,
//! and the commands the shell accepts over its control socket.
use vstd::prelude::*;
use crate::text;
use crate::types::{CoreRequest, RequestView};

verus! {

/// The modifier keys held during a key event.
#[derive(Debug, Clone, Copy, PartialEq, Eq, Structural)]
pub struct KeyModifiers {
    pub ctrl: bool,
    pub shift: bool,
    pub alt: bool,
}

/// Keyboard and pointer-leave input delivered to a component.
#[derive(Debug)]
pub enum ComponentInput {
    KeyPressed { key: String, modifiers: KeyModifiers },
    KeyReleased { key: String, modifiers: KeyModifiers },
    Char { ch: char },
    PointerLeave,
}

/// A key press carries the modifiers held with it.
pub fn component_key_pressed_input(key: String, ctrl: bool, shift: bool, alt: bool) -> (r: ComponentInput)
    ensures
        r matches ComponentInput::KeyPressed { key: k, modifiers } && k@ == key@ && modifiers
            == (KeyModifiers { ctrl, shift, alt }),
{
    ComponentInput::KeyPressed { key, modifiers: KeyModifiers { ctrl, shift, alt } }
}

/// A key release carries the modifiers still held.
pub fn component_key_released_input(key: String, modifiers: KeyModifiers) -> (r: ComponentInput)
    ensures
        r matches ComponentInput::KeyReleased { key: k, modifiers: m } && k@ == key@ && m == modifiers,
{
    ComponentInput::KeyReleased { key, modifiers }
}

/// The shell's own shortcuts, which win over every component: Ctrl+Shift+D
/// toggles the debug overlay, and Ctrl+Tab cycles its tabs while it is shown.
pub open spec fn global_shortcut(key: Seq<char>, ctrl: bool, shift: bool, debug_enabled: bool) -> Option<RequestView> {
    if ctrl && shift && (key == "d"@ || key == "D"@) {
        Some(RequestView::ToggleDebugOverlay)
    } else if ctrl && !shift && debug_enabled && key == "Tab"@ {
        Some(RequestView::CycleDebugTab)
    } else {
        None
    }
}

pub fn shell_global_shortcut_request(key: &str, ctrl: bool, shift: bool, debug_enabled: bool) -> (r: Option<CoreRequest>)
    ensures
        crate::types::opt_request(r) == global_shortcut(key@, ctrl, shift, debug_enabled),
{
    if ctrl && shift && (text::str_eq(key, "d") || text::str_eq(key, "D")) {
        Some(CoreRequest::ToggleDebugOverlay)
    } else if ctrl && !shift && debug_enabled && text::str_eq(key, "Tab") {
        Some(CoreRequest::CycleDebugTab)
    } else {
        None
    }
}

/// The request a control socket command stands for:
/// `shell:debug_benchmark:<scenario>` runs a debug benchmark scenario.
pub open spec fn ipc_request(command: Seq<char>) -> Option<RequestView> {
    let prefix = "shell:debug_benchmark:"@;
    if text::has_prefix(command, prefix) && command.len() > prefix.len() {
        Some(RequestView::RunDebugBenchmark { scenario_id: command.subrange(prefix.len() as int, command.len() as int) })
    } else {
        None
    }
}

pub fn parse_ipc_command(command: &str) -> (r: Option<CoreRequest>)
    ensures
        crate::types::opt_request(r) == ipc_request(command@),
{
    proof {
        reveal_strlit("shell:debug_benchmark:");
    }
    let n = command.unicode_len();
    if text::starts_with(command, "shell:debug_benchmark:") && n > 22 {
        Some(CoreRequest::RunDebugBenchmark { scenario_id: text::char_slice(command, 22, n) })
    } else {
        None
    }
}

/// The kinds of window events the shell routes.
#[derive(Debug, Clone, Copy, PartialEq, Eq, Structural)]
pub enum WindowEventKind {
    PointerMove,
    PointerLeave,
    PointerButton,
    Scroll,
    Key,
    Char,
}

pub open spec fn event_trigger(kind: WindowEventKind) -> Seq<char> {
    match kind {
        WindowEventKind::PointerMove => "pointer_move"@,
        WindowEventKind::PointerLeave => "pointer_leave"@,
        WindowEventKind::PointerButton => "pointer_button"@,
        WindowEventKind::Scroll => "scroll"@,
        WindowEventKind::Key => "key"@,
        WindowEventKind::Char => "char"@,
    }
}

/// The name under which profiling records the handling of a window event.
pub fn profiling_trigger_for_event(kind: WindowEventKind) -> (r: &'static str)
    ensures
        r@ == event_trigger(kind),
{
    match kind {
        WindowEventKind::PointerMove => "pointer_move",
        WindowEventKind::PointerLeave => "pointer_leave",
        WindowEventKind::PointerButton => "pointer_button",
        WindowEventKind::Scroll => "scroll",
        WindowEventKind::Key => "key",
        WindowEventKind::Char => "char",
    }
}

} // verus!
