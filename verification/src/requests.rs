//! Classification of core requests and translation of commands on the
//! shell-owned configuration interfaces into requests.
use vstd::prelude::*;
use crate::json::{JsonValue, JsonView};
use crate::text;
use crate::types::{CoreRequest, RequestView, opt_request, opt_text};

verus! {

/// Whether applying `r` can change what the debug snapshot shows.
pub open spec fn changes_debug_snapshot(r: RequestView) -> bool {
    !(r is PositionSurface || r is PublishDiagnostics || r is WriteClipboard || r is OpenDebugSource
        || r is SetChildSurfaceRole || r is TransferTabFocus || r is Shutdown)
}

/// Whether applying the request can change what the debug snapshot shows:
/// every request but surface positioning, diagnostics, clipboard writes,
/// opening a debug source, child surface roles, tab focus transfers and
/// shutdown.
pub fn request_changes_debug_snapshot(request: &CoreRequest) -> (r: bool)
    ensures
        r == changes_debug_snapshot(request@),
{
    match request {
        CoreRequest::PositionSurface { .. }
        | CoreRequest::PublishDiagnostics { .. }
        | CoreRequest::WriteClipboard { .. }
        | CoreRequest::OpenDebugSource { .. }
        | CoreRequest::SetChildSurfaceRole { .. }
        | CoreRequest::TransferTabFocus { .. }
        | CoreRequest::Shutdown => false,
        _ => true,
    }
}

/// The name under which profiling records the work a request triggers.
pub open spec fn profiling_trigger(r: RequestView) -> Seq<char> {
    match r {
        RequestView::PositionSurface { .. } => "position_surface"@,
        RequestView::ToggleSurface { .. } => "toggle_surface"@,
        RequestView::SetSurfaceRole { .. } => "set_surface_role"@,
        RequestView::ToggleSurfaceRole { .. } => "toggle_surface_role"@,
        RequestView::SetChildSurfaceRole { .. } => "set_child_surface_role"@,
        RequestView::ShowSurface { .. } => "show_surface"@,
        RequestView::HideSurface { .. } => "hide_surface"@,
        RequestView::HidePopover { .. } => "hide_popover"@,
        RequestView::PublishDiagnostics { .. } => "publish_diagnostics"@,
        RequestView::ServiceCommand { .. } => "service_command"@,
        RequestView::ServiceCall { .. } => "service_call"@,
        RequestView::CancelServiceCall { .. } => "cancel_service_call"@,
        RequestView::WriteClipboard { .. } => "write_clipboard"@,
        RequestView::SetTheme { .. } => "set_theme"@,
        RequestView::SetThemeMode { .. } => "set_mode"@,
        RequestView::SetIconTheme { .. } => "set_icon_theme"@,
        RequestView::SetFontFamily { .. } => "set_font_family"@,
        RequestView::SetLocale { .. } => "set_locale"@,
        RequestView::SetProvider { .. } => "set_provider"@,
        RequestView::SetModuleEnabled { .. } => "set_module_enabled"@,
        RequestView::InstallModule { .. } => "install_module"@,
        RequestView::UninstallModule { .. } => "uninstall_module"@,
        RequestView::SetModuleProp { .. } => "set_module_prop"@,
        RequestView::ApplyNodeSlot { .. } => "apply_node_slot"@,
        RequestView::ResetNodeSlot { .. } => "reset_node_slot"@,
        RequestView::UnsetModuleProp { .. } => "unset_module_prop"@,
        RequestView::SwitchProfile { .. } => "switch_profile"@,
        RequestView::ActivatePopover { .. } => "activate_popover"@,
        RequestView::TransferTabFocus { .. } => "transfer_tab_focus"@,
        RequestView::ToggleDebugOverlay => "toggle_debug_overlay"@,
        RequestView::ToggleDebugLayoutBounds => "toggle_debug_layout_bounds"@,
        RequestView::ToggleDebugElementPicker => "toggle_debug_element_picker"@,
        RequestView::OpenDebugSource { .. } => "open_debug_source"@,
        RequestView::ToggleDebugProfiling => "toggle_debug_profiling"@,
        RequestView::RunDebugBenchmark { .. } => "run_debug_benchmark"@,
        RequestView::CycleDebugTab => "cycle_debug_tab"@,
        RequestView::Shutdown => "shutdown"@,
    }
}

/// The position of a request's variant among the request kinds.
pub open spec fn request_kind(r: RequestView) -> nat {
    match r {
        RequestView::PositionSurface { .. } => 0,
        RequestView::ToggleSurface { .. } => 1,
        RequestView::SetSurfaceRole { .. } => 2,
        RequestView::ToggleSurfaceRole { .. } => 3,
        RequestView::SetChildSurfaceRole { .. } => 4,
        RequestView::ShowSurface { .. } => 5,
        RequestView::HideSurface { .. } => 6,
        RequestView::HidePopover { .. } => 7,
        RequestView::PublishDiagnostics { .. } => 8,
        RequestView::ServiceCommand { .. } => 9,
        RequestView::ServiceCall { .. } => 10,
        RequestView::CancelServiceCall { .. } => 11,
        RequestView::WriteClipboard { .. } => 12,
        RequestView::SetTheme { .. } => 13,
        RequestView::SetThemeMode { .. } => 14,
        RequestView::SetIconTheme { .. } => 15,
        RequestView::SetFontFamily { .. } => 16,
        RequestView::SetLocale { .. } => 17,
        RequestView::SetProvider { .. } => 18,
        RequestView::SetModuleEnabled { .. } => 19,
        RequestView::InstallModule { .. } => 20,
        RequestView::UninstallModule { .. } => 21,
        RequestView::SetModuleProp { .. } => 22,
        RequestView::ApplyNodeSlot { .. } => 23,
        RequestView::ResetNodeSlot { .. } => 24,
        RequestView::UnsetModuleProp { .. } => 25,
        RequestView::SwitchProfile { .. } => 26,
        RequestView::ActivatePopover { .. } => 27,
        RequestView::TransferTabFocus { .. } => 28,
        RequestView::ToggleDebugOverlay => 29,
        RequestView::ToggleDebugLayoutBounds => 30,
        RequestView::ToggleDebugElementPicker => 31,
        RequestView::OpenDebugSource { .. } => 32,
        RequestView::ToggleDebugProfiling => 33,
        RequestView::RunDebugBenchmark { .. } => 34,
        RequestView::CycleDebugTab => 35,
        RequestView::Shutdown => 36,
    }
}

/// The request kind whose profiling label `label` can be, told by its length
/// and, among labels of one length, the characters where they differ; past
/// the last kind when no label fits.
spec fn kind_of_trigger(label: Seq<char>) -> nat {
    if label.len() == 16 && label[0] == 'p' {
        0
    } else if label.len() == 14 && label[0] == 't' {
        1
    } else if label.len() == 16 && label[0] == 's' {
        2
    } else if label.len() == 19 && label[0] == 't' {
        3
    } else if label.len() == 22 && label[0] == 's' {
        4
    } else if label.len() == 12 && label[0] == 's' && label[1] == 'h' {
        5
    } else if label.len() == 12 && label[0] == 'h' && label[5] == 's' {
        6
    } else if label.len() == 12 && label[0] == 'h' && label[5] == 'p' {
        7
    } else if label.len() == 19 && label[0] == 'p' {
        8
    } else if label.len() == 15 && label[0] == 's' && label[2] == 'r' {
        9
    } else if label.len() == 12 && label[0] == 's' && label[1] == 'e' && label[2] == 'r' {
        10
    } else if label.len() == 19 && label[0] == 'c' {
        11
    } else if label.len() == 15 && label[0] == 'w' {
        12
    } else if label.len() == 9 {
        13
    } else if label.len() == 8 && label[1] == 'e' {
        14
    } else if label.len() == 14 && label[0] == 's' && label[1] == 'e' {
        15
    } else if label.len() == 15 && label[0] == 's' && label[2] == 't' && label[4] == 'f' {
        16
    } else if label.len() == 10 {
        17
    } else if label.len() == 12 && label[0] == 's' && label[1] == 'e' && label[2] == 't' {
        18
    } else if label.len() == 18 && label[0] == 's' {
        19
    } else if label.len() == 14 && label[0] == 'i' {
        20
    } else if label.len() == 16 && label[0] == 'u' {
        21
    } else if label.len() == 15 && label[0] == 's' && label[2] == 't' && label[4] == 'm' {
        22
    } else if label.len() == 15 && label[0] == 'a' {
        23
    } else if label.len() == 15 && label[0] == 'r' {
        24
    } else if label.len() == 17 && label[0] == 'u' {
        25
    } else if label.len() == 14 && label[0] == 's' && label[1] == 'w' {
        26
    } else if label.len() == 16 && label[0] == 'a' {
        27
    } else if label.len() == 18 && label[0] == 't' {
        28
    } else if label.len() == 20 {
        29
    } else if label.len() == 26 {
        30
    } else if label.len() == 27 {
        31
    } else if label.len() == 17 && label[0] == 'o' {
        32
    } else if label.len() == 22 && label[0] == 't' {
        33
    } else if label.len() == 19 && label[0] == 'r' {
        34
    } else if label.len() == 15 && label[0] == 'c' {
        35
    } else if label.len() == 8 && label[1] == 'h' {
        36
    } else {
        37
    }
}

proof fn lemma_trigger_names_kind(r: RequestView)
    ensures
        kind_of_trigger(profiling_trigger(r)) == request_kind(r),
{
    reveal_strlit("position_surface");
    reveal_strlit("toggle_surface");
    reveal_strlit("set_surface_role");
    reveal_strlit("toggle_surface_role");
    reveal_strlit("set_child_surface_role");
    reveal_strlit("show_surface");
    reveal_strlit("hide_surface");
    reveal_strlit("hide_popover");
    reveal_strlit("publish_diagnostics");
    reveal_strlit("service_command");
    reveal_strlit("service_call");
    reveal_strlit("cancel_service_call");
    reveal_strlit("write_clipboard");
    reveal_strlit("set_theme");
    reveal_strlit("set_mode");
    reveal_strlit("set_icon_theme");
    reveal_strlit("set_font_family");
    reveal_strlit("set_locale");
    reveal_strlit("set_provider");
    reveal_strlit("set_module_enabled");
    reveal_strlit("install_module");
    reveal_strlit("uninstall_module");
    reveal_strlit("set_module_prop");
    reveal_strlit("apply_node_slot");
    reveal_strlit("reset_node_slot");
    reveal_strlit("unset_module_prop");
    reveal_strlit("switch_profile");
    reveal_strlit("activate_popover");
    reveal_strlit("transfer_tab_focus");
    reveal_strlit("toggle_debug_overlay");
    reveal_strlit("toggle_debug_layout_bounds");
    reveal_strlit("toggle_debug_element_picker");
    reveal_strlit("open_debug_source");
    reveal_strlit("toggle_debug_profiling");
    reveal_strlit("run_debug_benchmark");
    reveal_strlit("cycle_debug_tab");
    reveal_strlit("shutdown");
}

/// Profiling labels tell request kinds apart: requests of different kinds
/// are recorded under different names.
pub proof fn law_profiling_triggers_tell_kinds_apart(a: RequestView, b: RequestView)
    ensures
        request_kind(a) != request_kind(b) ==> profiling_trigger(a) != profiling_trigger(b),
{
    lemma_trigger_names_kind(a);
    lemma_trigger_names_kind(b);
}

pub fn profiling_trigger_for_request(request: &CoreRequest) -> (r: &'static str)
    ensures
        r@ == profiling_trigger(request@),
{
    match request {
        CoreRequest::PositionSurface { .. } => "position_surface",
        CoreRequest::ToggleSurface { .. } => "toggle_surface",
        CoreRequest::SetSurfaceRole { .. } => "set_surface_role",
        CoreRequest::ToggleSurfaceRole { .. } => "toggle_surface_role",
        CoreRequest::SetChildSurfaceRole { .. } => "set_child_surface_role",
        CoreRequest::ShowSurface { .. } => "show_surface",
        CoreRequest::HideSurface { .. } => "hide_surface",
        CoreRequest::HidePopover { .. } => "hide_popover",
        CoreRequest::PublishDiagnostics { .. } => "publish_diagnostics",
        CoreRequest::ServiceCommand { .. } => "service_command",
        CoreRequest::ServiceCall { .. } => "service_call",
        CoreRequest::CancelServiceCall { .. } => "cancel_service_call",
        CoreRequest::WriteClipboard { .. } => "write_clipboard",
        CoreRequest::SetTheme { .. } => "set_theme",
        CoreRequest::SetThemeMode { .. } => "set_mode",
        CoreRequest::SetIconTheme { .. } => "set_icon_theme",
        CoreRequest::SetFontFamily { .. } => "set_font_family",
        CoreRequest::SetLocale { .. } => "set_locale",
        CoreRequest::SetProvider { .. } => "set_provider",
        CoreRequest::SetModuleEnabled { .. } => "set_module_enabled",
        CoreRequest::InstallModule { .. } => "install_module",
        CoreRequest::UninstallModule { .. } => "uninstall_module",
        CoreRequest::SetModuleProp { .. } => "set_module_prop",
        CoreRequest::ApplyNodeSlot { .. } => "apply_node_slot",
        CoreRequest::ResetNodeSlot { .. } => "reset_node_slot",
        CoreRequest::UnsetModuleProp { .. } => "unset_module_prop",
        CoreRequest::SwitchProfile { .. } => "switch_profile",
        CoreRequest::ActivatePopover { .. } => "activate_popover",
        CoreRequest::TransferTabFocus { .. } => "transfer_tab_focus",
        CoreRequest::ToggleDebugOverlay => "toggle_debug_overlay",
        CoreRequest::ToggleDebugLayoutBounds => "toggle_debug_layout_bounds",
        CoreRequest::ToggleDebugElementPicker => "toggle_debug_element_picker",
        CoreRequest::OpenDebugSource { .. } => "open_debug_source",
        CoreRequest::ToggleDebugProfiling => "toggle_debug_profiling",
        CoreRequest::RunDebugBenchmark { .. } => "run_debug_benchmark",
        CoreRequest::CycleDebugTab => "cycle_debug_tab",
        CoreRequest::Shutdown => "shutdown",
    }
}

/// The canonical benchmark scenarios of the debug tooling.
#[derive(Debug, Clone, Copy, PartialEq, Eq, Structural)]
pub enum BenchmarkScenarioId {
    Idle,
    Hover,
    SurfaceOpenClose,
    PointerUpdate,
    TextUpdate,
    Scroll,
    IconGrid,
    Animation,
    ThemeReload,
    Resize,
    KeyboardTraversal,
    BackendUpdate,
}

/// The identifier text of a scenario.
pub open spec fn scenario_name(s: BenchmarkScenarioId) -> Seq<char> {
    match s {
        BenchmarkScenarioId::Idle => "idle"@,
        BenchmarkScenarioId::Hover => "hover"@,
        BenchmarkScenarioId::SurfaceOpenClose => "surface_open_close"@,
        BenchmarkScenarioId::PointerUpdate => "pointer_update"@,
        BenchmarkScenarioId::TextUpdate => "text_update"@,
        BenchmarkScenarioId::Scroll => "scroll"@,
        BenchmarkScenarioId::IconGrid => "icon_grid"@,
        BenchmarkScenarioId::Animation => "animation"@,
        BenchmarkScenarioId::ThemeReload => "theme_reload"@,
        BenchmarkScenarioId::Resize => "resize"@,
        BenchmarkScenarioId::KeyboardTraversal => "keyboard_traversal"@,
        BenchmarkScenarioId::BackendUpdate => "backend_update"@,
    }
}

/// The scenario with identifier `id`, if any.
pub open spec fn scenario_named(id: Seq<char>) -> Option<BenchmarkScenarioId> {
    if id == "idle"@ {
        Some(BenchmarkScenarioId::Idle)
    } else if id == "hover"@ {
        Some(BenchmarkScenarioId::Hover)
    } else if id == "surface_open_close"@ {
        Some(BenchmarkScenarioId::SurfaceOpenClose)
    } else if id == "pointer_update"@ {
        Some(BenchmarkScenarioId::PointerUpdate)
    } else if id == "text_update"@ {
        Some(BenchmarkScenarioId::TextUpdate)
    } else if id == "scroll"@ {
        Some(BenchmarkScenarioId::Scroll)
    } else if id == "icon_grid"@ {
        Some(BenchmarkScenarioId::IconGrid)
    } else if id == "animation"@ {
        Some(BenchmarkScenarioId::Animation)
    } else if id == "theme_reload"@ {
        Some(BenchmarkScenarioId::ThemeReload)
    } else if id == "resize"@ {
        Some(BenchmarkScenarioId::Resize)
    } else if id == "keyboard_traversal"@ {
        Some(BenchmarkScenarioId::KeyboardTraversal)
    } else if id == "backend_update"@ {
        Some(BenchmarkScenarioId::BackendUpdate)
    } else {
        None
    }
}

impl BenchmarkScenarioId {
    /// Every scenario, in the order the debug snapshot lists them.
    pub open spec fn all_spec() -> Seq<BenchmarkScenarioId> {
        seq![
            BenchmarkScenarioId::Idle,
            BenchmarkScenarioId::Hover,
            BenchmarkScenarioId::SurfaceOpenClose,
            BenchmarkScenarioId::PointerUpdate,
            BenchmarkScenarioId::TextUpdate,
            BenchmarkScenarioId::Scroll,
            BenchmarkScenarioId::IconGrid,
            BenchmarkScenarioId::Animation,
            BenchmarkScenarioId::ThemeReload,
            BenchmarkScenarioId::Resize,
            BenchmarkScenarioId::KeyboardTraversal,
            BenchmarkScenarioId::BackendUpdate,
        ]
    }

    pub fn all() -> (r: Vec<BenchmarkScenarioId>)
        ensures
            r@ == Self::all_spec(),
            r@ == seq![
                BenchmarkScenarioId::Idle,
                BenchmarkScenarioId::Hover,
                BenchmarkScenarioId::SurfaceOpenClose,
                BenchmarkScenarioId::PointerUpdate,
                BenchmarkScenarioId::TextUpdate,
                BenchmarkScenarioId::Scroll,
                BenchmarkScenarioId::IconGrid,
                BenchmarkScenarioId::Animation,
                BenchmarkScenarioId::ThemeReload,
                BenchmarkScenarioId::Resize,
                BenchmarkScenarioId::KeyboardTraversal,
                BenchmarkScenarioId::BackendUpdate,
            ],
    {
        vec![
            BenchmarkScenarioId::Idle,
            BenchmarkScenarioId::Hover,
            BenchmarkScenarioId::SurfaceOpenClose,
            BenchmarkScenarioId::PointerUpdate,
            BenchmarkScenarioId::TextUpdate,
            BenchmarkScenarioId::Scroll,
            BenchmarkScenarioId::IconGrid,
            BenchmarkScenarioId::Animation,
            BenchmarkScenarioId::ThemeReload,
            BenchmarkScenarioId::Resize,
            BenchmarkScenarioId::KeyboardTraversal,
            BenchmarkScenarioId::BackendUpdate,
        ]
    }

    pub fn id(&self) -> (r: &'static str)
        ensures
            r@ == scenario_name(*self),
    {
        match self {
            BenchmarkScenarioId::Idle => "idle",
            BenchmarkScenarioId::Hover => "hover",
            BenchmarkScenarioId::SurfaceOpenClose => "surface_open_close",
            BenchmarkScenarioId::PointerUpdate => "pointer_update",
            BenchmarkScenarioId::TextUpdate => "text_update",
            BenchmarkScenarioId::Scroll => "scroll",
            BenchmarkScenarioId::IconGrid => "icon_grid",
            BenchmarkScenarioId::Animation => "animation",
            BenchmarkScenarioId::ThemeReload => "theme_reload",
            BenchmarkScenarioId::Resize => "resize",
            BenchmarkScenarioId::KeyboardTraversal => "keyboard_traversal",
            BenchmarkScenarioId::BackendUpdate => "backend_update",
        }
    }
}

/// The benchmark scenario named by `scenario_id`.
pub fn benchmark_scenario_id(scenario_id: &str) -> (r: Option<BenchmarkScenarioId>)
    ensures
        r == scenario_named(scenario_id@),
{
    if text::str_eq(scenario_id, "idle") {
        Some(BenchmarkScenarioId::Idle)
    } else if text::str_eq(scenario_id, "hover") {
        Some(BenchmarkScenarioId::Hover)
    } else if text::str_eq(scenario_id, "surface_open_close") {
        Some(BenchmarkScenarioId::SurfaceOpenClose)
    } else if text::str_eq(scenario_id, "pointer_update") {
        Some(BenchmarkScenarioId::PointerUpdate)
    } else if text::str_eq(scenario_id, "text_update") {
        Some(BenchmarkScenarioId::TextUpdate)
    } else if text::str_eq(scenario_id, "scroll") {
        Some(BenchmarkScenarioId::Scroll)
    } else if text::str_eq(scenario_id, "icon_grid") {
        Some(BenchmarkScenarioId::IconGrid)
    } else if text::str_eq(scenario_id, "animation") {
        Some(BenchmarkScenarioId::Animation)
    } else if text::str_eq(scenario_id, "theme_reload") {
        Some(BenchmarkScenarioId::ThemeReload)
    } else if text::str_eq(scenario_id, "resize") {
        Some(BenchmarkScenarioId::Resize)
    } else if text::str_eq(scenario_id, "keyboard_traversal") {
        Some(BenchmarkScenarioId::KeyboardTraversal)
    } else if text::str_eq(scenario_id, "backend_update") {
        Some(BenchmarkScenarioId::BackendUpdate)
    } else {
        None
    }
}

/// Every scenario is found again under its own identifier.
pub proof fn law_scenario_ids_round_trip(s: BenchmarkScenarioId)
    ensures
        scenario_named(scenario_name(s)) == Some(s),
{
    reveal_strlit("idle");
    reveal_strlit("hover");
    reveal_strlit("surface_open_close");
    reveal_strlit("pointer_update");
    reveal_strlit("text_update");
    reveal_strlit("scroll");
    reveal_strlit("icon_grid");
    reveal_strlit("animation");
    reveal_strlit("theme_reload");
    reveal_strlit("resize");
    reveal_strlit("keyboard_traversal");
    reveal_strlit("backend_update");
    assert("idle"@.len() == 4 && "idle"@[0] == 'i');
    assert("hover"@.len() == 5 && "hover"@[0] == 'h');
    assert("surface_open_close"@.len() == 18 && "surface_open_close"@[0] == 's');
    assert("pointer_update"@.len() == 14 && "pointer_update"@[0] == 'p');
    assert("text_update"@.len() == 11 && "text_update"@[0] == 't');
    assert("scroll"@.len() == 6 && "scroll"@[0] == 's');
    assert("icon_grid"@.len() == 9 && "icon_grid"@[0] == 'i');
    assert("animation"@.len() == 9 && "animation"@[0] == 'a');
    assert("theme_reload"@.len() == 12 && "theme_reload"@[0] == 't');
    assert("resize"@.len() == 6 && "resize"@[0] == 'r');
    assert("keyboard_traversal"@.len() == 18 && "keyboard_traversal"@[0] == 'k');
    assert("backend_update"@.len() == 14 && "backend_update"@[0] == 'b');
}

/// `payload[key]` when it is a string.
pub open spec fn text_field(payload: JsonView, key: Seq<char>) -> Option<Seq<char>> {
    match payload.field(key) {
        Some(JsonView::Str(s)) => Some(s),
        _ => None,
    }
}

/// `payload[key]` when it is a string that is not blank.
pub open spec fn nonblank_field(payload: JsonView, key: Seq<char>) -> Option<Seq<char>> {
    match text_field(payload, key) {
        Some(s) => if text::is_blank(s) {
            None
        } else {
            Some(s)
        },
        None => None,
    }
}

/// `payload[key]` when it is a boolean, `false` otherwise.
pub open spec fn flag_field(payload: JsonView, key: Seq<char>) -> bool {
    match payload.field(key) {
        Some(JsonView::Bool(b)) => b,
        _ => false,
    }
}

/// The request that a command on a shell-owned configuration interface
/// stands for; `None` for every other interface or command, and whenever a
/// required argument is missing, blank or of the wrong type.
pub open spec fn core_service_request_of(
    interface: Seq<char>,
    command: Seq<char>,
    payload: JsonView,
) -> Option<RequestView> {
    if interface == "mesh.settings"@ && command == "set_prop"@ {
        match (
            nonblank_field(payload, "module_id"@),
            nonblank_field(payload, "prop"@),
            payload.field("value"@),
        ) {
            (Some(module_id), Some(prop), Some(value)) => Some(
                RequestView::SetModuleProp {
                    module_id,
                    instance_id: text_field(payload, "instance_id"@),
                    prop,
                    value,
                },
            ),
            _ => None,
        }
    } else if interface == "mesh.settings"@ && command == "unset_prop"@ {
        match (nonblank_field(payload, "module_id"@), nonblank_field(payload, "prop"@)) {
            (Some(module_id), Some(prop)) => Some(
                RequestView::UnsetModuleProp {
                    module_id,
                    instance_id: text_field(payload, "instance_id"@),
                    prop,
                },
            ),
            _ => None,
        }
    } else if interface == "mesh.packages"@ && command == "set_module_enabled"@ {
        match (nonblank_field(payload, "module_id"@), payload.field("enabled"@)) {
            (Some(module_id), Some(JsonView::Bool(enabled))) => Some(
                RequestView::SetModuleEnabled { module_id, enabled },
            ),
            _ => None,
        }
    } else if interface == "mesh.packages"@ && command == "install"@ {
        match nonblank_field(payload, "source"@) {
            Some(source) => Some(
                RequestView::InstallModule {
                    source,
                    profile_id: nonblank_field(payload, "profile_id"@),
                    available_only: flag_field(payload, "available_only"@),
                    allow_elevated: flag_field(payload, "allow_elevated"@),
                    allow_high: flag_field(payload, "allow_high"@),
                },
            ),
            None => None,
        }
    } else if interface == "mesh.packages"@ && command == "uninstall"@ {
        match nonblank_field(payload, "module_id"@) {
            Some(module_id) => Some(
                RequestView::UninstallModule { module_id, force: flag_field(payload, "force"@) },
            ),
            None => None,
        }
    } else if interface == "mesh.packages"@ && command == "set_provider"@ {
        match (nonblank_field(payload, "interface"@), nonblank_field(payload, "provider_id"@)) {
            (Some(i), Some(provider_id)) => Some(
                RequestView::SetProvider { interface: i, provider_id },
            ),
            _ => None,
        }
    } else if interface == "mesh.packages"@ && command == "switch_profile"@ {
        match nonblank_field(payload, "profile_id"@) {
            Some(profile_id) => Some(RequestView::SwitchProfile { profile_id }),
            None => None,
        }
    } else if interface == "mesh.composition"@ && command == "apply_node_slot"@ {
        match (
            nonblank_field(payload, "profile_id"@),
            nonblank_field(payload, "root_instance"@),
            nonblank_field(payload, "slot"@),
            payload.field("nodes"@),
            nonblank_field(payload, "expected_generation"@),
        ) {
            (
                Some(profile_id),
                Some(root_instance),
                Some(slot),
                Some(nodes),
                Some(expected_generation),
            ) => Some(
                RequestView::ApplyNodeSlot {
                    profile_id,
                    root_instance,
                    slot,
                    nodes,
                    expected_generation,
                },
            ),
            _ => None,
        }
    } else if interface == "mesh.composition"@ && command == "reset_node_slot"@ {
        match (
            nonblank_field(payload, "profile_id"@),
            nonblank_field(payload, "root_instance"@),
            nonblank_field(payload, "slot"@),
            nonblank_field(payload, "expected_generation"@),
        ) {
            (Some(profile_id), Some(root_instance), Some(slot), Some(expected_generation)) => Some(
                RequestView::ResetNodeSlot { profile_id, root_instance, slot, expected_generation },
            ),
            _ => None,
        }
    } else {
        None
    }
}

/// `payload[key]` as text when it is a string.
pub fn text_arg(payload: &JsonValue, key: &str) -> (r: Option<String>)
    ensures
        opt_text(r) == text_field(payload@, key@),
{
    match payload.get(key) {
        Some(value) => match value.as_str() {
            Some(s) => Some(String::from_str(s)),
            None => None,
        },
        None => None,
    }
}

/// `payload[key]` as text when it is a string that is not blank.
pub fn nonblank_arg(payload: &JsonValue, key: &str) -> (r: Option<String>)
    ensures
        opt_text(r) == nonblank_field(payload@, key@),
{
    match text_arg(payload, key) {
        Some(s) => if text::trims_to_empty(s.as_str()) {
            None
        } else {
            Some(s)
        },
        None => None,
    }
}

/// `payload[key]` when it is a boolean, `false` otherwise.
pub fn flag_arg(payload: &JsonValue, key: &str) -> (r: bool)
    ensures
        r == flag_field(payload@, key@),
{
    match payload.get(key) {
        Some(value) => match value.as_bool() {
            Some(b) => b,
            None => false,
        },
        None => false,
    }
}

/// A copy of `payload[key]`.
pub fn value_arg(payload: &JsonValue, key: &str) -> (r: Option<JsonValue>)
    ensures
        match r {
            Some(v) => payload@.field(key@) == Some(v@),
            None => payload@.field(key@) is None,
        },
{
    match payload.get(key) {
        Some(value) => Some(value.duplicate()),
        None => None,
    }
}

/// Translates a command on one of the shell-owned configuration interfaces
/// (settings, packages, composition) into the request that performs it.
/// Argument extraction is strict: a payload that does not carry every
/// required argument yields `None`, as does every other interface.
pub fn core_service_request(interface: &str, command: &str, payload: &JsonValue) -> (r: Option<
    CoreRequest,
>)
    ensures
        opt_request(r) == core_service_request_of(interface@, command@, payload@),
{
    let settings = text::str_eq(interface, "mesh.settings");
    let packages = text::str_eq(interface, "mesh.packages");
    let composition = text::str_eq(interface, "mesh.composition");
    if settings && text::str_eq(command, "set_prop") {
        let module_id = nonblank_arg(payload, "module_id");
        let instance_id = text_arg(payload, "instance_id");
        let prop = nonblank_arg(payload, "prop");
        let value = value_arg(payload, "value");
        match (module_id, prop, value) {
            (Some(module_id), Some(prop), Some(value)) => Some(
                CoreRequest::SetModuleProp { module_id, instance_id, prop, value },
            ),
            _ => None,
        }
    } else if settings && text::str_eq(command, "unset_prop") {
        let module_id = nonblank_arg(payload, "module_id");
        let instance_id = text_arg(payload, "instance_id");
        let prop = nonblank_arg(payload, "prop");
        match (module_id, prop) {
            (Some(module_id), Some(prop)) => Some(
                CoreRequest::UnsetModuleProp { module_id, instance_id, prop },
            ),
            _ => None,
        }
    } else if packages && text::str_eq(command, "set_module_enabled") {
        let module_id = nonblank_arg(payload, "module_id");
        let enabled = match payload.get("enabled") {
            Some(v) => v.as_bool(),
            None => None,
        };
        match (module_id, enabled) {
            (Some(module_id), Some(enabled)) => Some(
                CoreRequest::SetModuleEnabled { module_id, enabled },
            ),
            _ => None,
        }
    } else if packages && text::str_eq(command, "install") {
        match nonblank_arg(payload, "source") {
            Some(source) => Some(
                CoreRequest::InstallModule {
                    source,
                    profile_id: nonblank_arg(payload, "profile_id"),
                    available_only: flag_arg(payload, "available_only"),
                    allow_elevated: flag_arg(payload, "allow_elevated"),
                    allow_high: flag_arg(payload, "allow_high"),
                },
            ),
            None => None,
        }
    } else if packages && text::str_eq(command, "uninstall") {
        match nonblank_arg(payload, "module_id") {
            Some(module_id) => Some(
                CoreRequest::UninstallModule { module_id, force: flag_arg(payload, "force") },
            ),
            None => None,
        }
    } else if packages && text::str_eq(command, "set_provider") {
        let i = nonblank_arg(payload, "interface");
        let provider_id = nonblank_arg(payload, "provider_id");
        match (i, provider_id) {
            (Some(i), Some(provider_id)) => Some(
                CoreRequest::SetProvider { interface: i, provider_id },
            ),
            _ => None,
        }
    } else if packages && text::str_eq(command, "switch_profile") {
        match nonblank_arg(payload, "profile_id") {
            Some(profile_id) => Some(CoreRequest::SwitchProfile { profile_id }),
            None => None,
        }
    } else if composition && text::str_eq(command, "apply_node_slot") {
        let profile_id = nonblank_arg(payload, "profile_id");
        let root_instance = nonblank_arg(payload, "root_instance");
        let slot = nonblank_arg(payload, "slot");
        let nodes = value_arg(payload, "nodes");
        let expected_generation = nonblank_arg(payload, "expected_generation");
        match (profile_id, root_instance, slot, nodes, expected_generation) {
            (
                Some(profile_id),
                Some(root_instance),
                Some(slot),
                Some(nodes),
                Some(expected_generation),
            ) => Some(
                CoreRequest::ApplyNodeSlot {
                    profile_id,
                    root_instance,
                    slot,
                    nodes,
                    expected_generation,
                },
            ),
            _ => None,
        }
    } else if composition && text::str_eq(command, "reset_node_slot") {
        let profile_id = nonblank_arg(payload, "profile_id");
        let root_instance = nonblank_arg(payload, "root_instance");
        let slot = nonblank_arg(payload, "slot");
        let expected_generation = nonblank_arg(payload, "expected_generation");
        match (profile_id, root_instance, slot, expected_generation) {
            (Some(profile_id), Some(root_instance), Some(slot), Some(expected_generation)) => Some(
                CoreRequest::ResetNodeSlot { profile_id, root_instance, slot, expected_generation },
            ),
            _ => None,
        }
    } else {
        None
    }
}

/// The failure payload of a service command that cannot be delivered.
pub open spec fn failure_payload(error: Seq<char>, status: Seq<char>) -> JsonView {
    JsonView::Object(seq![]).with_field("ok"@, JsonView::Bool(false)).with_field(
        "error"@,
        JsonView::Str(error),
    ).with_field("status"@, JsonView::Str(status))
}

fn failure_response(error: &str, status: &str) -> (r: JsonValue)
    ensures
        r@ == failure_payload(error@, status@),
{
    let mut v = JsonValue::empty_object();
    v.set_field("ok", JsonValue::boolean(false));
    v.set_field("error", JsonValue::text(error));
    v.set_field("status", JsonValue::text(status));
    v
}

/// Canonical failure payload when a service command cannot be delivered:
/// no backend channel, a send failure, or an unregistered interface.
pub fn service_unavailable_response() -> (r: JsonValue)
    ensures
        r@ == failure_payload("service_unavailable"@, "service_unavailable"@),
{
    failure_response("service_unavailable", "service_unavailable")
}

/// Failure payload when a provider's command queue is full.
pub fn service_queue_full_response() -> (r: JsonValue)
    ensures
        r@ == failure_payload("command_queue_full"@, "queue_full"@),
{
    failure_response("command_queue_full", "queue_full")
}

/// Only the shell-owned configuration interfaces become core requests;
/// commands on every interface a backend module owns are routed to it.
pub proof fn law_only_shell_owned_interfaces_become_core_requests(
    interface: Seq<char>,
    command: Seq<char>,
    payload: JsonView,
)
    requires
        interface != "mesh.settings"@,
        interface != "mesh.packages"@,
        interface != "mesh.composition"@,
    ensures
        core_service_request_of(interface, command, payload) is None,
{
}

/// Each command on a shell-owned configuration interface that carries the
/// arguments it needs (texts that are not blank) becomes the request it
/// names, with those arguments: a module's prop set or unset, a module
/// enabled or disabled, installed or uninstalled, a provider selected, a
/// profile switched to, a node slot applied or reset. A profile switch
/// without a profile to switch to becomes nothing.
pub proof fn law_shell_owned_commands_become_their_requests(
    payload: JsonView,
    a: Seq<char>,
    b: Seq<char>,
    c: Seq<char>,
    d: Seq<char>,
    v: JsonView,
    flag: bool,
)
    ensures
        payload.field("module_id"@) == Some(JsonView::Str(a)) && !text::is_blank(a) && payload.field("prop"@) == Some(JsonView::Str(b)) && !text::is_blank(b) && payload.field("value"@) == Some(v) ==> (core_service_request_of("mesh.settings"@, "set_prop"@, payload) matches Some(RequestView::SetModuleProp { module_id, prop, value, .. }) && module_id == a && prop == b && value == v),
        payload.field("module_id"@) == Some(JsonView::Str(a)) && !text::is_blank(a) && payload.field("prop"@) == Some(JsonView::Str(b)) && !text::is_blank(b) ==> (core_service_request_of("mesh.settings"@, "unset_prop"@, payload) matches Some(RequestView::UnsetModuleProp { module_id, prop, .. }) && module_id == a && prop == b),
        payload.field("module_id"@) == Some(JsonView::Str(a)) && !text::is_blank(a) && payload.field("enabled"@) == Some(JsonView::Bool(flag)) ==> core_service_request_of("mesh.packages"@, "set_module_enabled"@, payload) == Some(RequestView::SetModuleEnabled { module_id: a, enabled: flag }),
        payload.field("source"@) == Some(JsonView::Str(a)) && !text::is_blank(a) ==> (core_service_request_of("mesh.packages"@, "install"@, payload) matches Some(RequestView::InstallModule { source, .. }) && source == a),
        payload.field("module_id"@) == Some(JsonView::Str(a)) && !text::is_blank(a) ==> (core_service_request_of("mesh.packages"@, "uninstall"@, payload) matches Some(RequestView::UninstallModule { module_id, .. }) && module_id == a),
        payload.field("interface"@) == Some(JsonView::Str(a)) && !text::is_blank(a) && payload.field("provider_id"@) == Some(JsonView::Str(b)) && !text::is_blank(b) ==> core_service_request_of("mesh.packages"@, "set_provider"@, payload) == Some(RequestView::SetProvider { interface: a, provider_id: b }),
        payload.field("profile_id"@) == Some(JsonView::Str(a)) && !text::is_blank(a) ==> core_service_request_of("mesh.packages"@, "switch_profile"@, payload) == Some(RequestView::SwitchProfile { profile_id: a }),
        payload.field("profile_id"@) == Some(JsonView::Str(a)) && !text::is_blank(a) && payload.field("root_instance"@) == Some(JsonView::Str(b)) && !text::is_blank(b) && payload.field("slot"@) == Some(JsonView::Str(c)) && !text::is_blank(c) && payload.field("nodes"@) == Some(v) && payload.field("expected_generation"@) == Some(JsonView::Str(d)) && !text::is_blank(d) ==> core_service_request_of("mesh.composition"@, "apply_node_slot"@, payload) == Some(RequestView::ApplyNodeSlot { profile_id: a, root_instance: b, slot: c, nodes: v, expected_generation: d }),
        payload.field("profile_id"@) == Some(JsonView::Str(a)) && !text::is_blank(a) && payload.field("root_instance"@) == Some(JsonView::Str(b)) && !text::is_blank(b) && payload.field("slot"@) == Some(JsonView::Str(c)) && !text::is_blank(c) && payload.field("expected_generation"@) == Some(JsonView::Str(d)) && !text::is_blank(d) ==> core_service_request_of("mesh.composition"@, "reset_node_slot"@, payload) == Some(RequestView::ResetNodeSlot { profile_id: a, root_instance: b, slot: c, expected_generation: d }),
        (match payload.field("profile_id"@) { Some(JsonView::Str(t)) => text::is_blank(t), _ => true }) ==> core_service_request_of("mesh.packages"@, "switch_profile"@, payload) is None,
{
    reveal_strlit("apply_node_slot");
    reveal_strlit("install");
    reveal_strlit("mesh.composition");
    reveal_strlit("mesh.packages");
    reveal_strlit("mesh.settings");
    reveal_strlit("reset_node_slot");
    reveal_strlit("set_module_enabled");
    reveal_strlit("set_prop");
    reveal_strlit("set_provider");
    reveal_strlit("switch_profile");
    reveal_strlit("uninstall");
    reveal_strlit("unset_prop");
    assert("unset_prop"@.len() != "set_prop"@.len());
    assert("mesh.packages"@[5] != "mesh.settings"@[5]);
    assert("install"@.len() != "set_module_enabled"@.len());
    assert("uninstall"@.len() != "set_module_enabled"@.len());
    assert("uninstall"@.len() != "install"@.len());
    assert("set_provider"@.len() != "set_module_enabled"@.len());
    assert("set_provider"@.len() != "install"@.len());
    assert("set_provider"@.len() != "uninstall"@.len());
    assert("switch_profile"@.len() != "set_module_enabled"@.len());
    assert("switch_profile"@.len() != "install"@.len());
    assert("switch_profile"@.len() != "uninstall"@.len());
    assert("switch_profile"@.len() != "set_provider"@.len());
    assert("mesh.composition"@.len() != "mesh.settings"@.len());
    assert("mesh.composition"@.len() != "mesh.packages"@.len());
    assert("reset_node_slot"@[0] != "apply_node_slot"@[0]);
}

} // verus!
