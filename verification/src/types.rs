//! The requests that components and the shell itself ask the shell to carry
//! out, and the small value types they mention.
use vstd::prelude::*;
use crate::json::{JsonValue, JsonView};
use crate::text;

verus! {

/// How a surface is realized by the compositor.
#[derive(Debug, Clone, Copy, PartialEq, Eq, Structural)]
pub enum SurfaceRole {
    Layer,
    Window,
}

/// Keyboard interactivity requested for a layer surface.
#[derive(Debug, Clone, Copy, PartialEq, Eq, Structural)]
pub enum KeyboardMode {
    NoInteractivity,
    Exclusive,
    OnDemand,
}

/// Where focus lands on the target surface of a tab-focus transfer: its
/// first focusable node, or the node with a given key.
#[derive(Debug, Clone, PartialEq, Eq)]
pub enum TabFocusTarget {
    First,
    AtKey(String),
}

/// A set of granted capability identifiers.
#[derive(Debug)]
pub struct CapabilitySet {
    pub granted: Vec<String>,
}

/// The granted identifiers, in the order they were granted.
pub open spec fn capability_texts(granted: Seq<String>) -> Seq<Seq<char>> {
    Seq::new(granted.len(), |i: int| granted[i]@)
}

impl View for CapabilitySet {
    type V = Seq<Seq<char>>;

    open spec fn view(&self) -> Seq<Seq<char>> {
        capability_texts(self.granted@)
    }
}

impl CapabilitySet {
    /// Whether `capability` is one of the granted identifiers.
    pub open spec fn grants(self, capability: Seq<char>) -> bool {
        exists|i: int| 0 <= i < self.granted@.len() && #[trigger] self.granted@[i]@ == capability
    }

    /// A copy granting the same identifiers.
    pub fn duplicate(&self) -> (r: CapabilitySet)
        ensures
            r@ == self@,
            forall|c: Seq<char>| r.grants(c) == self.grants(c),
    {
        let mut granted: Vec<String> = Vec::new();
        let mut i: usize = 0;
        while i < self.granted.len()
            invariant
                i <= self.granted@.len(),
                granted@.len() == i,
                forall|j: int| 0 <= j < i ==> #[trigger] granted@[j]@ == self.granted@[j]@,
            decreases self.granted.len() - i,
        {
            granted.push(self.granted[i].clone());
            i = i + 1;
        }
        let r = CapabilitySet { granted };
        assert(r@ =~= self@);
        assert forall|c: Seq<char>| r.grants(c) == self.grants(c) by {
            if r.grants(c) {
                let j = choose|j: int| 0 <= j < r.granted@.len() && #[trigger] r.granted@[j]@ == c;
                assert(self.granted@[j]@ == c);
            }
            if self.granted@.len() > 0 && self.grants(c) {
                let j = choose|j: int| 0 <= j < self.granted@.len() && #[trigger] self.granted@[j]@ == c;
                assert(r.granted@[j]@ == c);
            }
        }
        r
    }

    pub fn new() -> (r: CapabilitySet)
        ensures
            r.granted@.len() == 0,
    {
        CapabilitySet { granted: Vec::new() }
    }

    pub fn grant(&mut self, capability: &str)
        ensures
            final(self).granted@.len() == old(self).granted@.len() + 1,
            final(self).granted@.drop_last() == old(self).granted@,
            final(self).granted@.last()@ == capability@,
    {
        self.granted.push(String::from_str(capability));
    }

    pub fn is_granted(&self, capability: &str) -> (r: bool)
        ensures
            r == self.grants(capability@),
    {
        let mut i: usize = 0;
        while i < self.granted.len()
            invariant
                i <= self.granted@.len(),
                forall|j: int| 0 <= j < i ==> self.granted@[j]@ != capability@,
            decreases self.granted.len() - i,
        {
            if text::str_eq(self.granted[i].as_str(), capability) {
                return true;
            }
            i = i + 1;
        }
        false
    }
}


/// A request for the shell to act: change a surface, route a service command,
/// change appearance or composition settings, or drive the debug tooling.
#[derive(Debug)]
pub enum CoreRequest {
    PositionSurface { surface_id: String, margin_top: i32, margin_left: i32 },
    ToggleSurface { surface_id: String },
    ShowSurface { surface_id: String },
    HideSurface { surface_id: String },
    HidePopover { surface_id: String, defer_for_hover_bridge: bool },
    SetSurfaceRole { surface_id: String, role: SurfaceRole },
    ToggleSurfaceRole { surface_id: String },
    SetChildSurfaceRole { surface_id: String, node_key: String, role: SurfaceRole },
    PublishDiagnostics { message: String },
    WriteClipboard { text: String },
    ServiceCommand {
        interface: String,
        command: String,
        payload: JsonValue,
        source_module_id: String,
        source_capabilities: CapabilitySet,
    },
    ServiceCall {
        interface: String,
        command: String,
        payload: JsonValue,
        call_id: u64,
        source_instance_id: String,
        source_module_id: String,
        source_capabilities: CapabilitySet,
    },
    CancelServiceCall {
        interface: String,
        call_id: u64,
        source_instance_id: String,
        source_module_id: String,
        source_capabilities: CapabilitySet,
    },
    ActivatePopover { surface_id: String, trigger_surface: String, trigger_key: String, focus: bool },
    TransferTabFocus {
        from_surface: String,
        to_surface: String,
        target: TabFocusTarget,
        return_target: Option<(String, String)>,
        target_closes_on_leave: bool,
        close_source: Option<String>,
    },
    SetTheme { theme_id: String },
    SetThemeMode { mode: String },
    SetLocale { locale: String },
    SetIconTheme { theme_id: String },
    SetFontFamily { family: String },
    SetProvider { interface: String, provider_id: String },
    SetModuleEnabled { module_id: String, enabled: bool },
    InstallModule {
        source: String,
        profile_id: Option<String>,
        available_only: bool,
        allow_elevated: bool,
        allow_high: bool,
    },
    UninstallModule { module_id: String, force: bool },
    SetModuleProp { module_id: String, instance_id: Option<String>, prop: String, value: JsonValue },
    UnsetModuleProp { module_id: String, instance_id: Option<String>, prop: String },
    ApplyNodeSlot {
        profile_id: String,
        root_instance: String,
        slot: String,
        nodes: JsonValue,
        expected_generation: String,
    },
    ResetNodeSlot {
        profile_id: String,
        root_instance: String,
        slot: String,
        expected_generation: String,
    },
    SwitchProfile { profile_id: String },
    ToggleDebugOverlay,
    ToggleDebugLayoutBounds,
    ToggleDebugElementPicker,
    OpenDebugSource { path: String, line: u32 },
    ToggleDebugProfiling,
    RunDebugBenchmark { scenario_id: String },
    CycleDebugTab,
    Shutdown,
}

/// The content of a request, its texts as character sequences.
pub enum RequestView {
    PositionSurface { surface_id: Seq<char>, margin_top: i32, margin_left: i32 },
    ToggleSurface { surface_id: Seq<char> },
    ShowSurface { surface_id: Seq<char> },
    HideSurface { surface_id: Seq<char> },
    HidePopover { surface_id: Seq<char>, defer_for_hover_bridge: bool },
    SetSurfaceRole { surface_id: Seq<char>, role: SurfaceRole },
    ToggleSurfaceRole { surface_id: Seq<char> },
    SetChildSurfaceRole { surface_id: Seq<char>, node_key: Seq<char>, role: SurfaceRole },
    PublishDiagnostics { message: Seq<char> },
    WriteClipboard { text: Seq<char> },
    ServiceCommand {
        interface: Seq<char>,
        command: Seq<char>,
        payload: JsonView,
        source_module_id: Seq<char>,
        source_capabilities: Seq<Seq<char>>,
    },
    ServiceCall {
        interface: Seq<char>,
        command: Seq<char>,
        payload: JsonView,
        call_id: u64,
        source_instance_id: Seq<char>,
        source_module_id: Seq<char>,
        source_capabilities: Seq<Seq<char>>,
    },
    CancelServiceCall {
        interface: Seq<char>,
        call_id: u64,
        source_instance_id: Seq<char>,
        source_module_id: Seq<char>,
        source_capabilities: Seq<Seq<char>>,
    },
    ActivatePopover {
        surface_id: Seq<char>,
        trigger_surface: Seq<char>,
        trigger_key: Seq<char>,
        focus: bool,
    },
    TransferTabFocus {
        from_surface: Seq<char>,
        to_surface: Seq<char>,
        target: TabFocusTarget,
        return_target: Option<(Seq<char>, Seq<char>)>,
        target_closes_on_leave: bool,
        close_source: Option<Seq<char>>,
    },
    SetTheme { theme_id: Seq<char> },
    SetThemeMode { mode: Seq<char> },
    SetLocale { locale: Seq<char> },
    SetIconTheme { theme_id: Seq<char> },
    SetFontFamily { family: Seq<char> },
    SetProvider { interface: Seq<char>, provider_id: Seq<char> },
    SetModuleEnabled { module_id: Seq<char>, enabled: bool },
    InstallModule {
        source: Seq<char>,
        profile_id: Option<Seq<char>>,
        available_only: bool,
        allow_elevated: bool,
        allow_high: bool,
    },
    UninstallModule { module_id: Seq<char>, force: bool },
    SetModuleProp {
        module_id: Seq<char>,
        instance_id: Option<Seq<char>>,
        prop: Seq<char>,
        value: JsonView,
    },
    UnsetModuleProp { module_id: Seq<char>, instance_id: Option<Seq<char>>, prop: Seq<char> },
    ApplyNodeSlot {
        profile_id: Seq<char>,
        root_instance: Seq<char>,
        slot: Seq<char>,
        nodes: JsonView,
        expected_generation: Seq<char>,
    },
    ResetNodeSlot {
        profile_id: Seq<char>,
        root_instance: Seq<char>,
        slot: Seq<char>,
        expected_generation: Seq<char>,
    },
    SwitchProfile { profile_id: Seq<char> },
    ToggleDebugOverlay,
    ToggleDebugLayoutBounds,
    ToggleDebugElementPicker,
    OpenDebugSource { path: Seq<char>, line: u32 },
    ToggleDebugProfiling,
    RunDebugBenchmark { scenario_id: Seq<char> },
    CycleDebugTab,
    Shutdown,
}

pub open spec fn opt_text(o: Option<String>) -> Option<Seq<char>> {
    match o {
        Some(s) => Some(s@),
        None => None,
    }
}

pub open spec fn opt_text_pair(o: Option<(String, String)>) -> Option<(Seq<char>, Seq<char>)> {
    match o {
        Some(p) => Some((p.0@, p.1@)),
        None => None,
    }
}

impl View for CoreRequest {
    type V = RequestView;

    open spec fn view(&self) -> RequestView {
        match self {
            CoreRequest::PositionSurface { surface_id, margin_top, margin_left } =>
                RequestView::PositionSurface {
                surface_id: surface_id@,
                margin_top: *margin_top,
                margin_left: *margin_left,
            },
            CoreRequest::ToggleSurface { surface_id } => RequestView::ToggleSurface {
                surface_id: surface_id@,
            },
            CoreRequest::ShowSurface { surface_id } => RequestView::ShowSurface {
                surface_id: surface_id@,
            },
            CoreRequest::HideSurface { surface_id } => RequestView::HideSurface {
                surface_id: surface_id@,
            },
            CoreRequest::HidePopover { surface_id, defer_for_hover_bridge } =>
                RequestView::HidePopover {
                surface_id: surface_id@,
                defer_for_hover_bridge: *defer_for_hover_bridge,
            },
            CoreRequest::SetSurfaceRole { surface_id, role } => RequestView::SetSurfaceRole {
                surface_id: surface_id@,
                role: *role,
            },
            CoreRequest::ToggleSurfaceRole { surface_id } => RequestView::ToggleSurfaceRole {
                surface_id: surface_id@,
            },
            CoreRequest::SetChildSurfaceRole { surface_id, node_key, role } =>
                RequestView::SetChildSurfaceRole {
                surface_id: surface_id@,
                node_key: node_key@,
                role: *role,
            },
            CoreRequest::PublishDiagnostics { message } => RequestView::PublishDiagnostics {
                message: message@,
            },
            CoreRequest::WriteClipboard { text } => RequestView::WriteClipboard { text: text@ },
            CoreRequest::ServiceCommand {
                interface,
                command,
                payload,
                source_module_id,
                source_capabilities,
            } => RequestView::ServiceCommand {
                interface: interface@,
                command: command@,
                payload: payload@,
                source_module_id: source_module_id@,
                source_capabilities: source_capabilities@,
            },
            CoreRequest::ServiceCall {
                interface,
                command,
                payload,
                call_id,
                source_instance_id,
                source_module_id,
                source_capabilities,
            } => RequestView::ServiceCall {
                interface: interface@,
                command: command@,
                payload: payload@,
                call_id: *call_id,
                source_instance_id: source_instance_id@,
                source_module_id: source_module_id@,
                source_capabilities: source_capabilities@,
            },
            CoreRequest::CancelServiceCall {
                interface,
                call_id,
                source_instance_id,
                source_module_id,
                source_capabilities,
            } => RequestView::CancelServiceCall {
                interface: interface@,
                call_id: *call_id,
                source_instance_id: source_instance_id@,
                source_module_id: source_module_id@,
                source_capabilities: source_capabilities@,
            },
            CoreRequest::ActivatePopover { surface_id, trigger_surface, trigger_key, focus } =>
                RequestView::ActivatePopover {
                surface_id: surface_id@,
                trigger_surface: trigger_surface@,
                trigger_key: trigger_key@,
                focus: *focus,
            },
            CoreRequest::TransferTabFocus {
                from_surface,
                to_surface,
                target,
                return_target,
                target_closes_on_leave,
                close_source,
            } => RequestView::TransferTabFocus {
                from_surface: from_surface@,
                to_surface: to_surface@,
                target: *target,
                return_target: opt_text_pair(*return_target),
                target_closes_on_leave: *target_closes_on_leave,
                close_source: opt_text(*close_source),
            },
            CoreRequest::SetTheme { theme_id } => RequestView::SetTheme { theme_id: theme_id@ },
            CoreRequest::SetThemeMode { mode } => RequestView::SetThemeMode { mode: mode@ },
            CoreRequest::SetLocale { locale } => RequestView::SetLocale { locale: locale@ },
            CoreRequest::SetIconTheme { theme_id } => RequestView::SetIconTheme {
                theme_id: theme_id@,
            },
            CoreRequest::SetFontFamily { family } => RequestView::SetFontFamily { family: family@ },
            CoreRequest::SetProvider { interface, provider_id } => RequestView::SetProvider {
                interface: interface@,
                provider_id: provider_id@,
            },
            CoreRequest::SetModuleEnabled { module_id, enabled } => RequestView::SetModuleEnabled {
                module_id: module_id@,
                enabled: *enabled,
            },
            CoreRequest::InstallModule {
                source,
                profile_id,
                available_only,
                allow_elevated,
                allow_high,
            } => RequestView::InstallModule {
                source: source@,
                profile_id: opt_text(*profile_id),
                available_only: *available_only,
                allow_elevated: *allow_elevated,
                allow_high: *allow_high,
            },
            CoreRequest::UninstallModule { module_id, force } => RequestView::UninstallModule {
                module_id: module_id@,
                force: *force,
            },
            CoreRequest::SetModuleProp { module_id, instance_id, prop, value } =>
                RequestView::SetModuleProp {
                module_id: module_id@,
                instance_id: opt_text(*instance_id),
                prop: prop@,
                value: value@,
            },
            CoreRequest::UnsetModuleProp { module_id, instance_id, prop } =>
                RequestView::UnsetModuleProp {
                module_id: module_id@,
                instance_id: opt_text(*instance_id),
                prop: prop@,
            },
            CoreRequest::ApplyNodeSlot {
                profile_id,
                root_instance,
                slot,
                nodes,
                expected_generation,
            } => RequestView::ApplyNodeSlot {
                profile_id: profile_id@,
                root_instance: root_instance@,
                slot: slot@,
                nodes: nodes@,
                expected_generation: expected_generation@,
            },
            CoreRequest::ResetNodeSlot { profile_id, root_instance, slot, expected_generation } =>
                RequestView::ResetNodeSlot {
                profile_id: profile_id@,
                root_instance: root_instance@,
                slot: slot@,
                expected_generation: expected_generation@,
            },
            CoreRequest::SwitchProfile { profile_id } => RequestView::SwitchProfile {
                profile_id: profile_id@,
            },
            CoreRequest::ToggleDebugOverlay => RequestView::ToggleDebugOverlay,
            CoreRequest::ToggleDebugLayoutBounds => RequestView::ToggleDebugLayoutBounds,
            CoreRequest::ToggleDebugElementPicker => RequestView::ToggleDebugElementPicker,
            CoreRequest::OpenDebugSource { path, line } => RequestView::OpenDebugSource {
                path: path@,
                line: *line,
            },
            CoreRequest::ToggleDebugProfiling => RequestView::ToggleDebugProfiling,
            CoreRequest::RunDebugBenchmark { scenario_id } => RequestView::RunDebugBenchmark {
                scenario_id: scenario_id@,
            },
            CoreRequest::CycleDebugTab => RequestView::CycleDebugTab,
            CoreRequest::Shutdown => RequestView::Shutdown,
        }
    }
}

pub open spec fn opt_request(o: Option<CoreRequest>) -> Option<RequestView> {
    match o {
        Some(r) => Some(r@),
        None => None,
    }
}

} // verus!
