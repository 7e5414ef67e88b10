//! Routing of events that component scripts publish: shell operations become
//! surface, locale and debug requests, `<interface>.<command>` channels
//! become capability-gated service commands or calls, and everything else a
//! diagnostic.
use vstd::prelude::*;
use crate::json::{JsonValue, JsonView};
use crate::requests::{text_field, text_arg};
use crate::text;
use crate::types::{CapabilitySet, CoreRequest, RequestView, SurfaceRole, opt_request, opt_text};

verus! {

/// An event a component script published.
#[derive(Debug)]
pub struct PublishedEvent {
    pub channel: String,
    pub payload: JsonValue,
    pub source_module_id: String,
    pub source_instance_id: Option<String>,
    pub source_capabilities: CapabilitySet,
    pub call_id: Option<u64>,
}

pub struct EventView {
    pub channel: Seq<char>,
    pub payload: JsonView,
    pub source_module_id: Seq<char>,
    pub source_instance_id: Option<Seq<char>>,
    pub source_capabilities: Seq<Seq<char>>,
    pub call_id: Option<u64>,
}

impl View for PublishedEvent {
    type V = EventView;

    open spec fn view(&self) -> EventView {
        EventView {
            channel: self.channel@,
            payload: self.payload@,
            source_module_id: self.source_module_id@,
            source_instance_id: opt_text(self.source_instance_id),
            source_capabilities: self.source_capabilities@,
            call_id: self.call_id,
        }
    }
}

/// Whether `capability` is among the granted identifiers.
pub open spec fn granted_in(caps: Seq<Seq<char>>, capability: Seq<char>) -> bool {
    exists|i: int| 0 <= i < caps.len() && #[trigger] caps[i] == capability
}

proof fn lemma_grants_view(set: CapabilitySet, capability: Seq<char>)
    ensures
        set.grants(capability) == granted_in(set@, capability),
{
    if set.grants(capability) {
        let i = choose|i: int| 0 <= i < set.granted@.len() && #[trigger] set.granted@[i]@ == capability;
        assert(set@[i] == capability);
    }
    if granted_in(set@, capability) {
        let i = choose|i: int| 0 <= i < set@.len() && #[trigger] set@[i] == capability;
        assert(set.granted@[i]@ == capability);
    }
}

/// The service name of an interface: the interface without its `mesh.` prefix.
pub open spec fn service_name(interface: Seq<char>) -> Seq<char> {
    if text::has_prefix(interface, "mesh."@) {
        interface.subrange(5, interface.len() as int)
    } else {
        interface
    }
}

/// The capability that admits commands on an interface.
pub open spec fn control_capability(interface: Seq<char>) -> Seq<char> {
    "service."@ + service_name(interface) + ".control"@
}

/// The capability that admits reading an interface's state.
pub open spec fn read_capability(interface: Seq<char>) -> Seq<char> {
    "service."@ + service_name(interface) + ".read"@
}

/// `mesh.audio` names the service `audio`; a name without the prefix is
/// already a service name.
pub fn service_name_from_interface(interface: &str) -> (r: String)
    ensures
        r@ == service_name(interface@),
{
    proof {
        reveal_strlit("mesh.");
    }
    if text::starts_with(interface, "mesh.") {
        text::char_slice(interface, 5, interface.unicode_len())
    } else {
        String::from_str(interface)
    }
}

/// The capabilities derived from an interface name.
#[derive(Debug)]
pub struct ServiceCapabilities {
    pub service_name: String,
    pub read: String,
    pub control: String,
    pub theme: Option<String>,
    pub locale: Option<String>,
}

/// The service name, read and control capabilities of an interface, and the
/// theme or locale read capability for the theme and locale interfaces.
pub fn service_capabilities(interface: &str) -> (r: ServiceCapabilities)
    ensures
        r.service_name@ == service_name(interface@),
        r.read@ == read_capability(interface@),
        r.control@ == control_capability(interface@),
        opt_text(r.theme) == if interface@ == "mesh.theme"@ {
            Some("theme.read"@)
        } else {
            None
        },
        opt_text(r.locale) == if interface@ == "mesh.locale"@ {
            Some("locale.read"@)
        } else {
            None
        },
{
    let service_name = service_name_from_interface(interface);
    let read = text::concat3("service.", service_name.as_str(), ".read");
    let control = text::concat3("service.", service_name.as_str(), ".control");
    let theme = if text::str_eq(interface, "mesh.theme") {
        Some(String::from_str("theme.read"))
    } else {
        None
    };
    let locale = if text::str_eq(interface, "mesh.locale") {
        Some(String::from_str("locale.read"))
    } else {
        None
    };
    ServiceCapabilities { service_name, read, control, theme, locale }
}

/// `payload[key]` as an `i32`, when it is an integer in range.
pub open spec fn i32_field(payload: JsonView, key: Seq<char>) -> Option<i32> {
    match payload.field(key) {
        Some(v) => match v.i64_of() {
            Some(n) => if i32::MIN <= n <= i32::MAX {
                Some(n as i32)
            } else {
                None
            },
            None => None,
        },
        None => None,
    }
}

pub fn payload_i32(payload: &JsonValue, key: &str) -> (r: Option<i32>)
    ensures
        r == i32_field(payload@, key@),
{
    match payload.get(key) {
        Some(v) => match v.as_i64() {
            Some(n) => if -0x8000_0000i64 <= n && n <= 0x7fff_ffffi64 {
                Some(n as i32)
            } else {
                None
            },
            None => None,
        },
        None => None,
    }
}

/// The surface role a role name stands for.
pub open spec fn role_named(name: Seq<char>) -> Option<SurfaceRole> {
    if name == "layer"@ {
        Some(SurfaceRole::Layer)
    } else if name == "window"@ {
        Some(SurfaceRole::Window)
    } else {
        None
    }
}

pub fn parse_surface_role(name: &str) -> (r: Option<SurfaceRole>)
    ensures
        r == role_named(name@),
{
    if text::str_eq(name, "layer") {
        Some(SurfaceRole::Layer)
    } else if text::str_eq(name, "window") {
        Some(SurfaceRole::Window)
    } else {
        None
    }
}

pub open spec fn role_field(payload: JsonView) -> Option<SurfaceRole> {
    match text_field(payload, "role"@) {
        Some(name) => role_named(name),
        None => None,
    }
}

pub open spec fn flag_or(payload: JsonView, key: Seq<char>, default: bool) -> bool {
    match payload.field(key) {
        Some(JsonView::Bool(b)) => b,
        _ => default,
    }
}

/// The text of a diagnostic for an operation that no route accepts.
pub open spec fn dropped_message(channel: Seq<char>, reason: Seq<char>) -> Seq<char> {
    "operation '"@ + channel + "' dropped: "@ + reason
}

pub open spec fn diagnostic(message: Seq<char>) -> RequestView {
    RequestView::PublishDiagnostics { message }
}

/// The line a debug source request opens: the requested line clamped to
/// `1..=u32::MAX`, line 1 when none is given.
pub open spec fn source_line(payload: JsonView) -> u32 {
    match payload.field("line"@) {
        Some(v) => match v.u64_of() {
            Some(n) => if n < 1 {
                1
            } else if n > u32::MAX {
                u32::MAX
            } else {
                n as u32
            },
            None => 1,
        },
        None => 1,
    }
}

/// A surface request naming `payload.surface_id`.
pub open spec fn surface_route(e: EventView, make: spec_fn(Seq<char>) -> RequestView) -> Option<
    RequestView,
> {
    match text_field(e.payload, "surface_id"@) {
        Some(id) => Some(make(id)),
        None => None,
    }
}

/// The route of a service call cancellation.
pub open spec fn cancel_route(e: EventView) -> Option<RequestView> {
    let call_id = match e.call_id {
        Some(c) => Some(c),
        None => match e.payload.field("call_id"@) {
            Some(v) => v.u64_of(),
            None => None,
        },
    };
    match (text_field(e.payload, "interface"@), call_id) {
        (Some(interface), Some(call_id)) => {
            let required = control_capability(interface);
            if !granted_in(e.source_capabilities, required) {
                Some(
                    diagnostic(
                        "Denied service call cancellation for '"@ + interface + "' from '"@
                            + e.source_module_id + "' without "@ + required,
                    ),
                )
            } else {
                match e.source_instance_id {
                    Some(instance) => Some(
                        RequestView::CancelServiceCall {
                            interface,
                            call_id,
                            source_instance_id: instance,
                            source_module_id: e.source_module_id,
                            source_capabilities: e.source_capabilities,
                        },
                    ),
                    None => None,
                }
            }
        },
        _ => None,
    }
}

/// The route of an `<interface>.<command>` channel: a service call when the
/// event carries a call ticket and an instance, a service command otherwise,
/// and a diagnostic when the source lacks the interface's control capability.
pub open spec fn service_route(e: EventView) -> RequestView {
    let ch = e.channel;
    match text::last_index_of(ch, '.') {
        Some(pos) => {
            let interface = ch.subrange(0, pos);
            let command = ch.subrange(pos + 1, ch.len() as int);
            let required = control_capability(interface);
            if granted_in(e.source_capabilities, required) {
                match (e.call_id, e.source_instance_id) {
                    (Some(call_id), Some(instance)) => RequestView::ServiceCall {
                        interface,
                        command,
                        payload: e.payload,
                        call_id,
                        source_instance_id: instance,
                        source_module_id: e.source_module_id,
                        source_capabilities: e.source_capabilities,
                    },
                    _ => RequestView::ServiceCommand {
                        interface,
                        command,
                        payload: e.payload,
                        source_module_id: e.source_module_id,
                        source_capabilities: e.source_capabilities,
                    },
                }
            } else {
                diagnostic(
                    "Denied service command '"@ + ch + "' from '"@ + e.source_module_id
                        + "' without "@ + required,
                )
            }
        },
        None => diagnostic(dropped_message(ch, "channel is not routable"@)),
    }
}

/// The request an event stands for. `rejection` is the operation registry's
/// verdict on a `shell.` operation: the text of its rejection, or `None`
/// when the operation is authorized.
pub open spec fn route_event(e: EventView, rejection: Option<Seq<char>>) -> Option<RequestView> {
    let ch = e.channel;
    let p = e.payload;
    if text::has_prefix(ch, "shell."@) && rejection is Some {
        Some(diagnostic(rejection.unwrap()))
    } else if ch == "mesh.service.cancel"@ {
        cancel_route(e)
    } else if ch == "shell.show-surface"@ {
        surface_route(e, |id: Seq<char>| RequestView::ShowSurface { surface_id: id })
    } else if ch == "shell.hide-surface"@ {
        surface_route(e, |id: Seq<char>| RequestView::HideSurface { surface_id: id })
    } else if ch == "shell.hide-popover"@ {
        surface_route(
            e,
            |id: Seq<char>|
                RequestView::HidePopover {
                    surface_id: id,
                    defer_for_hover_bridge: flag_or(p, "defer_for_hover_bridge"@, false),
                },
        )
    } else if ch == "shell.set-surface-role"@ {
        match (text_field(p, "surface_id"@), role_field(p)) {
            (Some(id), Some(role)) => Some(RequestView::SetSurfaceRole { surface_id: id, role }),
            _ => None,
        }
    } else if ch == "shell.toggle-surface-role"@ {
        surface_route(e, |id: Seq<char>| RequestView::ToggleSurfaceRole { surface_id: id })
    } else if ch == "shell.promote-widget"@ || ch == "shell.demote-widget"@ || ch
        == "shell.set-widget-role"@ {
        let role = if ch == "shell.promote-widget"@ {
            Some(SurfaceRole::Window)
        } else if ch == "shell.demote-widget"@ {
            Some(SurfaceRole::Layer)
        } else {
            role_field(p)
        };
        match (text_field(p, "surface_id"@), text_field(p, "node_key"@), role) {
            (Some(id), Some(node_key), Some(role)) => Some(
                RequestView::SetChildSurfaceRole { surface_id: id, node_key, role },
            ),
            _ => None,
        }
    } else if ch == "shell.toggle-surface"@ {
        surface_route(e, |id: Seq<char>| RequestView::ToggleSurface { surface_id: id })
    } else if ch == "shell.position-surface"@ {
        match (text_field(p, "surface_id"@), i32_field(p, "margin_top"@), i32_field(p, "margin_left"@)) {
            (Some(id), Some(margin_top), Some(margin_left)) => Some(
                RequestView::PositionSurface { surface_id: id, margin_top, margin_left },
            ),
            _ => None,
        }
    } else if ch == "shell.activate-popover"@ {
        match (
            text_field(p, "surface_id"@),
            text_field(p, "trigger_surface"@),
            text_field(p, "trigger_key"@),
        ) {
            (Some(id), Some(trigger_surface), Some(trigger_key)) => Some(
                RequestView::ActivatePopover {
                    surface_id: id,
                    trigger_surface,
                    trigger_key,
                    focus: flag_or(p, "focus"@, true),
                },
            ),
            _ => None,
        }
    } else if ch == "shell.set-locale"@ {
        match text_field(p, "locale"@) {
            Some(locale) => Some(RequestView::SetLocale { locale }),
            None => None,
        }
    } else if ch == "shell.toggle-debug-overlay"@ {
        Some(RequestView::ToggleDebugOverlay)
    } else if ch == "shell.toggle-debug-layout-bounds"@ {
        Some(RequestView::ToggleDebugLayoutBounds)
    } else if ch == "shell.toggle-debug-element-picker"@ {
        Some(RequestView::ToggleDebugElementPicker)
    } else if ch == "shell.open-debug-source"@ && e.source_module_id == "@mesh/debug-inspector"@ {
        match text_field(p, "path"@) {
            Some(path) => Some(RequestView::OpenDebugSource { path, line: source_line(p) }),
            None => None,
        }
    } else if ch == "shell.toggle-debug-profiling"@ {
        Some(RequestView::ToggleDebugProfiling)
    } else if ch == "shell.run-debug-benchmark"@ {
        match text_field(p, "scenario_id"@) {
            Some(id) => if id.len() > 0 {
                Some(RequestView::RunDebugBenchmark { scenario_id: id })
            } else {
                Some(diagnostic("debug benchmark request missing scenario_id"@))
            },
            None => Some(diagnostic("debug benchmark request missing scenario_id"@)),
        }
    } else if text::has_prefix(ch, "shell."@) {
        Some(
            diagnostic(
                dropped_message(ch, "the operation must be handled by its owning component"@),
            ),
        )
    } else {
        Some(service_route(e))
    }
}

fn grants_capability(caps: &CapabilitySet, capability: &str) -> (r: bool)
    ensures
        r == granted_in(caps@, capability@),
{
    proof {
        lemma_grants_view(*caps, capability@);
    }
    caps.is_granted(capability)
}

fn diagnostic_request(message: String) -> (r: CoreRequest)
    ensures
        r@ == diagnostic(message@),
{
    CoreRequest::PublishDiagnostics { message }
}

fn dropped_diagnostic(channel: &str, reason: &str) -> (r: CoreRequest)
    ensures
        r@ == diagnostic(dropped_message(channel@, reason@)),
{
    let message = text::concat3("operation '", channel, "' dropped: ").concat(reason);
    CoreRequest::PublishDiagnostics { message }
}

fn flag_or_default(payload: &JsonValue, key: &str, default: bool) -> (r: bool)
    ensures
        r == flag_or(payload@, key@, default),
{
    match payload.get(key) {
        Some(v) => match v.as_bool() {
            Some(b) => b,
            None => default,
        },
        None => default,
    }
}

fn role_arg(payload: &JsonValue) -> (r: Option<SurfaceRole>)
    ensures
        r == role_field(payload@),
{
    match text_arg(payload, "role") {
        Some(name) => parse_surface_role(name.as_str()),
        None => None,
    }
}

fn cancel_request(e: &PublishedEvent) -> (r: Option<CoreRequest>)
    ensures
        opt_request(r) == cancel_route(e@),
{
    let call_id = match e.call_id {
        Some(c) => Some(c),
        None => match e.payload.get("call_id") {
            Some(v) => v.as_u64(),
            None => None,
        },
    };
    let interface = text_arg(&e.payload, "interface");
    match (interface, call_id) {
        (Some(interface), Some(call_id)) => {
            let caps = service_capabilities(interface.as_str());
            let required = caps.control;
            if !grants_capability(&e.source_capabilities, required.as_str()) {
                let message = text::concat3(
                    "Denied service call cancellation for '",
                    interface.as_str(),
                    "' from '",
                ).concat(e.source_module_id.as_str()).concat("' without ").concat(
                    required.as_str(),
                );
                Some(diagnostic_request(message))
            } else {
                match &e.source_instance_id {
                    Some(instance) => Some(
                        CoreRequest::CancelServiceCall {
                            interface,
                            call_id,
                            source_instance_id: instance.clone(),
                            source_module_id: e.source_module_id.clone(),
                            source_capabilities: e.source_capabilities.duplicate(),
                        },
                    ),
                    None => None,
                }
            }
        },
        _ => None,
    }
}

fn service_request(e: &PublishedEvent) -> (r: CoreRequest)
    ensures
        r@ == service_route(e@),
{
    let ch = e.channel.as_str();
    proof {
        text::lemma_last_index_of_bounds(ch@, '.');
    }
    match text::last_char_index(ch, '.') {
        Some(pos) => {
            let n = ch.unicode_len();
            assert(pos < n);
            let interface = text::char_slice(ch, 0, pos);
            let command = text::char_slice(ch, pos + 1, n);
            let caps = service_capabilities(interface.as_str());
            let required = caps.control;
            if grants_capability(&e.source_capabilities, required.as_str()) {
                match (e.call_id, &e.source_instance_id) {
                    (Some(call_id), Some(instance)) => CoreRequest::ServiceCall {
                        interface,
                        command,
                        payload: e.payload.duplicate(),
                        call_id,
                        source_instance_id: instance.clone(),
                        source_module_id: e.source_module_id.clone(),
                        source_capabilities: e.source_capabilities.duplicate(),
                    },
                    _ => CoreRequest::ServiceCommand {
                        interface,
                        command,
                        payload: e.payload.duplicate(),
                        source_module_id: e.source_module_id.clone(),
                        source_capabilities: e.source_capabilities.duplicate(),
                    },
                }
            } else {
                let message = text::concat3("Denied service command '", ch, "' from '").concat(
                    e.source_module_id.as_str(),
                ).concat("' without ").concat(required.as_str());
                diagnostic_request(message)
            }
        },
        None => dropped_diagnostic(ch, "channel is not routable"),
    }
}

/// The request a published event stands for, `None` when a shell operation
/// lacks an argument it needs. `rejection` is the operation registry's
/// verdict on a `shell.` operation: the text of its rejection, or `None`
/// when the operation is authorized; it is not consulted for other channels.
pub fn script_event_to_request(event: PublishedEvent, rejection: Option<String>) -> (r: Option<
    CoreRequest,
>)
    ensures
        opt_request(r) == route_event(event@, opt_text(rejection)),
{
    let ch = event.channel.as_str();
    let p = &event.payload;
    proof {
        reveal_strlit("shell.");
    }
    if text::starts_with(ch, "shell.") && rejection.is_some() {
        return match rejection {
            Some(message) => Some(diagnostic_request(message)),
            None => None,
        };
    }
    if text::str_eq(ch, "mesh.service.cancel") {
        cancel_request(&event)
    } else if text::str_eq(ch, "shell.show-surface") {
        match text_arg(p, "surface_id") {
            Some(id) => Some(CoreRequest::ShowSurface { surface_id: id }),
            None => None,
        }
    } else if text::str_eq(ch, "shell.hide-surface") {
        match text_arg(p, "surface_id") {
            Some(id) => Some(CoreRequest::HideSurface { surface_id: id }),
            None => None,
        }
    } else if text::str_eq(ch, "shell.hide-popover") {
        match text_arg(p, "surface_id") {
            Some(id) => Some(
                CoreRequest::HidePopover {
                    surface_id: id,
                    defer_for_hover_bridge: flag_or_default(p, "defer_for_hover_bridge", false),
                },
            ),
            None => None,
        }
    } else if text::str_eq(ch, "shell.set-surface-role") {
        match (text_arg(p, "surface_id"), role_arg(p)) {
            (Some(id), Some(role)) => Some(CoreRequest::SetSurfaceRole { surface_id: id, role }),
            _ => None,
        }
    } else if text::str_eq(ch, "shell.toggle-surface-role") {
        match text_arg(p, "surface_id") {
            Some(id) => Some(CoreRequest::ToggleSurfaceRole { surface_id: id }),
            None => None,
        }
    } else if text::str_eq(ch, "shell.promote-widget") || text::str_eq(ch, "shell.demote-widget")
        || text::str_eq(ch, "shell.set-widget-role") {
        let role = if text::str_eq(ch, "shell.promote-widget") {
            Some(SurfaceRole::Window)
        } else if text::str_eq(ch, "shell.demote-widget") {
            Some(SurfaceRole::Layer)
        } else {
            role_arg(p)
        };
        match (text_arg(p, "surface_id"), text_arg(p, "node_key"), role) {
            (Some(id), Some(node_key), Some(role)) => Some(
                CoreRequest::SetChildSurfaceRole { surface_id: id, node_key, role },
            ),
            _ => None,
        }
    } else if text::str_eq(ch, "shell.toggle-surface") {
        match text_arg(p, "surface_id") {
            Some(id) => Some(CoreRequest::ToggleSurface { surface_id: id }),
            None => None,
        }
    } else if text::str_eq(ch, "shell.position-surface") {
        match (text_arg(p, "surface_id"), payload_i32(p, "margin_top"), payload_i32(p, "margin_left")) {
            (Some(id), Some(margin_top), Some(margin_left)) => Some(
                CoreRequest::PositionSurface { surface_id: id, margin_top, margin_left },
            ),
            _ => None,
        }
    } else if text::str_eq(ch, "shell.activate-popover") {
        match (text_arg(p, "surface_id"), text_arg(p, "trigger_surface"), text_arg(p, "trigger_key")) {
            (Some(id), Some(trigger_surface), Some(trigger_key)) => Some(
                CoreRequest::ActivatePopover {
                    surface_id: id,
                    trigger_surface,
                    trigger_key,
                    focus: flag_or_default(p, "focus", true),
                },
            ),
            _ => None,
        }
    } else if text::str_eq(ch, "shell.set-locale") {
        match text_arg(p, "locale") {
            Some(locale) => Some(CoreRequest::SetLocale { locale }),
            None => None,
        }
    } else if text::str_eq(ch, "shell.toggle-debug-overlay") {
        Some(CoreRequest::ToggleDebugOverlay)
    } else if text::str_eq(ch, "shell.toggle-debug-layout-bounds") {
        Some(CoreRequest::ToggleDebugLayoutBounds)
    } else if text::str_eq(ch, "shell.toggle-debug-element-picker") {
        Some(CoreRequest::ToggleDebugElementPicker)
    } else if text::str_eq(ch, "shell.open-debug-source") && text::str_eq(
        event.source_module_id.as_str(),
        "@mesh/debug-inspector",
    ) {
        match text_arg(p, "path") {
            Some(path) => {
                let line: u32 = match p.get("line") {
                    Some(v) => match v.as_u64() {
                        Some(n) => if n < 1 {
                            1
                        } else if n > 0xffff_ffffu64 {
                            0xffff_ffffu32
                        } else {
                            n as u32
                        },
                        None => 1,
                    },
                    None => 1,
                };
                Some(CoreRequest::OpenDebugSource { path, line })
            },
            None => None,
        }
    } else if text::str_eq(ch, "shell.toggle-debug-profiling") {
        Some(CoreRequest::ToggleDebugProfiling)
    } else if text::str_eq(ch, "shell.run-debug-benchmark") {
        match text_arg(p, "scenario_id") {
            Some(id) => if id.unicode_len() > 0 {
                Some(CoreRequest::RunDebugBenchmark { scenario_id: id })
            } else {
                Some(
                    diagnostic_request(
                        String::from_str("debug benchmark request missing scenario_id"),
                    ),
                )
            },
            None => Some(
                diagnostic_request(String::from_str("debug benchmark request missing scenario_id")),
            ),
        }
    } else if text::starts_with(ch, "shell.") {
        Some(dropped_diagnostic(ch, "the operation must be handled by its owning component"))
    } else {
        Some(service_request(&event))
    }
}

/// The requests of a sequence of routed events, in order, without the
/// events that route nowhere.
pub open spec fn route_all(events: Seq<(EventView, Option<Seq<char>>)>) -> Seq<RequestView>
    decreases events.len(),
{
    if events.len() == 0 {
        Seq::empty()
    } else {
        let rest = route_all(events.drop_last());
        match route_event(events.last().0, events.last().1) {
            Some(r) => rest.push(r),
            None => rest,
        }
    }
}

pub open spec fn event_views(events: Seq<(PublishedEvent, Option<String>)>) -> Seq<
    (EventView, Option<Seq<char>>),
> {
    Seq::new(events.len(), |i: int| (events[i].0@, opt_text(events[i].1)))
}

pub open spec fn request_views(requests: Seq<CoreRequest>) -> Seq<RequestView> {
    Seq::new(requests.len(), |i: int| requests[i]@)
}

/// Routes every event with the registry's verdict on it, keeping the
/// requests of the events that route somewhere, in order.
pub fn script_events_to_requests(events: Vec<(PublishedEvent, Option<String>)>) -> (r: Vec<
    CoreRequest,
>)
    ensures
        request_views(r@) == route_all(event_views(events@)),
{
    let ghost all = event_views(events@);
    let mut rest = events;
    let mut out: Vec<CoreRequest> = Vec::new();
    let ghost mut done: int = 0;
    while rest.len() > 0
        invariant
            0 <= done <= all.len(),
            event_views(rest@) == all.subrange(done, all.len() as int),
            request_views(out@) == route_all(all.subrange(0, done)),
        decreases rest.len(),
    {
        assert(event_views(rest@).len() == rest@.len());
        assert(done < all.len());
        assert(event_views(rest@)[0] == all[done]);
        let ghost rest_before = rest@;
        let (event, verdict) = rest.remove(0);
        proof {
            assert(event_views(rest_before)[0] == (event@, opt_text(verdict)));
            assert(all.subrange(0, done + 1).drop_last() =~= all.subrange(0, done));
            assert(all.subrange(0, done + 1).last() == all[done]);
            assert forall|i: int| 0 <= i < rest@.len() implies #[trigger] event_views(rest@)[i]
                == all.subrange(done + 1, all.len() as int)[i] by {
                assert(rest@[i] == rest_before[i + 1]);
                assert(event_views(rest_before)[i + 1] == all.subrange(done, all.len() as int)[i + 1]);
            }
            assert(event_views(rest@) =~= all.subrange(done + 1, all.len() as int));
        }
        let ghost before = out@;
        match script_event_to_request(event, verdict) {
            Some(request) => {
                out.push(request);
                proof {
                    assert(request_views(out@) =~= request_views(before).push(request@));
                }
            },
            None => {},
        }
        proof {
            done = done + 1;
        }
    }
    proof {
        assert(all.subrange(0, done) =~= all);
    }
    out
}

/// A `shell.` operation never becomes a service command or call, whatever
/// the registry decided about it.
pub proof fn law_shell_operations_never_become_service_commands(e: EventView, rejection: Option<Seq<char>>)
    requires
        text::has_prefix(e.channel, "shell."@),
    ensures
        !(route_event(e, rejection) matches Some(RequestView::ServiceCommand { .. })),
        !(route_event(e, rejection) matches Some(RequestView::ServiceCall { .. })),
{
}

/// Service commands, calls and cancellations are admitted by capability
/// alone: each is routed only for a source holding the interface's control
/// capability, and carries the event's payload, module and capabilities.
pub proof fn law_service_requests_need_the_control_capability(e: EventView, rejection: Option<Seq<char>>)
    ensures
        match route_event(e, rejection) {
            Some(RequestView::ServiceCommand { interface, payload, source_module_id, source_capabilities, .. }) =>
                granted_in(e.source_capabilities, control_capability(interface)) && payload == e.payload
                && source_module_id == e.source_module_id && source_capabilities == e.source_capabilities,
            Some(RequestView::ServiceCall { interface, payload, source_module_id, source_capabilities, call_id, .. }) =>
                granted_in(e.source_capabilities, control_capability(interface)) && payload == e.payload
                && source_module_id == e.source_module_id && source_capabilities == e.source_capabilities
                && e.call_id == Some(call_id),
            Some(RequestView::CancelServiceCall { interface, source_module_id, .. }) =>
                granted_in(e.source_capabilities, control_capability(interface)) && source_module_id == e.source_module_id,
            _ => true,
        },
{
}

/// Each authorized shell operation routes to the request it names: showing,
/// hiding or toggling a surface, or toggling its role, acts on the surface
/// its payload names as a string, and routes nowhere without one; a locale
/// change carries the locale asked for; each debug toggle becomes that
/// toggle.
pub proof fn law_shell_operations_route_to_their_named_requests(e: EventView)
    ensures
        e.channel == "shell.show-surface"@ ==> route_event(e, None) == match e.payload.field("surface_id"@) {
            Some(JsonView::Str(id)) => Some(RequestView::ShowSurface { surface_id: id }),
            _ => None,
        },
        e.channel == "shell.hide-surface"@ ==> route_event(e, None) == match e.payload.field("surface_id"@) {
            Some(JsonView::Str(id)) => Some(RequestView::HideSurface { surface_id: id }),
            _ => None,
        },
        e.channel == "shell.toggle-surface"@ ==> route_event(e, None) == match e.payload.field("surface_id"@) {
            Some(JsonView::Str(id)) => Some(RequestView::ToggleSurface { surface_id: id }),
            _ => None,
        },
        e.channel == "shell.toggle-surface-role"@ ==> route_event(e, None) == match e.payload.field("surface_id"@) {
            Some(JsonView::Str(id)) => Some(RequestView::ToggleSurfaceRole { surface_id: id }),
            _ => None,
        },
        e.channel == "shell.hide-popover"@ ==> match e.payload.field("surface_id"@) {
            Some(JsonView::Str(id)) => route_event(e, None) matches Some(RequestView::HidePopover { surface_id, .. })
                && surface_id == id,
            _ => route_event(e, None) is None,
        },
        e.channel == "shell.set-locale"@ ==> route_event(e, None) == match e.payload.field("locale"@) {
            Some(JsonView::Str(locale)) => Some(RequestView::SetLocale { locale }),
            _ => None,
        },
        e.channel == "shell.toggle-debug-overlay"@ ==> route_event(e, None) == Some(RequestView::ToggleDebugOverlay),
        e.channel == "shell.toggle-debug-layout-bounds"@ ==> route_event(e, None) == Some(RequestView::ToggleDebugLayoutBounds),
        e.channel == "shell.toggle-debug-element-picker"@ ==> route_event(e, None) == Some(RequestView::ToggleDebugElementPicker),
        e.channel == "shell.toggle-debug-profiling"@ ==> route_event(e, None) == Some(RequestView::ToggleDebugProfiling),
{
    reveal_strlit("mesh.service.cancel");
    reveal_strlit("shell.activate-popover");
    reveal_strlit("shell.demote-widget");
    reveal_strlit("shell.hide-popover");
    reveal_strlit("shell.hide-surface");
    reveal_strlit("shell.open-debug-source");
    reveal_strlit("shell.position-surface");
    reveal_strlit("shell.promote-widget");
    reveal_strlit("shell.run-debug-benchmark");
    reveal_strlit("shell.set-locale");
    reveal_strlit("shell.set-surface-role");
    reveal_strlit("shell.set-widget-role");
    reveal_strlit("shell.show-surface");
    reveal_strlit("shell.toggle-debug-element-picker");
    reveal_strlit("shell.toggle-debug-layout-bounds");
    reveal_strlit("shell.toggle-debug-overlay");
    reveal_strlit("shell.toggle-debug-profiling");
    reveal_strlit("shell.toggle-surface");
    reveal_strlit("shell.toggle-surface-role");
    if e.channel == "shell.show-surface"@ {
        assert("shell.show-surface"@.len() != "mesh.service.cancel"@.len());
    }
    if e.channel == "shell.hide-surface"@ {
        assert("shell.hide-surface"@.len() != "mesh.service.cancel"@.len());
        assert("shell.hide-surface"@[6] != "shell.show-surface"@[6]);
    }
    if e.channel == "shell.hide-popover"@ {
        assert("shell.hide-popover"@.len() != "mesh.service.cancel"@.len());
        assert("shell.hide-popover"@[6] != "shell.show-surface"@[6]);
        assert("shell.hide-popover"@[11] != "shell.hide-surface"@[11]);
    }
    if e.channel == "shell.toggle-surface-role"@ {
        assert("shell.toggle-surface-role"@.len() != "mesh.service.cancel"@.len());
        assert("shell.toggle-surface-role"@.len() != "shell.show-surface"@.len());
        assert("shell.toggle-surface-role"@.len() != "shell.hide-surface"@.len());
        assert("shell.toggle-surface-role"@.len() != "shell.hide-popover"@.len());
        assert("shell.toggle-surface-role"@.len() != "shell.set-surface-role"@.len());
    }
    if e.channel == "shell.toggle-surface"@ {
        assert("shell.toggle-surface"@.len() != "mesh.service.cancel"@.len());
        assert("shell.toggle-surface"@.len() != "shell.show-surface"@.len());
        assert("shell.toggle-surface"@.len() != "shell.hide-surface"@.len());
        assert("shell.toggle-surface"@.len() != "shell.hide-popover"@.len());
        assert("shell.toggle-surface"@.len() != "shell.set-surface-role"@.len());
        assert("shell.toggle-surface"@.len() != "shell.toggle-surface-role"@.len());
        assert("shell.toggle-surface"@[6] != "shell.promote-widget"@[6]);
        assert("shell.toggle-surface"@.len() != "shell.demote-widget"@.len());
        assert("shell.toggle-surface"@.len() != "shell.set-widget-role"@.len());
    }
    if e.channel == "shell.set-locale"@ {
        assert("shell.set-locale"@.len() != "mesh.service.cancel"@.len());
        assert("shell.set-locale"@.len() != "shell.show-surface"@.len());
        assert("shell.set-locale"@.len() != "shell.hide-surface"@.len());
        assert("shell.set-locale"@.len() != "shell.hide-popover"@.len());
        assert("shell.set-locale"@.len() != "shell.set-surface-role"@.len());
        assert("shell.set-locale"@.len() != "shell.toggle-surface-role"@.len());
        assert("shell.set-locale"@.len() != "shell.promote-widget"@.len());
        assert("shell.set-locale"@.len() != "shell.demote-widget"@.len());
        assert("shell.set-locale"@.len() != "shell.set-widget-role"@.len());
        assert("shell.set-locale"@.len() != "shell.toggle-surface"@.len());
        assert("shell.set-locale"@.len() != "shell.position-surface"@.len());
        assert("shell.set-locale"@.len() != "shell.activate-popover"@.len());
    }
    if e.channel == "shell.toggle-debug-overlay"@ {
        assert("shell.toggle-debug-overlay"@.len() != "mesh.service.cancel"@.len());
        assert("shell.toggle-debug-overlay"@.len() != "shell.show-surface"@.len());
        assert("shell.toggle-debug-overlay"@.len() != "shell.hide-surface"@.len());
        assert("shell.toggle-debug-overlay"@.len() != "shell.hide-popover"@.len());
        assert("shell.toggle-debug-overlay"@.len() != "shell.set-surface-role"@.len());
        assert("shell.toggle-debug-overlay"@.len() != "shell.toggle-surface-role"@.len());
        assert("shell.toggle-debug-overlay"@.len() != "shell.promote-widget"@.len());
        assert("shell.toggle-debug-overlay"@.len() != "shell.demote-widget"@.len());
        assert("shell.toggle-debug-overlay"@.len() != "shell.set-widget-role"@.len());
        assert("shell.toggle-debug-overlay"@.len() != "shell.toggle-surface"@.len());
        assert("shell.toggle-debug-overlay"@.len() != "shell.position-surface"@.len());
        assert("shell.toggle-debug-overlay"@.len() != "shell.activate-popover"@.len());
        assert("shell.toggle-debug-overlay"@.len() != "shell.set-locale"@.len());
    }
    if e.channel == "shell.toggle-debug-layout-bounds"@ {
        assert("shell.toggle-debug-layout-bounds"@.len() != "mesh.service.cancel"@.len());
        assert("shell.toggle-debug-layout-bounds"@.len() != "shell.show-surface"@.len());
        assert("shell.toggle-debug-layout-bounds"@.len() != "shell.hide-surface"@.len());
        assert("shell.toggle-debug-layout-bounds"@.len() != "shell.hide-popover"@.len());
        assert("shell.toggle-debug-layout-bounds"@.len() != "shell.set-surface-role"@.len());
        assert("shell.toggle-debug-layout-bounds"@.len() != "shell.toggle-surface-role"@.len());
        assert("shell.toggle-debug-layout-bounds"@.len() != "shell.promote-widget"@.len());
        assert("shell.toggle-debug-layout-bounds"@.len() != "shell.demote-widget"@.len());
        assert("shell.toggle-debug-layout-bounds"@.len() != "shell.set-widget-role"@.len());
        assert("shell.toggle-debug-layout-bounds"@.len() != "shell.toggle-surface"@.len());
        assert("shell.toggle-debug-layout-bounds"@.len() != "shell.position-surface"@.len());
        assert("shell.toggle-debug-layout-bounds"@.len() != "shell.activate-popover"@.len());
        assert("shell.toggle-debug-layout-bounds"@.len() != "shell.set-locale"@.len());
        assert("shell.toggle-debug-layout-bounds"@.len() != "shell.toggle-debug-overlay"@.len());
    }
    if e.channel == "shell.toggle-debug-element-picker"@ {
        assert("shell.toggle-debug-element-picker"@.len() != "mesh.service.cancel"@.len());
        assert("shell.toggle-debug-element-picker"@.len() != "shell.show-surface"@.len());
        assert("shell.toggle-debug-element-picker"@.len() != "shell.hide-surface"@.len());
        assert("shell.toggle-debug-element-picker"@.len() != "shell.hide-popover"@.len());
        assert("shell.toggle-debug-element-picker"@.len() != "shell.set-surface-role"@.len());
        assert("shell.toggle-debug-element-picker"@.len() != "shell.toggle-surface-role"@.len());
        assert("shell.toggle-debug-element-picker"@.len() != "shell.promote-widget"@.len());
        assert("shell.toggle-debug-element-picker"@.len() != "shell.demote-widget"@.len());
        assert("shell.toggle-debug-element-picker"@.len() != "shell.set-widget-role"@.len());
        assert("shell.toggle-debug-element-picker"@.len() != "shell.toggle-surface"@.len());
        assert("shell.toggle-debug-element-picker"@.len() != "shell.position-surface"@.len());
        assert("shell.toggle-debug-element-picker"@.len() != "shell.activate-popover"@.len());
        assert("shell.toggle-debug-element-picker"@.len() != "shell.set-locale"@.len());
        assert("shell.toggle-debug-element-picker"@.len() != "shell.toggle-debug-overlay"@.len());
        assert("shell.toggle-debug-element-picker"@.len() != "shell.toggle-debug-layout-bounds"@.len());
    }
    if e.channel == "shell.toggle-debug-profiling"@ {
        assert("shell.toggle-debug-profiling"@.len() != "mesh.service.cancel"@.len());
        assert("shell.toggle-debug-profiling"@.len() != "shell.show-surface"@.len());
        assert("shell.toggle-debug-profiling"@.len() != "shell.hide-surface"@.len());
        assert("shell.toggle-debug-profiling"@.len() != "shell.hide-popover"@.len());
        assert("shell.toggle-debug-profiling"@.len() != "shell.set-surface-role"@.len());
        assert("shell.toggle-debug-profiling"@.len() != "shell.toggle-surface-role"@.len());
        assert("shell.toggle-debug-profiling"@.len() != "shell.promote-widget"@.len());
        assert("shell.toggle-debug-profiling"@.len() != "shell.demote-widget"@.len());
        assert("shell.toggle-debug-profiling"@.len() != "shell.set-widget-role"@.len());
        assert("shell.toggle-debug-profiling"@.len() != "shell.toggle-surface"@.len());
        assert("shell.toggle-debug-profiling"@.len() != "shell.position-surface"@.len());
        assert("shell.toggle-debug-profiling"@.len() != "shell.activate-popover"@.len());
        assert("shell.toggle-debug-profiling"@.len() != "shell.set-locale"@.len());
        assert("shell.toggle-debug-profiling"@.len() != "shell.toggle-debug-overlay"@.len());
        assert("shell.toggle-debug-profiling"@.len() != "shell.toggle-debug-layout-bounds"@.len());
        assert("shell.toggle-debug-profiling"@.len() != "shell.toggle-debug-element-picker"@.len());
        assert("shell.toggle-debug-profiling"@.len() != "shell.open-debug-source"@.len());
    }
}

/// A shell operation the operation registry rejected becomes, whatever it
/// asked for, the diagnostic of that rejection.
pub proof fn law_rejected_shell_operations_become_their_diagnostic(e: EventView, message: Seq<char>)
    requires
        text::has_prefix(e.channel, "shell."@),
    ensures
        route_event(e, Some(message)) == Some(RequestView::PublishDiagnostics { message }),
{
}

/// Authorized shell operations carry the arguments their payload gives: a
/// popover hide defers for the hover bridge exactly when asked; a surface
/// role is the one named (`window` or `layer`); promoting a widget makes
/// its node a window, demoting makes it a layer; an activated popover
/// takes focus unless told not to; a benchmark runs the scenario named.
pub proof fn law_shell_operations_carry_their_arguments(
    e: EventView,
    id: Seq<char>,
    key: Seq<char>,
    trigger: Seq<char>,
)
    ensures
        e.channel == "shell.hide-popover"@ && e.payload.field("surface_id"@) == Some(JsonView::Str(id))
            ==> route_event(e, None) == Some(RequestView::HidePopover {
                surface_id: id,
                defer_for_hover_bridge: e.payload.field("defer_for_hover_bridge"@) == Some(JsonView::Bool(true)),
            }),
        e.channel == "shell.set-surface-role"@ && e.payload.field("surface_id"@) == Some(JsonView::Str(id))
            && e.payload.field("role"@) == Some(JsonView::Str("window"@)) ==> route_event(e, None) == Some(
            RequestView::SetSurfaceRole { surface_id: id, role: SurfaceRole::Window },
        ),
        e.channel == "shell.set-surface-role"@ && e.payload.field("surface_id"@) == Some(JsonView::Str(id))
            && e.payload.field("role"@) == Some(JsonView::Str("layer"@)) ==> route_event(e, None) == Some(
            RequestView::SetSurfaceRole { surface_id: id, role: SurfaceRole::Layer },
        ),
        e.channel == "shell.promote-widget"@ && e.payload.field("surface_id"@) == Some(JsonView::Str(id))
            && e.payload.field("node_key"@) == Some(JsonView::Str(key)) ==> route_event(e, None) == Some(
            RequestView::SetChildSurfaceRole { surface_id: id, node_key: key, role: SurfaceRole::Window },
        ),
        e.channel == "shell.demote-widget"@ && e.payload.field("surface_id"@) == Some(JsonView::Str(id))
            && e.payload.field("node_key"@) == Some(JsonView::Str(key)) ==> route_event(e, None) == Some(
            RequestView::SetChildSurfaceRole { surface_id: id, node_key: key, role: SurfaceRole::Layer },
        ),
        e.channel == "shell.activate-popover"@ && e.payload.field("surface_id"@) == Some(JsonView::Str(id))
            && e.payload.field("trigger_surface"@) == Some(JsonView::Str(trigger)) && e.payload.field(
            "trigger_key"@,
        ) == Some(JsonView::Str(key)) ==> route_event(e, None) == Some(
            RequestView::ActivatePopover {
                surface_id: id,
                trigger_surface: trigger,
                trigger_key: key,
                focus: e.payload.field("focus"@) != Some(JsonView::Bool(false)),
            },
        ),
        e.channel == "shell.run-debug-benchmark"@ && e.payload.field("scenario_id"@) == Some(JsonView::Str(id))
            && id.len() > 0 ==> route_event(e, None) == Some(RequestView::RunDebugBenchmark { scenario_id: id }),
{
    reveal_strlit("layer");
    reveal_strlit("mesh.service.cancel");
    reveal_strlit("shell.activate-popover");
    reveal_strlit("shell.demote-widget");
    reveal_strlit("shell.hide-popover");
    reveal_strlit("shell.hide-surface");
    reveal_strlit("shell.open-debug-source");
    reveal_strlit("shell.position-surface");
    reveal_strlit("shell.promote-widget");
    reveal_strlit("shell.run-debug-benchmark");
    reveal_strlit("shell.set-locale");
    reveal_strlit("shell.set-surface-role");
    reveal_strlit("shell.set-widget-role");
    reveal_strlit("shell.show-surface");
    reveal_strlit("shell.toggle-debug-element-picker");
    reveal_strlit("shell.toggle-debug-layout-bounds");
    reveal_strlit("shell.toggle-debug-overlay");
    reveal_strlit("shell.toggle-debug-profiling");
    reveal_strlit("shell.toggle-surface");
    reveal_strlit("shell.toggle-surface-role");
    reveal_strlit("window");
    assert("window"@.len() != "layer"@.len());
    if e.channel == "shell.hide-popover"@ {
        assert("shell.hide-popover"@.len() != "mesh.service.cancel"@.len());
        assert("shell.hide-popover"@[6] != "shell.show-surface"@[6]);
        assert("shell.hide-popover"@[11] != "shell.hide-surface"@[11]);
    }
    if e.channel == "shell.set-surface-role"@ {
        assert("shell.set-surface-role"@.len() != "mesh.service.cancel"@.len());
        assert("shell.set-surface-role"@.len() != "shell.show-surface"@.len());
        assert("shell.set-surface-role"@.len() != "shell.hide-surface"@.len());
        assert("shell.set-surface-role"@.len() != "shell.hide-popover"@.len());
    }
    if e.channel == "shell.promote-widget"@ {
        assert("shell.promote-widget"@.len() != "mesh.service.cancel"@.len());
        assert("shell.promote-widget"@.len() != "shell.show-surface"@.len());
        assert("shell.promote-widget"@.len() != "shell.hide-surface"@.len());
        assert("shell.promote-widget"@.len() != "shell.hide-popover"@.len());
        assert("shell.promote-widget"@.len() != "shell.set-surface-role"@.len());
        assert("shell.promote-widget"@.len() != "shell.toggle-surface-role"@.len());
    }
    if e.channel == "shell.demote-widget"@ {
        assert("shell.demote-widget"@[0] != "mesh.service.cancel"@[0]);
        assert("shell.demote-widget"@.len() != "shell.show-surface"@.len());
        assert("shell.demote-widget"@.len() != "shell.hide-surface"@.len());
        assert("shell.demote-widget"@.len() != "shell.hide-popover"@.len());
        assert("shell.demote-widget"@.len() != "shell.set-surface-role"@.len());
        assert("shell.demote-widget"@.len() != "shell.toggle-surface-role"@.len());
        assert("shell.demote-widget"@.len() != "shell.promote-widget"@.len());
    }
    if e.channel == "shell.activate-popover"@ {
        assert("shell.activate-popover"@.len() != "mesh.service.cancel"@.len());
        assert("shell.activate-popover"@.len() != "shell.show-surface"@.len());
        assert("shell.activate-popover"@.len() != "shell.hide-surface"@.len());
        assert("shell.activate-popover"@.len() != "shell.hide-popover"@.len());
        assert("shell.activate-popover"@[6] != "shell.set-surface-role"@[6]);
        assert("shell.activate-popover"@.len() != "shell.toggle-surface-role"@.len());
        assert("shell.activate-popover"@.len() != "shell.promote-widget"@.len());
        assert("shell.activate-popover"@.len() != "shell.demote-widget"@.len());
        assert("shell.activate-popover"@.len() != "shell.set-widget-role"@.len());
        assert("shell.activate-popover"@.len() != "shell.toggle-surface"@.len());
        assert("shell.activate-popover"@[6] != "shell.position-surface"@[6]);
    }
    if e.channel == "shell.run-debug-benchmark"@ {
        assert("shell.run-debug-benchmark"@.len() != "mesh.service.cancel"@.len());
        assert("shell.run-debug-benchmark"@.len() != "shell.show-surface"@.len());
        assert("shell.run-debug-benchmark"@.len() != "shell.hide-surface"@.len());
        assert("shell.run-debug-benchmark"@.len() != "shell.hide-popover"@.len());
        assert("shell.run-debug-benchmark"@.len() != "shell.set-surface-role"@.len());
        assert("shell.run-debug-benchmark"@[6] != "shell.toggle-surface-role"@[6]);
        assert("shell.run-debug-benchmark"@.len() != "shell.promote-widget"@.len());
        assert("shell.run-debug-benchmark"@.len() != "shell.demote-widget"@.len());
        assert("shell.run-debug-benchmark"@.len() != "shell.set-widget-role"@.len());
        assert("shell.run-debug-benchmark"@.len() != "shell.toggle-surface"@.len());
        assert("shell.run-debug-benchmark"@.len() != "shell.position-surface"@.len());
        assert("shell.run-debug-benchmark"@.len() != "shell.activate-popover"@.len());
        assert("shell.run-debug-benchmark"@.len() != "shell.set-locale"@.len());
        assert("shell.run-debug-benchmark"@.len() != "shell.toggle-debug-overlay"@.len());
        assert("shell.run-debug-benchmark"@.len() != "shell.toggle-debug-layout-bounds"@.len());
        assert("shell.run-debug-benchmark"@.len() != "shell.toggle-debug-element-picker"@.len());
        assert("shell.run-debug-benchmark"@.len() != "shell.open-debug-source"@.len());
        assert("shell.run-debug-benchmark"@.len() != "shell.toggle-debug-profiling"@.len());
    }
}

} // verus!
