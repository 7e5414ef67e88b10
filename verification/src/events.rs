//! Routing a window event to the component that shows its surface: which
//! surface a keyboard event goes to, what pointer events do to pending
//! popover hides, the shell's own shortcuts, and the keyboard focus a press
//! claims. Pointer coordinates and the component's own handling stay with
//! the caller.
use vstd::prelude::*;
use crate::apply::{ApplyOutcome, request_applied};
use crate::input::{KeyModifiers, global_shortcut, shell_global_shortcut_request};
use crate::keyed::{keyed_view, keyed_get, keyed_find};
use crate::shell::{
    ActionView, Shell, ShellAction, TargetRef, action_views, child_hides_deferred, focus_claimed,
    popover_hide_cancelled, request_views, surface_component, surface_target,
};
use crate::types::{CoreRequest, RequestView, opt_request, opt_text};

verus! {

/// A window event as the shell routes it.
#[derive(Debug)]
pub enum RoutedEvent {
    PointerMove,
    PointerLeave,
    PointerButton { pressed: bool },
    Scroll,
    KeyPressed { key: String, mods: KeyModifiers },
    KeyReleased { key: String },
    Char { ch: char },
}

pub enum EventView {
    PointerMove,
    PointerLeave,
    PointerButton { pressed: bool },
    Scroll,
    KeyPressed { key: Seq<char>, mods: KeyModifiers },
    KeyReleased { key: Seq<char> },
    Char { ch: char },
}

impl View for RoutedEvent {
    type V = EventView;

    open spec fn view(&self) -> EventView {
        match self {
            RoutedEvent::PointerMove => EventView::PointerMove,
            RoutedEvent::PointerLeave => EventView::PointerLeave,
            RoutedEvent::PointerButton { pressed } => EventView::PointerButton { pressed: *pressed },
            RoutedEvent::Scroll => EventView::Scroll,
            RoutedEvent::KeyPressed { key, mods } => EventView::KeyPressed { key: key@, mods: *mods },
            RoutedEvent::KeyReleased { key } => EventView::KeyReleased { key: key@ },
            RoutedEvent::Char { ch } => EventView::Char { ch: *ch },
        }
    }
}

pub open spec fn is_keyboard(e: EventView) -> bool {
    e is KeyPressed || e is KeyReleased || e is Char
}

/// The surface an event is routed to: a keyboard event goes to the surface
/// holding keyboard focus, when that surface is shown (or has no record)
/// and belongs to a component; every other event, and a keyboard event
/// otherwise, to the surface it arrived on.
pub open spec fn route_surface(s: Shell, physical: Seq<char>, keyboard: bool) -> Seq<char> {
    match opt_text(s.keyboard_focus_surface) {
        Some(f) => if keyboard && (match keyed_view(s.core_surfaces@).get(f) {
            Some(state) => state.visible,
            None => true,
        }) && surface_component(s.components@, f) is Some {
            f
        } else {
            physical
        },
        None => physical,
    }
}

/// Where an event goes.
#[derive(Debug)]
pub enum EventDelivery {
    /// No component shows the surface, or it has no presentation target.
    Dropped,
    /// A shell shortcut, carried out in place of delivering the key.
    Shortcut(CoreRequest),
    /// Delivered to a component's surface.
    Deliver { component: usize, target: TargetRef, surface_id: String },
}

pub enum DeliveryView {
    Dropped,
    Shortcut(RequestView),
    Deliver { component: usize, target: TargetRef, surface_id: Seq<char> },
}

impl View for EventDelivery {
    type V = DeliveryView;

    open spec fn view(&self) -> DeliveryView {
        match self {
            EventDelivery::Dropped => DeliveryView::Dropped,
            EventDelivery::Shortcut(r) => DeliveryView::Shortcut(r@),
            EventDelivery::Deliver { component, target, surface_id } => DeliveryView::Deliver {
                component: *component,
                target: *target,
                surface_id: surface_id@,
            },
        }
    }
}

/// What routing an event came to: where it goes, and the requests and
/// actions that the shell's handling of it produced on the way.
#[derive(Debug)]
pub struct EventRouting {
    pub delivery: EventDelivery,
    pub requests: Vec<CoreRequest>,
    pub actions: Vec<ShellAction>,
}

/// The popup parent of the surface `t` of component `i`.
pub open spec fn target_popup_parent(s: Shell, i: int, t: TargetRef) -> Option<Seq<char>> {
    match t {
        TargetRef::Parent => opt_text(s.components@[i].popup_parent_surface),
        TargetRef::Child(k) => opt_text(s.components@[i].children@[k as int].popup_parent_surface),
    }
}

/// `new` is `old` after what an event does to popovers before delivery:
/// the pointer over a surface cancels its pending hide; leaving a popup
/// asks for it to hide after the hover bridge; leaving a component's own
/// surface schedules its popover children to hide.
pub open spec fn popovers_followed(
    new: Shell,
    old: Shell,
    surface: Seq<char>,
    i: int,
    t: TargetRef,
    e: EventView,
    now: u64,
    requests: Seq<RequestView>,
    actions: Seq<ActionView>,
) -> bool {
    if e is PointerMove || e is PointerButton || e is Scroll {
        popover_hide_cancelled(new, old, surface) && requests.len() == 0 && actions.len() == 0
    } else if e is PointerLeave && target_popup_parent(old, i, t) is Some {
        exists|q: CoreRequest, outcome: ApplyOutcome|
            q@ == (RequestView::HidePopover { surface_id: surface, defer_for_hover_bridge: true })
                && #[trigger] request_applied(new, old, q, now, outcome) && outcome_lists(outcome, requests, actions)
    } else if e is PointerLeave && t == TargetRef::Parent {
        child_hides_deferred(new, old, surface, now) && requests.len() == 0 && actions.len() == 0
    } else {
        new == old && requests.len() == 0 && actions.len() == 0
    }
}

/// The requests and actions an outcome lists, none for one not applied.
pub open spec fn outcome_lists(outcome: ApplyOutcome, requests: Seq<RequestView>, actions: Seq<ActionView>) -> bool {
    match outcome {
        ApplyOutcome::Applied { requests: q, actions: a } => requests == request_views(q@) && actions == action_views(a@),
        _ => requests.len() == 0 && actions.len() == 0,
    }
}

/// The shell shortcut a key press stands for, with the debug overlay shown
/// or not.
pub open spec fn shortcut_of(e: EventView, debug_enabled: bool) -> Option<RequestView> {
    match e {
        EventView::KeyPressed { key, mods } => global_shortcut(key, mods.ctrl, mods.shift, debug_enabled),
        _ => None,
    }
}

/// `new` is `mid` after delivery was decided, with actions `actions`: an
/// event on a surface without a presentation target is dropped; a key that
/// is a shell shortcut is carried out instead; a press claims keyboard
/// focus for its surface.
pub open spec fn delivery_decided(
    new: Shell,
    mid: Shell,
    surface: Seq<char>,
    i: int,
    t: TargetRef,
    e: EventView,
    d: DeliveryView,
    actions: Seq<ActionView>,
) -> bool {
    if !keyed_view(mid.surfaces@).contains_key(surface) {
        d is Dropped && new == mid && actions.len() == 0
    } else if shortcut_of(e, mid.debug.enabled) is Some {
        d == DeliveryView::Shortcut(shortcut_of(e, mid.debug.enabled).unwrap()) && new == mid && actions.len() == 0
    } else {
        &&& d == DeliveryView::Deliver { component: i as usize, target: t, surface_id: surface }
        &&& e == (EventView::PointerButton { pressed: true }) ==> focus_claimed(new, mid, surface, actions)
        &&& e != (EventView::PointerButton { pressed: true }) ==> new == mid && actions.len() == 0
    }
}

/// `new` is `old` after routing event `e` that arrived on `physical` at
/// `now`, coming to `d` with `requests` and `actions`.
pub open spec fn event_routed(
    new: Shell,
    old: Shell,
    physical: Seq<char>,
    e: EventView,
    now: u64,
    d: DeliveryView,
    requests: Seq<RequestView>,
    actions: Seq<ActionView>,
) -> bool {
    let surface = route_surface(old, physical, is_keyboard(e));
    match surface_target(old.components@, surface) {
        None => d is Dropped && new == old && requests.len() == 0 && actions.len() == 0,
        Some((i, t)) => exists|mid: Shell, before: Seq<ActionView>, after: Seq<ActionView>|
            #[trigger] popovers_followed(mid, old, surface, i, t, e, now, requests, before)
                && #[trigger] delivery_decided(new, mid, surface, i, t, e, d, after) && actions == before + after,
    }
}

impl Shell {
    fn route_surface_for(&self, physical: &str, keyboard: bool) -> (r: String)
        ensures
            r@ == route_surface(*self, physical@, keyboard),
    {
        match &self.keyboard_focus_surface {
            Some(f) => {
                let visible = match keyed_get(&self.core_surfaces, f.as_str()) {
                    Some(state) => state.visible,
                    None => true,
                };
                if keyboard && visible && self.component_target_for_surface(f.as_str()).is_some() {
                    f.clone()
                } else {
                    String::from_str(physical)
                }
            },
            None => String::from_str(physical),
        }
    }

    /// Routes a window event that arrived on `physical_surface_id` at
    /// `now_ms` to the component that shows its surface, doing on the way
    /// what the event does to popovers and keyboard focus.
    pub fn route_window_event(&mut self, physical_surface_id: &str, event: RoutedEvent, now_ms: u64) -> (r: EventRouting)
        ensures
            event_routed(
                *final(self),
                *old(self),
                physical_surface_id@,
                event@,
                now_ms,
                r.delivery@,
                request_views(r.requests@),
                action_views(r.actions@),
            ),
    {
        let keyboard = match &event {
            RoutedEvent::KeyPressed { .. } => true,
            RoutedEvent::KeyReleased { .. } => true,
            RoutedEvent::Char { .. } => true,
            _ => false,
        };
        let surface = self.route_surface_for(physical_surface_id, keyboard);
        let mut requests: Vec<CoreRequest> = Vec::new();
        let mut actions: Vec<ShellAction> = Vec::new();
        proof {
            assert(request_views(requests@) =~= Seq::<RequestView>::empty());
            assert(action_views(actions@) =~= Seq::<ActionView>::empty());
        }
        let (index, target) = match self.component_target_for_surface(surface.as_str()) {
            Some(found) => found,
            None => {
                return EventRouting { delivery: EventDelivery::Dropped, requests, actions };
            },
        };
        let is_pointer = match &event {
            RoutedEvent::PointerMove => true,
            RoutedEvent::PointerButton { .. } => true,
            RoutedEvent::Scroll => true,
            _ => false,
        };
        let is_leave = match &event {
            RoutedEvent::PointerLeave => true,
            _ => false,
        };
        if is_pointer {
            self.cancel_pending_popover_hide(surface.as_str());
        } else if is_leave {
            let has_popup_parent = match target {
                TargetRef::Parent => self.components[index].popup_parent_surface.is_some(),
                TargetRef::Child(k) => self.components[index].children[k].popup_parent_surface.is_some(),
            };
            if has_popup_parent {
                let hide = CoreRequest::HidePopover { surface_id: surface.clone(), defer_for_hover_bridge: true };
                let ghost q = hide;
                let outcome = self.apply_request(hide, now_ms);
                let ghost out = outcome;
                match outcome {
                    ApplyOutcome::Applied { requests: q2, actions: a2 } => {
                        requests = q2;
                        actions = a2;
                    },
                    _ => {},
                }
                proof {
                    assert(outcome_lists(out, request_views(requests@), action_views(actions@)));
                    assert(request_applied(*self, *old(self), q, now_ms, out));
                }
            } else if target == TargetRef::Parent {
                self.defer_child_popover_hides_for_parent(surface.as_str(), now_ms);
            }
        }
        let ghost mid = *self;
        let ghost before = action_views(actions@);
        proof {
            assert(popovers_followed(
                mid,
                *old(self),
                surface@,
                index as int,
                target,
                event@,
                now_ms,
                request_views(requests@),
                before,
            ));
        }
        if keyed_find(&self.surfaces, surface.as_str()).is_none() {
            proof {
                assert(action_views(actions@) =~= before + Seq::<ActionView>::empty());
                assert(delivery_decided(*self, mid, surface@, index as int, target, event@, DeliveryView::Dropped, Seq::<ActionView>::empty()));
            }
            return EventRouting { delivery: EventDelivery::Dropped, requests, actions };
        }
        if let RoutedEvent::KeyPressed { key, mods } = &event {
            if let Some(shortcut) = shell_global_shortcut_request(key.as_str(), mods.ctrl, mods.shift, self.debug.enabled) {
                proof {
                    assert(action_views(actions@) =~= before + Seq::<ActionView>::empty());
                    assert(delivery_decided(
                        *self,
                        mid,
                        surface@,
                        index as int,
                        target,
                        event@,
                        DeliveryView::Shortcut(shortcut@),
                        Seq::<ActionView>::empty(),
                    ));
                }
                return EventRouting { delivery: EventDelivery::Shortcut(shortcut), requests, actions };
            }
        }
        let press = match &event {
            RoutedEvent::PointerButton { pressed } => *pressed,
            _ => false,
        };
        let ghost after: Seq<ActionView>;
        if press {
            let mut claimed = self.claim_keyboard_focus_for_surface(surface.as_str());
            proof {
                after = action_views(claimed@);
            }
            actions.append(&mut claimed);
            proof {
                assert(action_views(actions@) =~= before + after);
            }
        } else {
            proof {
                after = Seq::<ActionView>::empty();
                assert(action_views(actions@) =~= before + after);
            }
        }
        let delivery = EventDelivery::Deliver { component: index, target, surface_id: surface };
        proof {
            assert(delivery_decided(*self, mid, delivery@->surface_id, index as int, target, event@, delivery@, after));
        }
        EventRouting { delivery, requests, actions }
    }
}

/// The most window events one frame dispatches; the rest wait for the next.
pub const MAX_WINDOW_EVENTS_PER_FRAME: usize = 32;

/// How many of `n` pending events a frame takes.
pub open spec fn frame_share(n: nat) -> nat {
    if n < MAX_WINDOW_EVENTS_PER_FRAME {
        n
    } else {
        MAX_WINDOW_EVENTS_PER_FRAME as nat
    }
}

/// Takes the window events this frame dispatches: the oldest, up to the
/// frame's limit, in order; the others stay pending, in order.
pub fn take_frame_events<T>(pending: &mut Vec<T>) -> (r: Vec<T>)
    ensures
        r@ == old(pending)@.take(frame_share(old(pending)@.len()) as int),
        final(pending)@ == old(pending)@.skip(frame_share(old(pending)@.len()) as int),
{
    let mut taken: Vec<T> = Vec::new();
    let ghost all = pending@;
    while taken.len() < MAX_WINDOW_EVENTS_PER_FRAME && pending.len() > 0
        invariant
            taken@.len() <= MAX_WINDOW_EVENTS_PER_FRAME,
            taken@.len() <= all.len(),
            taken@ == all.take(taken@.len() as int),
            pending@ == all.skip(taken@.len() as int),
        decreases pending.len(),
    {
        let event = pending.remove(0);
        let ghost n: int = taken@.len() as int;
        taken.push(event);
        proof {
            assert(taken@ =~= all.take(n + 1int));
            assert(pending@ =~= all.skip(n + 1int));
        }
    }
    taken
}

/// A size with each side at least 1.
pub open spec fn at_least_one(size: (u32, u32)) -> (u32, u32) {
    (if size.0 == 0 {
        1
    } else {
        size.0
    }, if size.1 == 0 {
        1
    } else {
        size.1
    })
}

fn at_least_one_of(size: (u32, u32)) -> (r: (u32, u32))
    ensures
        r == at_least_one(size),
{
    (if size.0 == 0 {
        1
    } else {
        size.0
    }, if size.1 == 0 {
        1
    } else {
        size.1
    })
}

/// The size an event's surface is handled at: its configured size when
/// both sides are set, else the size last known for that surface, else its
/// paint buffer's (each side at least 1), else the size the presentation
/// layer knows, else 1 by 1.
pub open spec fn surface_size(
    configured: (u32, u32),
    known: Option<(u32, u32)>,
    buffer: Option<(u32, u32)>,
    presented: Option<(u32, u32)>,
) -> (u32, u32) {
    if configured.0 != 0 && configured.1 != 0 {
        configured
    } else if known is Some {
        known.unwrap()
    } else if buffer is Some {
        at_least_one(buffer.unwrap())
    } else if presented is Some {
        presented.unwrap()
    } else {
        (1, 1)
    }
}

pub fn handled_surface_size(
    configured: (u32, u32),
    known: Option<(u32, u32)>,
    buffer: Option<(u32, u32)>,
    presented: Option<(u32, u32)>,
) -> (r: (u32, u32))
    ensures
        r == surface_size(configured, known, buffer, presented),
{
    if configured.0 != 0 && configured.1 != 0 {
        configured
    } else {
        match known {
            Some(size) => size,
            None => match buffer {
                Some(size) => at_least_one_of(size),
                None => match presented {
                    Some(size) => size,
                    None => (1, 1),
                },
            },
        }
    }
}

/// The size a component handles an event at: for its own surface, the size
/// its content takes input at, else the surface's; for a child surface,
/// the size last known for its own surface, else that surface's configured
/// size (each side at least 1), else the child surface's.
pub open spec fn input_size(
    target: TargetRef,
    content: Option<(u32, u32)>,
    parent_known: Option<(u32, u32)>,
    parent_configured: Option<(u32, u32)>,
    handled: (u32, u32),
) -> (u32, u32) {
    match target {
        TargetRef::Parent => if content is Some {
            content.unwrap()
        } else {
            handled
        },
        TargetRef::Child(_) => if parent_known is Some {
            parent_known.unwrap()
        } else if parent_configured is Some {
            at_least_one(parent_configured.unwrap())
        } else {
            handled
        },
    }
}

pub fn component_input_size(
    target: TargetRef,
    content: Option<(u32, u32)>,
    parent_known: Option<(u32, u32)>,
    parent_configured: Option<(u32, u32)>,
    handled: (u32, u32),
) -> (r: (u32, u32))
    ensures
        r == input_size(target, content, parent_known, parent_configured, handled),
{
    match target {
        TargetRef::Parent => match content {
            Some(size) => size,
            None => handled,
        },
        TargetRef::Child(_) => match parent_known {
            Some(size) => size,
            None => match parent_configured {
                Some(size) => at_least_one_of(size),
                None => handled,
            },
        },
    }
}

/// Every keyboard event, a key press, a key release or a character, goes
/// to the surface holding keyboard focus when that surface is shown (or has
/// no record) and belongs to a component, whichever surface it arrived on:
/// if it is delivered, it is delivered there, to that surface's component.
/// Pointer events are delivered to the surface they arrived on.
pub proof fn law_keyboard_events_follow_keyboard_focus(
    new: Shell,
    old: Shell,
    physical: Seq<char>,
    e: EventView,
    now: u64,
    d: DeliveryView,
    requests: Seq<RequestView>,
    actions: Seq<ActionView>,
)
    requires
        event_routed(new, old, physical, e, now, d, requests, actions),
    ensures
        (e is KeyPressed || e is KeyReleased || e is Char) && (opt_text(old.keyboard_focus_surface) matches Some(f)
            && (keyed_view(old.core_surfaces@).contains_key(f) ==> keyed_view(old.core_surfaces@)[f].visible)
            && surface_component(old.components@, f) is Some) ==> match d {
            DeliveryView::Deliver { component, surface_id, .. } => surface_id == opt_text(
                old.keyboard_focus_surface,
            ).unwrap() && component == surface_component(old.components@, surface_id).unwrap() as usize,
            _ => true,
        },
        (e is PointerMove || e is PointerButton || e is Scroll || e is PointerLeave) ==> match d {
            DeliveryView::Deliver { surface_id, .. } => surface_id == physical,
            _ => true,
        },
{
    let surface = route_surface(old, physical, is_keyboard(e));
    if let Some((i, t)) = surface_target(old.components@, surface) {
        let (mid, before, after) = choose|mid: Shell, before: Seq<ActionView>, after: Seq<ActionView>|
            #[trigger] popovers_followed(mid, old, surface, i, t, e, now, requests, before)
                && #[trigger] delivery_decided(new, mid, surface, i, t, e, d, after) && actions == before + after;
        assert(delivery_decided(new, mid, surface, i, t, e, d, after));
    }
}

} // verus!
