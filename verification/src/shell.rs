//! The shell's bookkeeping of component runtimes and their surfaces: which
//! runtime produced a request, which surfaces are shown, closing or about to
//! hide, who holds keyboard focus, and which providers back which
//! interfaces. Work that reaches the compositor or a component's script comes
//! back to the caller as actions.
use vstd::prelude::*;
use crate::effects::{EffectScheduler, EffectSource, SourceKey, SchedulerState, enqueue_all,
    next_id, batch_effects, followup_effects};
use crate::keyed::{keyed_view, keyed_get, keyed_put, keyed_remove, keyed_find};
use crate::text;
use crate::types::{CoreRequest, KeyboardMode, RequestView, SurfaceRole, TabFocusTarget, opt_text, opt_text_pair};

verus! {

/// The kind of an in-tree child surface of a component.
#[derive(Debug, Clone, Copy, PartialEq, Eq, Structural)]
pub enum ChildSurfaceKind {
    Popover,
    Overflow,
    Window,
}

/// A surface that a component opened from one of its nodes.
#[derive(Debug)]
pub struct ChildSurface {
    pub surface_id: String,
    pub node_key: String,
    pub kind: ChildSurfaceKind,
    pub popup_parent_surface: Option<String>,
    pub force_full_present: bool,
}

/// A loaded component and the state the shell keeps for it.
#[derive(Debug)]
pub struct ComponentRuntime {
    pub component_id: String,
    pub surface_id: String,
    pub quarantined: bool,
    pub failure_count: u32,
    pub popup_parent_surface: Option<String>,
    pub popup_promoted: bool,
    pub hide_transition_ms: u64,
    pub surface_exiting: bool,
    pub keyboard_mode_override: Option<KeyboardMode>,
    pub paint_requested: bool,
    pub force_full_present: bool,
    pub theme_changed: bool,
    pub locale_changed: bool,
    pub children: Vec<ChildSurface>,
}

/// The shell's view of a surface's visibility; a closing surface stays
/// visible until `closing_until` (milliseconds on the shell's clock).
#[derive(Debug, Clone, Copy, PartialEq, Eq, Structural)]
pub struct SurfaceState {
    pub visible: bool,
    pub closing_until: Option<u64>,
}

/// What the presentation layer last configured for a surface.
#[derive(Debug, Clone, Copy, PartialEq, Eq, Structural)]
pub struct SurfaceTarget {
    pub visible: bool,
    pub keyboard_mode: KeyboardMode,
    pub role: SurfaceRole,
}

/// Which of a component's surfaces a surface identifier names.
#[derive(Debug, Clone, Copy, PartialEq, Eq, Structural)]
pub enum TargetRef {
    Parent,
    Child(usize),
}

/// A backend provider running for an interface.
#[derive(Debug)]
pub struct BackendSlot {
    pub interface: String,
    pub provider_id: String,
    pub generation: u64,
}

/// A method of an interface contract.
#[derive(Debug)]
pub struct MethodContract {
    pub name: String,
    pub coalesce: bool,
}

/// The declared methods and state fields of an interface.
#[derive(Debug)]
pub struct InterfaceContract {
    pub interface: String,
    pub methods: Vec<MethodContract>,
    pub state_fields: Vec<String>,
}

/// A lifecycle error recorded for diagnostics.
#[derive(Debug)]
pub struct LifecycleError {
    pub module_id: String,
    pub code: String,
    pub message: String,
}

/// Work that the shell's decisions leave to the presentation layer and to
/// component scripts.
#[derive(Debug)]
pub enum ShellAction {
    /// Tell every component that a surface was shown or hidden.
    BroadcastVisibility { surface_id: String, visible: bool },
    /// Re-send a layer surface's keyboard interactivity.
    ConfigureKeyboardMode { surface_id: String, mode: KeyboardMode },
    /// Tear down a surface's popup object.
    DestroyPopup { surface_id: String },
    /// Tear down a hidden window surface.
    DestroySurface { surface_id: String },
    /// Deliver a pointer-leave to a component's child popover node.
    ChildPointerLeave { component: usize, node_key: String },
    /// Tell a component that one of its nodes triggers a popover surface.
    RegisterPopoverTrigger { component: usize, trigger_key: String, surface_id: String },
    /// Configure a popover surface as a popup anchored at its trigger.
    PromotePopup { surface_id: String, trigger_surface: String, trigger_key: String },
    /// Tell a component that keyboard focus leaves it for another surface.
    ReleaseFocusForTransfer { component: usize },
    /// Hand keyboard focus to a component, with where to land, where to
    /// return and whether leaving closes it.
    ReceiveFocusTransfer {
        component: usize,
        target: TabFocusTarget,
        return_target: Option<(String, String)>,
        closes_on_leave: bool,
    },
    /// Tell a component that its surface now has another role.
    ChangeSurfaceRole { component: usize, role: SurfaceRole },
}

/// The debug tooling's switches.
#[derive(Debug, Clone, Copy, PartialEq, Eq, Structural)]
pub struct DebugState {
    /// The debug inspector overlay is shown.
    pub enabled: bool,
    pub show_layout_bounds: bool,
    pub element_picker_enabled: bool,
    pub profiling_enabled: bool,
    /// Numbers profiling sessions; a new session starts each time profiling is enabled.
    pub profiling_session_id: u64,
    /// The benchmark scenario last asked to run, waiting for its samples.
    pub latest_benchmark_run: Option<crate::requests::BenchmarkScenarioId>,
}

/// The shell state that its scheduling, surface and service bookkeeping read
/// and change.
#[derive(Debug)]
pub struct Shell {
    pub effect_scheduler: EffectScheduler,
    pub activation_generation: u64,
    pub components: Vec<ComponentRuntime>,
    pub core_surfaces: Vec<(String, SurfaceState)>,
    pub surfaces: Vec<(String, SurfaceTarget)>,
    pub pending_popover_hides: Vec<(String, u64)>,
    pub keyboard_focus_surface: Option<String>,
    pub transfer_owned_keyboard_modes: Vec<(String, KeyboardMode)>,
    pub debug: DebugState,
    pub diagnostics: Vec<LifecycleError>,
    pub backend_runtimes: Vec<BackendSlot>,
    pub pending_backend_runtimes: Vec<BackendSlot>,
    pub backend_statuses: Vec<crate::backend::BackendRuntimeRecord>,
    pub interface_contracts: Vec<InterfaceContract>,
    pub accepting_work: bool,
    pub shutdown_effects_allowed: bool,
    pub popup_supported: bool,
}

// ---------------------------------------------------------------------------
// Finding a surface's component.

/// `i` is the first component whose own surface is `id`.
pub open spec fn first_parent(cs: Seq<ComponentRuntime>, id: Seq<char>, i: int) -> bool {
    &&& 0 <= i < cs.len()
    &&& cs[i].surface_id@ == id
    &&& forall|j: int| 0 <= j < i ==> cs[j].surface_id@ != id
}

pub open spec fn has_child(c: ComponentRuntime, id: Seq<char>) -> bool {
    exists|k: int| 0 <= k < c.children@.len() && (#[trigger] c.children@[k]).surface_id@ == id
}

/// `(i, k)` is the first child surface named `id`, no component surface being named `id`.
pub open spec fn first_child(cs: Seq<ComponentRuntime>, id: Seq<char>, i: int, k: int) -> bool {
    &&& 0 <= i < cs.len()
    &&& 0 <= k < cs[i].children@.len()
    &&& cs[i].children@[k].surface_id@ == id
    &&& forall|j: int| 0 <= j < cs.len() ==> cs[j].surface_id@ != id
    &&& forall|j: int| 0 <= j < i ==> !has_child(#[trigger] cs[j], id)
    &&& forall|m: int| 0 <= m < k ==> cs[i].children@[m].surface_id@ != id
}

/// The component and surface of that component that a surface identifier
/// names: a component's own surface first, then its child surfaces.
pub open spec fn surface_target(cs: Seq<ComponentRuntime>, id: Seq<char>) -> Option<(int, TargetRef)> {
    if exists|i: int| first_parent(cs, id, i) {
        Some((choose|i: int| first_parent(cs, id, i), TargetRef::Parent))
    } else if exists|i: int, k: int| first_child(cs, id, i, k) {
        let (i, k) = choose|i: int, k: int| first_child(cs, id, i, k);
        Some((i, TargetRef::Child(k as usize)))
    } else {
        None
    }
}

/// The component a surface identifier belongs to.
pub open spec fn surface_component(cs: Seq<ComponentRuntime>, id: Seq<char>) -> Option<int> {
    match surface_target(cs, id) {
        Some((i, _)) => Some(i),
        None => None,
    }
}

/// The first component whose own surface is `id` (not its children).
pub open spec fn parent_component(cs: Seq<ComponentRuntime>, id: Seq<char>) -> Option<int> {
    if exists|i: int| first_parent(cs, id, i) {
        Some(choose|i: int| first_parent(cs, id, i))
    } else {
        None
    }
}

proof fn lemma_first_parent_unique(cs: Seq<ComponentRuntime>, id: Seq<char>, i: int, j: int)
    requires
        first_parent(cs, id, i),
        first_parent(cs, id, j),
    ensures
        i == j,
{
}

proof fn lemma_first_child_unique(cs: Seq<ComponentRuntime>, id: Seq<char>, i: int, k: int, j: int, m: int)
    requires
        first_child(cs, id, i, k),
        first_child(cs, id, j, m),
    ensures
        i == j && k == m,
{
    if i < j {
        assert(has_child(cs[i], id));
    } else if j < i {
        assert(has_child(cs[j], id));
    }
}

impl Shell {
    /// Index of the first component whose own surface is `surface_id`.
    pub fn parent_index_for_surface(&self, surface_id: &str) -> (r: Option<usize>)
        ensures
            match r {
                Some(i) => parent_component(self.components@, surface_id@) == Some(i as int),
                None => parent_component(self.components@, surface_id@) is None,
            },
    {
        let mut i: usize = 0;
        while i < self.components.len()
            invariant
                i <= self.components@.len(),
                forall|j: int| 0 <= j < i ==> self.components@[j].surface_id@ != surface_id@,
            decreases self.components.len() - i,
        {
            if text::str_eq(self.components[i].surface_id.as_str(), surface_id) {
                proof {
                    assert(first_parent(self.components@, surface_id@, i as int));
                    let c = choose|c: int| first_parent(self.components@, surface_id@, c);
                    lemma_first_parent_unique(self.components@, surface_id@, i as int, c);
                }
                return Some(i);
            }
            i = i + 1;
        }
        None
    }

    /// The component and its surface that `surface_id` names.
    pub fn component_target_for_surface(&self, surface_id: &str) -> (r: Option<(usize, TargetRef)>)
        ensures
            match r {
                Some((i, t)) => surface_target(self.components@, surface_id@) == Some((i as int, t))
                    && i < self.components@.len() && (t matches TargetRef::Child(k) ==> k
                    < self.components@[i as int].children@.len()),
                None => surface_target(self.components@, surface_id@) is None,
            },
    {
        if let Some(i) = self.parent_index_for_surface(surface_id) {
            return Some((i, TargetRef::Parent));
        }
        let mut i: usize = 0;
        while i < self.components.len()
            invariant
                i <= self.components@.len(),
                parent_component(self.components@, surface_id@) is None,
                forall|j: int| 0 <= j < i ==> !has_child(#[trigger] self.components@[j], surface_id@),
            decreases self.components.len() - i,
        {
            let mut k: usize = 0;
            while k < self.components[i].children.len()
                invariant
                    i < self.components@.len(),
                    k <= self.components@[i as int].children@.len(),
                    parent_component(self.components@, surface_id@) is None,
                    forall|j: int| 0 <= j < i ==> !has_child(#[trigger] self.components@[j], surface_id@),
                    forall|m: int| 0 <= m < k ==> self.components@[i as int].children@[m].surface_id@ != surface_id@,
                decreases self.components[i as int].children@.len() - k,
            {
                if text::str_eq(self.components[i].children[k].surface_id.as_str(), surface_id) {
                    proof {
                        assert forall|j: int| 0 <= j < self.components@.len() implies self.components@[j].surface_id@ != surface_id@ by {
                            if self.components@[j].surface_id@ == surface_id@ {
                                lemma_some_first_parent(self.components@, surface_id@, j);
                            }
                        }
                        assert(first_child(self.components@, surface_id@, i as int, k as int));
                        let (a, b) = choose|a: int, b: int| first_child(self.components@, surface_id@, a, b);
                        lemma_first_child_unique(self.components@, surface_id@, i as int, k as int, a, b);
                        assert(!exists|x: int| first_parent(self.components@, surface_id@, x));
                        assert(surface_target(self.components@, surface_id@) == Some((a, TargetRef::Child(b as usize))));
                        assert(a == i as int && b == k as int);
                        assert(TargetRef::Child(b as usize) == TargetRef::Child(k));
                        assert(surface_target(self.components@, surface_id@) == Some((i as int, TargetRef::Child(k))));
                    }
                    return Some((i, TargetRef::Child(k)));
                }
                k = k + 1;
            }
            proof {
                assert(!has_child(self.components@[i as int], surface_id@));
            }
            i = i + 1;
        }
        proof {
            assert forall|a: int, b: int| !first_child(self.components@, surface_id@, a, b) by {
                if first_child(self.components@, surface_id@, a, b) {
                    assert(has_child(self.components@[a], surface_id@));
                }
            }
        }
        None
    }
}

/// Some component surface named `id` at or before `j` makes a first one exist.
proof fn lemma_some_first_parent(cs: Seq<ComponentRuntime>, id: Seq<char>, j: int)
    requires
        0 <= j < cs.len(),
        cs[j].surface_id@ == id,
    ensures
        exists|x: int| first_parent(cs, id, x),
    decreases j,
{
    if exists|m: int| 0 <= m < j && cs[m].surface_id@ == id {
        let m = choose|m: int| 0 <= m < j && cs[m].surface_id@ == id;
        lemma_some_first_parent(cs, id, m);
    } else {
        assert(first_parent(cs, id, j));
    }
}

// ---------------------------------------------------------------------------
// Effect sources.

/// The module and runtime that produced a request concerning surface `id`:
/// the component owning the surface, or the shell itself.
pub open spec fn surface_source(cs: Seq<ComponentRuntime>, id: Seq<char>) -> (Seq<char>, Seq<char>) {
    match surface_component(cs, id) {
        Some(i) => (cs[i].component_id@, id),
        None => ("@mesh/shell"@, id),
    }
}

/// The source a request is charged to.
pub open spec fn request_source(cs: Seq<ComponentRuntime>, generation: u64, r: RequestView) -> SourceKey {
    let (m, rt) = match r {
        RequestView::ToggleSurface { surface_id } => surface_source(cs, surface_id),
        RequestView::ShowSurface { surface_id } => surface_source(cs, surface_id),
        RequestView::HideSurface { surface_id } => surface_source(cs, surface_id),
        RequestView::HidePopover { surface_id, .. } => surface_source(cs, surface_id),
        RequestView::SetSurfaceRole { surface_id, .. } => surface_source(cs, surface_id),
        RequestView::ToggleSurfaceRole { surface_id } => surface_source(cs, surface_id),
        RequestView::SetChildSurfaceRole { surface_id, .. } => surface_source(cs, surface_id),
        RequestView::PositionSurface { surface_id, .. } => surface_source(cs, surface_id),
        RequestView::ActivatePopover { surface_id, .. } => surface_source(cs, surface_id),
        RequestView::TransferTabFocus { from_surface, .. } => surface_source(cs, from_surface),
        RequestView::ServiceCommand { source_module_id, .. } => (source_module_id, source_module_id),
        RequestView::ServiceCall { source_module_id, source_instance_id, .. } => (
            source_module_id,
            source_instance_id,
        ),
        RequestView::CancelServiceCall { source_module_id, source_instance_id, .. } => (
            source_module_id,
            source_instance_id,
        ),
        _ => ("@mesh/shell"@, "shell"@),
    };
    SourceKey { module_id: m, runtime_id: rt, generation }
}

/// `new` is `old` after `requests` were handed to the effect scheduler: as
/// follow-ups of the effect being applied when there is one, otherwise as
/// one new transaction with each request charged to its source; nothing
/// else changes.
pub open spec fn effects_enqueued(new: Shell, old: Shell, requests: Seq<CoreRequest>) -> bool {
    &&& new == (Shell { effect_scheduler: new.effect_scheduler, ..old })
    &&& requests.len() == 0 ==> new.effect_scheduler@ == old.effect_scheduler@
    &&& requests.len() > 0 ==> match old.effect_scheduler@.active_context {
        Some(context) => new.effect_scheduler@ == enqueue_all(old.effect_scheduler@, followup_effects(requests, context)),
        None => exists|items: Seq<(CoreRequest, EffectSource)>|
            {
                &&& items.len() == requests.len()
                &&& forall|i: int|
                    0 <= i < items.len() ==> (#[trigger] items[i]).0 == requests[i] && items[i].1@ == request_source(
                        old.components@,
                        old.activation_generation,
                        requests[i]@,
                    )
                &&& new.effect_scheduler@ == enqueue_all(
                    SchedulerState { next_transaction_id: next_id(old.effect_scheduler@.next_transaction_id), ..old.effect_scheduler@ },
                    batch_effects(items, old.effect_scheduler@.next_transaction_id),
                )
            },
    }
}

impl Shell {
    /// The module and runtime identifiers that a request concerning
    /// `surface_id` is charged to.
    pub fn effect_source_for_surface(&self, surface_id: &str) -> (r: (String, String))
        ensures
            (r.0@, r.1@) == surface_source(self.components@, surface_id@),
    {
        match self.component_target_for_surface(surface_id) {
            Some((i, _)) => (self.components[i].component_id.clone(), String::from_str(surface_id)),
            None => (String::from_str("@mesh/shell"), String::from_str(surface_id)),
        }
    }

    /// The source a request is charged to, in the current activation generation.
    pub fn effect_source_for_request(&self, request: &CoreRequest) -> (r: EffectSource)
        ensures
            r@ == request_source(self.components@, self.activation_generation, request@),
    {
        let (module_id, runtime_id) = match request {
            CoreRequest::ToggleSurface { surface_id } => self.effect_source_for_surface(surface_id.as_str()),
            CoreRequest::ShowSurface { surface_id } => self.effect_source_for_surface(surface_id.as_str()),
            CoreRequest::HideSurface { surface_id } => self.effect_source_for_surface(surface_id.as_str()),
            CoreRequest::HidePopover { surface_id, .. } => self.effect_source_for_surface(surface_id.as_str()),
            CoreRequest::SetSurfaceRole { surface_id, .. } => self.effect_source_for_surface(surface_id.as_str()),
            CoreRequest::ToggleSurfaceRole { surface_id } => self.effect_source_for_surface(surface_id.as_str()),
            CoreRequest::SetChildSurfaceRole { surface_id, .. } => self.effect_source_for_surface(surface_id.as_str()),
            CoreRequest::PositionSurface { surface_id, .. } => self.effect_source_for_surface(surface_id.as_str()),
            CoreRequest::ActivatePopover { surface_id, .. } => self.effect_source_for_surface(surface_id.as_str()),
            CoreRequest::TransferTabFocus { from_surface, .. } => self.effect_source_for_surface(from_surface.as_str()),
            CoreRequest::ServiceCommand { source_module_id, .. } => (
                source_module_id.clone(),
                source_module_id.clone(),
            ),
            CoreRequest::ServiceCall { source_module_id, source_instance_id, .. } => (
                source_module_id.clone(),
                source_instance_id.clone(),
            ),
            CoreRequest::CancelServiceCall { source_module_id, source_instance_id, .. } => (
                source_module_id.clone(),
                source_instance_id.clone(),
            ),
            _ => (String::from_str("@mesh/shell"), String::from_str("shell")),
        };
        EffectSource { module_id, runtime_id, generation: self.activation_generation }
    }

    /// Hands requests to the effect scheduler: as follow-ups of the effect
    /// being applied when there is one, otherwise as one new transaction with
    /// each request charged to its source. An empty list changes nothing.
    pub fn enqueue_effects(&mut self, requests: Vec<CoreRequest>)
        requires
            old(self).effect_scheduler@.queued.len() + old(self).effect_scheduler@.deferred.len()
                + requests@.len() <= usize::MAX,
        ensures
            effects_enqueued(*final(self), *old(self), requests@),
    {
        if requests.len() == 0 {
            return;
        }
        if self.effect_scheduler.active_context.is_some() {
            self.effect_scheduler.enqueue_followups(requests);
            return;
        }
        let ghost all = requests@;
        let mut rest = requests;
        let mut items: Vec<(CoreRequest, EffectSource)> = Vec::new();
        let ghost mut i: int = 0;
        while rest.len() > 0
            invariant
                0 <= i <= all.len(),
                rest@ == all.subrange(i, all.len() as int),
                items@.len() == i,
                forall|j: int|
                    0 <= j < i ==> (#[trigger] items@[j]).0 == all[j] && items@[j].1@
                        == request_source(self.components@, self.activation_generation, all[j]@),
            decreases rest.len(),
        {
            let request = rest.remove(0);
            let source = self.effect_source_for_request(&request);
            items.push((request, source));
            proof {
                i = i + 1;
                assert(rest@ =~= all.subrange(i, all.len() as int));
            }
        }
        self.effect_scheduler.enqueue_batch(items);
    }

    /// Drops every scheduled effect, returning how many there were.
    pub fn discard_scheduled_effects(&mut self) -> (r: usize)
        requires
            old(self).effect_scheduler@.wf(),
        ensures
            r == old(self).effect_scheduler@.pending().len(),
            final(self).effect_scheduler@ == (SchedulerState {
                queued: Seq::empty(),
                ready: Seq::empty(),
                deferred: Seq::empty(),
                ..old(self).effect_scheduler@
            }),
            *final(self) == (Shell { effect_scheduler: final(self).effect_scheduler, ..*old(self) }),
    {
        self.effect_scheduler.discard_pending()
    }
}

// ---------------------------------------------------------------------------
// Surface visibility.

pub enum ActionView {
    BroadcastVisibility { surface_id: Seq<char>, visible: bool },
    ConfigureKeyboardMode { surface_id: Seq<char>, mode: KeyboardMode },
    DestroyPopup { surface_id: Seq<char> },
    DestroySurface { surface_id: Seq<char> },
    ChildPointerLeave { component: usize, node_key: Seq<char> },
    RegisterPopoverTrigger { component: usize, trigger_key: Seq<char>, surface_id: Seq<char> },
    PromotePopup { surface_id: Seq<char>, trigger_surface: Seq<char>, trigger_key: Seq<char> },
    ReleaseFocusForTransfer { component: usize },
    ReceiveFocusTransfer {
        component: usize,
        target: TabFocusTarget,
        return_target: Option<(Seq<char>, Seq<char>)>,
        closes_on_leave: bool,
    },
    ChangeSurfaceRole { component: usize, role: SurfaceRole },
}

impl View for ShellAction {
    type V = ActionView;

    open spec fn view(&self) -> ActionView {
        match self {
            ShellAction::BroadcastVisibility { surface_id, visible } =>
                ActionView::BroadcastVisibility { surface_id: surface_id@, visible: *visible },
            ShellAction::ConfigureKeyboardMode { surface_id, mode } =>
                ActionView::ConfigureKeyboardMode { surface_id: surface_id@, mode: *mode },
            ShellAction::DestroyPopup { surface_id } => ActionView::DestroyPopup {
                surface_id: surface_id@,
            },
            ShellAction::DestroySurface { surface_id } => ActionView::DestroySurface {
                surface_id: surface_id@,
            },
            ShellAction::ChildPointerLeave { component, node_key } =>
                ActionView::ChildPointerLeave { component: *component, node_key: node_key@ },
            ShellAction::RegisterPopoverTrigger { component, trigger_key, surface_id } =>
                ActionView::RegisterPopoverTrigger {
                component: *component,
                trigger_key: trigger_key@,
                surface_id: surface_id@,
            },
            ShellAction::PromotePopup { surface_id, trigger_surface, trigger_key } =>
                ActionView::PromotePopup {
                surface_id: surface_id@,
                trigger_surface: trigger_surface@,
                trigger_key: trigger_key@,
            },
            ShellAction::ReleaseFocusForTransfer { component } => ActionView::ReleaseFocusForTransfer {
                component: *component,
            },
            ShellAction::ReceiveFocusTransfer { component, target, return_target, closes_on_leave } =>
                ActionView::ReceiveFocusTransfer {
                component: *component,
                target: *target,
                return_target: opt_text_pair(*return_target),
                closes_on_leave: *closes_on_leave,
            },
            ShellAction::ChangeSurfaceRole { component, role } => ActionView::ChangeSurfaceRole {
                component: *component,
                role: *role,
            },
        }
    }
}

pub open spec fn action_views(actions: Seq<ShellAction>) -> Seq<ActionView> {
    Seq::new(actions.len(), |i: int| actions[i]@)
}

pub const DEBUG_INSPECTOR_SURFACE_ID: &'static str = "@mesh/debug-inspector";

/// Delay before a popover left by the pointer hides, so the pointer can
/// cross to it from its trigger.
pub const POPOVER_HOVER_BRIDGE_DELAY_MS: u64 = 180;

/// The fields of a component that surface bookkeeping never changes.
pub open spec fn same_identity(a: ComponentRuntime, b: ComponentRuntime) -> bool {
    &&& a.component_id == b.component_id
    &&& a.surface_id == b.surface_id
    &&& a.quarantined == b.quarantined
    &&& a.failure_count == b.failure_count
    &&& a.hide_transition_ms == b.hide_transition_ms
    &&& a.paint_requested == b.paint_requested
    &&& a.theme_changed == b.theme_changed
    &&& a.locale_changed == b.locale_changed
}

/// `new` is `old` after its surface was hidden: no keyboard override, not
/// exiting, its popup and child surfaces torn down, and a window surface
/// marked for a full present.
pub open spec fn hidden_component(new: ComponentRuntime, old: ComponentRuntime, is_window: bool) -> bool {
    &&& same_identity(new, old)
    &&& new.keyboard_mode_override is None
    &&& !new.surface_exiting
    &&& new.popup_parent_surface is None
    &&& new.popup_promoted == (old.popup_promoted && old.popup_parent_surface is None)
    &&& new.children@.len() == 0
    &&& new.force_full_present == (old.force_full_present || is_window)
}

/// `new` is `old` with only `surface_exiting` set to `exiting`.
pub open spec fn exiting_set(new: ComponentRuntime, old: ComponentRuntime, exiting: bool) -> bool {
    &&& same_identity(new, old)
    &&& new.keyboard_mode_override == old.keyboard_mode_override
    &&& new.surface_exiting == exiting
    &&& new.popup_parent_surface == old.popup_parent_surface
    &&& new.popup_promoted == old.popup_promoted
    &&& new.children == old.children
    &&& new.force_full_present == old.force_full_present
}

/// `new` is `old` entering its exit transition: no keyboard override, exiting.
pub open spec fn exiting_started(new: ComponentRuntime, old: ComponentRuntime) -> bool {
    &&& same_identity(new, old)
    &&& new.keyboard_mode_override is None
    &&& new.surface_exiting
    &&& new.popup_parent_surface == old.popup_parent_surface
    &&& new.popup_promoted == old.popup_promoted
    &&& new.children == old.children
    &&& new.force_full_present == old.force_full_present
}

/// Every component but the one at `i` (if any) is unchanged.
pub open spec fn others_unchanged(new: Seq<ComponentRuntime>, old: Seq<ComponentRuntime>, i: Option<int>) -> bool {
    &&& new.len() == old.len()
    &&& forall|j: int| 0 <= j < old.len() && Some(j) != i ==> new[j] == old[j]
}

/// Whether the shell considers surface `id` shown: its own record, else
/// what the presentation layer last configured, else hidden.
pub open spec fn current_visible(core: Map<Seq<char>, SurfaceState>, targets: Map<Seq<char>, SurfaceTarget>, id: Seq<char>) -> bool {
    if core.contains_key(id) {
        core[id].visible
    } else if targets.contains_key(id) {
        targets[id].visible
    } else {
        false
    }
}

pub open spec fn closing(core: Map<Seq<char>, SurfaceState>, id: Seq<char>) -> bool {
    core.contains_key(id) && core[id].closing_until is Some
}

/// The presentation targets after a surface's keyboard mode owned by a tab
/// focus transfer is handed back.
pub open spec fn targets_after_restore(
    targets: Map<Seq<char>, SurfaceTarget>,
    owned: Map<Seq<char>, KeyboardMode>,
    id: Seq<char>,
) -> Map<Seq<char>, SurfaceTarget> {
    if owned.contains_key(id) && targets.contains_key(id) {
        targets.insert(id, SurfaceTarget { keyboard_mode: owned[id], ..targets[id] })
    } else {
        targets
    }
}

pub open spec fn focus_after_hide(focus: Option<Seq<char>>, id: Seq<char>) -> Option<Seq<char>> {
    if focus == Some(id) {
        None
    } else {
        focus
    }
}

pub open spec fn is_window_surface(s: Shell, id: Seq<char>) -> bool {
    keyed_view(s.surfaces@).contains_key(id) && keyed_view(s.surfaces@)[id].role == SurfaceRole::Window
}

/// The surface ids of the first `n` child surfaces.
pub open spec fn first_child_ids(children: Seq<ChildSurface>, n: int) -> Set<Seq<char>> {
    Set::new(|id: Seq<char>| exists|m: int| 0 <= m < n && (#[trigger] children[m]).surface_id@ == id)
}

/// The child surfaces torn down when surface `id` is shown (`visible`) or
/// hidden at once: those of the component that owns it, when it is hidden.
pub open spec fn torn_down_children(old: Shell, id: Seq<char>, visible: bool) -> Set<Seq<char>> {
    if !visible && parent_component(old.components@, id) is Some {
        let c = old.components@[parent_component(old.components@, id).unwrap()];
        first_child_ids(c.children@, c.children@.len() as int)
    } else {
        Set::empty()
    }
}

/// The popup teardowns of the first `n` child surfaces: one for each that
/// has a popup.
pub open spec fn child_popup_teardown(children: Seq<ChildSurface>, n: int) -> Seq<ActionView>
    decreases n,
{
    if n <= 0 {
        seq![]
    } else {
        let rest = child_popup_teardown(children, n - 1);
        if children[n - 1].popup_parent_surface is Some {
            rest.push(ActionView::DestroyPopup { surface_id: children[n - 1].surface_id@ })
        } else {
            rest
        }
    }
}

/// Keyboard focus after the surfaces in `gone` are torn down.
pub open spec fn focus_after_teardown(focus: Option<Seq<char>>, gone: Set<Seq<char>>) -> Option<Seq<char>> {
    match focus {
        Some(f) => if gone.contains(f) {
            None
        } else {
            focus
        },
        None => None,
    }
}

/// The teardown actions of hiding surface `id` at once: its popup, its
/// child surfaces' popups, and a window surface.
pub open spec fn hide_teardown_actions(old: Shell, id: Seq<char>) -> Seq<ActionView> {
    if parent_component(old.components@, id) is Some {
        let i = parent_component(old.components@, id).unwrap();
        (if old.components@[i].popup_parent_surface is Some {
            seq![ActionView::DestroyPopup { surface_id: id }]
        } else {
            seq![]
        }) + child_popup_teardown(old.components@[i].children@, old.components@[i].children@.len() as int) + (if is_window_surface(old, id) {
            seq![ActionView::DestroySurface { surface_id: id }]
        } else {
            seq![]
        })
    } else {
        seq![]
    }
}

/// The actions of showing or hiding a surface at once.
pub open spec fn visibility_now_actions(old: Shell, id: Seq<char>, visible: bool) -> Seq<ActionView> {
    (if !visible {
        hide_teardown_actions(old, id)
    } else {
        seq![]
    }).push(ActionView::BroadcastVisibility { surface_id: id, visible })
}

/// The fields that surface bookkeeping leaves alone.
pub open spec fn bookkeeping_unchanged(new: Shell, old: Shell) -> bool {
    &&& new.effect_scheduler == old.effect_scheduler
    &&& new.activation_generation == old.activation_generation
    &&& new.diagnostics == old.diagnostics
    &&& new.backend_runtimes == old.backend_runtimes
    &&& new.pending_backend_runtimes == old.pending_backend_runtimes
    &&& new.backend_statuses == old.backend_statuses
    &&& new.interface_contracts == old.interface_contracts
    &&& new.accepting_work == old.accepting_work
    &&& new.shutdown_effects_allowed == old.shutdown_effects_allowed
    &&& new.popup_supported == old.popup_supported
}

/// `new` is `old` after surface `id` was shown (`visible`) or hidden at
/// once, with actions `r`.
pub open spec fn visibility_set_now(new: Shell, old: Shell, id: Seq<char>, visible: bool, r: Seq<ActionView>) -> bool {
    let gone = torn_down_children(old, id, visible);
    &&& keyed_view(new.core_surfaces@) == keyed_view(old.core_surfaces@).remove_keys(gone).insert(
        id,
        SurfaceState { visible, closing_until: None },
    )
    &&& opt_text(new.keyboard_focus_surface) == if visible {
        opt_text(old.keyboard_focus_surface)
    } else {
        focus_after_hide(focus_after_teardown(opt_text(old.keyboard_focus_surface), gone), id)
    }
    &&& new.debug == if id == DEBUG_INSPECTOR_SURFACE_ID@ {
        DebugState { enabled: visible, ..old.debug }
    } else {
        old.debug
    }
    &&& visible ==> new.components == old.components
    &&& visible ==> new.keyboard_focus_surface == old.keyboard_focus_surface
    &&& visible ==> new.transfer_owned_keyboard_modes == old.transfer_owned_keyboard_modes
    &&& visible ==> new.surfaces == old.surfaces
    &&& !visible ==> keyed_view(new.transfer_owned_keyboard_modes@) == keyed_view(
        old.transfer_owned_keyboard_modes@,
    ).remove(id)
    &&& !visible ==> keyed_view(new.surfaces@) == targets_after_restore(
        keyed_view(old.surfaces@).remove_keys(gone),
        keyed_view(old.transfer_owned_keyboard_modes@),
        id,
    )
    &&& !visible ==> others_unchanged(new.components@, old.components@, parent_component(old.components@, id))
    &&& !visible ==> match parent_component(old.components@, id) {
        Some(i) => hidden_component(new.components@[i], old.components@[i], is_window_surface(old, id)),
        None => true,
    }
    &&& r == visibility_now_actions(old, id, visible)
    &&& new.pending_popover_hides == old.pending_popover_hides
    &&& bookkeeping_unchanged(new, old)
}

impl Shell {
    /// Hands back a surface's keyboard mode owned by a tab focus transfer.
    fn restore_transfer_owned_mode(&mut self, surface_id: &str)
        ensures
            keyed_view(final(self).transfer_owned_keyboard_modes@) == keyed_view(
                old(self).transfer_owned_keyboard_modes@,
            ).remove(surface_id@),
            keyed_view(final(self).surfaces@) == targets_after_restore(
                keyed_view(old(self).surfaces@),
                keyed_view(old(self).transfer_owned_keyboard_modes@),
                surface_id@,
            ),
            final(self).components == old(self).components,
            final(self).core_surfaces == old(self).core_surfaces,
            final(self).pending_popover_hides == old(self).pending_popover_hides,
            final(self).keyboard_focus_surface == old(self).keyboard_focus_surface,
            final(self).debug == old(self).debug,
            bookkeeping_unchanged(*final(self), *old(self)),
    {
        if let Some(previous_mode) = keyed_remove(&mut self.transfer_owned_keyboard_modes, surface_id) {
            if let Some(target) = keyed_get(&self.surfaces, surface_id) {
                keyed_put(
                    &mut self.surfaces,
                    surface_id,
                    SurfaceTarget { keyboard_mode: previous_mode, ..target },
                );
            }
        }
    }

    /// Tears down the child surfaces of the component at `index`: each
    /// child's popup is destroyed, its surface records are dropped, and a
    /// child holding keyboard focus loses it.
    pub(crate) fn tear_down_child_surfaces(&mut self, index: usize, actions: &mut Vec<ShellAction>)
        requires
            index < old(self).components@.len(),
        ensures
            ({
                let c = old(self).components@[index as int];
                let gone = first_child_ids(c.children@, c.children@.len() as int);
                &&& keyed_view(final(self).core_surfaces@) == keyed_view(old(self).core_surfaces@).remove_keys(gone)
                &&& keyed_view(final(self).surfaces@) == keyed_view(old(self).surfaces@).remove_keys(gone)
                &&& opt_text(final(self).keyboard_focus_surface) == focus_after_teardown(
                    opt_text(old(self).keyboard_focus_surface),
                    gone,
                )
                &&& action_views(final(actions)@) == action_views(old(actions)@) + child_popup_teardown(
                    c.children@,
                    c.children@.len() as int,
                )
            }),
            final(self).components == old(self).components,
            final(self).pending_popover_hides == old(self).pending_popover_hides,
            final(self).transfer_owned_keyboard_modes == old(self).transfer_owned_keyboard_modes,
            final(self).debug == old(self).debug,
            bookkeeping_unchanged(*final(self), *old(self)),
    {
        let n = self.components[index].children.len();
        let ghost children = self.components@[index as int].children@;
        let ghost core0 = keyed_view(self.core_surfaces@);
        let ghost targets0 = keyed_view(self.surfaces@);
        let ghost focus0 = opt_text(self.keyboard_focus_surface);
        let ghost actions0 = action_views(actions@);
        let mut k: usize = 0;
        while k < n
            invariant
                index < self.components@.len(),
                n == children.len(),
                children == self.components@[index as int].children@,
                k <= n,
                keyed_view(self.core_surfaces@) == core0.remove_keys(first_child_ids(children, k as int)),
                keyed_view(self.surfaces@) == targets0.remove_keys(first_child_ids(children, k as int)),
                opt_text(self.keyboard_focus_surface) == focus_after_teardown(focus0, first_child_ids(children, k as int)),
                action_views(actions@) == actions0 + child_popup_teardown(children, k as int),
                self.components == old(self).components,
                self.pending_popover_hides == old(self).pending_popover_hides,
                self.transfer_owned_keyboard_modes == old(self).transfer_owned_keyboard_modes,
                self.debug == old(self).debug,
                bookkeeping_unchanged(*self, *old(self)),
            decreases n - k,
        {
            let id = self.components[index].children[k].surface_id.clone();
            let has_popup = self.components[index].children[k].popup_parent_surface.is_some();
            let ghost before = first_child_ids(children, k as int);
            let ghost after = first_child_ids(children, k + 1);
            proof {
                assert(after =~= before.insert(id@)) by {
                    assert(children[k as int].surface_id@ == id@);
                }
            }
            if has_popup {
                let ghost prev = actions@;
                actions.push(ShellAction::DestroyPopup { surface_id: id.clone() });
                proof {
                    assert(action_views(actions@) =~= action_views(prev).push(ActionView::DestroyPopup { surface_id: id@ }));
                }
            }
            keyed_remove(&mut self.core_surfaces, id.as_str());
            keyed_remove(&mut self.surfaces, id.as_str());
            let focused = match &self.keyboard_focus_surface {
                Some(f) => text::str_eq(f.as_str(), id.as_str()),
                None => false,
            };
            if focused {
                self.keyboard_focus_surface = None;
            }
            proof {
                assert(keyed_view(self.core_surfaces@) =~= core0.remove_keys(after));
                assert(keyed_view(self.surfaces@) =~= targets0.remove_keys(after));
            }
            k = k + 1;
        }
    }

    /// What hiding a surface at once tears down: the owning component's
    /// keyboard override and exit state, its popup, its child surfaces and
    /// a window surface, and a transfer-owned keyboard mode.
    #[verifier::spinoff_prover]
    fn tear_down_for_hide(&mut self, surface_id: &str, actions: &mut Vec<ShellAction>)
        ensures
            ({
                let gone = torn_down_children(*old(self), surface_id@, false);
                &&& keyed_view(final(self).core_surfaces@) == keyed_view(old(self).core_surfaces@).remove_keys(gone)
                &&& keyed_view(final(self).surfaces@) == targets_after_restore(
                    keyed_view(old(self).surfaces@).remove_keys(gone),
                    keyed_view(old(self).transfer_owned_keyboard_modes@),
                    surface_id@,
                )
                &&& opt_text(final(self).keyboard_focus_surface) == focus_after_teardown(
                    opt_text(old(self).keyboard_focus_surface),
                    gone,
                )
            }),
            keyed_view(final(self).transfer_owned_keyboard_modes@) == keyed_view(
                old(self).transfer_owned_keyboard_modes@,
            ).remove(surface_id@),
            others_unchanged(final(self).components@, old(self).components@, parent_component(old(self).components@, surface_id@)),
            match parent_component(old(self).components@, surface_id@) {
                Some(i) => hidden_component(final(self).components@[i], old(self).components@[i], is_window_surface(*old(self), surface_id@)),
                None => true,
            },
            action_views(final(actions)@) == action_views(old(actions)@) + hide_teardown_actions(*old(self), surface_id@),
            final(self).pending_popover_hides == old(self).pending_popover_hides,
            final(self).debug == old(self).debug,
            bookkeeping_unchanged(*final(self), *old(self)),
    {
        let ghost gone = torn_down_children(*old(self), surface_id@, false);
        let ghost core0 = keyed_view(old(self).core_surfaces@);
        let ghost targets0 = keyed_view(old(self).surfaces@);
        let ghost focus0 = opt_text(old(self).keyboard_focus_surface);
        let ghost actions0 = action_views(old(actions)@);
        let is_window = match keyed_get(&self.surfaces, surface_id) {
            Some(target) => target.role == SurfaceRole::Window,
            None => false,
        };
        if let Some(index) = self.parent_index_for_surface(surface_id) {
            let had_popup = self.components[index].popup_parent_surface.is_some();
            self.components[index].keyboard_mode_override = None;
            self.components[index].surface_exiting = false;
            if had_popup {
                self.components[index].popup_parent_surface = None;
                self.components[index].popup_promoted = false;
                actions.push(ShellAction::DestroyPopup { surface_id: String::from_str(surface_id) });
            }
            let ghost popup_actions = action_views(actions@);
            assert(popup_actions =~= actions0 + (if had_popup {
                seq![ActionView::DestroyPopup { surface_id: surface_id@ }]
            } else {
                seq![]
            }));
            assert(self.components@[index as int].children == old(self).components@[index as int].children);
            self.tear_down_child_surfaces(index, actions);
            self.components[index].children = Vec::new();
            let ghost child_actions = action_views(actions@);
            if is_window {
                actions.push(ShellAction::DestroySurface { surface_id: String::from_str(surface_id) });
                self.components[index].force_full_present = true;
            }
            proof {
                assert(action_views(actions@) =~= child_actions + (if is_window {
                    seq![ActionView::DestroySurface { surface_id: surface_id@ }]
                } else {
                    seq![]
                }));
                assert(action_views(actions@) =~= actions0 + hide_teardown_actions(*old(self), surface_id@));
            }
        } else {
            proof {
                assert(core0.remove_keys(gone) =~= core0);
                assert(targets0.remove_keys(gone) =~= targets0);
                assert(action_views(actions@) =~= actions0 + hide_teardown_actions(*old(self), surface_id@));
            }
        }
        self.restore_transfer_owned_mode(surface_id);
    }

    /// Shows or hides a surface at once. Hiding clears the owning
    /// component's keyboard override and exit state, tears down its popup
    /// (asking for the popup object to be destroyed) and child surfaces
    /// (their popups destroyed, their records dropped, their focus lost),
    /// destroys a window surface, and hands back a transfer-owned keyboard
    /// mode; the debug inspector surface's visibility is the debug overlay's.
    /// Either way the surface's record becomes the given visibility with no
    /// pending close, a hidden surface loses keyboard focus, and components
    /// are told of the change.
    #[verifier::spinoff_prover]
    #[verifier::rlimit(40)]
    pub fn set_surface_visibility_now(&mut self, surface_id: &str, visible: bool) -> (r: Vec<ShellAction>)
        ensures
            visibility_set_now(*final(self), *old(self), surface_id@, visible, action_views(r@)),
    {
        let mut actions: Vec<ShellAction> = Vec::new();
        if !visible {
            self.tear_down_for_hide(surface_id, &mut actions);
        } else {
            proof {
                assert(keyed_view(old(self).core_surfaces@).remove_keys(Set::empty()) =~= keyed_view(old(self).core_surfaces@));
            }
        }
        if text::str_eq(surface_id, DEBUG_INSPECTOR_SURFACE_ID) {
            self.debug.enabled = visible;
        }
        keyed_put(&mut self.core_surfaces, surface_id, SurfaceState { visible, closing_until: None });
        if !visible {
            let focused = match &self.keyboard_focus_surface {
                Some(focus) => text::str_eq(focus.as_str(), surface_id),
                None => false,
            };
            if focused {
                self.keyboard_focus_surface = None;
            }
        }
        actions.push(ShellAction::BroadcastVisibility { surface_id: String::from_str(surface_id), visible });
        proof {
            assert(action_views(actions@) =~= visibility_now_actions(*old(self), surface_id@, visible));
        }
        actions
    }
}

/// The exit transition configured for surface `id`'s component, zero when none.
pub open spec fn hide_transition_of(cs: Seq<ComponentRuntime>, id: Seq<char>) -> u64 {
    match parent_component(cs, id) {
        Some(i) => cs[i].hide_transition_ms,
        None => 0,
    }
}

/// A visibility request that changes nothing: showing a shown surface that
/// is neither closing nor about to hide, hiding a closing surface, or hiding
/// a hidden one.
pub open spec fn visibility_request_is_noop(s: Shell, id: Seq<char>, visible: bool) -> bool {
    let core = keyed_view(s.core_surfaces@);
    let cur = current_visible(core, keyed_view(s.surfaces@), id);
    ||| visible && cur && !closing(core, id) && !keyed_view(s.pending_popover_hides@).contains_key(id)
    ||| !visible && closing(core, id)
    ||| !visible && !cur
}

pub open spec fn surface_fields_unchanged(new: Shell, old: Shell) -> bool {
    &&& new.components == old.components
    &&& new.core_surfaces == old.core_surfaces
    &&& new.surfaces == old.surfaces
    &&& new.pending_popover_hides == old.pending_popover_hides
    &&& new.keyboard_focus_surface == old.keyboard_focus_surface
    &&& new.transfer_owned_keyboard_modes == old.transfer_owned_keyboard_modes
    &&& new.debug == old.debug
}

pub open spec fn sat_add_u64(a: u64, b: u64) -> u64 {
    if a + b > u64::MAX {
        u64::MAX
    } else {
        (a + b) as u64
    }
}

/// `new` is `old` after hiding surface `id` began its exit transition at
/// `now`: the surface stays visible until the transition ends, loses
/// keyboard focus, its component is marked exiting without keyboard
/// override, and a transfer-owned keyboard mode is handed back.
pub open spec fn hide_transition_started(new: Shell, old: Shell, id: Seq<char>, now: u64) -> bool {
    &&& keyed_view(new.core_surfaces@) == keyed_view(old.core_surfaces@).insert(
        id,
        SurfaceState {
            visible: true,
            closing_until: Some(sat_add_u64(now, hide_transition_of(old.components@, id))),
        },
    )
    &&& opt_text(new.keyboard_focus_surface) == focus_after_hide(opt_text(old.keyboard_focus_surface), id)
    &&& keyed_view(new.transfer_owned_keyboard_modes@) == keyed_view(
        old.transfer_owned_keyboard_modes@,
    ).remove(id)
    &&& keyed_view(new.surfaces@) == targets_after_restore(
        keyed_view(old.surfaces@),
        keyed_view(old.transfer_owned_keyboard_modes@),
        id,
    )
    &&& others_unchanged(new.components@, old.components@, parent_component(old.components@, id))
    &&& match parent_component(old.components@, id) {
        Some(i) => exiting_started(new.components@[i], old.components@[i]),
        None => true,
    }
    &&& new.pending_popover_hides == old.pending_popover_hides
    &&& new.debug == old.debug
    &&& bookkeeping_unchanged(new, old)
}

/// `new` is `old` after surface `id` was shown: no hide pending or running,
/// the component no longer exiting, and components told of it.
pub open spec fn visibility_shown(new: Shell, old: Shell, id: Seq<char>, r: Seq<ActionView>) -> bool {
    &&& keyed_view(new.pending_popover_hides@) == keyed_view(old.pending_popover_hides@).remove(id)
    &&& keyed_view(new.core_surfaces@) == keyed_view(old.core_surfaces@).insert(
        id,
        SurfaceState { visible: true, closing_until: None },
    )
    &&& others_unchanged(new.components@, old.components@, parent_component(old.components@, id))
    &&& match parent_component(old.components@, id) {
        Some(i) => exiting_set(new.components@[i], old.components@[i], false),
        None => true,
    }
    &&& new.keyboard_focus_surface == old.keyboard_focus_surface
    &&& new.transfer_owned_keyboard_modes == old.transfer_owned_keyboard_modes
    &&& new.surfaces == old.surfaces
    &&& new.debug == if id == DEBUG_INSPECTOR_SURFACE_ID@ {
        DebugState { enabled: true, ..old.debug }
    } else {
        old.debug
    }
    &&& r == seq![ActionView::BroadcastVisibility { surface_id: id, visible: true }]
    &&& bookkeeping_unchanged(new, old)
}

/// Showing a surface twice shows it once: right after it is shown, showing
/// it again changes nothing.
pub proof fn law_repeated_show_changes_nothing(new: Shell, old: Shell, id: Seq<char>, r: Seq<ActionView>)
    requires
        visibility_shown(new, old, id, r),
    ensures
        visibility_request_is_noop(new, id, true),
{
}

/// Hiding a surface twice hides it once: right after it is hidden, or
/// started its exit transition, hiding it again changes nothing; and the
/// hidden surface does not keep keyboard focus.
pub proof fn law_repeated_hide_changes_nothing(new: Shell, old: Shell, id: Seq<char>, now: u64, r: Seq<ActionView>)
    requires
        hide_transition_started(new, old, id, now) || visibility_set_now(new, old, id, false, r),
    ensures
        visibility_request_is_noop(new, id, false),
        opt_text(new.keyboard_focus_surface) != Some(id),
{
}

/// `new` is `old` after a request to show (`visible`) or hide surface `id`
/// at `now`, with actions `r`.
pub open spec fn visibility_applied(new: Shell, old: Shell, id: Seq<char>, visible: bool, now: u64, r: Seq<ActionView>) -> bool {
    &&& visibility_request_is_noop(old, id, visible) ==> surface_fields_unchanged(new, old)
        && bookkeeping_unchanged(new, old) && r.len() == 0
    &&& !visibility_request_is_noop(old, id, visible) && visible ==> visibility_shown(new, old, id, r)
    &&& !visibility_request_is_noop(old, id, visible) && !visible && hide_transition_of(old.components@, id) > 0
        ==> hide_transition_started(new, old, id, now) && r.len() == 0
    &&& !visibility_request_is_noop(old, id, visible) && !visible && hide_transition_of(old.components@, id) == 0
        ==> visibility_set_now(new, old, id, false, r)
}

/// `new` is `old` without a pending popover hide of `id`.
pub open spec fn hide_forgotten(new: Shell, old: Shell, id: Seq<char>) -> bool {
    &&& keyed_view(new.pending_popover_hides@) == keyed_view(old.pending_popover_hides@).remove(id)
    &&& new.components == old.components
    &&& new.core_surfaces == old.core_surfaces
    &&& new.surfaces == old.surfaces
    &&& new.keyboard_focus_surface == old.keyboard_focus_surface
    &&& new.transfer_owned_keyboard_modes == old.transfer_owned_keyboard_modes
    &&& new.debug == old.debug
    &&& bookkeeping_unchanged(new, old)
}

impl Shell {
    fn set_parent_exiting(&mut self, surface_id: &str, exiting: bool)
        ensures
            others_unchanged(
                final(self).components@,
                old(self).components@,
                parent_component(old(self).components@, surface_id@),
            ),
            match parent_component(old(self).components@, surface_id@) {
                Some(i) => exiting_set(final(self).components@[i], old(self).components@[i], exiting),
                None => true,
            },
            final(self).core_surfaces == old(self).core_surfaces,
            final(self).surfaces == old(self).surfaces,
            final(self).pending_popover_hides == old(self).pending_popover_hides,
            final(self).keyboard_focus_surface == old(self).keyboard_focus_surface,
            final(self).transfer_owned_keyboard_modes == old(self).transfer_owned_keyboard_modes,
            final(self).debug == old(self).debug,
            bookkeeping_unchanged(*final(self), *old(self)),
    {
        if let Some(index) = self.parent_index_for_surface(surface_id) {
            self.components[index].surface_exiting = exiting;
        }
    }

    /// Shows or hides a surface, idempotently. Showing cancels a pending
    /// popover hide and a running exit transition. Hiding a surface whose
    /// component has an exit transition keeps it visible until `now_ms` plus
    /// the transition; otherwise it hides at once.
    pub fn set_surface_visibility(&mut self, surface_id: &str, visible: bool, now_ms: u64) -> (r: Vec<ShellAction>)
        ensures
            visibility_applied(*final(self), *old(self), surface_id@, visible, now_ms, action_views(r@)),
    {
        let core_state = keyed_get(&self.core_surfaces, surface_id);
        let current_visible = match core_state {
            Some(state) => state.visible,
            None => match keyed_get(&self.surfaces, surface_id) {
                Some(target) => target.visible,
                None => false,
            },
        };
        let already_closing = match core_state {
            Some(state) => state.closing_until.is_some(),
            None => false,
        };
        let pending_hide = keyed_find(&self.pending_popover_hides, surface_id).is_some();
        if visible && current_visible && !already_closing && !pending_hide {
            return Vec::new();
        }
        if !visible && already_closing {
            return Vec::new();
        }
        if !visible && !current_visible {
            return Vec::new();
        }
        if visible {
            keyed_remove(&mut self.pending_popover_hides, surface_id);
            if let Some(state) = core_state {
                keyed_put(&mut self.core_surfaces, surface_id, SurfaceState { closing_until: None, ..state });
            }
            self.set_parent_exiting(surface_id, false);
            let ghost mid = *self;
            let r = self.set_surface_visibility_now(surface_id, true);
            proof {
                assert(keyed_view(self.core_surfaces@) =~= keyed_view(old(self).core_surfaces@).insert(
                    surface_id@,
                    SurfaceState { visible: true, closing_until: None },
                ));
                assert(keyed_view(self.pending_popover_hides@) == keyed_view(old(self).pending_popover_hides@).remove(surface_id@));
                assert(self.components == mid.components);
                assert(others_unchanged(self.components@, old(self).components@, parent_component(old(self).components@, surface_id@)));
                assert(self.keyboard_focus_surface == old(self).keyboard_focus_surface);
                assert(self.transfer_owned_keyboard_modes == old(self).transfer_owned_keyboard_modes);
                assert(self.surfaces == old(self).surfaces);
                assert(action_views(r@) == seq![ActionView::BroadcastVisibility { surface_id: surface_id@, visible: true }]);
                assert(bookkeeping_unchanged(*self, *old(self)));
            }
            return r;
        }
        let hide_transition = match self.parent_index_for_surface(surface_id) {
            Some(index) => self.components[index].hide_transition_ms,
            None => 0,
        };
        if hide_transition > 0 {
            let until = now_ms.saturating_add(hide_transition);
            keyed_put(&mut self.core_surfaces, surface_id, SurfaceState { visible: true, closing_until: Some(until) });
            let focused = match &self.keyboard_focus_surface {
                Some(focus) => text::str_eq(focus.as_str(), surface_id),
                None => false,
            };
            if focused {
                self.keyboard_focus_surface = None;
            }
            if let Some(index) = self.parent_index_for_surface(surface_id) {
                self.components[index].keyboard_mode_override = None;
                self.components[index].surface_exiting = true;
            }
            self.restore_transfer_owned_mode(surface_id);
            return Vec::new();
        }
        self.set_surface_visibility_now(surface_id, false)
    }
}

/// Hiding a component's surface at once leaves none of its child surfaces
/// behind: no child keeps a surface record, a presentation target or
/// keyboard focus, and the component has no child surfaces left.
pub proof fn law_hidden_parent_keeps_no_child(new: Shell, old: Shell, id: Seq<char>, r: Seq<ActionView>, child: Seq<char>)
    requires
        visibility_set_now(new, old, id, false, r),
        parent_component(old.components@, id) is Some,
        has_child(old.components@[parent_component(old.components@, id).unwrap()], child),
        child != id,
    ensures
        !keyed_view(new.core_surfaces@).contains_key(child),
        !keyed_view(new.surfaces@).contains_key(child),
        opt_text(new.keyboard_focus_surface) != Some(child),
        new.components@[parent_component(old.components@, id).unwrap()].children@.len() == 0,
{
    let i = parent_component(old.components@, id).unwrap();
    let c = old.components@[i];
    let gone = torn_down_children(old, id, false);
    let k = choose|k: int| 0 <= k < c.children@.len() && (#[trigger] c.children@[k]).surface_id@ == child;
    assert(gone.contains(child)) by {
        assert(c.children@[k].surface_id@ == child);
    }
}

/// Components with the same surface identifiers agree on which one owns a surface.
pub proof fn lemma_parent_component_stable(a: Seq<ComponentRuntime>, b: Seq<ComponentRuntime>, id: Seq<char>)
    requires
        a.len() == b.len(),
        forall|j: int| 0 <= j < a.len() ==> #[trigger] a[j].surface_id == b[j].surface_id,
    ensures
        parent_component(a, id) == parent_component(b, id),
{
    assert forall|i: int| first_parent(a, id, i) <==> first_parent(b, id, i) by {
        if 0 <= i < a.len() {
            assert(a[i].surface_id == b[i].surface_id);
            assert forall|j: int| 0 <= j < i implies a[j].surface_id == b[j].surface_id by {}
        }
    }
}

/// Components with the same surfaces and child surfaces agree on which
/// component and surface an identifier names.
pub proof fn lemma_surface_target_stable(a: Seq<ComponentRuntime>, b: Seq<ComponentRuntime>, id: Seq<char>)
    requires
        a.len() == b.len(),
        forall|j: int| 0 <= j < a.len() ==> (#[trigger] a[j]).surface_id == b[j].surface_id && a[j].children == b[j].children,
    ensures
        surface_target(a, id) == surface_target(b, id),
{
    assert forall|i: int| first_parent(a, id, i) <==> first_parent(b, id, i) by {
        if 0 <= i < a.len() {
            assert(a[i].surface_id == b[i].surface_id);
            assert forall|j: int| 0 <= j < i implies a[j].surface_id == b[j].surface_id by {
                assert(a[j].surface_id == b[j].surface_id);
            }
        }
    }
    if exists|i: int| first_parent(a, id, i) {
        let x = choose|i: int| first_parent(a, id, i);
        let y = choose|i: int| first_parent(b, id, i);
        lemma_first_parent_unique(a, id, x, y);
    } else {
        assert forall|i: int, k: int| first_child(a, id, i, k) <==> first_child(b, id, i, k) by {
            if 0 <= i < a.len() {
                assert(a[i].children == b[i].children);
                assert forall|j: int| 0 <= j < a.len() implies a[j].surface_id == b[j].surface_id by {
                    assert(a[j].surface_id == b[j].surface_id);
                }
                assert forall|j: int| 0 <= j < i implies has_child(a[j], id) == has_child(b[j], id) by {
                    assert(a[j].children == b[j].children);
                }
            }
        }
        if exists|i: int, k: int| first_child(a, id, i, k) {
            let (x, xk) = choose|i: int, k: int| first_child(a, id, i, k);
            let (y, yk) = choose|i: int, k: int| first_child(b, id, i, k);
            lemma_first_child_unique(a, id, x, xk, y, yk);
        }
    }
}

// ---------------------------------------------------------------------------
// Popovers.

/// Whether surface `id` is a popover promoted to its own popup: a component
/// surface with a popup parent, or a popover child surface with one.
pub open spec fn promoted_popover(cs: Seq<ComponentRuntime>, id: Seq<char>) -> bool {
    match surface_target(cs, id) {
        Some((i, TargetRef::Parent)) => cs[i].popup_parent_surface is Some,
        Some((i, TargetRef::Child(k))) => cs[i].children@[k as int].kind == ChildSurfaceKind::Popover
            && cs[i].children@[k as int].popup_parent_surface is Some,
        None => false,
    }
}

/// Whether surface `id` is an overflow child surface.
pub open spec fn overflow_child(cs: Seq<ComponentRuntime>, id: Seq<char>) -> bool {
    match surface_target(cs, id) {
        Some((i, TargetRef::Child(k))) => cs[i].children@[k as int].kind == ChildSurfaceKind::Overflow,
        _ => false,
    }
}

/// The core record of a surface reopened: visible, no longer closing.
pub open spec fn core_reopened(core: Map<Seq<char>, SurfaceState>, id: Seq<char>) -> Map<Seq<char>, SurfaceState> {
    if core.contains_key(id) {
        core.insert(id, SurfaceState { visible: true, closing_until: None })
    } else {
        core
    }
}

/// `new` is `old` after a pending popover hide of `id` was cancelled: the
/// hide is gone and, if one was pending, the surface is reopened and a
/// component's own surface no longer exits.
pub open spec fn popover_hide_cancelled(new: Shell, old: Shell, id: Seq<char>) -> bool {
    let r = keyed_view(old.pending_popover_hides@).contains_key(id);
    &&& keyed_view(new.pending_popover_hides@) == keyed_view(old.pending_popover_hides@).remove(id)
    &&& r ==> keyed_view(new.core_surfaces@) == core_reopened(keyed_view(old.core_surfaces@), id)
    &&& !r ==> new.core_surfaces == old.core_surfaces
    &&& r ==> (surface_target(old.components@, id) matches Some((i, TargetRef::Parent)) ==> {
        &&& others_unchanged(new.components@, old.components@, Some(i))
        &&& exiting_set(new.components@[i], old.components@[i], false)
    })
    &&& !(r && (surface_target(old.components@, id) matches Some((_, TargetRef::Parent))))
        ==> new.components == old.components
    &&& new.surfaces == old.surfaces
    &&& new.keyboard_focus_surface == old.keyboard_focus_surface
    &&& new.transfer_owned_keyboard_modes == old.transfer_owned_keyboard_modes
    &&& new.debug == old.debug
    &&& bookkeeping_unchanged(new, old)
}

/// `new` is `old` after a request to hide popover `id` at `now`, deferred
/// for the hover bridge or not, with actions `r`.
pub open spec fn popover_hide_applied(new: Shell, old: Shell, id: Seq<char>, defer: bool, now: u64, r: Seq<ActionView>) -> bool {
    &&& overflow_child(old.components@, id) ==> hide_forgotten(new, old, id) && r.len() == 0
    &&& !overflow_child(old.components@, id) && defer && promoted_popover(old.components@, id) ==> {
        &&& keyed_view(new.pending_popover_hides@) == keyed_view(old.pending_popover_hides@).insert(
            id,
            sat_add_u64(now, POPOVER_HOVER_BRIDGE_DELAY_MS),
        )
        &&& keyed_view(new.core_surfaces@) == core_reopened(keyed_view(old.core_surfaces@), id)
        &&& others_unchanged(new.components@, old.components@, surface_component(old.components@, id))
        &&& match surface_component(old.components@, id) {
            Some(i) => exiting_set(new.components@[i], old.components@[i], false),
            None => true,
        }
        &&& new.surfaces == old.surfaces
        &&& new.keyboard_focus_surface == old.keyboard_focus_surface
        &&& new.transfer_owned_keyboard_modes == old.transfer_owned_keyboard_modes
        &&& new.debug == old.debug
        &&& bookkeeping_unchanged(new, old)
        &&& r.len() == 0
    }
    &&& !overflow_child(old.components@, id) && !(defer && promoted_popover(old.components@, id))
        ==> exists|mid: Shell| hide_forgotten(mid, old, id) && visibility_applied(new, mid, id, false, now, r)
}

impl Shell {
    pub fn surface_is_promoted_popover(&self, surface_id: &str) -> (r: bool)
        ensures
            r == promoted_popover(self.components@, surface_id@),
    {
        match self.component_target_for_surface(surface_id) {
            Some((i, TargetRef::Parent)) => self.components[i].popup_parent_surface.is_some(),
            Some((i, TargetRef::Child(k))) => self.components[i].children[k].kind
                == ChildSurfaceKind::Popover && self.components[i].children[k].popup_parent_surface.is_some(),
            None => false,
        }
    }

    fn reopen_core_surface(&mut self, surface_id: &str)
        ensures
            keyed_view(final(self).core_surfaces@) == core_reopened(keyed_view(old(self).core_surfaces@), surface_id@),
            final(self).components == old(self).components,
            final(self).surfaces == old(self).surfaces,
            final(self).pending_popover_hides == old(self).pending_popover_hides,
            final(self).keyboard_focus_surface == old(self).keyboard_focus_surface,
            final(self).transfer_owned_keyboard_modes == old(self).transfer_owned_keyboard_modes,
            final(self).debug == old(self).debug,
            bookkeeping_unchanged(*final(self), *old(self)),
    {
        if keyed_find(&self.core_surfaces, surface_id).is_some() {
            keyed_put(&mut self.core_surfaces, surface_id, SurfaceState { visible: true, closing_until: None });
        }
    }

    /// Hides a popover. An overflow child surface has no open state to hide;
    /// only its pending hide is forgotten. Deferred for the hover bridge, a
    /// promoted popover stays shown and is scheduled to hide after the bridge
    /// delay; otherwise any pending hide is forgotten and the surface hides.
    pub fn hide_popover(&mut self, surface_id: &str, defer_for_hover_bridge: bool, now_ms: u64) -> (r: Vec<ShellAction>)
        ensures
            popover_hide_applied(*final(self), *old(self), surface_id@, defer_for_hover_bridge, now_ms, action_views(r@)),
    {
        match self.component_target_for_surface(surface_id) {
            Some((i, TargetRef::Child(k))) => {
                if self.components[i].children[k].kind == ChildSurfaceKind::Overflow {
                    keyed_remove(&mut self.pending_popover_hides, surface_id);
                    return Vec::new();
                }
            },
            _ => {},
        }
        if defer_for_hover_bridge && self.surface_is_promoted_popover(surface_id) {
            keyed_put(
                &mut self.pending_popover_hides,
                surface_id,
                now_ms.saturating_add(POPOVER_HOVER_BRIDGE_DELAY_MS),
            );
            self.reopen_core_surface(surface_id);
            if let Some((index, _)) = self.component_target_for_surface(surface_id) {
                self.components[index].surface_exiting = false;
            }
            return Vec::new();
        }
        keyed_remove(&mut self.pending_popover_hides, surface_id);
        let ghost mid = *self;
        let r = self.set_surface_visibility(surface_id, false, now_ms);
        proof {
            assert(hide_forgotten(mid, *old(self), surface_id@));
        }
        r
    }

    /// Cancels a pending popover hide, reopening the surface; the exit state
    /// is cleared on a component's own surface only. Returns whether a hide
    /// was pending.
    pub fn cancel_pending_popover_hide(&mut self, surface_id: &str) -> (r: bool)
        ensures
            r == keyed_view(old(self).pending_popover_hides@).contains_key(surface_id@),
            popover_hide_cancelled(*final(self), *old(self), surface_id@),
    {
        let cancelled = keyed_remove(&mut self.pending_popover_hides, surface_id).is_some();
        if cancelled {
            self.reopen_core_surface(surface_id);
            if let Some((index, TargetRef::Parent)) = self.component_target_for_surface(surface_id) {
                self.components[index].surface_exiting = false;
            }
        }
        cancelled
    }
}

/// The popover child surfaces of component `c` whose popup parent is `parent`.
pub open spec fn popover_children_of(c: ComponentRuntime, parent: Seq<char>) -> Set<Seq<char>> {
    Set::new(
        |id: Seq<char>|
            exists|k: int|
                0 <= k < c.children@.len() && (#[trigger] c.children@[k]).surface_id@ == id
                    && c.children@[k].kind == ChildSurfaceKind::Popover
                    && opt_text(c.children@[k].popup_parent_surface) == Some(parent),
    )
}

/// `new` is `old` after the popover children of surface `parent_surface_id`
/// were scheduled to hide after the hover bridge delay.
pub open spec fn child_hides_deferred(new: Shell, old: Shell, parent_surface_id: Seq<char>, now_ms: u64) -> bool {
    &&& match surface_component(old.components@, parent_surface_id) {
        Some(i) => keyed_view(new.pending_popover_hides@) == Map::new(
            |id: Seq<char>|
                keyed_view(old.pending_popover_hides@).contains_key(id) || popover_children_of(
                    old.components@[i],
                    parent_surface_id,
                ).contains(id),
            |id: Seq<char>|
                if popover_children_of(old.components@[i], parent_surface_id).contains(id) {
                    sat_add_u64(now_ms, POPOVER_HOVER_BRIDGE_DELAY_MS)
                } else {
                    keyed_view(old.pending_popover_hides@)[id]
                },
        ),
        None => new.pending_popover_hides == old.pending_popover_hides,
    }
    &&& new.components == old.components
    &&& new.core_surfaces == old.core_surfaces
    &&& new.surfaces == old.surfaces
    &&& new.keyboard_focus_surface == old.keyboard_focus_surface
    &&& new.transfer_owned_keyboard_modes == old.transfer_owned_keyboard_modes
    &&& new.debug == old.debug
    &&& bookkeeping_unchanged(new, old)
}

impl Shell {
    /// Schedules a hide, after the hover bridge delay, of every popover
    /// child surface that the component owning `parent_surface_id` opened
    /// from that surface.
    pub fn defer_child_popover_hides_for_parent(&mut self, parent_surface_id: &str, now_ms: u64)
        ensures
            child_hides_deferred(*final(self), *old(self), parent_surface_id@, now_ms),
    {
        let index = match self.component_target_for_surface(parent_surface_id) {
            Some((index, _)) => index,
            None => {
                return;
            },
        };
        let hide_at = now_ms.saturating_add(POPOVER_HOVER_BRIDGE_DELAY_MS);
        let ghost start = keyed_view(self.pending_popover_hides@);
        let ghost kids = popover_children_of(self.components@[index as int], parent_surface_id@);
        let n = self.components[index].children.len();
        let mut k: usize = 0;
        while k < n
            invariant
                index < self.components@.len(),
                n == self.components@[index as int].children@.len(),
                k <= n,
                kids == popover_children_of(self.components@[index as int], parent_surface_id@),
                self.components == old(self).components,
                self.core_surfaces == old(self).core_surfaces,
                self.surfaces == old(self).surfaces,
                self.keyboard_focus_surface == old(self).keyboard_focus_surface,
                self.transfer_owned_keyboard_modes == old(self).transfer_owned_keyboard_modes,
                self.debug == old(self).debug,
                bookkeeping_unchanged(*self, *old(self)),
                hide_at == sat_add_u64(now_ms, POPOVER_HOVER_BRIDGE_DELAY_MS),
                keyed_view(self.pending_popover_hides@) == Map::new(
                    |id: Seq<char>|
                        start.contains_key(id) || exists|m: int|
                            0 <= m < k && (#[trigger] self.components@[index as int].children@[m]).surface_id@ == id
                                && self.components@[index as int].children@[m].kind == ChildSurfaceKind::Popover
                                && opt_text(self.components@[index as int].children@[m].popup_parent_surface) == Some(parent_surface_id@),
                    |id: Seq<char>|
                        if exists|m: int|
                            0 <= m < k && (#[trigger] self.components@[index as int].children@[m]).surface_id@ == id
                                && self.components@[index as int].children@[m].kind == ChildSurfaceKind::Popover
                                && opt_text(self.components@[index as int].children@[m].popup_parent_surface) == Some(parent_surface_id@) {
                            hide_at
                        } else {
                            start[id]
                        },
                ),
            decreases n - k,
        {
            let child = &self.components[index].children[k];
            let is_popover_of_parent = child.kind == ChildSurfaceKind::Popover && match &child.popup_parent_surface {
                Some(p) => text::str_eq(p.as_str(), parent_surface_id),
                None => false,
            };
            if is_popover_of_parent {
                let id = child.surface_id.clone();
                keyed_put(&mut self.pending_popover_hides, id.as_str(), hide_at);
            }
            proof {
                assert(keyed_view(self.pending_popover_hides@) =~= Map::new(
                    |id: Seq<char>|
                        start.contains_key(id) || exists|m: int|
                            0 <= m < k + 1 && (#[trigger] self.components@[index as int].children@[m]).surface_id@ == id
                                && self.components@[index as int].children@[m].kind == ChildSurfaceKind::Popover
                                && opt_text(self.components@[index as int].children@[m].popup_parent_surface) == Some(parent_surface_id@),
                    |id: Seq<char>|
                        if exists|m: int|
                            0 <= m < k + 1 && (#[trigger] self.components@[index as int].children@[m]).surface_id@ == id
                                && self.components@[index as int].children@[m].kind == ChildSurfaceKind::Popover
                                && opt_text(self.components@[index as int].children@[m].popup_parent_surface) == Some(parent_surface_id@) {
                            hide_at
                        } else {
                            start[id]
                        },
                ));
            }
            k = k + 1;
        }
        proof {
            assert(keyed_view(self.pending_popover_hides@) =~= Map::new(
                |id: Seq<char>| start.contains_key(id) || kids.contains(id),
                |id: Seq<char>| if kids.contains(id) { hide_at } else { start[id] },
            ));
        }
    }
}

/// Whether surface `id` is shown and not closing.
pub open spec fn effectively_visible(s: Shell, id: Seq<char>) -> bool {
    current_visible(keyed_view(s.core_surfaces@), keyed_view(s.surfaces@), id) && !closing(
        keyed_view(s.core_surfaces@),
        id,
    )
}

/// Hide requests for the first `n` components' surfaces that are shown
/// popovers of `trigger`, other than `id`.
pub open spec fn sibling_hides_upto(s: Shell, id: Seq<char>, trigger: Seq<char>, n: int) -> Seq<RequestView>
    decreases n,
{
    if n <= 0 {
        seq![]
    } else {
        let rest = sibling_hides_upto(s, id, trigger, n - 1);
        let c = s.components@[n - 1];
        if c.surface_id@ != id && opt_text(c.popup_parent_surface) == Some(trigger) && effectively_visible(
            s,
            c.surface_id@,
        ) {
            rest.push(RequestView::HidePopover { surface_id: c.surface_id@, defer_for_hover_bridge: false })
        } else {
            rest
        }
    }
}

pub open spec fn request_views(requests: Seq<CoreRequest>) -> Seq<RequestView> {
    Seq::new(requests.len(), |i: int| requests[i]@)
}

/// What a component script receives when the pointer leaves one of its
/// popover child surfaces that has a popup parent; nothing for a
/// quarantined component or any other surface.
pub open spec fn pointer_leave_target(cs: Seq<ComponentRuntime>, id: Seq<char>) -> Option<ActionView> {
    match surface_target(cs, id) {
        Some((i, TargetRef::Child(k))) => if !cs[i].quarantined && cs[i].children@[k as int].kind
            == ChildSurfaceKind::Popover && cs[i].children@[k as int].popup_parent_surface is Some {
            Some(ActionView::ChildPointerLeave { component: i as usize, node_key: cs[i].children@[k as int].node_key@ })
        } else {
            None
        },
        _ => None,
    }
}

impl Shell {
    fn surface_is_effectively_visible(&self, surface_id: &str) -> (r: bool)
        ensures
            r == effectively_visible(*self, surface_id@),
    {
        match keyed_get(&self.core_surfaces, surface_id) {
            Some(state) => state.visible && state.closing_until.is_none(),
            None => match keyed_get(&self.surfaces, surface_id) {
                Some(target) => target.visible,
                None => false,
            },
        }
    }

    /// Hide requests for the shown popovers that share a trigger surface with
    /// `surface_id`, in component order; none without a trigger.
    pub fn sibling_popover_hides(&self, surface_id: &str, trigger_surface: &str) -> (r: Vec<CoreRequest>)
        ensures
            request_views(r@) == if trigger_surface@.len() == 0 {
                seq![]
            } else {
                sibling_hides_upto(*self, surface_id@, trigger_surface@, self.components@.len() as int)
            },
    {
        let mut out: Vec<CoreRequest> = Vec::new();
        if trigger_surface.unicode_len() == 0 {
            proof {
                assert(request_views(out@) =~= seq![]);
            }
            return out;
        }
        let mut i: usize = 0;
        while i < self.components.len()
            invariant
                i <= self.components@.len(),
                request_views(out@) == sibling_hides_upto(*self, surface_id@, trigger_surface@, i as int),
            decreases self.components.len() - i,
        {
            let c = &self.components[i];
            let same_trigger = match &c.popup_parent_surface {
                Some(p) => text::str_eq(p.as_str(), trigger_surface),
                None => false,
            };
            let ghost before = out@;
            if !text::str_eq(c.surface_id.as_str(), surface_id) && same_trigger
                && self.surface_is_effectively_visible(c.surface_id.as_str()) {
                out.push(CoreRequest::HidePopover { surface_id: c.surface_id.clone(), defer_for_hover_bridge: false });
                proof {
                    assert(request_views(out@) =~= request_views(before).push(
                        RequestView::HidePopover { surface_id: c.surface_id@, defer_for_hover_bridge: false },
                    ));
                }
            }
            i = i + 1;
        }
        out
    }

    /// The pointer-leave delivery owed to a popover child surface, if any.
    pub fn child_popover_pointer_leave_requests(&self, surface_id: &str) -> (r: Option<ShellAction>)
        ensures
            match r {
                Some(a) => pointer_leave_target(self.components@, surface_id@) == Some(a@),
                None => pointer_leave_target(self.components@, surface_id@) is None,
            },
            r matches Some(a) ==> (a@ matches ActionView::ChildPointerLeave { component, node_key }
                && child_popover_node(self.components@, component as int, surface_id@, node_key)),
    {
        match self.component_target_for_surface(surface_id) {
            Some((i, TargetRef::Child(k))) => {
                let c = &self.components[i];
                if k < c.children.len() && !c.quarantined && c.children[k].kind == ChildSurfaceKind::Popover
                    && c.children[k].popup_parent_surface.is_some() {
                    proof {
                        let cs = self.components@;
                        if exists|x: int| first_parent(cs, surface_id@, x) {
                            assert(false);
                        }
                        let (x, y) = choose|x: int, y: int| first_child(cs, surface_id@, x, y);
                        assert(x == i && y as usize == k);
                        assert(y < c.children@.len());
                        assert(is_popover_node(cs[i as int].children@[k as int], surface_id@, c.children[k as int].node_key@));
                    }
                    Some(ShellAction::ChildPointerLeave { component: i, node_key: c.children[k].node_key.clone() })
                } else {
                    None
                }
            },
            _ => None,
        }
    }
}

/// Whether a popover hide pending in `pending` is due at `now`.
pub open spec fn hide_due(pending: Map<Seq<char>, u64>, id: Seq<char>, now: u64) -> bool {
    pending.contains_key(id) && pending[id] <= now
}

/// Whether a surface's exit transition recorded in `core` is over at `now`.
pub open spec fn close_due(core: Map<Seq<char>, SurfaceState>, id: Seq<char>, now: u64) -> bool {
    core.contains_key(id) && (core[id].closing_until matches Some(t) && t <= now)
}

pub open spec fn lists(ids: Seq<String>, id: Seq<char>) -> bool {
    exists|i: int| 0 <= i < ids.len() && (#[trigger] ids[i])@ == id
}

fn list_has(ids: &Vec<String>, id: &str) -> (r: bool)
    ensures
        r == lists(ids@, id@),
{
    let mut i: usize = 0;
    while i < ids.len()
        invariant
            i <= ids@.len(),
            forall|j: int| 0 <= j < i ==> ids@[j]@ != id@,
        decreases ids.len() - i,
    {
        if text::str_eq(ids[i].as_str(), id) {
            return true;
        }
        i = i + 1;
    }
    false
}

impl Shell {
    /// The surfaces whose pending popover hide is due at `now_ms`.
    fn due_popover_hides(&self, now_ms: u64) -> (r: Vec<String>)
        ensures
            forall|id: Seq<char>| lists(r@, id) == hide_due(keyed_view(self.pending_popover_hides@), id, now_ms),
    {
        let entries = &self.pending_popover_hides;
        let mut out: Vec<String> = Vec::new();
        let mut j: usize = 0;
        while j < self.pending_popover_hides.len()
            invariant
                j <= self.pending_popover_hides@.len(),
                forall|id: Seq<char>| lists(out@, id) ==> hide_due(keyed_view(self.pending_popover_hides@), id, now_ms),
                forall|m: int| 0 <= m < j && hide_due(keyed_view(self.pending_popover_hides@), #[trigger] self.pending_popover_hides@[m].0@, now_ms)
                    ==> lists(out@, self.pending_popover_hides@[m].0@),
            decreases self.pending_popover_hides.len() - j,
        {
            let key = self.pending_popover_hides[j].0.as_str();
            let due = match keyed_get(&self.pending_popover_hides, key) {
                Some(at) => at <= now_ms,
                None => false,
            };
            if due && !list_has(&out, key) {
                let ghost before = out@;
                out.push(self.pending_popover_hides[j].0.clone());
                proof {
                    assert(out@[before.len() as int]@ == key@);
                    assert forall|id: Seq<char>| lists(out@, id) implies hide_due(keyed_view(self.pending_popover_hides@), id, now_ms) by {
                        let i = choose|i: int| 0 <= i < out@.len() && (#[trigger] out@[i])@ == id;
                        if i < before.len() {
                            assert(before[i] == out@[i]);
                            assert(lists(before, id));
                        }
                    }
                    assert forall|m: int| 0 <= m < j + 1 && hide_due(keyed_view(self.pending_popover_hides@), #[trigger] self.pending_popover_hides@[m].0@, now_ms)
                        implies lists(out@, self.pending_popover_hides@[m].0@) by {
                        if m < j {
                            let i = choose|i: int| 0 <= i < before.len() && (#[trigger] before[i])@ == self.pending_popover_hides@[m].0@;
                            assert(out@[i] == before[i]);
                        }
                    }
                }
            }
            j = j + 1;
        }
        proof {
            assert forall|id: Seq<char>| hide_due(keyed_view(self.pending_popover_hides@), id, now_ms) implies lists(out@, id) by {
                crate::keyed::lemma_keyed_keys(self.pending_popover_hides@, id);
                let m = choose|m: int| 0 <= m < self.pending_popover_hides@.len() && (#[trigger] self.pending_popover_hides@[m]).0@ == id;
                assert(hide_due(keyed_view(self.pending_popover_hides@), self.pending_popover_hides@[m].0@, now_ms));
            }
        }
        out
    }

    /// The surfaces whose exit transition is over at `now_ms`.
    fn due_closings(&self, now_ms: u64) -> (r: Vec<String>)
        ensures
            forall|id: Seq<char>| lists(r@, id) == close_due(keyed_view(self.core_surfaces@), id, now_ms),
    {
        let mut out: Vec<String> = Vec::new();
        let mut j: usize = 0;
        while j < self.core_surfaces.len()
            invariant
                j <= self.core_surfaces@.len(),
                forall|id: Seq<char>| lists(out@, id) ==> close_due(keyed_view(self.core_surfaces@), id, now_ms),
                forall|m: int| 0 <= m < j && close_due(keyed_view(self.core_surfaces@), #[trigger] self.core_surfaces@[m].0@, now_ms)
                    ==> lists(out@, self.core_surfaces@[m].0@),
            decreases self.core_surfaces.len() - j,
        {
            let key = self.core_surfaces[j].0.as_str();
            let due = match keyed_get(&self.core_surfaces, key) {
                Some(state) => match state.closing_until {
                    Some(t) => t <= now_ms,
                    None => false,
                },
                None => false,
            };
            if due && !list_has(&out, key) {
                let ghost before = out@;
                out.push(self.core_surfaces[j].0.clone());
                proof {
                    assert(out@[before.len() as int]@ == key@);
                    assert forall|id: Seq<char>| lists(out@, id) implies close_due(keyed_view(self.core_surfaces@), id, now_ms) by {
                        let i = choose|i: int| 0 <= i < out@.len() && (#[trigger] out@[i])@ == id;
                        if i < before.len() {
                            assert(before[i] == out@[i]);
                            assert(lists(before, id));
                        }
                    }
                    assert forall|m: int| 0 <= m < j + 1 && close_due(keyed_view(self.core_surfaces@), #[trigger] self.core_surfaces@[m].0@, now_ms)
                        implies lists(out@, self.core_surfaces@[m].0@) by {
                        if m < j {
                            let i = choose|i: int| 0 <= i < before.len() && (#[trigger] before[i])@ == self.core_surfaces@[m].0@;
                            assert(out@[i] == before[i]);
                        }
                    }
                }
            }
            j = j + 1;
        }
        proof {
            assert forall|id: Seq<char>| close_due(keyed_view(self.core_surfaces@), id, now_ms) implies lists(out@, id) by {
                crate::keyed::lemma_keyed_keys(self.core_surfaces@, id);
                let m = choose|m: int| 0 <= m < self.core_surfaces@.len() && (#[trigger] self.core_surfaces@[m]).0@ == id;
                assert(close_due(keyed_view(self.core_surfaces@), self.core_surfaces@[m].0@, now_ms));
            }
        }
        out
    }
}

/// Every surface whose exit transition in `old` was over at `now` is hidden
/// in `new`, unless its record went with its parent's child surfaces.
pub open spec fn closes_completed(new: Map<Seq<char>, SurfaceState>, old: Map<Seq<char>, SurfaceState>, now: u64) -> bool {
    forall|id: Seq<char>| close_due(old, id, now) && #[trigger] new.contains_key(id)
        ==> new[id] == (SurfaceState { visible: false, closing_until: None })
}

/// Whether surface `id` is hidden or on its way out: not shown, or its
/// exit transition running.
pub open spec fn shut(core: Map<Seq<char>, SurfaceState>, targets: Map<Seq<char>, SurfaceTarget>, id: Seq<char>) -> bool {
    !current_visible(core, targets, id) || closing(core, id)
}

/// `child` is popover child surface `id`, with a popup parent, rendered by
/// node `key`.
pub open spec fn is_popover_node(child: ChildSurface, id: Seq<char>, key: Seq<char>) -> bool {
    &&& child.surface_id@ == id
    &&& child.node_key@ == key
    &&& child.kind == ChildSurfaceKind::Popover
    &&& child.popup_parent_surface is Some
}

/// Component `c` is not quarantined and has a popover child surface `id`,
/// with a popup parent, rendered by node `key`.
pub open spec fn child_popover_node(cs: Seq<ComponentRuntime>, c: int, id: Seq<char>, key: Seq<char>) -> bool {
    &&& 0 <= c < cs.len()
    &&& !cs[c].quarantined
    &&& exists|k: int| 0 <= k < cs[c].children@.len() && #[trigger] is_popover_node(cs[c].children@[k], id, key)
}

/// What became of a due popover hide of `id`, judged by the components
/// `cs` it was due under, the surface records afterwards and the actions
/// `r`: the child popover node showing it was sent a pointer-leave, or the
/// surface is hidden or closing.
pub open spec fn due_hide_settled(
    cs: Seq<ComponentRuntime>,
    core: Map<Seq<char>, SurfaceState>,
    targets: Map<Seq<char>, SurfaceTarget>,
    id: Seq<char>,
    r: Seq<ActionView>,
) -> bool {
    ||| exists|c: usize, key: Seq<char>|
        #![trigger r.contains(ActionView::ChildPointerLeave { component: c, node_key: key })]
        r.contains(ActionView::ChildPointerLeave { component: c, node_key: key }) && child_popover_node(cs, c as int, id, key)
    ||| shut(core, targets, id)
}

/// Each component of `new` is that of `old` with the same quarantine and
/// its child surfaces kept or all dropped.
pub open spec fn children_kept_or_dropped(new: Seq<ComponentRuntime>, old: Seq<ComponentRuntime>) -> bool {
    &&& new.len() == old.len()
    &&& forall|j: int| #![trigger new[j]] 0 <= j < old.len() ==> new[j].quarantined == old[j].quarantined && (new[j].children@
        == old[j].children@ || new[j].children@.len() == 0)
}

/// Every surface that was hidden or closing in `old` still is in `new`.
pub open spec fn shut_kept(new: Shell, old: Shell) -> bool {
    forall|id: Seq<char>| #[trigger] shut(keyed_view(new.core_surfaces@), keyed_view(new.surfaces@), id) || !shut(
        keyed_view(old.core_surfaces@),
        keyed_view(old.surfaces@),
        id,
    )
}

proof fn lemma_hide_now_keeps_shut(new: Shell, old: Shell, x: Seq<char>, r: Seq<ActionView>)
    requires
        visibility_set_now(new, old, x, false, r),
    ensures
        shut_kept(new, old),
        shut(keyed_view(new.core_surfaces@), keyed_view(new.surfaces@), x),
        children_kept_or_dropped(new.components@, old.components@),
{
    let gone = torn_down_children(old, x, false);
    let core0 = keyed_view(old.core_surfaces@);
    let targets0 = keyed_view(old.surfaces@);
    let core1 = keyed_view(new.core_surfaces@);
    let targets1 = keyed_view(new.surfaces@);
    assert forall|id: Seq<char>| #[trigger] shut(core1, targets1, id) || !shut(core0, targets0, id) by {
        if id != x && !gone.contains(id) {
            assert(core1.contains_key(id) == core0.contains_key(id));
            if core0.contains_key(id) {
                assert(core1[id] == core0[id]);
            }
            assert(targets1.contains_key(id) == targets0.contains_key(id));
            if targets0.contains_key(id) {
                assert(targets1[id].visible == targets0[id].visible);
            }
        } else if id != x {
            assert(!core1.contains_key(id));
            assert(!targets1.contains_key(id));
        }
    }
    assert(core1[x] == (SurfaceState { visible: false, closing_until: None }));
    assert forall|j: int| #![trigger new.components@[j]] 0 <= j < old.components@.len() implies new.components@[j].quarantined
        == old.components@[j].quarantined && (new.components@[j].children@ == old.components@[j].children@
        || new.components@[j].children@.len() == 0) by {
        if Some(j) != parent_component(old.components@, x) {
            assert(new.components@[j] == old.components@[j]);
        }
    }
}

proof fn lemma_hide_keeps_shut(new: Shell, old: Shell, x: Seq<char>, now: u64, r: Seq<ActionView>)
    requires
        visibility_applied(new, old, x, false, now, r),
    ensures
        shut_kept(new, old),
        shut(keyed_view(new.core_surfaces@), keyed_view(new.surfaces@), x),
        children_kept_or_dropped(new.components@, old.components@),
{
    if visibility_request_is_noop(old, x, false) {
        assert(shut_kept(new, old));
    } else if hide_transition_of(old.components@, x) > 0 {
        let core0 = keyed_view(old.core_surfaces@);
        let targets0 = keyed_view(old.surfaces@);
        let core1 = keyed_view(new.core_surfaces@);
        let targets1 = keyed_view(new.surfaces@);
        assert forall|id: Seq<char>| #[trigger] shut(core1, targets1, id) || !shut(core0, targets0, id) by {
            if id != x {
                assert(core1.contains_key(id) == core0.contains_key(id));
                if core0.contains_key(id) {
                    assert(core1[id] == core0[id]);
                }
                assert(targets1.contains_key(id) == targets0.contains_key(id));
                if targets0.contains_key(id) {
                    assert(targets1[id].visible == targets0[id].visible);
                }
            }
        }
        assert(closing(core1, x));
        assert forall|j: int| #![trigger new.components@[j]] 0 <= j < old.components@.len() implies new.components@[j].quarantined
            == old.components@[j].quarantined && (new.components@[j].children@ == old.components@[j].children@
            || new.components@[j].children@.len() == 0) by {
            if Some(j) != parent_component(old.components@, x) {
                assert(new.components@[j] == old.components@[j]);
            }
        }
    } else {
        lemma_hide_now_keeps_shut(new, old, x, r);
    }
}

proof fn lemma_popover_node_kept(mid: Seq<ComponentRuntime>, old: Seq<ComponentRuntime>, c: int, id: Seq<char>, key: Seq<char>)
    requires
        children_kept_or_dropped(mid, old),
        child_popover_node(mid, c, id, key),
    ensures
        child_popover_node(old, c, id, key),
{
    let k = choose|k: int| 0 <= k < mid[c].children@.len() && #[trigger] is_popover_node(mid[c].children@[k], id, key);
    assert(mid[c].children@ == old[c].children@);
    assert(is_popover_node(old[c].children@[k], id, key));
}

proof fn lemma_settled_carry(
    cs: Seq<ComponentRuntime>,
    a: Shell,
    b: Shell,
    ra: Seq<ActionView>,
    rb: Seq<ActionView>,
    id: Seq<char>,
)
    requires
        due_hide_settled(cs, keyed_view(a.core_surfaces@), keyed_view(a.surfaces@), id, ra),
        shut_kept(b, a),
        forall|v: ActionView| ra.contains(v) ==> #[trigger] rb.contains(v),
    ensures
        due_hide_settled(cs, keyed_view(b.core_surfaces@), keyed_view(b.surfaces@), id, rb),
{
    if shut(keyed_view(a.core_surfaces@), keyed_view(a.surfaces@), id) {
        assert(shut(keyed_view(b.core_surfaces@), keyed_view(b.surfaces@), id));
    } else {
        let (c, key) = choose|c: usize, key: Seq<char>|
            ra.contains(ActionView::ChildPointerLeave { component: c, node_key: key }) && child_popover_node(cs, c as int, id, key);
        assert(rb.contains(ActionView::ChildPointerLeave { component: c, node_key: key }));
    }
}

proof fn lemma_views_extend(a: Seq<ShellAction>, b: Seq<ShellAction>)
    ensures
        forall|v: ActionView| action_views(a).contains(v) ==> #[trigger] action_views(a + b).contains(v),
{
    assert forall|v: ActionView| action_views(a).contains(v) implies #[trigger] action_views(a + b).contains(v) by {
        let n = choose|n: int| 0 <= n < action_views(a).len() && action_views(a)[n] == v;
        assert(action_views(a + b)[n] == v);
    }
}

impl Shell {
    /// Completes what is due at `now_ms`: a due popover hide either becomes a
    /// pointer-leave for its component's child popover node or hides the
    /// surface; a surface whose exit transition is over is hidden at once.
    /// Afterwards no due popover hide is pending, the others are untouched,
    /// every due popover was sent its pointer-leave or is hidden or closing,
    /// and every surface whose transition was over is hidden, unless its
    /// record went with its parent's child surfaces.
    #[verifier::spinoff_prover]
    #[verifier::rlimit(40)]
    pub fn complete_due_surface_transitions(&mut self, now_ms: u64) -> (r: Vec<ShellAction>)
        ensures
            forall|id: Seq<char>| #[trigger] keyed_view(final(self).pending_popover_hides@).contains_key(id)
                == (keyed_view(old(self).pending_popover_hides@).contains_key(id) && !hide_due(
                keyed_view(old(self).pending_popover_hides@),
                id,
                now_ms,
            )),
            forall|id: Seq<char>| #[trigger] keyed_view(final(self).pending_popover_hides@).contains_key(id)
                ==> keyed_view(final(self).pending_popover_hides@)[id] == keyed_view(
                old(self).pending_popover_hides@,
            )[id],
            forall|id: Seq<char>| hide_due(keyed_view(old(self).pending_popover_hides@), id, now_ms)
                ==> #[trigger] due_hide_settled(
                old(self).components@,
                keyed_view(final(self).core_surfaces@),
                keyed_view(final(self).surfaces@),
                id,
                action_views(r@),
            ),
            closes_completed(keyed_view(final(self).core_surfaces@), keyed_view(old(self).core_surfaces@), now_ms),
            bookkeeping_unchanged(*final(self), *old(self)),
    {
        let due_popovers = self.due_popover_hides(now_ms);
        let ghost comps0 = self.components@;
        let due = self.due_closings(now_ms);
        let ghost pending0 = keyed_view(self.pending_popover_hides@);
        let ghost core0 = keyed_view(self.core_surfaces@);
        assert(core0 == keyed_view(old(self).core_surfaces@));
        assert(pending0 == keyed_view(old(self).pending_popover_hides@));
        let mut actions: Vec<ShellAction> = Vec::new();
        let mut i: usize = 0;
        while i < due_popovers.len()
            invariant
                i <= due_popovers@.len(),
                forall|id: Seq<char>| lists(due_popovers@, id) == hide_due(pending0, id, now_ms),
                forall|id: Seq<char>| lists(due@, id) == close_due(core0, id, now_ms),
                forall|id: Seq<char>| #[trigger] keyed_view(self.pending_popover_hides@).contains_key(id)
                    == (pending0.contains_key(id) && !lists(due_popovers@.subrange(0, i as int), id)),
                forall|id: Seq<char>| #[trigger] keyed_view(self.pending_popover_hides@).contains_key(id)
                    ==> keyed_view(self.pending_popover_hides@)[id] == pending0[id],
                children_kept_or_dropped(self.components@, comps0),
                forall|id: Seq<char>| lists(due_popovers@.subrange(0, i as int), id) ==> #[trigger] due_hide_settled(
                    comps0,
                    keyed_view(self.core_surfaces@),
                    keyed_view(self.surfaces@),
                    id,
                    action_views(actions@),
                ),
                bookkeeping_unchanged(*self, *old(self)),
            decreases due_popovers.len() - i,
        {
            let id = due_popovers[i].as_str();
            let ghost acts_start = actions@;
            let ghost before_pending = keyed_view(self.pending_popover_hides@);
            keyed_remove(&mut self.pending_popover_hides, id);
            let ghost start = *self;
            proof {
                assert forall|x: Seq<char>| lists(due_popovers@.subrange(0, i + 1), x) == (lists(due_popovers@.subrange(0, i as int), x) || x == id@) by {
                    if lists(due_popovers@.subrange(0, i + 1), x) {
                        let k = choose|k: int| 0 <= k < i + 1 && (#[trigger] due_popovers@.subrange(0, i + 1)[k])@ == x;
                        if k < i {
                            assert(due_popovers@.subrange(0, i as int)[k] == due_popovers@.subrange(0, i + 1)[k]);
                        }
                    }
                    if lists(due_popovers@.subrange(0, i as int), x) {
                        let k = choose|k: int| 0 <= k < i && (#[trigger] due_popovers@.subrange(0, i as int)[k])@ == x;
                        assert(due_popovers@.subrange(0, i + 1)[k] == due_popovers@.subrange(0, i as int)[k]);
                    }
                    if x == id@ {
                        assert(due_popovers@.subrange(0, i + 1)[i as int] == due_popovers@[i as int]);
                    }
                }
            }
            match self.child_popover_pointer_leave_requests(id) {
                Some(action) => {
                    actions.push(action);
                    proof {
                        assert(actions@ =~= acts_start + seq![action]);
                        lemma_views_extend(acts_start, seq![action]);
                        let c = action@->ChildPointerLeave_component;
                        let key = action@->ChildPointerLeave_node_key;
                        lemma_popover_node_kept(self.components@, comps0, c as int, id@, key);
                        assert(action_views(actions@)[acts_start.len() as int] == action@);
                        assert(action_views(actions@).contains(ActionView::ChildPointerLeave { component: c, node_key: key }));
                        assert(shut_kept(*self, start));
                    }
                },
                None => {
                    let mut hidden = self.set_surface_visibility(id, false, now_ms);
                    proof {
                        lemma_hide_keeps_shut(*self, start, id@, now_ms, action_views(hidden@));
                    }
                    let ghost hidden0 = hidden@;
                    actions.append(&mut hidden);
                    proof {
                        lemma_views_extend(acts_start, hidden0);
                    }
                },
            }
            proof {
                assert forall|x: Seq<char>| lists(due_popovers@.subrange(0, i + 1), x) implies #[trigger] due_hide_settled(
                    comps0,
                    keyed_view(self.core_surfaces@),
                    keyed_view(self.surfaces@),
                    x,
                    action_views(actions@),
                ) by {
                    if x != id@ {
                        assert(lists(due_popovers@.subrange(0, i as int), x));
                        lemma_settled_carry(comps0, start, *self, action_views(acts_start), action_views(actions@), x);
                    }
                }
            }
            i = i + 1;
        }
        proof {
            assert(due_popovers@.subrange(0, i as int) =~= due_popovers@);
            assert forall|id: Seq<char>| hide_due(pending0, id, now_ms) implies #[trigger] due_hide_settled(
                comps0,
                keyed_view(self.core_surfaces@),
                keyed_view(self.surfaces@),
                id,
                action_views(actions@),
            ) by {
                assert(lists(due_popovers@, id));
            }
        }
        let mut j: usize = 0;
        while j < due.len()
            invariant
                j <= due@.len(),
                forall|id: Seq<char>| lists(due@, id) == close_due(core0, id, now_ms),
                forall|id: Seq<char>| #[trigger] keyed_view(self.pending_popover_hides@).contains_key(id)
                    == (pending0.contains_key(id) && !hide_due(pending0, id, now_ms)),
                forall|id: Seq<char>| #[trigger] keyed_view(self.pending_popover_hides@).contains_key(id)
                    ==> keyed_view(self.pending_popover_hides@)[id] == pending0[id],
                forall|id: Seq<char>| lists(due@.subrange(0, j as int), id) && #[trigger] keyed_view(self.core_surfaces@).contains_key(id)
                    ==> keyed_view(self.core_surfaces@)[id] == (SurfaceState { visible: false, closing_until: None }),
                forall|id: Seq<char>| hide_due(pending0, id, now_ms) ==> #[trigger] due_hide_settled(
                    comps0,
                    keyed_view(self.core_surfaces@),
                    keyed_view(self.surfaces@),
                    id,
                    action_views(actions@),
                ),
                bookkeeping_unchanged(*self, *old(self)),
            decreases due.len() - j,
        {
            let id = due[j].as_str();
            let ghost start = *self;
            let ghost acts_start = actions@;
            let ghost core_before = keyed_view(self.core_surfaces@);
            let ghost gone = torn_down_children(*self, id@, false);
            let mut hidden = self.set_surface_visibility_now(id, false);
            proof {
                assert(keyed_view(self.core_surfaces@) == core_before.remove_keys(gone).insert(id@, SurfaceState { visible: false, closing_until: None }));
                assert forall|x: Seq<char>| lists(due@.subrange(0, j + 1), x) == (lists(due@.subrange(0, j as int), x) || x == id@) by {
                    if lists(due@.subrange(0, j + 1), x) {
                        let k = choose|k: int| 0 <= k < j + 1 && (#[trigger] due@.subrange(0, j + 1)[k])@ == x;
                        if k < j {
                            assert(due@.subrange(0, j as int)[k] == due@.subrange(0, j + 1)[k]);
                        }
                    }
                    if lists(due@.subrange(0, j as int), x) {
                        let k = choose|k: int| 0 <= k < j && (#[trigger] due@.subrange(0, j as int)[k])@ == x;
                        assert(due@.subrange(0, j + 1)[k] == due@.subrange(0, j as int)[k]);
                    }
                    if x == id@ {
                        assert(due@.subrange(0, j + 1)[j as int] == due@[j as int]);
                    }
                }
            }
            proof {
                assert forall|x: Seq<char>| lists(due@.subrange(0, j + 1), x) && #[trigger] keyed_view(self.core_surfaces@).contains_key(x)
                    implies keyed_view(self.core_surfaces@)[x] == (SurfaceState { visible: false, closing_until: None }) by {
                    if x != id@ {
                        assert(lists(due@.subrange(0, j as int), x));
                        assert(core_before.contains_key(x));
                    }
                }
            }
            proof {
                lemma_hide_now_keeps_shut(*self, start, id@, action_views(hidden@));
            }
            let ghost hidden0 = hidden@;
            actions.append(&mut hidden);
            proof {
                lemma_views_extend(acts_start, hidden0);
                assert forall|x: Seq<char>| hide_due(pending0, x, now_ms) implies #[trigger] due_hide_settled(
                    comps0,
                    keyed_view(self.core_surfaces@),
                    keyed_view(self.surfaces@),
                    x,
                    action_views(actions@),
                ) by {
                    lemma_settled_carry(comps0, start, *self, action_views(acts_start), action_views(actions@), x);
                }
            }
            j = j + 1;
        }
        proof {
            assert(due@.subrange(0, j as int) =~= due@);
            assert forall|id: Seq<char>| close_due(core0, id, now_ms) && #[trigger] keyed_view(self.core_surfaces@).contains_key(id)
                implies keyed_view(self.core_surfaces@)[id] == (SurfaceState { visible: false, closing_until: None }) by {
                assert(lists(due@, id));
                assert(lists(due@.subrange(0, j as int), id));
            }
            assert(closes_completed(keyed_view(self.core_surfaces@), core0, now_ms));
        }
        actions
    }
}

// ---------------------------------------------------------------------------
// Keyboard focus.

/// `new` is `old` with at most its keyboard override changed.
pub open spec fn override_only_changed(new: ComponentRuntime, old: ComponentRuntime) -> bool {
    &&& same_identity(new, old)
    &&& new.surface_exiting == old.surface_exiting
    &&& new.popup_parent_surface == old.popup_parent_surface
    &&& new.popup_promoted == old.popup_promoted
    &&& new.children == old.children
    &&& new.force_full_present == old.force_full_present
}

pub open spec fn overrides_only_changed(new: Seq<ComponentRuntime>, old: Seq<ComponentRuntime>) -> bool {
    &&& new.len() == old.len()
    &&& forall|j: int| 0 <= j < old.len() ==> override_only_changed(#[trigger] new[j], old[j])
}

/// The keyboard mode handed back when a surface's transfer-owned mode is
/// cleared: the owned mode, else the surface's configured one.
pub open spec fn handed_back_mode(
    owned: Map<Seq<char>, KeyboardMode>,
    targets: Map<Seq<char>, SurfaceTarget>,
    id: Seq<char>,
) -> Option<KeyboardMode> {
    if owned.contains_key(id) {
        Some(owned[id])
    } else if targets.contains_key(id) {
        Some(targets[id].keyboard_mode)
    } else {
        None
    }
}

/// The actions of handing back `id`'s transfer-owned keyboard mode, when
/// it has one: an on-demand surface is first reconfigured without keyboard
/// interactivity.
pub open spec fn handback_actions(owned: Map<Seq<char>, KeyboardMode>, id: Seq<char>) -> Seq<ActionView> {
    if owned.contains_key(id) && owned[id] == KeyboardMode::OnDemand {
        seq![ActionView::ConfigureKeyboardMode { surface_id: id, mode: KeyboardMode::NoInteractivity }]
    } else {
        seq![]
    }
}

/// The presentation targets after surface `s` claimed keyboard focus: the
/// previously focused surface, then `s`, get back a transfer-owned mode.
pub open spec fn claim_targets(old: Shell, s: Seq<char>) -> Map<Seq<char>, SurfaceTarget> {
    let owned = keyed_view(old.transfer_owned_keyboard_modes@);
    let t = keyed_view(old.surfaces@);
    match opt_text(old.keyboard_focus_surface) {
        Some(p) => if p != s {
            targets_after_restore(targets_after_restore(t, owned, p), owned.remove(p), s)
        } else {
            targets_after_restore(t, owned, s)
        },
        None => targets_after_restore(t, owned, s),
    }
}

/// The actions of surface `s` claiming keyboard focus.
pub open spec fn claim_actions(old: Shell, s: Seq<char>) -> Seq<ActionView> {
    let owned = keyed_view(old.transfer_owned_keyboard_modes@);
    match opt_text(old.keyboard_focus_surface) {
        Some(p) => if p != s {
            handback_actions(owned, p) + handback_actions(owned.remove(p), s)
        } else {
            handback_actions(owned, s)
        },
        None => handback_actions(owned, s),
    }
}

pub open spec fn opt_index(i: Option<int>) -> Set<int> {
    match i {
        Some(k) => set![k],
        None => Set::empty(),
    }
}

/// The components whose keyboard override surface `s` claiming keyboard
/// focus drops: when focus moves, those of the previously focused surface
/// and of `s`, and the component of each surface whose transfer-owned
/// mode is handed back.
pub open spec fn claim_cleared(old: Shell, s: Seq<char>) -> Set<int> {
    let cs = old.components@;
    let owned = keyed_view(old.transfer_owned_keyboard_modes@);
    let from_move = match opt_text(old.keyboard_focus_surface) {
        Some(p) => if p != s {
            opt_index(parent_component(cs, p)) + (if owned.contains_key(p) {
                opt_index(surface_component(cs, p))
            } else {
                Set::empty()
            }) + opt_index(parent_component(cs, s))
        } else {
            Set::empty()
        },
        None => opt_index(parent_component(cs, s)),
    };
    from_move + if owned.contains_key(s) {
        opt_index(surface_component(cs, s))
    } else {
        Set::empty()
    }
}

/// The keyboard overrides of `new` are those of `old` but for the
/// components in `cleared`, which have none.
pub open spec fn overrides_cleared(new: Seq<ComponentRuntime>, old: Seq<ComponentRuntime>, cleared: Set<int>) -> bool {
    &&& new.len() == old.len()
    &&& forall|j: int| 0 <= j < old.len() ==> (#[trigger] new[j]).keyboard_mode_override == if cleared.contains(j) {
        None
    } else {
        old[j].keyboard_mode_override
    }
}

proof fn lemma_overrides_step(
    old: Seq<ComponentRuntime>,
    b: Seq<ComponentRuntime>,
    c: Seq<ComponentRuntime>,
    cleared: Set<int>,
    i: Option<int>,
)
    requires
        overrides_cleared(b, old, cleared),
        others_unchanged(c, b, i),
        match i {
            Some(k) => c[k].keyboard_mode_override is None,
            None => true,
        },
    ensures
        overrides_cleared(c, old, cleared + opt_index(i)),
{
    assert forall|j: int| 0 <= j < old.len() implies (#[trigger] c[j]).keyboard_mode_override == if (cleared
        + opt_index(i)).contains(j) {
        None
    } else {
        old[j].keyboard_mode_override
    } by {
        if Some(j) != i {
            assert(c[j] == b[j]);
        }
    }
}

proof fn lemma_targets_stable(a: Seq<ComponentRuntime>, b: Seq<ComponentRuntime>, id: Seq<char>)
    requires
        overrides_only_changed(a, b),
    ensures
        parent_component(a, id) == parent_component(b, id),
        surface_component(a, id) == surface_component(b, id),
{
    assert forall|j: int| 0 <= j < a.len() implies #[trigger] a[j].surface_id == b[j].surface_id by {
        assert(override_only_changed(a[j], b[j]));
    }
    lemma_parent_component_stable(a, b, id);
    assert forall|j: int| 0 <= j < a.len() implies (#[trigger] a[j]).surface_id == b[j].surface_id && a[j].children
        == b[j].children by {
        assert(override_only_changed(a[j], b[j]));
    }
    lemma_surface_target_stable(a, b, id);
}

/// `new` is `old` after surface `surface_id` claimed keyboard focus, with
/// actions `r`.
pub open spec fn focus_claimed(new: Shell, old: Shell, surface_id: Seq<char>, r: Seq<ActionView>) -> bool {
    &&& opt_text(new.keyboard_focus_surface) == Some(surface_id)
    &&& keyed_view(new.surfaces@) == claim_targets(old, surface_id)
    &&& r == claim_actions(old, surface_id)
    &&& keyed_view(new.transfer_owned_keyboard_modes@) == match opt_text(old.keyboard_focus_surface) {
        Some(p) => keyed_view(old.transfer_owned_keyboard_modes@).remove(p).remove(surface_id),
        None => keyed_view(old.transfer_owned_keyboard_modes@).remove(surface_id),
    }
    &&& overrides_only_changed(new.components@, old.components@)
    &&& overrides_cleared(new.components@, old.components@, claim_cleared(old, surface_id))
    &&& opt_text(old.keyboard_focus_surface) != Some(surface_id) ==> match parent_component(old.components@, surface_id) {
        Some(i) => new.components@[i].keyboard_mode_override is None,
        None => true,
    }
    &&& new.core_surfaces == old.core_surfaces
    &&& new.pending_popover_hides == old.pending_popover_hides
    &&& new.debug == old.debug
    &&& bookkeeping_unchanged(new, old)
}

impl Shell {
    fn clear_override_of_parent(&mut self, surface_id: &str)
        ensures
            overrides_only_changed(final(self).components@, old(self).components@),
            others_unchanged(final(self).components@, old(self).components@, parent_component(old(self).components@, surface_id@)),
            match parent_component(old(self).components@, surface_id@) {
                Some(i) => final(self).components@[i].keyboard_mode_override is None,
                None => true,
            },
            final(self).core_surfaces == old(self).core_surfaces,
            final(self).surfaces == old(self).surfaces,
            final(self).pending_popover_hides == old(self).pending_popover_hides,
            final(self).keyboard_focus_surface == old(self).keyboard_focus_surface,
            final(self).transfer_owned_keyboard_modes == old(self).transfer_owned_keyboard_modes,
            final(self).debug == old(self).debug,
            bookkeeping_unchanged(*final(self), *old(self)),
    {
        if let Some(index) = self.parent_index_for_surface(surface_id) {
            self.components[index].keyboard_mode_override = None;
        }
    }

    /// Hands back the keyboard mode a tab focus transfer owned on a surface:
    /// the surface's configured mode becomes the handed-back one, an
    /// on-demand surface is reconfigured without keyboard interactivity
    /// first, and the owning component loses its keyboard override.
    pub(crate) fn clear_transfer_owned_keyboard_mode(&mut self, surface_id: &str, actions: &mut Vec<ShellAction>) -> (r: Option<KeyboardMode>)
        ensures
            r == handed_back_mode(
                keyed_view(old(self).transfer_owned_keyboard_modes@),
                keyed_view(old(self).surfaces@),
                surface_id@,
            ),
            keyed_view(final(self).transfer_owned_keyboard_modes@) == keyed_view(
                old(self).transfer_owned_keyboard_modes@,
            ).remove(surface_id@),
            keyed_view(final(self).surfaces@) == match r {
                Some(mode) => if keyed_view(old(self).surfaces@).contains_key(surface_id@) {
                    keyed_view(old(self).surfaces@).insert(
                        surface_id@,
                        SurfaceTarget { keyboard_mode: mode, ..keyed_view(old(self).surfaces@)[surface_id@] },
                    )
                } else {
                    keyed_view(old(self).surfaces@)
                },
                None => keyed_view(old(self).surfaces@),
            },
            overrides_only_changed(final(self).components@, old(self).components@),
            r is None ==> final(self).components == old(self).components,
            r is Some ==> others_unchanged(final(self).components@, old(self).components@, surface_component(old(self).components@, surface_id@)),
            r is Some ==> match surface_component(old(self).components@, surface_id@) {
                Some(i) => final(self).components@[i].keyboard_mode_override is None,
                None => true,
            },
            action_views(final(actions)@) == action_views(old(actions)@) + if r == Some(KeyboardMode::OnDemand) {
                seq![ActionView::ConfigureKeyboardMode { surface_id: surface_id@, mode: KeyboardMode::NoInteractivity }]
            } else {
                seq![]
            },
            final(self).core_surfaces == old(self).core_surfaces,
            final(self).pending_popover_hides == old(self).pending_popover_hides,
            final(self).keyboard_focus_surface == old(self).keyboard_focus_surface,
            final(self).debug == old(self).debug,
            bookkeeping_unchanged(*final(self), *old(self)),
    {
        let previous = match keyed_remove(&mut self.transfer_owned_keyboard_modes, surface_id) {
            Some(mode) => Some(mode),
            None => match keyed_get(&self.surfaces, surface_id) {
                Some(target) => Some(target.keyboard_mode),
                None => None,
            },
        };
        let previous_mode = match previous {
            Some(mode) => mode,
            None => {
                proof {
                    assert(action_views(actions@) =~= action_views(old(actions)@) + seq![]);
                }
                return None;
            },
        };
        let ghost before = actions@;
        if previous_mode == KeyboardMode::OnDemand {
            actions.push(ShellAction::ConfigureKeyboardMode {
                surface_id: String::from_str(surface_id),
                mode: KeyboardMode::NoInteractivity,
            });
        }
        proof {
            assert(action_views(actions@) =~= action_views(before) + if previous_mode == KeyboardMode::OnDemand {
                seq![ActionView::ConfigureKeyboardMode { surface_id: surface_id@, mode: KeyboardMode::NoInteractivity }]
            } else {
                seq![]
            });
        }
        if let Some(target) = keyed_get(&self.surfaces, surface_id) {
            keyed_put(&mut self.surfaces, surface_id, SurfaceTarget { keyboard_mode: previous_mode, ..target });
        }
        if let Some((index, _)) = self.component_target_for_surface(surface_id) {
            self.components[index].keyboard_mode_override = None;
        }
        Some(previous_mode)
    }

    /// Gives keyboard focus to a surface. The previously focused surface's
    /// component loses its keyboard override and its transfer-owned mode is
    /// handed back; when focus moves, the newly focused surface's component
    /// loses its override too; and a transfer-owned mode on the focused
    /// surface is always handed back.
    pub fn claim_keyboard_focus_for_surface(&mut self, surface_id: &str) -> (r: Vec<ShellAction>)
        ensures
            focus_claimed(*final(self), *old(self), surface_id@, action_views(r@)),
    {
        let mut actions: Vec<ShellAction> = Vec::new();
        let ghost owned0 = keyed_view(self.transfer_owned_keyboard_modes@);
        let ghost t0 = keyed_view(self.surfaces@);
        let previous = match &self.keyboard_focus_surface {
            Some(p) => Some(p.clone()),
            None => None,
        };
        let same = match &previous {
            Some(p) => text::str_eq(p.as_str(), surface_id),
            None => false,
        };
        let ghost cs0 = self.components@;
        let ghost mut cleared: Set<int> = Set::empty();
        proof {
            assert(overrides_cleared(cs0, cs0, cleared));
        }
        match &previous {
            Some(p) => {
                if !same {
                    self.clear_override_of_parent(p.as_str());
                    proof {
                        lemma_overrides_step(cs0, cs0, self.components@, cleared, parent_component(cs0, p@));
                        cleared = cleared + opt_index(parent_component(cs0, p@));
                    }
                    if keyed_find(&self.transfer_owned_keyboard_modes, p.as_str()).is_some() {
                        let ghost b1 = self.components@;
                        let handed = self.clear_transfer_owned_keyboard_mode(p.as_str(), &mut actions);
                        proof {
                            assert(action_views(actions@) =~= handback_actions(owned0, p@));
                            assert(handed is Some);
                            lemma_targets_stable(b1, cs0, p@);
                            lemma_overrides_step(cs0, b1, self.components@, cleared, surface_component(b1, p@));
                            cleared = cleared + opt_index(surface_component(cs0, p@));
                        }
                    } else {
                        proof {
                            assert(keyed_view(self.transfer_owned_keyboard_modes@) =~= keyed_view(self.transfer_owned_keyboard_modes@).remove(p@));
                            assert(action_views(actions@) =~= handback_actions(owned0, p@));
                        }
                    }
                    proof {
                        assert(keyed_view(self.surfaces@) == targets_after_restore(t0, owned0, p@));
                    }
                } else if keyed_find(&self.transfer_owned_keyboard_modes, surface_id).is_some() {
                    let handed = self.clear_transfer_owned_keyboard_mode(surface_id, &mut actions);
                    proof {
                        assert(action_views(actions@) =~= handback_actions(owned0, surface_id@));
                        assert(handed is Some);
                        lemma_overrides_step(cs0, cs0, self.components@, cleared, surface_component(cs0, surface_id@));
                        cleared = cleared + opt_index(surface_component(cs0, surface_id@));
                    }
                } else {
                    proof {
                        assert(action_views(actions@) =~= handback_actions(owned0, surface_id@));
                        assert(t0 == targets_after_restore(t0, owned0, surface_id@));
                    }
                }
            },
            None => {
                proof {
                    assert(action_views(actions@) =~= Seq::<ActionView>::empty());
                }
            },
        }
        let ghost mid_actions = action_views(actions@);
        let ghost mid_targets = keyed_view(self.surfaces@);
        let ghost mid_owned = keyed_view(self.transfer_owned_keyboard_modes@);
        let ghost mid = *self;
        self.keyboard_focus_surface = Some(String::from_str(surface_id));
        if !same {
            self.clear_override_of_parent(surface_id);
            proof {
                lemma_parent_component_stable(mid.components@, old(self).components@, surface_id@);
                lemma_overrides_step(cs0, mid.components@, self.components@, cleared, parent_component(mid.components@, surface_id@));
                cleared = cleared + opt_index(parent_component(cs0, surface_id@));
            }
        }
        if keyed_find(&self.transfer_owned_keyboard_modes, surface_id).is_some() {
            let ghost before_clear = *self;
            let handed = self.clear_transfer_owned_keyboard_mode(surface_id, &mut actions);
            proof {
                assert(handed is Some);
                lemma_targets_stable(before_clear.components@, cs0, surface_id@);
                lemma_overrides_step(
                    cs0,
                    before_clear.components@,
                    self.components@,
                    cleared,
                    surface_component(before_clear.components@, surface_id@),
                );
                cleared = cleared + opt_index(surface_component(cs0, surface_id@));
            }
            proof {
                assert(action_views(actions@) =~= mid_actions + handback_actions(mid_owned, surface_id@));
                assert(keyed_view(self.surfaces@) == targets_after_restore(mid_targets, mid_owned, surface_id@));
            }
            proof {
                if !same {
                    lemma_parent_component_stable(before_clear.components@, old(self).components@, surface_id@);
                    if let Some(i) = parent_component(old(self).components@, surface_id@) {
                        assert(first_parent(before_clear.components@, surface_id@, i));
                        assert(surface_component(before_clear.components@, surface_id@) == Some(i));
                    }
                }
            }
        } else {
            proof {
                assert(keyed_view(self.transfer_owned_keyboard_modes@) =~= keyed_view(self.transfer_owned_keyboard_modes@).remove(surface_id@));
                assert(action_views(actions@) =~= mid_actions + handback_actions(mid_owned, surface_id@));
                assert(mid_targets == targets_after_restore(mid_targets, mid_owned, surface_id@));
            }
        }
        proof {
            if let Some(p) = opt_text(old(self).keyboard_focus_surface) {
                if p != surface_id@ {
                    assert(mid_owned =~= owned0.remove(p));
                } else {
                    assert(!mid_owned.contains_key(surface_id@) || mid_owned == owned0);
                }
            }
            assert(keyed_view(self.surfaces@) == claim_targets(*old(self), surface_id@));
            assert(action_views(actions@) == claim_actions(*old(self), surface_id@));
            assert(cleared =~= claim_cleared(*old(self), surface_id@));
            assert(keyed_view(self.transfer_owned_keyboard_modes@) =~= match opt_text(old(self).keyboard_focus_surface) {
                Some(p) => keyed_view(old(self).transfer_owned_keyboard_modes@).remove(p).remove(surface_id@),
                None => keyed_view(old(self).transfer_owned_keyboard_modes@).remove(surface_id@),
            });
        }
        actions
    }
}

} // verus!
