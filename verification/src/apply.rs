//! Applying a core request to the shell's own state: surface visibility,
//! popovers and the debug tooling's switches. Requests whose work lies
//! elsewhere (services, appearance, packages, composition, roles, the
//! clipboard, shutdown) are handed back to the caller.
use vstd::prelude::*;
use crate::shell::{
    ActionView, ComponentRuntime, DebugState, Shell, ShellAction, TargetRef, action_views,
    bookkeeping_unchanged, hide_forgotten, popover_hide_applied, popover_hide_cancelled,
    request_views, sibling_hides_upto, surface_component, visibility_applied,
    DEBUG_INSPECTOR_SURFACE_ID,
};
use crate::keyed::{keyed_view, keyed_get, keyed_remove};
use crate::focus::focus_transferred;
use crate::text;
use crate::types::{CoreRequest, RequestView, TabFocusTarget};
use crate::requests::{BenchmarkScenarioId, benchmark_scenario_id, scenario_named};

verus! {

/// What applying a request came to.
#[derive(Debug)]
pub enum ApplyOutcome {
    /// The shell is shutting down and takes no more work.
    Refused,
    /// Applied to the shell's state, with follow-up requests and actions.
    Applied { requests: Vec<CoreRequest>, actions: Vec<ShellAction> },
    /// Work outside the shell's bookkeeping, handed back unchanged.
    Delegated(CoreRequest),
}

/// `new` is `old` with at most the paint and present flags of components
/// and their child surfaces changed.
pub open spec fn only_present_flags_changed(new: ComponentRuntime, old: ComponentRuntime) -> bool {
    &&& new.component_id == old.component_id
    &&& new.surface_id == old.surface_id
    &&& new.quarantined == old.quarantined
    &&& new.failure_count == old.failure_count
    &&& new.hide_transition_ms == old.hide_transition_ms
    &&& new.theme_changed == old.theme_changed
    &&& new.locale_changed == old.locale_changed
    &&& new.keyboard_mode_override == old.keyboard_mode_override
    &&& new.surface_exiting == old.surface_exiting
    &&& new.popup_parent_surface == old.popup_parent_surface
    &&& new.popup_promoted == old.popup_promoted
    &&& new.children@.len() == old.children@.len()
    &&& forall|k: int| 0 <= k < old.children@.len() ==> {
        &&& (#[trigger] new.children@[k]).surface_id == old.children@[k].surface_id
        &&& new.children@[k].node_key == old.children@[k].node_key
        &&& new.children@[k].kind == old.children@[k].kind
        &&& new.children@[k].popup_parent_surface == old.children@[k].popup_parent_surface
    }
}

/// Every component is asked to repaint and every surface, its own and its
/// children's, to present in full.
pub open spec fn targets_invalidated(new: Shell, old: Shell) -> bool {
    &&& new.components@.len() == old.components@.len()
    &&& forall|j: int| 0 <= j < old.components@.len() ==> {
        &&& only_present_flags_changed(#[trigger] new.components@[j], old.components@[j])
        &&& new.components@[j].paint_requested
        &&& new.components@[j].force_full_present
        &&& forall|k: int| 0 <= k < new.components@[j].children@.len() ==> (#[trigger] new.components@[j].children@[k]).force_full_present
    }
    &&& new.core_surfaces == old.core_surfaces
    &&& new.surfaces == old.surfaces
    &&& new.pending_popover_hides == old.pending_popover_hides
    &&& new.keyboard_focus_surface == old.keyboard_focus_surface
    &&& new.transfer_owned_keyboard_modes == old.transfer_owned_keyboard_modes
    &&& new.debug == old.debug
    &&& bookkeeping_unchanged(new, old)
}

impl Shell {
    /// Makes every component repaint and every surface present in full, so
    /// that layout bounds appear or disappear everywhere at once.
    pub fn invalidate_debug_layout_bounds_targets(&mut self)
        ensures
            targets_invalidated(*final(self), *old(self)),
    {
        let n = self.components.len();
        let mut i: usize = 0;
        while i < n
            invariant
                n == old(self).components@.len(),
                i <= n,
                self.components@.len() == n,
                forall|j: int| 0 <= j < n ==> only_present_flags_changed(#[trigger] self.components@[j], old(self).components@[j]),
                forall|j: int| 0 <= j < i ==> {
                    &&& (#[trigger] self.components@[j]).paint_requested
                    &&& self.components@[j].force_full_present
                    &&& forall|k: int| 0 <= k < self.components@[j].children@.len() ==> (#[trigger] self.components@[j].children@[k]).force_full_present
                },
                forall|j: int| i <= j < n ==> #[trigger] self.components@[j] == old(self).components@[j],
                self.core_surfaces == old(self).core_surfaces,
                self.surfaces == old(self).surfaces,
                self.pending_popover_hides == old(self).pending_popover_hides,
                self.keyboard_focus_surface == old(self).keyboard_focus_surface,
                self.transfer_owned_keyboard_modes == old(self).transfer_owned_keyboard_modes,
                self.debug == old(self).debug,
                bookkeeping_unchanged(*self, *old(self)),
            decreases n - i,
        {
            let ghost before = self.components@;
            self.components[i].paint_requested = true;
            self.components[i].force_full_present = true;
            proof {
                assert(before[i as int] == old(self).components@[i as int]);
                assert(self.components@[i as int].children == before[i as int].children);
                assert(only_present_flags_changed(self.components@[i as int], old(self).components@[i as int]));
                assert forall|j: int| 0 <= j < n implies only_present_flags_changed(#[trigger] self.components@[j], old(self).components@[j]) by {
                    if j != i as int {
                        assert(self.components@[j] == before[j]);
                    }
                }
            }
            let m = self.components[i].children.len();
            let mut k: usize = 0;
            while k < m
                invariant
                    n == old(self).components@.len(),
                    i < n,
                    self.components@.len() == n,
                    m == self.components@[i as int].children@.len(),
                    k <= m,
                    forall|j: int| 0 <= j < n ==> only_present_flags_changed(#[trigger] self.components@[j], old(self).components@[j]),
                    forall|j: int| 0 <= j < i ==> {
                        &&& (#[trigger] self.components@[j]).paint_requested
                        &&& self.components@[j].force_full_present
                        &&& forall|c: int| 0 <= c < self.components@[j].children@.len() ==> (#[trigger] self.components@[j].children@[c]).force_full_present
                    },
                    self.components@[i as int].paint_requested,
                    self.components@[i as int].force_full_present,
                    forall|c: int| 0 <= c < k ==> (#[trigger] self.components@[i as int].children@[c]).force_full_present,
                    forall|j: int| i < j < n ==> #[trigger] self.components@[j] == old(self).components@[j],
                    self.core_surfaces == old(self).core_surfaces,
                    self.surfaces == old(self).surfaces,
                    self.pending_popover_hides == old(self).pending_popover_hides,
                    self.keyboard_focus_surface == old(self).keyboard_focus_surface,
                    self.transfer_owned_keyboard_modes == old(self).transfer_owned_keyboard_modes,
                    self.debug == old(self).debug,
                    bookkeeping_unchanged(*self, *old(self)),
                decreases m - k,
            {
                self.components[i].children[k].force_full_present = true;
                k = k + 1;
            }
            i = i + 1;
        }
    }
}

/// Whether the shell takes no more work: it is shutting down, effects of
/// the shutdown itself are not running, and the request is not the shutdown.
pub open spec fn refuses(s: Shell, r: RequestView) -> bool {
    !s.accepting_work && !s.shutdown_effects_allowed && !(r is Shutdown)
}

/// The visibility a toggle gives a surface: the opposite of its recorded
/// visibility, shown when it has no record.
pub open spec fn toggled_visibility(s: Shell, id: Seq<char>) -> bool {
    let core = keyed_view(s.core_surfaces@);
    if core.contains_key(id) {
        !core[id].visible
    } else {
        true
    }
}

/// `new` is `old` with component `i` promoted to a popup of `trigger`.
pub open spec fn promoted_to_popup(new: Shell, old: Shell, i: int, trigger: Seq<char>) -> bool {
    &&& crate::shell::others_unchanged(new.components@, old.components@, Some(i))
    &&& crate::shell::same_identity(new.components@[i], old.components@[i])
    &&& crate::types::opt_text(new.components@[i].popup_parent_surface) == Some(trigger)
    &&& new.components@[i].popup_promoted
    &&& new.components@[i].keyboard_mode_override == old.components@[i].keyboard_mode_override
    &&& new.components@[i].surface_exiting == old.components@[i].surface_exiting
    &&& new.components@[i].children == old.components@[i].children
    &&& new.components@[i].force_full_present == old.components@[i].force_full_present
    &&& new.core_surfaces == old.core_surfaces
    &&& new.surfaces == old.surfaces
    &&& new.pending_popover_hides == old.pending_popover_hides
    &&& new.keyboard_focus_surface == old.keyboard_focus_surface
    &&& new.transfer_owned_keyboard_modes == old.transfer_owned_keyboard_modes
    &&& new.debug == old.debug
    &&& bookkeeping_unchanged(new, old)
}

/// The requests that activating popover `id` from `trigger`'s node `key`
/// emits in state `s`: hides of the trigger's other shown popovers, the
/// show of the popover, and, when focus is asked for, a tab focus transfer
/// into it that returns to the trigger and closes it on leave.
pub open spec fn activation_requests(s: Shell, id: Seq<char>, trigger: Seq<char>, key: Seq<char>, focus: bool) -> Seq<RequestView> {
    (if trigger.len() == 0 {
        seq![]
    } else {
        sibling_hides_upto(s, id, trigger, s.components@.len() as int)
    }) + seq![RequestView::ShowSurface { surface_id: id }] + (if focus && trigger.len() > 0 && key.len() > 0 {
        seq![
            RequestView::TransferTabFocus {
                from_surface: trigger,
                to_surface: id,
                target: TabFocusTarget::First,
                return_target: Some((trigger, key)),
                target_closes_on_leave: true,
                close_source: None,
            },
        ]
    } else {
        seq![]
    })
}

/// `new` is `s` after the trigger's component learned of its trigger node
/// and, where popups are supported and the trigger is another surface, the
/// popover's component was promoted to a popup of the trigger.
pub open spec fn activation_step(
    new: Shell,
    s: Shell,
    id: Seq<char>,
    trigger: Seq<char>,
    key: Seq<char>,
    focus: bool,
    requests: Seq<RequestView>,
    actions: Seq<ActionView>,
) -> bool {
    let ti = surface_component(s.components@, trigger);
    let registered = if key.len() > 0 && ti is Some {
        seq![ActionView::RegisterPopoverTrigger { component: ti.unwrap() as usize, trigger_key: key, surface_id: id }]
    } else {
        seq![]
    };
    let target = surface_component(s.components@, id);
    let promote = s.popup_supported && trigger.len() > 0 && trigger != id && target is Some;
    &&& promote ==> promoted_to_popup(new, s, target.unwrap(), trigger) && actions == registered.push(
        ActionView::PromotePopup { surface_id: id, trigger_surface: trigger, trigger_key: key },
    )
    &&& !promote ==> new == s && actions == registered
    &&& requests == activation_requests(new, id, trigger, key, focus)
}

/// `new` is `old` after activating popover `id` from `trigger`'s node `key`:
/// its pending hide is cancelled, then the activation step applies.
pub open spec fn activation_applied(
    new: Shell,
    old: Shell,
    id: Seq<char>,
    trigger: Seq<char>,
    key: Seq<char>,
    focus: bool,
    requests: Seq<RequestView>,
    actions: Seq<ActionView>,
) -> bool {
    exists|s1: Shell|
        popover_hide_cancelled(s1, old, id) && #[trigger] activation_step(new, s1, id, trigger, key, focus, requests, actions)
}

pub open spec fn with_debug(s: Shell, debug: DebugState) -> Shell {
    Shell { debug, ..s }
}

/// The shell after the debug element picker is toggled.
pub open spec fn picker_toggled(s: Shell) -> Shell {
    with_debug(s, DebugState { element_picker_enabled: !s.debug.element_picker_enabled, ..s.debug })
}

/// The debug switches after profiling is toggled: a new session starts
/// each time profiling is enabled.
pub open spec fn profiling_toggled(d: DebugState) -> DebugState {
    if d.profiling_enabled {
        DebugState { profiling_enabled: false, ..d }
    } else {
        DebugState {
            profiling_enabled: true,
            profiling_session_id: if d.profiling_session_id == u64::MAX {
                0
            } else {
                (d.profiling_session_id + 1) as u64
            },
            ..d
        }
    }
}

/// Surface, popover and focus transfer requests.
pub open spec fn surface_request(r: RequestView) -> bool {
    ||| r is ShowSurface
    ||| r is HideSurface
    ||| r is ToggleSurface
    ||| r is HidePopover
    ||| r is ActivatePopover
    ||| r is TransferTabFocus
}

/// Debug tooling requests and diagnostics.
pub open spec fn debug_request(r: RequestView) -> bool {
    ||| r is ToggleDebugOverlay
    ||| r is ToggleDebugLayoutBounds
    ||| r is ToggleDebugElementPicker
    ||| r is ToggleDebugProfiling
    ||| r is PublishDiagnostics
    ||| r is RunDebugBenchmark
}

fn is_surface_request(request: &CoreRequest) -> (r: bool)
    ensures
        r == surface_request(request@),
{
    match request {
        CoreRequest::ShowSurface { .. } => true,
        CoreRequest::HideSurface { .. } => true,
        CoreRequest::ToggleSurface { .. } => true,
        CoreRequest::HidePopover { .. } => true,
        CoreRequest::ActivatePopover { .. } => true,
        CoreRequest::TransferTabFocus { .. } => true,
        _ => false,
    }
}

fn is_debug_request(request: &CoreRequest) -> (r: bool)
    ensures
        r == debug_request(request@),
{
    match request {
        CoreRequest::ToggleDebugOverlay => true,
        CoreRequest::ToggleDebugLayoutBounds => true,
        CoreRequest::ToggleDebugElementPicker => true,
        CoreRequest::ToggleDebugProfiling => true,
        CoreRequest::PublishDiagnostics { .. } => true,
        CoreRequest::RunDebugBenchmark { .. } => true,
        _ => false,
    }
}

/// The requests that the shell's own bookkeeping applies.
pub open spec fn applied_here(r: RequestView) -> bool {
    surface_request(r) || debug_request(r)
}

pub open spec fn applied_outcome(r: ApplyOutcome) -> Option<(Seq<RequestView>, Seq<ActionView>)> {
    match r {
        ApplyOutcome::Applied { requests, actions } => Some((request_views(requests@), action_views(actions@))),
        _ => None,
    }
}

/// `new` is `old` after the shell applied request `r` at `now`, emitting
/// follow-up `requests` and `actions`.
pub open spec fn applied_as(
    new: Shell,
    old: Shell,
    r: RequestView,
    now: u64,
    requests: Seq<RequestView>,
    actions: Seq<ActionView>,
) -> bool {
    match r {
        RequestView::ShowSurface { surface_id } => requests.len() == 0 && visibility_applied(
            new,
            old,
            surface_id,
            true,
            now,
            actions,
        ),
        RequestView::HideSurface { surface_id } => requests.len() == 0 && hidden_after_forgetting(
            new,
            old,
            surface_id,
            now,
            actions,
        ),
        RequestView::ToggleSurface { surface_id } => requests.len() == 0 && visibility_applied(
            new,
            old,
            surface_id,
            toggled_visibility(old, surface_id),
            now,
            actions,
        ),
        RequestView::HidePopover { surface_id, defer_for_hover_bridge } => requests.len() == 0
            && popover_hide_applied(new, old, surface_id, defer_for_hover_bridge, now, actions),
        RequestView::ActivatePopover { surface_id, trigger_surface, trigger_key, focus } => activation_applied(
            new,
            old,
            surface_id,
            trigger_surface,
            trigger_key,
            focus,
            requests,
            actions,
        ),
        RequestView::ToggleDebugOverlay => requests.len() == 0 && visibility_applied(
            new,
            with_debug(old, DebugState { enabled: !old.debug.enabled, ..old.debug }),
            DEBUG_INSPECTOR_SURFACE_ID@,
            !old.debug.enabled,
            now,
            actions,
        ),
        RequestView::ToggleDebugLayoutBounds => requests.len() == 0 && actions.len() == 0 && targets_invalidated(
            new,
            with_debug(old, DebugState { show_layout_bounds: !old.debug.show_layout_bounds, ..old.debug }),
        ),
        RequestView::ToggleDebugElementPicker => requests.len() == 0 && picker_applied(new, old, now, actions),
        RequestView::ToggleDebugProfiling => requests.len() == 0 && actions.len() == 0 && new == with_debug(
            old,
            profiling_toggled(old.debug),
        ),
        RequestView::PublishDiagnostics { .. } => requests.len() == 0 && actions.len() == 0 && new == old,
        RequestView::TransferTabFocus {
            from_surface,
            to_surface,
            target,
            return_target,
            target_closes_on_leave,
            close_source,
        } => focus_transferred(
            new,
            old,
            from_surface,
            to_surface,
            target,
            return_target,
            target_closes_on_leave,
            close_source,
            actions,
            requests,
        ),
        RequestView::RunDebugBenchmark { scenario_id } => actions.len() == 0 && benchmark_started(new, old, scenario_id, requests),
        _ => false,
    }
}

/// `new` is `old` after a pending popover hide of `id` was forgotten and
/// the surface then hidden.
pub open spec fn hidden_after_forgetting(new: Shell, old: Shell, id: Seq<char>, now: u64, actions: Seq<ActionView>) -> bool {
    exists|mid: Shell| #[trigger] hide_forgotten(mid, old, id) && visibility_applied(new, mid, id, false, now, actions)
}

/// `new` is `old` after the element picker was toggled: every target is
/// invalidated, then the overlay follows the picker.
pub open spec fn picker_applied(new: Shell, old: Shell, now: u64, actions: Seq<ActionView>) -> bool {
    exists|mid: Shell| #[trigger] targets_invalidated(mid, picker_toggled(old)) && picker_followed(new, mid, now, actions)
}

/// The surface that the surface open/close benchmark toggles.
pub const BENCHMARK_POPOVER_SURFACE_ID: &'static str = "@mesh/audio-popover";

/// `new` is `old` after a benchmark run of `scenario_id` was asked for: an
/// unknown scenario is answered with a diagnostic; a known one becomes the
/// latest run, and the surface open/close scenario toggles its popover.
pub open spec fn benchmark_started(new: Shell, old: Shell, scenario_id: Seq<char>, requests: Seq<RequestView>) -> bool {
    match scenario_named(scenario_id) {
        None => new == old && requests == seq![
            RequestView::PublishDiagnostics { message: "unknown debug benchmark scenario: "@ + scenario_id },
        ],
        Some(scenario) => new == with_debug(old, DebugState { latest_benchmark_run: Some(scenario), ..old.debug })
            && requests == if scenario == BenchmarkScenarioId::SurfaceOpenClose {
            seq![RequestView::ToggleSurface { surface_id: BENCHMARK_POPOVER_SURFACE_ID@ }]
        } else {
            seq![]
        },
    }
}

/// After the picker was toggled on with the overlay off, the overlay is
/// shown; otherwise nothing more changes.
pub open spec fn picker_followed(new: Shell, mid: Shell, now: u64, actions: Seq<ActionView>) -> bool {
    if mid.debug.element_picker_enabled && !mid.debug.enabled {
        visibility_applied(new, with_debug(mid, DebugState { enabled: true, ..mid.debug }), DEBUG_INSPECTOR_SURFACE_ID@, true, now, actions)
    } else {
        new == mid && actions.len() == 0
    }
}

/// `new` is `old` after request `request` was applied at `now`, coming to
/// `outcome`: refused while shutting down, applied here, or handed back.
pub open spec fn request_applied(new: Shell, old: Shell, request: CoreRequest, now: u64, outcome: ApplyOutcome) -> bool {
    &&& refuses(old, request@) ==> outcome is Refused && new == old
    &&& !refuses(old, request@) && !applied_here(request@) ==> outcome == ApplyOutcome::Delegated(request) && new == old
    &&& !refuses(old, request@) && applied_here(request@) ==> match applied_outcome(outcome) {
        Some((requests, actions)) => applied_as(new, old, request@, now, requests, actions),
        None => false,
    }
}

proof fn lemma_sibling_hides_len(s: Shell, id: Seq<char>, trigger: Seq<char>, n: int)
    ensures
        sibling_hides_upto(s, id, trigger, n).len() <= if n < 0 {
            0
        } else {
            n
        },
    decreases n,
{
    if n > 0 {
        lemma_sibling_hides_len(s, id, trigger, n - 1);
    }
}

/// A request applied here asks for at most two more follow-ups than there
/// are components.
pub proof fn lemma_followups_bounded(new: Shell, old: Shell, request: CoreRequest, now: u64, outcome: ApplyOutcome)
    requires
        request_applied(new, old, request, now, outcome),
    ensures
        outcome matches ApplyOutcome::Applied { requests, .. } ==> requests@.len() <= old.components@.len() + 2,
{
    if let ApplyOutcome::Applied { requests, actions } = outcome {
        let rv = request_views(requests@);
        assert(rv.len() == requests@.len());
        match request@ {
            RequestView::ActivatePopover { surface_id, trigger_surface, trigger_key, focus } => {
                let av = action_views(actions@);
                let s1 = choose|s1: Shell|
                    popover_hide_cancelled(s1, old, surface_id) && #[trigger] activation_step(
                        new,
                        s1,
                        surface_id,
                        trigger_surface,
                        trigger_key,
                        focus,
                        rv,
                        av,
                    );
                assert(new.components@.len() == old.components@.len());
                lemma_sibling_hides_len(new, surface_id, trigger_surface, new.components@.len() as int);
            },
            _ => {},
        }
    }
}

impl Shell {
    /// Applies a request at `now_ms`. A shell that is shutting down refuses
    /// every request but the shutdown. Surface, popover and debug requests
    /// change the shell's state as their own operations do; every other
    /// request is handed back unchanged for the caller to carry out.
    pub fn apply_request(&mut self, request: CoreRequest, now_ms: u64) -> (r: ApplyOutcome)
        ensures
            request_applied(*final(self), *old(self), request, now_ms, r),
    {
        let is_shutdown = match &request {
            CoreRequest::Shutdown => true,
            _ => false,
        };
        if !self.accepting_work && !self.shutdown_effects_allowed && !is_shutdown {
            return ApplyOutcome::Refused;
        }
        if is_surface_request(&request) {
            let (requests, actions) = self.apply_surface_request(request, now_ms);
            ApplyOutcome::Applied { requests, actions }
        } else if is_debug_request(&request) {
            let (requests, actions) = self.apply_debug_request(request, now_ms);
            ApplyOutcome::Applied { requests, actions }
        } else {
            ApplyOutcome::Delegated(request)
        }
    }

    /// Applies a surface, popover or focus transfer request.
    #[verifier::spinoff_prover]
    fn apply_surface_request(&mut self, request: CoreRequest, now_ms: u64) -> (r: (Vec<CoreRequest>, Vec<ShellAction>))
        requires
            surface_request(request@),
        ensures
            applied_as(*final(self), *old(self), request@, now_ms, request_views(r.0@), action_views(r.1@)),
    {
        let ghost rv = request@;
        let none: Vec<CoreRequest> = Vec::new();
        proof {
            assert(request_views(none@) =~= Seq::<RequestView>::empty());
        }
        match request {
            CoreRequest::ShowSurface { surface_id } => {
                let actions = self.set_surface_visibility(surface_id.as_str(), true, now_ms);
                proof {
                    assert(applied_as(*self, *old(self), rv, now_ms, request_views(none@), action_views(actions@)));
                }
                (none, actions)
            },
            CoreRequest::HideSurface { surface_id } => {
                keyed_remove(&mut self.pending_popover_hides, surface_id.as_str());
                let ghost mid = *self;
                let actions = self.set_surface_visibility(surface_id.as_str(), false, now_ms);
                proof {
                    assert(hide_forgotten(mid, *old(self), surface_id@));
                    assert(hidden_after_forgetting(*self, *old(self), surface_id@, now_ms, action_views(actions@)));
                    assert(applied_as(*self, *old(self), rv, now_ms, request_views(none@), action_views(actions@)));
                }
                (none, actions)
            },
            CoreRequest::ToggleSurface { surface_id } => {
                let visible = match keyed_get(&self.core_surfaces, surface_id.as_str()) {
                    Some(state) => !state.visible,
                    None => true,
                };
                let actions = self.set_surface_visibility(surface_id.as_str(), visible, now_ms);
                proof {
                    assert(applied_as(*self, *old(self), rv, now_ms, request_views(none@), action_views(actions@)));
                }
                (none, actions)
            },
            CoreRequest::HidePopover { surface_id, defer_for_hover_bridge } => {
                let actions = self.hide_popover(surface_id.as_str(), defer_for_hover_bridge, now_ms);
                proof {
                    assert(applied_as(*self, *old(self), rv, now_ms, request_views(none@), action_views(actions@)));
                }
                (none, actions)
            },
            CoreRequest::ActivatePopover { surface_id, trigger_surface, trigger_key, focus } => {
                let (requests, actions) = self.activate_popover(surface_id, trigger_surface, trigger_key, focus);
                proof {
                    assert(applied_as(*self, *old(self), rv, now_ms, request_views(requests@), action_views(actions@)));
                }
                (requests, actions)
            },
            CoreRequest::TransferTabFocus {
                from_surface,
                to_surface,
                target,
                return_target,
                target_closes_on_leave,
                close_source,
            } => {
                let (actions, requests) = self.apply_transfer_tab_focus(
                    from_surface.as_str(),
                    to_surface.as_str(),
                    target,
                    return_target,
                    target_closes_on_leave,
                    close_source,
                );
                proof {
                    assert(applied_as(*self, *old(self), rv, now_ms, request_views(requests@), action_views(actions@)));
                }
                (requests, actions)
            },
            _ => {
                proof {
                    assert(false);
                }
                (none, Vec::new())
            },
        }
    }

    /// Applies a debug tooling request or a diagnostic.
    #[verifier::spinoff_prover]
    fn apply_debug_request(&mut self, request: CoreRequest, now_ms: u64) -> (r: (Vec<CoreRequest>, Vec<ShellAction>))
        requires
            debug_request(request@),
        ensures
            applied_as(*final(self), *old(self), request@, now_ms, request_views(r.0@), action_views(r.1@)),
    {
        let ghost rv = request@;
        let none: Vec<CoreRequest> = Vec::new();
        proof {
            assert(request_views(none@) =~= Seq::<RequestView>::empty());
        }
        match request {
            CoreRequest::ToggleDebugOverlay => {
                self.debug.enabled = !self.debug.enabled;
                let enabled = self.debug.enabled;
                let actions = self.set_surface_visibility(DEBUG_INSPECTOR_SURFACE_ID, enabled, now_ms);
                proof {
                    assert(applied_as(*self, *old(self), rv, now_ms, request_views(none@), action_views(actions@)));
                }
                (none, actions)
            },
            CoreRequest::ToggleDebugLayoutBounds => {
                self.debug.show_layout_bounds = !self.debug.show_layout_bounds;
                self.invalidate_debug_layout_bounds_targets();
                let actions: Vec<ShellAction> = Vec::new();
                proof {
                    assert(action_views(actions@) =~= Seq::<ActionView>::empty());
                    assert(applied_as(*self, *old(self), rv, now_ms, request_views(none@), action_views(actions@)));
                }
                (none, actions)
            },
            CoreRequest::ToggleDebugElementPicker => {
                self.debug.element_picker_enabled = !self.debug.element_picker_enabled;
                self.invalidate_debug_layout_bounds_targets();
                let ghost mid = *self;
                let actions = if self.debug.element_picker_enabled && !self.debug.enabled {
                    self.debug.enabled = true;
                    self.set_surface_visibility(DEBUG_INSPECTOR_SURFACE_ID, true, now_ms)
                } else {
                    Vec::new()
                };
                proof {
                    assert(picker_followed(*self, mid, now_ms, action_views(actions@)));
                    assert(picker_applied(*self, *old(self), now_ms, action_views(actions@)));
                    assert(applied_as(*self, *old(self), rv, now_ms, request_views(none@), action_views(actions@)));
                }
                (none, actions)
            },
            CoreRequest::ToggleDebugProfiling => {
                if self.debug.profiling_enabled {
                    self.debug.profiling_enabled = false;
                } else {
                    self.debug.profiling_enabled = true;
                    self.debug.profiling_session_id = self.debug.profiling_session_id.wrapping_add(1);
                }
                let actions: Vec<ShellAction> = Vec::new();
                proof {
                    assert(action_views(actions@) =~= Seq::<ActionView>::empty());
                    assert(applied_as(*self, *old(self), rv, now_ms, request_views(none@), action_views(actions@)));
                }
                (none, actions)
            },
            CoreRequest::PublishDiagnostics { message } => {
                let actions: Vec<ShellAction> = Vec::new();
                proof {
                    assert(action_views(actions@) =~= Seq::<ActionView>::empty());
                    assert(applied_as(*self, *old(self), rv, now_ms, request_views(none@), action_views(actions@)));
                }
                (none, actions)
            },
            CoreRequest::RunDebugBenchmark { scenario_id } => {
                let mut requests: Vec<CoreRequest> = Vec::new();
                match benchmark_scenario_id(scenario_id.as_str()) {
                    None => {
                        requests.push(CoreRequest::PublishDiagnostics {
                            message: text::concat2("unknown debug benchmark scenario: ", scenario_id.as_str()),
                        });
                        proof {
                            assert(request_views(requests@) =~= seq![
                                RequestView::PublishDiagnostics { message: "unknown debug benchmark scenario: "@ + scenario_id@ },
                            ]);
                        }
                    },
                    Some(scenario) => {
                        self.debug.latest_benchmark_run = Some(scenario);
                        if scenario == BenchmarkScenarioId::SurfaceOpenClose {
                            requests.push(CoreRequest::ToggleSurface {
                                surface_id: String::from_str(BENCHMARK_POPOVER_SURFACE_ID),
                            });
                            proof {
                                assert(request_views(requests@) =~= seq![
                                    RequestView::ToggleSurface { surface_id: BENCHMARK_POPOVER_SURFACE_ID@ },
                                ]);
                            }
                        } else {
                            proof {
                                assert(request_views(requests@) =~= Seq::<RequestView>::empty());
                            }
                        }
                    },
                }
                let actions: Vec<ShellAction> = Vec::new();
                proof {
                    assert(action_views(actions@) =~= Seq::<ActionView>::empty());
                    assert(benchmark_started(*self, *old(self), scenario_id@, request_views(requests@)));
                    assert(applied_as(*self, *old(self), rv, now_ms, request_views(requests@), action_views(actions@)));
                }
                (requests, actions)
            },
            _ => {
                proof {
                    assert(false);
                }
                (none, Vec::new())
            },
        }
    }

    fn activate_popover(&mut self, surface_id: String, trigger_surface: String, trigger_key: String, focus: bool)
        -> (r: (Vec<CoreRequest>, Vec<ShellAction>))
        ensures
            activation_applied(
                *final(self),
                *old(self),
                surface_id@,
                trigger_surface@,
                trigger_key@,
                focus,
                request_views(r.0@),
                action_views(r.1@),
            ),
    {
        self.cancel_pending_popover_hide(surface_id.as_str());
        let ghost s1 = *self;
        let ghost ti = surface_component(s1.components@, trigger_surface@);
        let ghost registered = if trigger_key@.len() > 0 && ti is Some {
            seq![ActionView::RegisterPopoverTrigger { component: ti.unwrap() as usize, trigger_key: trigger_key@, surface_id: surface_id@ }]
        } else {
            seq![]
        };
        let mut actions: Vec<ShellAction> = Vec::new();
        let key_given = trigger_key.unicode_len() > 0;
        let trigger_given = trigger_surface.unicode_len() > 0;
        if key_given {
            if let Some((ti, _)) = self.component_target_for_surface(trigger_surface.as_str()) {
                actions.push(ShellAction::RegisterPopoverTrigger {
                    component: ti,
                    trigger_key: trigger_key.clone(),
                    surface_id: surface_id.clone(),
                });
            }
        }
        proof {
            assert(action_views(actions@) =~= registered);
        }
        let target = self.component_target_for_surface(surface_id.as_str());
        let distinct = !text::str_eq(trigger_surface.as_str(), surface_id.as_str());
        let ghost promote = s1.popup_supported && trigger_surface@.len() > 0 && trigger_surface@ != surface_id@
            && surface_component(s1.components@, surface_id@) is Some;
        if self.popup_supported && trigger_given && distinct {
            if let Some((i, _)) = target {
                self.components[i].popup_parent_surface = Some(trigger_surface.clone());
                self.components[i].popup_promoted = true;
                actions.push(ShellAction::PromotePopup {
                    surface_id: surface_id.clone(),
                    trigger_surface: trigger_surface.clone(),
                    trigger_key: trigger_key.clone(),
                });
                proof {
                    assert(action_views(actions@) =~= registered.push(
                        ActionView::PromotePopup { surface_id: surface_id@, trigger_surface: trigger_surface@, trigger_key: trigger_key@ },
                    ));
                    assert(promoted_to_popup(*self, s1, i as int, trigger_surface@));
                }
            }
        }
        proof {
            assert(promote ==> promoted_to_popup(*self, s1, surface_component(s1.components@, surface_id@).unwrap(), trigger_surface@));
            assert(!promote ==> *self == s1);
        }
        let mut requests = self.sibling_popover_hides(surface_id.as_str(), trigger_surface.as_str());
        let ghost hides = request_views(requests@);
        requests.push(CoreRequest::ShowSurface { surface_id: surface_id.clone() });
        if focus && trigger_given && key_given {
            requests.push(CoreRequest::TransferTabFocus {
                from_surface: trigger_surface.clone(),
                to_surface: surface_id.clone(),
                target: TabFocusTarget::First,
                return_target: Some((trigger_surface.clone(), trigger_key.clone())),
                target_closes_on_leave: true,
                close_source: None,
            });
        }
        proof {
            assert(request_views(requests@) =~= activation_requests(*self, surface_id@, trigger_surface@, trigger_key@, focus));
            assert(popover_hide_cancelled(s1, *old(self), surface_id@));
            assert(activation_step(*self, s1, surface_id@, trigger_surface@, trigger_key@, focus, request_views(requests@), action_views(actions@)));
        }
        (requests, actions)
    }
}

} // verus!
