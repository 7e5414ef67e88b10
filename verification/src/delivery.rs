//! Which components a service event reaches, and how: components that
//! summarize what they observe receive exactly the services and interface
//! events they declared; the others are asked whether they observe the
//! event. Quarantined components receive nothing, and no component receives
//! one state update twice.
use vstd::prelude::*;
use crate::text;
use crate::services::{contract_warning_message, error_views, find_slot_pub, first_slot};
use crate::shell::{BackendSlot, Shell};

verus! {

/// What a component declared it observes.
#[derive(Debug)]
pub struct ServiceObservationSummary {
    /// Services whose state updates it handles.
    pub update_services: Vec<String>,
    /// Services whose state it only keeps cached.
    pub cached_update_services: Vec<String>,
    /// Interface events it handles, as service and event name.
    pub interface_events: Vec<(String, String)>,
}

pub open spec fn texts_of(v: Seq<String>) -> Seq<Seq<char>> {
    Seq::new(v.len(), |i: int| v[i]@)
}

pub open spec fn lists_text(v: Seq<String>, t: Seq<char>) -> bool {
    exists|i: int| 0 <= i < v.len() && (#[trigger] v[i])@ == t
}

pub open spec fn lists_event(v: Seq<(String, String)>, service: Seq<char>, event: Seq<char>) -> bool {
    exists|i: int| 0 <= i < v.len() && (#[trigger] v[i]).0@ == service && v[i].1@ == event
}

/// How a component is given a state update.
#[derive(Debug, Clone, Copy, PartialEq, Eq, Structural)]
pub enum DeliveryStep {
    /// It declared nothing: handle the update if it observes it, else cache it.
    Probe(usize),
    /// It handles the update.
    Handle(usize),
    /// It only caches the update.
    Cache(usize),
}

pub open spec fn step_component(s: DeliveryStep) -> usize {
    match s {
        DeliveryStep::Probe(c) => c,
        DeliveryStep::Handle(c) => c,
        DeliveryStep::Cache(c) => c,
    }
}

pub open spec fn live(quarantined: Seq<bool>, c: int) -> bool {
    c < quarantined.len() && !quarantined[c]
}

/// The components among the first `n` without a summary, as probes.
pub open spec fn probes(sums: Seq<Option<ServiceObservationSummary>>, q: Seq<bool>, n: int) -> Seq<DeliveryStep>
    decreases n,
{
    if n <= 0 {
        seq![]
    } else {
        let rest = probes(sums, q, n - 1);
        if sums[n - 1] is None && live(q, n - 1) {
            rest.push(DeliveryStep::Probe((n - 1) as usize))
        } else {
            rest
        }
    }
}

/// The components among the first `n` that handle updates of `service`.
pub open spec fn handlers(sums: Seq<Option<ServiceObservationSummary>>, q: Seq<bool>, service: Seq<char>, n: int) -> Seq<
    DeliveryStep,
>
    decreases n,
{
    if n <= 0 {
        seq![]
    } else {
        let rest = handlers(sums, q, service, n - 1);
        if sums[n - 1] matches Some(s) && lists_text(s.update_services@, service) && live(q, n - 1) {
            rest.push(DeliveryStep::Handle((n - 1) as usize))
        } else {
            rest
        }
    }
}

/// The components among the first `n` that cache updates of `service` and
/// do not handle them.
pub open spec fn cachers(sums: Seq<Option<ServiceObservationSummary>>, q: Seq<bool>, service: Seq<char>, n: int) -> Seq<
    DeliveryStep,
>
    decreases n,
{
    if n <= 0 {
        seq![]
    } else {
        let rest = cachers(sums, q, service, n - 1);
        if sums[n - 1] matches Some(s) && lists_text(s.cached_update_services@, service) && !lists_text(
            s.update_services@,
            service,
        ) && live(q, n - 1) {
            rest.push(DeliveryStep::Cache((n - 1) as usize))
        } else {
            rest
        }
    }
}

/// How a state update of `service` is delivered: the components without a
/// summary are probed, then those that handle the service get it, then
/// those that only cache it; each in component order.
pub open spec fn update_plan(sums: Seq<Option<ServiceObservationSummary>>, q: Seq<bool>, service: Seq<char>) -> Seq<
    DeliveryStep,
> {
    probes(sums, q, sums.len() as int) + handlers(sums, q, service, sums.len() as int) + cachers(
        sums,
        q,
        service,
        sums.len() as int,
    )
}

/// The components that receive interface event `event` of `service`: the
/// components without a summary are probed, then those that declared the
/// event handle it.
pub open spec fn event_handlers(
    sums: Seq<Option<ServiceObservationSummary>>,
    q: Seq<bool>,
    service: Seq<char>,
    event: Seq<char>,
    n: int,
) -> Seq<DeliveryStep>
    decreases n,
{
    if n <= 0 {
        seq![]
    } else {
        let rest = event_handlers(sums, q, service, event, n - 1);
        if sums[n - 1] matches Some(s) && lists_event(s.interface_events@, service, event) && live(q, n - 1) {
            rest.push(DeliveryStep::Handle((n - 1) as usize))
        } else {
            rest
        }
    }
}

pub open spec fn event_plan(
    sums: Seq<Option<ServiceObservationSummary>>,
    q: Seq<bool>,
    service: Seq<char>,
    event: Seq<char>,
) -> Seq<DeliveryStep> {
    probes(sums, q, sums.len() as int) + event_handlers(sums, q, service, event, sums.len() as int)
}

fn lists(v: &Vec<String>, t: &str) -> (r: bool)
    ensures
        r == lists_text(v@, t@),
{
    let mut i: usize = 0;
    while i < v.len()
        invariant
            i <= v@.len(),
            forall|j: int| 0 <= j < i ==> (#[trigger] v@[j])@ != t@,
        decreases v.len() - i,
    {
        if text::str_eq(v[i].as_str(), t) {
            return true;
        }
        i = i + 1;
    }
    false
}

fn lists_pair(v: &Vec<(String, String)>, service: &str, event: &str) -> (r: bool)
    ensures
        r == lists_event(v@, service@, event@),
{
    let mut i: usize = 0;
    while i < v.len()
        invariant
            i <= v@.len(),
            forall|j: int| 0 <= j < i ==> !((#[trigger] v@[j]).0@ == service@ && v@[j].1@ == event@),
        decreases v.len() - i,
    {
        if text::str_eq(v[i].0.as_str(), service) && text::str_eq(v[i].1.as_str(), event) {
            return true;
        }
        i = i + 1;
    }
    false
}

fn is_live(quarantined: &Vec<bool>, c: usize) -> (r: bool)
    ensures
        r == live(quarantined@, c as int),
{
    c < quarantined.len() && !quarantined[c]
}

/// The delivery of a state update of `service` (a service name) to the
/// components whose summaries are `summaries`, `quarantined` marking the
/// quarantined ones.
pub fn service_update_delivery(
    summaries: &Vec<Option<ServiceObservationSummary>>,
    quarantined: &Vec<bool>,
    service: &str,
) -> (r: Vec<DeliveryStep>)
    ensures
        r@ == update_plan(summaries@, quarantined@, service@),
{
    let n = summaries.len();
    let mut out: Vec<DeliveryStep> = Vec::new();
    let mut i: usize = 0;
    while i < n
        invariant
            n == summaries@.len(),
            i <= n,
            out@ == probes(summaries@, quarantined@, i as int),
        decreases n - i,
    {
        if summaries[i].is_none() && is_live(quarantined, i) {
            out.push(DeliveryStep::Probe(i));
        }
        i = i + 1;
    }
    let ghost first = out@;
    let mut handled: Vec<DeliveryStep> = Vec::new();
    let mut cached: Vec<DeliveryStep> = Vec::new();
    let mut j: usize = 0;
    while j < n
        invariant
            n == summaries@.len(),
            j <= n,
            handled@ == handlers(summaries@, quarantined@, service@, j as int),
            cached@ == cachers(summaries@, quarantined@, service@, j as int),
        decreases n - j,
    {
        if let Some(s) = &summaries[j] {
            if is_live(quarantined, j) {
                let handles = lists(&s.update_services, service);
                if handles {
                    handled.push(DeliveryStep::Handle(j));
                } else if lists(&s.cached_update_services, service) {
                    cached.push(DeliveryStep::Cache(j));
                }
            }
        }
        j = j + 1;
    }
    out.append(&mut handled);
    out.append(&mut cached);
    out
}

/// The delivery of interface event `event` of `service` (a service name).
pub fn interface_event_delivery(
    summaries: &Vec<Option<ServiceObservationSummary>>,
    quarantined: &Vec<bool>,
    service: &str,
    event: &str,
) -> (r: Vec<DeliveryStep>)
    ensures
        r@ == event_plan(summaries@, quarantined@, service@, event@),
{
    let n = summaries.len();
    let mut out: Vec<DeliveryStep> = Vec::new();
    let mut i: usize = 0;
    while i < n
        invariant
            n == summaries@.len(),
            i <= n,
            out@ == probes(summaries@, quarantined@, i as int),
        decreases n - i,
    {
        if summaries[i].is_none() && is_live(quarantined, i) {
            out.push(DeliveryStep::Probe(i));
        }
        i = i + 1;
    }
    let mut handled: Vec<DeliveryStep> = Vec::new();
    let mut j: usize = 0;
    while j < n
        invariant
            n == summaries@.len(),
            j <= n,
            handled@ == event_handlers(summaries@, quarantined@, service@, event@, j as int),
        decreases n - j,
    {
        if let Some(s) = &summaries[j] {
            if is_live(quarantined, j) && lists_pair(&s.interface_events, service, event) {
                handled.push(DeliveryStep::Handle(j));
            }
        }
        j = j + 1;
    }
    out.append(&mut handled);
    out
}

pub open spec fn may_observe_event(
    sums: Seq<Option<ServiceObservationSummary>>,
    service: Seq<char>,
    event: Seq<char>,
) -> bool {
    exists|c: int|
        0 <= c < sums.len() && (#[trigger] sums[c] is None || lists_event(
            sums[c].unwrap().interface_events@,
            service,
            event,
        ))
}

/// Whether interface event `event` of `service` may have an observer: a
/// component without a summary might observe anything, so its presence
/// alone answers yes.
pub fn has_interface_event_observers(
    summaries: &Vec<Option<ServiceObservationSummary>>,
    service: &str,
    event: &str,
) -> (r: bool)
    ensures
        r == may_observe_event(summaries@, service@, event@),
{
    let mut i: usize = 0;
    while i < summaries.len()
        invariant
            i <= summaries@.len(),
            forall|c: int|
                0 <= c < i ==> !(#[trigger] summaries@[c] is None || lists_event(
                    summaries@[c].unwrap().interface_events@,
                    service@,
                    event@,
                )),
        decreases summaries.len() - i,
    {
        match &summaries[i] {
            None => {
                return true;
            },
            Some(s) => {
                if lists_pair(&s.interface_events, service, event) {
                    return true;
                }
            },
        }
        i = i + 1;
    }
    false
}

// ---------------------------------------------------------------------------
// Interface events.

/// The generation of the provider running for `interface`, if one runs.
pub open spec fn running_generation(slots: Seq<BackendSlot>, interface: Seq<char>) -> Option<u64> {
    if exists|i: int| first_slot(slots, interface, i) {
        Some(slots[choose|i: int| first_slot(slots, interface, i)].generation)
    } else {
        None
    }
}

/// What becomes of an interface event a provider emitted.
#[derive(Debug, Clone, Copy, PartialEq, Eq, Structural)]
pub enum InterfaceEventVerdict {
    /// It comes from a provider generation that no longer runs.
    StaleGeneration,
    /// Its provider is not the active one, or has ended.
    InactiveProvider,
    /// Its payload breaks the interface's contract; the warnings are recorded.
    InvalidPayload,
    /// It is delivered to components.
    Deliver,
}

/// The verdict on an event emitted by a provider at `generation` (0 when
/// unknown), given whether the provider is active and the contract warnings
/// about its payload.
pub open spec fn interface_event_verdict(
    slots: Seq<BackendSlot>,
    interface: Seq<char>,
    generation: u64,
    provider_active: bool,
    warnings: Seq<Seq<char>>,
) -> InterfaceEventVerdict {
    if generation != 0 && running_generation(slots, interface) != Some(generation) {
        InterfaceEventVerdict::StaleGeneration
    } else if !provider_active {
        InterfaceEventVerdict::InactiveProvider
    } else if warnings.len() > 0 {
        InterfaceEventVerdict::InvalidPayload
    } else {
        InterfaceEventVerdict::Deliver
    }
}

pub open spec fn warning_texts(v: Seq<String>) -> Seq<Seq<char>> {
    Seq::new(v.len(), |i: int| v[i]@)
}

/// The diagnostics after recording `warnings` about `interface` as contract
/// warnings of `module_id`.
pub open spec fn warnings_recorded(
    before: Seq<(Seq<char>, Seq<char>, Seq<char>)>,
    module_id: Seq<char>,
    interface: Seq<char>,
    warnings: Seq<Seq<char>>,
) -> Seq<(Seq<char>, Seq<char>, Seq<char>)> {
    before + Seq::new(
        warnings.len(),
        |k: int| (module_id, "service_contract_warning"@, contract_warning_message(interface, warnings[k])),
    )
}

impl Shell {
    fn record_contract_warnings(&mut self, interface: &str, module_id: &str, warnings: &Vec<String>)
        ensures
            error_views(final(self).diagnostics@) == warnings_recorded(
                error_views(old(self).diagnostics@),
                module_id@,
                interface@,
                warning_texts(warnings@),
            ),
            *final(self) == (Shell { diagnostics: final(self).diagnostics, ..*old(self) }),
    {
        let ghost ws = warning_texts(warnings@);
        let ghost base = error_views(self.diagnostics@);
        let mut i: usize = 0;
        while i < warnings.len()
            invariant
                i <= warnings@.len(),
                ws == warning_texts(warnings@),
                error_views(self.diagnostics@) == warnings_recorded(base, module_id@, interface@, ws.subrange(0, i as int)),
                *self == (Shell { diagnostics: self.diagnostics, ..*old(self) }),
            decreases warnings.len() - i,
        {
            self.record_service_contract_warning(interface, module_id, warnings[i].as_str());
            proof {
                assert(warnings_recorded(base, module_id@, interface@, ws.subrange(0, i + 1)) =~= warnings_recorded(
                    base,
                    module_id@,
                    interface@,
                    ws.subrange(0, i as int),
                ).push((module_id@, "service_contract_warning"@, contract_warning_message(interface@, ws[i as int]))));
            }
            i = i + 1;
        }
        proof {
            assert(ws.subrange(0, ws.len() as int) =~= ws);
        }
    }

    /// Decides whether an interface event that provider `provider_id`
    /// emitted at `generation` (0 when unknown) is delivered, given whether
    /// the provider is active and the contract warnings about its payload;
    /// an invalid payload's warnings are recorded as the provider's.
    pub fn admit_backend_interface_event(
        &mut self,
        interface: &str,
        provider_id: &str,
        generation: u64,
        provider_active: bool,
        warnings: Vec<String>,
    ) -> (r: InterfaceEventVerdict)
        ensures
            r == interface_event_verdict(
                old(self).backend_runtimes@,
                interface@,
                generation,
                provider_active,
                warning_texts(warnings@),
            ),
            error_views(final(self).diagnostics@) == if r == InterfaceEventVerdict::InvalidPayload {
                warnings_recorded(error_views(old(self).diagnostics@), provider_id@, interface@, warning_texts(warnings@))
            } else {
                error_views(old(self).diagnostics@)
            },
            *final(self) == (Shell { diagnostics: final(self).diagnostics, ..*old(self) }),
    {
        if generation != 0 {
            let current = match find_slot_pub(&self.backend_runtimes, interface) {
                Some(i) => {
                    proof {
                        let j = choose|j: int| first_slot(self.backend_runtimes@, interface@, j);
                        assert(j == i as int) by {
                            if j < i as int {
                            } else if j > i as int {
                            }
                        }
                    }
                    Some(self.backend_runtimes[i].generation)
                },
                None => None,
            };
            if current != Some(generation) {
                return InterfaceEventVerdict::StaleGeneration;
            }
        }
        if !provider_active {
            return InterfaceEventVerdict::InactiveProvider;
        }
        if warnings.len() > 0 {
            self.record_contract_warnings(interface, provider_id, &warnings);
            return InterfaceEventVerdict::InvalidPayload;
        }
        InterfaceEventVerdict::Deliver
    }

    /// Decides whether an interface event the shell itself emits is
    /// delivered: only when its payload raised no contract warning; the
    /// warnings are recorded as the shell's.
    pub fn admit_shell_interface_event(&mut self, interface: &str, warnings: Vec<String>) -> (r: bool)
        ensures
            r == (warnings@.len() == 0),
            error_views(final(self).diagnostics@) == warnings_recorded(
                error_views(old(self).diagnostics@),
                "@mesh/shell"@,
                interface@,
                warning_texts(warnings@),
            ),
            *final(self) == (Shell { diagnostics: final(self).diagnostics, ..*old(self) }),
    {
        self.record_contract_warnings(interface, "@mesh/shell", &warnings);
        warnings.len() == 0
    }
}

// ---------------------------------------------------------------------------
// Laws.

proof fn lemma_probes(sums: Seq<Option<ServiceObservationSummary>>, q: Seq<bool>, n: int)
    requires
        n <= sums.len() <= usize::MAX,
    ensures
        forall|k: int| 0 <= k < probes(sums, q, n).len() ==> {
            let c = step_component(#[trigger] probes(sums, q, n)[k]) as int;
            &&& probes(sums, q, n)[k] is Probe
            &&& 0 <= c < n && sums[c] is None && live(q, c)
        },
        forall|a: int, b: int|
            0 <= a < b < probes(sums, q, n).len() ==> step_component(#[trigger] probes(sums, q, n)[a]) < step_component(
                #[trigger] probes(sums, q, n)[b],
            ),
    decreases n,
{
    if n > 0 {
        lemma_probes(sums, q, n - 1);
        let r = probes(sums, q, n - 1);
        let p = probes(sums, q, n);
        if sums[n - 1] is None && live(q, n - 1) {
            assert(p == r.push(DeliveryStep::Probe((n - 1) as usize)));
            assert forall|k: int| 0 <= k < r.len() implies p[k] == r[k] by {}
        } else {
            assert(p == r);
        }
        assert forall|a: int, b: int| 0 <= a < b < p.len() implies step_component(#[trigger] p[a]) < step_component(
            #[trigger] p[b],
        ) by {
            assert(p[a] == r[a]);
            if b < r.len() {
                assert(p[b] == r[b]);
            }
        }
    }
}

proof fn lemma_handlers(sums: Seq<Option<ServiceObservationSummary>>, q: Seq<bool>, service: Seq<char>, n: int)
    requires
        n <= sums.len() <= usize::MAX,
    ensures
        forall|k: int| 0 <= k < handlers(sums, q, service, n).len() ==> {
            let c = step_component(#[trigger] handlers(sums, q, service, n)[k]) as int;
            &&& handlers(sums, q, service, n)[k] is Handle
            &&& 0 <= c < n && sums[c] is Some && lists_text(sums[c].unwrap().update_services@, service) && live(q, c)
        },
        forall|a: int, b: int|
            0 <= a < b < handlers(sums, q, service, n).len() ==> step_component(
                #[trigger] handlers(sums, q, service, n)[a],
            ) < step_component(#[trigger] handlers(sums, q, service, n)[b]),
    decreases n,
{
    if n > 0 {
        lemma_handlers(sums, q, service, n - 1);
        let r = handlers(sums, q, service, n - 1);
        let p = handlers(sums, q, service, n);
        if sums[n - 1] is Some && lists_text(sums[n - 1].unwrap().update_services@, service) && live(q, n - 1) {
            assert(p == r.push(DeliveryStep::Handle((n - 1) as usize)));
            assert forall|k: int| 0 <= k < r.len() implies p[k] == r[k] by {}
        } else {
            assert(p == r);
        }
        assert forall|a: int, b: int| 0 <= a < b < p.len() implies step_component(#[trigger] p[a]) < step_component(
            #[trigger] p[b],
        ) by {
            assert(p[a] == r[a]);
            if b < r.len() {
                assert(p[b] == r[b]);
            }
        }
    }
}

proof fn lemma_cachers(sums: Seq<Option<ServiceObservationSummary>>, q: Seq<bool>, service: Seq<char>, n: int)
    requires
        n <= sums.len() <= usize::MAX,
    ensures
        forall|k: int| 0 <= k < cachers(sums, q, service, n).len() ==> {
            let c = step_component(#[trigger] cachers(sums, q, service, n)[k]) as int;
            &&& cachers(sums, q, service, n)[k] is Cache
            &&& 0 <= c < n && sums[c] is Some && !lists_text(sums[c].unwrap().update_services@, service) && live(q, c)
        },
        forall|a: int, b: int|
            0 <= a < b < cachers(sums, q, service, n).len() ==> step_component(
                #[trigger] cachers(sums, q, service, n)[a],
            ) < step_component(#[trigger] cachers(sums, q, service, n)[b]),
    decreases n,
{
    if n > 0 {
        lemma_cachers(sums, q, service, n - 1);
        let r = cachers(sums, q, service, n - 1);
        let p = cachers(sums, q, service, n);
        if sums[n - 1] is Some && lists_text(sums[n - 1].unwrap().cached_update_services@, service) && !lists_text(sums[n - 1].unwrap().update_services@, service) && live(q, n - 1) {
            assert(p == r.push(DeliveryStep::Cache((n - 1) as usize)));
            assert forall|k: int| 0 <= k < r.len() implies p[k] == r[k] by {}
        } else {
            assert(p == r);
        }
        assert forall|a: int, b: int| 0 <= a < b < p.len() implies step_component(#[trigger] p[a]) < step_component(
            #[trigger] p[b],
        ) by {
            assert(p[a] == r[a]);
            if b < r.len() {
                assert(p[b] == r[b]);
            }
        }
    }
}

/// A state update reaches no quarantined component, and no component twice.
pub proof fn law_update_reaches_each_live_component_at_most_once(
    sums: Seq<Option<ServiceObservationSummary>>,
    q: Seq<bool>,
    service: Seq<char>,
)
    requires
        sums.len() <= usize::MAX,
    ensures
        forall|k: int|
            0 <= k < update_plan(sums, q, service).len() ==> live(
                q,
                step_component(#[trigger] update_plan(sums, q, service)[k]) as int,
            ),
        forall|a: int, b: int|
            0 <= a < b < update_plan(sums, q, service).len() ==> step_component(
                #[trigger] update_plan(sums, q, service)[a],
            ) != step_component(#[trigger] update_plan(sums, q, service)[b]),
{
    let n = sums.len() as int;
    let p = probes(sums, q, n);
    let h = handlers(sums, q, service, n);
    let c = cachers(sums, q, service, n);
    lemma_probes(sums, q, n);
    lemma_handlers(sums, q, service, n);
    lemma_cachers(sums, q, service, n);
    let plan = update_plan(sums, q, service);
    assert(plan == p + h + c);
    assert forall|k: int| 0 <= k < plan.len() implies live(q, step_component(#[trigger] plan[k]) as int) by {
        if k < p.len() {
            assert(plan[k] == p[k]);
        } else if k < p.len() + h.len() {
            assert(plan[k] == h[k - p.len()]);
        } else {
            assert(plan[k] == c[k - p.len() - h.len()]);
        }
    }
    assert forall|a: int, b: int| 0 <= a < b < plan.len() implies step_component(#[trigger] plan[a]) != step_component(
        #[trigger] plan[b],
    ) by {
        let ca = step_component(plan[a]) as int;
        let cb = step_component(plan[b]) as int;
        if b < p.len() {
            assert(plan[a] == p[a] && plan[b] == p[b]);
        } else if b < p.len() + h.len() {
            assert(plan[b] == h[b - p.len()]);
            if a < p.len() {
                assert(plan[a] == p[a]);
            } else {
                assert(plan[a] == h[a - p.len()]);
            }
        } else {
            assert(plan[b] == c[b - p.len() - h.len()]);
            if a < p.len() {
                assert(plan[a] == p[a]);
            } else if a < p.len() + h.len() {
                assert(plan[a] == h[a - p.len()]);
            } else {
                assert(plan[a] == c[a - p.len() - h.len()]);
            }
        }
    }
}

/// Every live component that declared it handles a service gets its
/// state updates.
pub proof fn law_declared_handlers_get_updates(
    sums: Seq<Option<ServiceObservationSummary>>,
    q: Seq<bool>,
    service: Seq<char>,
    c: int,
)
    requires
        0 <= c < sums.len() <= usize::MAX,
        sums[c] is Some,
        lists_text(sums[c].unwrap().update_services@, service),
        live(q, c),
    ensures
        update_plan(sums, q, service).contains(DeliveryStep::Handle(c as usize)),
{
    lemma_handler_listed(sums, q, service, c, sums.len() as int);
    let p = probes(sums, q, sums.len() as int);
    let h = handlers(sums, q, service, sums.len() as int);
    let plan = update_plan(sums, q, service);
    let k = choose|k: int| 0 <= k < h.len() && h[k] == DeliveryStep::Handle(c as usize);
    assert(plan[p.len() + k] == h[k]);
}

proof fn lemma_handler_listed(sums: Seq<Option<ServiceObservationSummary>>, q: Seq<bool>, service: Seq<char>, c: int, n: int)
    requires
        0 <= c < n <= sums.len() <= usize::MAX,
        sums[c] is Some,
        lists_text(sums[c].unwrap().update_services@, service),
        live(q, c),
    ensures
        handlers(sums, q, service, n).contains(DeliveryStep::Handle(c as usize)),
    decreases n,
{
    if c < n - 1 {
        lemma_handler_listed(sums, q, service, c, n - 1);
        let r = handlers(sums, q, service, n - 1);
        let k = choose|k: int| 0 <= k < r.len() && r[k] == DeliveryStep::Handle(c as usize);
        assert(handlers(sums, q, service, n)[k] == r[k]);
    } else {
        assert(handlers(sums, q, service, n).last() == DeliveryStep::Handle(c as usize));
    }
}

proof fn lemma_event_handlers(
    sums: Seq<Option<ServiceObservationSummary>>,
    q: Seq<bool>,
    service: Seq<char>,
    event: Seq<char>,
    n: int,
)
    requires
        n <= sums.len() <= usize::MAX,
    ensures
        forall|k: int| 0 <= k < event_handlers(sums, q, service, event, n).len() ==> {
            let c = step_component(#[trigger] event_handlers(sums, q, service, event, n)[k]) as int;
            &&& 0 <= c < n && sums[c] is Some && live(q, c)
        },
        forall|a: int, b: int|
            0 <= a < b < event_handlers(sums, q, service, event, n).len() ==> step_component(
                #[trigger] event_handlers(sums, q, service, event, n)[a],
            ) < step_component(#[trigger] event_handlers(sums, q, service, event, n)[b]),
    decreases n,
{
    if n > 0 {
        lemma_event_handlers(sums, q, service, event, n - 1);
        let r = event_handlers(sums, q, service, event, n - 1);
        let p = event_handlers(sums, q, service, event, n);
        if sums[n - 1] is Some && lists_event(sums[n - 1].unwrap().interface_events@, service, event) && live(q, n - 1) {
            assert(p == r.push(DeliveryStep::Handle((n - 1) as usize)));
            assert forall|k: int| 0 <= k < r.len() implies p[k] == r[k] by {}
        } else {
            assert(p == r);
        }
        assert forall|a: int, b: int| 0 <= a < b < p.len() implies step_component(#[trigger] p[a]) < step_component(
            #[trigger] p[b],
        ) by {
            assert(p[a] == r[a]);
            if b < r.len() {
                assert(p[b] == r[b]);
            }
        }
    }
}

/// An interface event reaches no quarantined component, and no component
/// twice.
pub proof fn law_event_reaches_each_live_component_at_most_once(
    sums: Seq<Option<ServiceObservationSummary>>,
    q: Seq<bool>,
    service: Seq<char>,
    event: Seq<char>,
)
    requires
        sums.len() <= usize::MAX,
    ensures
        forall|k: int|
            0 <= k < event_plan(sums, q, service, event).len() ==> live(
                q,
                step_component(#[trigger] event_plan(sums, q, service, event)[k]) as int,
            ),
        forall|a: int, b: int|
            0 <= a < b < event_plan(sums, q, service, event).len() ==> step_component(
                #[trigger] event_plan(sums, q, service, event)[a],
            ) != step_component(#[trigger] event_plan(sums, q, service, event)[b]),
{
    let n = sums.len() as int;
    let p = probes(sums, q, n);
    let h = event_handlers(sums, q, service, event, n);
    lemma_probes(sums, q, n);
    lemma_event_handlers(sums, q, service, event, n);
    let plan = event_plan(sums, q, service, event);
    assert(plan == p + h);
    assert forall|k: int| 0 <= k < plan.len() implies live(q, step_component(#[trigger] plan[k]) as int) by {
        if k < p.len() {
            assert(plan[k] == p[k]);
        } else {
            assert(plan[k] == h[k - p.len()]);
        }
    }
    assert forall|a: int, b: int| 0 <= a < b < plan.len() implies step_component(#[trigger] plan[a]) != step_component(
        #[trigger] plan[b],
    ) by {
        if b < p.len() {
            assert(plan[a] == p[a] && plan[b] == p[b]);
        } else {
            assert(plan[b] == h[b - p.len()]);
            if a < p.len() {
                assert(plan[a] == p[a]);
            } else {
                assert(plan[a] == h[a - p.len()]);
            }
        }
    }
}

} // verus!
