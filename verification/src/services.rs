//! The shell's view of interface contracts and backend providers, and the
//! diagnostics it records about scheduling and service contracts.
use vstd::prelude::*;
use crate::effects::{EffectSchedulerReport, EffectSource};
use crate::routing::service_name;
use crate::shell::{
    ComponentRuntime, InterfaceContract, LifecycleError, MethodContract, Shell, BackendSlot,
    same_identity,
};
use crate::text;
use crate::json::{JsonValue, JsonView};
use std::collections::hash_map::DefaultHasher;
use std::hash::Hasher;
use vstd::std_specs::hash::DefaultHasherAdditionalSpecFns;
use vstd::utf8::encode_utf8;
use crate::types::opt_text;

verus! {

/// The character of a decimal digit.
pub open spec fn digit_char(d: nat) -> char {
    seq!['0', '1', '2', '3', '4', '5', '6', '7', '8', '9'][d as int]
}

/// The decimal digits of `n`, most significant first, without leading zeros.
pub open spec fn decimal_digits(n: nat) -> Seq<char>
    decreases n,
{
    if n < 10 {
        seq![digit_char(n)]
    } else {
        decimal_digits(n / 10).push(digit_char(n % 10))
    }
}

/// The decimal text of a number.
pub open spec fn decimal_text(n: usize) -> Seq<char> {
    decimal_digits(n as nat)
}

/// The decimal text of a 64-bit number.
pub open spec fn decimal_text_u64(n: u64) -> Seq<char> {
    decimal_digits(n as nat)
}

fn digit_text(d: u64) -> (r: &'static str)
    requires
        d < 10,
    ensures
        r@ == seq![digit_char(d as nat)],
{
    match d {
        0 => {
            proof {
                reveal_strlit("0");
            }
            "0"
        },
        1 => {
            proof {
                reveal_strlit("1");
            }
            "1"
        },
        2 => {
            proof {
                reveal_strlit("2");
            }
            "2"
        },
        3 => {
            proof {
                reveal_strlit("3");
            }
            "3"
        },
        4 => {
            proof {
                reveal_strlit("4");
            }
            "4"
        },
        5 => {
            proof {
                reveal_strlit("5");
            }
            "5"
        },
        6 => {
            proof {
                reveal_strlit("6");
            }
            "6"
        },
        7 => {
            proof {
                reveal_strlit("7");
            }
            "7"
        },
        8 => {
            proof {
                reveal_strlit("8");
            }
            "8"
        },
        _ => {
            proof {
                reveal_strlit("9");
            }
            "9"
        },
    }
}

/// The decimal rendering of `n`, as `n.to_string()` gives it.
pub(crate) fn decimal_u64(n: u64) -> (r: String)
    ensures
        r@ == decimal_text_u64(n),
    decreases n,
{
    if n < 10 {
        String::from_str(digit_text(n))
    } else {
        decimal_u64(n / 10).concat(digit_text(n % 10))
    }
}

/// The decimal rendering of `n`, as `n.to_string()` gives it.
fn decimal(n: usize) -> (r: String)
    ensures
        r@ == decimal_text(n),
{
    decimal_u64(n as u64)
}

/// A lifecycle error as plain texts.
pub open spec fn error_view(e: LifecycleError) -> (Seq<char>, Seq<char>, Seq<char>) {
    (e.module_id@, e.code@, e.message@)
}

pub open spec fn error_views(es: Seq<LifecycleError>) -> Seq<(Seq<char>, Seq<char>, Seq<char>)> {
    Seq::new(es.len(), |i: int| error_view(es[i]))
}

// ---------------------------------------------------------------------------
// Contracts.

/// Index of the first contract of `interface`.
pub open spec fn first_contract(cs: Seq<InterfaceContract>, interface: Seq<char>, i: int) -> bool {
    &&& 0 <= i < cs.len()
    &&& cs[i].interface@ == interface
    &&& forall|j: int| 0 <= j < i ==> cs[j].interface@ != interface
}

/// The contract an interface resolves to.
pub open spec fn contract_of(cs: Seq<InterfaceContract>, interface: Seq<char>) -> Option<InterfaceContract> {
    if exists|i: int| first_contract(cs, interface, i) {
        Some(cs[choose|i: int| first_contract(cs, interface, i)])
    } else {
        None
    }
}

pub open spec fn declares_method(c: InterfaceContract, command: Seq<char>) -> bool {
    exists|k: int| 0 <= k < c.methods@.len() && (#[trigger] c.methods@[k]).name@ == command
}

/// The first method of `c` named `command` is coalescable.
pub open spec fn first_method_coalesces(c: InterfaceContract, command: Seq<char>) -> bool {
    exists|k: int|
        0 <= k < c.methods@.len() && (#[trigger] c.methods@[k]).name@ == command && c.methods@[k].coalesce
            && forall|m: int| 0 <= m < k ==> c.methods@[m].name@ != command
}

/// Whether a contract declares a state field other than runtime metadata.
pub open spec fn declares_contract_state(c: InterfaceContract) -> bool {
    exists|k: int| 0 <= k < c.state_fields@.len() && (#[trigger] c.state_fields@[k])@ != "source_module"@
}

fn find_contract(contracts: &Vec<InterfaceContract>, interface: &str) -> (r: Option<usize>)
    ensures
        match r {
            Some(i) => i < contracts@.len() && contract_of(contracts@, interface@) == Some(contracts@[i as int]),
            None => contract_of(contracts@, interface@) is None,
        },
{
    let mut i: usize = 0;
    while i < contracts.len()
        invariant
            i <= contracts@.len(),
            forall|j: int| 0 <= j < i ==> contracts@[j].interface@ != interface@,
        decreases contracts.len() - i,
    {
        if text::str_eq(contracts[i].interface.as_str(), interface) {
            proof {
                assert(first_contract(contracts@, interface@, i as int));
                let c = choose|c: int| first_contract(contracts@, interface@, c);
                assert(c == i as int) by {
                    if c < i as int {
                    } else if c > i as int {
                    }
                }
            }
            return Some(i);
        }
        i = i + 1;
    }
    None
}

impl Shell {
    /// A command is supported when its interface has no contract, or the
    /// contract declares a method of that name.
    /// Whether the interface has a contract.
    pub fn interface_contract_exists(&self, interface: &str) -> (r: bool)
        ensures
            r == (contract_of(self.interface_contracts@, interface@) is Some),
    {
        find_contract(&self.interface_contracts, interface).is_some()
    }

    pub fn service_command_is_supported(&self, interface: &str, command: &str) -> (r: bool)
        ensures
            r == match contract_of(self.interface_contracts@, interface@) {
                Some(c) => declares_method(c, command@),
                None => true,
            },
    {
        let index = match find_contract(&self.interface_contracts, interface) {
            Some(i) => i,
            None => {
                return true;
            },
        };
        let methods = &self.interface_contracts[index].methods;
        let mut k: usize = 0;
        while k < methods.len()
            invariant
                index < self.interface_contracts@.len(),
                contract_of(self.interface_contracts@, interface@) == Some(self.interface_contracts@[index as int]),
                k <= methods@.len(),
                methods@ == self.interface_contracts@[index as int].methods@,
                forall|m: int| 0 <= m < k ==> methods@[m].name@ != command@,
            decreases methods.len() - k,
        {
            if text::str_eq(methods[k].name.as_str(), command) {
                proof {
                    assert(self.interface_contracts@[index as int].methods@[k as int].name@ == command@);
                }
                return true;
            }
            k = k + 1;
        }
        false
    }

    /// A command may be coalesced when its interface's contract declares it
    /// and marks the method coalescable.
    pub fn service_command_is_coalescable(&self, interface: &str, command: &str) -> (r: bool)
        ensures
            r == match contract_of(self.interface_contracts@, interface@) {
                Some(c) => first_method_coalesces(c, command@),
                None => false,
            },
    {
        let index = match find_contract(&self.interface_contracts, interface) {
            Some(i) => i,
            None => {
                return false;
            },
        };
        let methods = &self.interface_contracts[index].methods;
        let mut k: usize = 0;
        while k < methods.len()
            invariant
                index < self.interface_contracts@.len(),
                contract_of(self.interface_contracts@, interface@) == Some(self.interface_contracts@[index as int]),
                k <= methods@.len(),
                methods@ == self.interface_contracts@[index as int].methods@,
                forall|m: int| 0 <= m < k ==> methods@[m].name@ != command@,
            decreases methods.len() - k,
        {
            if text::str_eq(methods[k].name.as_str(), command) {
                let r = methods[k].coalesce;
                proof {
                    if r {
                        assert(self.interface_contracts@[index as int].methods@[k as int].name@ == command@);
                    }
                    if !r {
                        assert forall|j: int|
                            0 <= j < methods@.len() && (#[trigger] methods@[j]).name@ == command@ && methods@[j].coalesce
                            implies exists|m: int| 0 <= m < j && methods@[m].name@ == command@ by {
                            assert(j != k as int);
                            if j < k as int {
                            } else {
                                assert(methods@[k as int].name@ == command@);
                            }
                        }
                    }
                }
                return r;
            }
            k = k + 1;
        }
        false
    }

    /// An interface needs an initial state snapshot when its contract
    /// declares a state field other than runtime metadata.
    pub fn service_requires_initial_state(&self, interface: &str) -> (r: bool)
        ensures
            r == match contract_of(self.interface_contracts@, interface@) {
                Some(c) => declares_contract_state(c),
                None => false,
            },
    {
        let index = match find_contract(&self.interface_contracts, interface) {
            Some(i) => i,
            None => {
                return false;
            },
        };
        let fields = &self.interface_contracts[index].state_fields;
        let mut k: usize = 0;
        while k < fields.len()
            invariant
                index < self.interface_contracts@.len(),
                contract_of(self.interface_contracts@, interface@) == Some(self.interface_contracts@[index as int]),
                k <= fields@.len(),
                fields@ == self.interface_contracts@[index as int].state_fields@,
                forall|m: int| 0 <= m < k ==> fields@[m]@ == "source_module"@,
            decreases fields.len() - k,
        {
            if !crate::is_runtime_metadata_state_field(fields[k].as_str()) {
                proof {
                    assert(self.interface_contracts@[index as int].state_fields@[k as int]@ != "source_module"@);
                }
                return true;
            }
            k = k + 1;
        }
        false
    }
}

// ---------------------------------------------------------------------------
// Backend providers.

/// The provider running for an interface: the first slot for it.
pub open spec fn first_slot(slots: Seq<BackendSlot>, interface: Seq<char>, i: int) -> bool {
    &&& 0 <= i < slots.len()
    &&& slots[i].interface@ == interface
    &&& forall|j: int| 0 <= j < i ==> slots[j].interface@ != interface
}

pub open spec fn running_provider(slots: Seq<BackendSlot>, interface: Seq<char>) -> Option<Seq<char>> {
    if exists|i: int| first_slot(slots, interface, i) {
        Some(slots[choose|i: int| first_slot(slots, interface, i)].provider_id@)
    } else {
        None
    }
}

fn find_slot(slots: &Vec<BackendSlot>, interface: &str) -> (r: Option<usize>)
    ensures
        match r {
            Some(i) => i < slots@.len() && first_slot(slots@, interface@, i as int)
                && running_provider(slots@, interface@) == Some(slots@[i as int].provider_id@),
            None => running_provider(slots@, interface@) is None,
        },
{
    let mut i: usize = 0;
    while i < slots.len()
        invariant
            i <= slots@.len(),
            forall|j: int| 0 <= j < i ==> slots@[j].interface@ != interface@,
        decreases slots.len() - i,
    {
        if text::str_eq(slots[i].interface.as_str(), interface) {
            proof {
                assert(first_slot(slots@, interface@, i as int));
                let c = choose|c: int| first_slot(slots@, interface@, c);
                assert(c == i as int) by {
                    if c < i as int {
                    } else if c > i as int {
                    }
                }
            }
            return Some(i);
        }
        i = i + 1;
    }
    None
}

/// Index of the slot running for an interface.
pub fn find_slot_pub(slots: &Vec<BackendSlot>, interface: &str) -> (r: Option<usize>)
    ensures
        match r {
            Some(i) => i < slots@.len() && first_slot(slots@, interface@, i as int) && running_provider(slots@, interface@) == Some(slots@[i as int].provider_id@),
            None => running_provider(slots@, interface@) is None,
        },
{
    find_slot(slots, interface)
}

impl Shell {
    /// The provider running for `interface`, or `fallback` when none runs.
    pub fn active_service_provider_or(&self, interface: &str, fallback: &str) -> (r: String)
        ensures
            r@ == match running_provider(self.backend_runtimes@, interface@) {
                Some(p) => p,
                None => fallback@,
            },
    {
        match find_slot(&self.backend_runtimes, interface) {
            Some(i) => self.backend_runtimes[i].provider_id.clone(),
            None => String::from_str(fallback),
        }
    }

    /// Every terminal outcome but completion rolls back a bound state write.
    pub fn is_failed_bound_service_status(status: &str) -> (r: bool)
        ensures
            r == (status@ != "completed"@),
    {
        !text::str_eq(status, "completed")
    }
}

// ---------------------------------------------------------------------------
// Diagnostics.

pub open spec fn contract_warning_message(interface: Seq<char>, message: Seq<char>) -> Seq<char> {
    "service_contract_warning: "@ + interface + ": "@ + message
}

pub open spec fn quarantine_message(source: crate::effects::SourceKey) -> Seq<char> {
    "quarantined effect producer '"@ + source.module_id + "' ("@ + source.runtime_id
        + ") after repeated scheduler budget violations"@
}

/// The lifecycle errors a scheduler report records, in order.
pub open spec fn report_errors(r: crate::effects::ReportState) -> Seq<(Seq<char>, Seq<char>, Seq<char>)> {
    (if r.cycle_breaks > 0 {
        seq![(
            "@mesh/shell"@,
            "effect_scheduler_cycle_detected"@,
            "stopped "@ + decimal_text(r.cycle_breaks) + " repeated causal shell effect cycle(s)"@,
        )]
    } else {
        seq![]
    }) + (if r.transaction_budget_exceeded > 0 {
        seq![(
            "@mesh/shell"@,
            "effect_scheduler_transaction_budget_exceeded"@,
            "dropped "@ + decimal_text(r.transaction_budget_exceeded)
                + " shell effect causal chain(s) after exceeding the transaction budget"@,
        )]
    } else {
        seq![]
    }) + (if r.source_budget_exceeded > 0 {
        seq![(
            "@mesh/shell"@,
            "effect_scheduler_source_budget_exceeded"@,
            "deferred shell effects from "@ + decimal_text(r.source_budget_exceeded)
                + " source(s) after exceeding the per-frame budget"@,
        )]
    } else {
        seq![]
    }) + Seq::new(
        r.quarantined_sources.len(),
        |i: int|
            (
                r.quarantined_sources[i].module_id@,
                "effect_scheduler_quarantined"@,
                quarantine_message(r.quarantined_sources[i]@),
            ),
    )
}

/// Whether component `c` is the producer `source`: it is the source's
/// module or runs the source's runtime surface.
pub open spec fn produced_by(c: ComponentRuntime, source: crate::effects::SourceKey) -> bool {
    c.component_id@ == source.module_id || c.surface_id@ == source.runtime_id
}

/// Index of the first component that is the producer `source`.
pub open spec fn first_producer(cs: Seq<ComponentRuntime>, source: crate::effects::SourceKey, i: int) -> bool {
    &&& 0 <= i < cs.len()
    &&& produced_by(cs[i], source)
    &&& forall|j: int| 0 <= j < i ==> !produced_by(cs[j], source)
}

/// Whether some reported quarantined source is first produced by component `j`.
pub open spec fn quarantined_by_report(cs: Seq<ComponentRuntime>, sources: Seq<EffectSource>, j: int) -> bool {
    exists|q: int| 0 <= q < sources.len() && first_producer(cs, (#[trigger] sources[q])@, j)
}

impl Shell {
    pub(crate) fn record_lifecycle_error(&mut self, module_id: String, code: &str, message: String)
        ensures
            error_views(final(self).diagnostics@) == error_views(old(self).diagnostics@).push(
                (module_id@, code@, message@),
            ),
            *final(self) == (Shell { diagnostics: final(self).diagnostics, ..*old(self) }),
            final(self).components == old(self).components,
            final(self).effect_scheduler == old(self).effect_scheduler,
            final(self).backend_runtimes == old(self).backend_runtimes,
            final(self).interface_contracts == old(self).interface_contracts,
    {
        let ghost before = self.diagnostics@;
        self.diagnostics.push(LifecycleError { module_id, code: String::from_str(code), message });
        proof {
            assert(error_views(self.diagnostics@) =~= error_views(before).push((module_id@, code@, message@)));
        }
    }

    /// Records a contract warning about what a provider sent for an interface.
    pub fn record_service_contract_warning(&mut self, interface: &str, provider_id: &str, message: &str)
        ensures
            error_views(final(self).diagnostics@) == error_views(old(self).diagnostics@).push(
                (provider_id@, "service_contract_warning"@, contract_warning_message(interface@, message@)),
            ),
            *final(self) == (Shell { diagnostics: final(self).diagnostics, ..*old(self) }),
    {
        let text = text::concat3("service_contract_warning: ", interface, ": ").concat(message);
        self.record_lifecycle_error(String::from_str(provider_id), "service_contract_warning", text);
    }

    /// Records what a finished frame of the scheduler did: cycle breaks,
    /// transaction and source budget violations, and each quarantined
    /// producer, whose component (the first that is the producer's module or
    /// runs its surface) is quarantined.
    pub fn report_effect_scheduler(&mut self, report: &EffectSchedulerReport)
        ensures
            error_views(final(self).diagnostics@) == error_views(old(self).diagnostics@) + report_errors(report@),
            final(self).components@.len() == old(self).components@.len(),
            forall|j: int| 0 <= j < old(self).components@.len() ==> same_identity_but_quarantine(
                #[trigger] final(self).components@[j],
                old(self).components@[j],
            ),
            forall|j: int| 0 <= j < old(self).components@.len() ==> (#[trigger] final(self).components@[j]).quarantined
                == (old(self).components@[j].quarantined || quarantined_by_report(
                old(self).components@,
                report.quarantined_sources@,
                j,
            )),
            final(self).effect_scheduler == old(self).effect_scheduler,
            final(self).backend_runtimes == old(self).backend_runtimes,
            final(self).interface_contracts == old(self).interface_contracts,
    {
        let ghost start = error_views(self.diagnostics@);
        if report.cycle_breaks > 0 {
            let m = text::concat3("stopped ", decimal(report.cycle_breaks).as_str(), " repeated causal shell effect cycle(s)");
            self.record_lifecycle_error(String::from_str("@mesh/shell"), "effect_scheduler_cycle_detected", m);
        }
        let ghost after_cycles = error_views(self.diagnostics@);
        if report.transaction_budget_exceeded > 0 {
            let m = text::concat3(
                "dropped ",
                decimal(report.transaction_budget_exceeded).as_str(),
                " shell effect causal chain(s) after exceeding the transaction budget",
            );
            self.record_lifecycle_error(String::from_str("@mesh/shell"), "effect_scheduler_transaction_budget_exceeded", m);
        }
        if report.source_budget_exceeded > 0 {
            let m = text::concat3(
                "deferred shell effects from ",
                decimal(report.source_budget_exceeded).as_str(),
                " source(s) after exceeding the per-frame budget",
            );
            self.record_lifecycle_error(String::from_str("@mesh/shell"), "effect_scheduler_source_budget_exceeded", m);
        }
        let ghost r = report@;
        let ghost head = error_views(self.diagnostics@);
        proof {
            assert(head =~= start + (if r.cycle_breaks > 0 {
                seq![(
                    "@mesh/shell"@,
                    "effect_scheduler_cycle_detected"@,
                    "stopped "@ + decimal_text(r.cycle_breaks) + " repeated causal shell effect cycle(s)"@,
                )]
            } else {
                seq![]
            }) + (if r.transaction_budget_exceeded > 0 {
                seq![(
                    "@mesh/shell"@,
                    "effect_scheduler_transaction_budget_exceeded"@,
                    "dropped "@ + decimal_text(r.transaction_budget_exceeded)
                        + " shell effect causal chain(s) after exceeding the transaction budget"@,
                )]
            } else {
                seq![]
            }) + (if r.source_budget_exceeded > 0 {
                seq![(
                    "@mesh/shell"@,
                    "effect_scheduler_source_budget_exceeded"@,
                    "deferred shell effects from "@ + decimal_text(r.source_budget_exceeded)
                        + " source(s) after exceeding the per-frame budget"@,
                )]
            } else {
                seq![]
            }));
        }
        let sources = &report.quarantined_sources;
        let ghost cs0 = self.components@;
        let mut q: usize = 0;
        while q < sources.len()
            invariant
                q <= sources@.len(),
                sources@ == report.quarantined_sources@,
                r == report@,
                error_views(self.diagnostics@) == head + Seq::new(
                    q as nat,
                    |i: int|
                        (
                            r.quarantined_sources[i].module_id@,
                            "effect_scheduler_quarantined"@,
                            quarantine_message(r.quarantined_sources[i]@),
                        ),
                ),
                self.components@.len() == cs0.len(),
                forall|j: int| 0 <= j < cs0.len() ==> same_identity_but_quarantine(#[trigger] self.components@[j], cs0[j]),
                forall|j: int| 0 <= j < cs0.len() ==> (#[trigger] self.components@[j]).quarantined
                    == (cs0[j].quarantined || exists|p: int| 0 <= p < q && first_producer(cs0, (#[trigger] sources@[p])@, j)),
                self.effect_scheduler == old(self).effect_scheduler,
                self.backend_runtimes == old(self).backend_runtimes,
                self.interface_contracts == old(self).interface_contracts,
            decreases sources.len() - q,
        {
            let source = &sources[q];
            let message = text::concat3("quarantined effect producer '", source.module_id.as_str(), "' (").concat(
                source.runtime_id.as_str(),
            ).concat(") after repeated scheduler budget violations");
            let ghost before = error_views(self.diagnostics@);
            self.record_lifecycle_error(source.module_id.clone(), "effect_scheduler_quarantined", message);
            proof {
                assert(error_views(self.diagnostics@) =~= head + Seq::new(
                    (q + 1) as nat,
                    |i: int|
                        (
                            r.quarantined_sources[i].module_id@,
                            "effect_scheduler_quarantined"@,
                            quarantine_message(r.quarantined_sources[i]@),
                        ),
                ));
            }
            let found = self.first_producer_index(source);
            proof {
                match found {
                    Some(i) => {
                        assert(first_producer(cs0, source@, i as int)) by {
                            assert forall|j: int| 0 <= j < i implies !produced_by(cs0[j], source@) by {
                                assert(same_identity_but_quarantine(self.components@[j], cs0[j]));
                            }
                            assert(same_identity_but_quarantine(self.components@[i as int], cs0[i as int]));
                        }
                    },
                    None => {
                        assert forall|j: int| !first_producer(cs0, source@, j) by {
                            if 0 <= j < cs0.len() {
                                assert(same_identity_but_quarantine(self.components@[j], cs0[j]));
                            }
                        }
                    },
                }
            }
            if let Some(index) = found {
                self.components[index].quarantined = true;
            }
            proof {
                assert forall|j: int| 0 <= j < cs0.len() implies (#[trigger] self.components@[j]).quarantined
                    == (cs0[j].quarantined || exists|p: int| 0 <= p < q + 1 && first_producer(cs0, (#[trigger] sources@[p])@, j)) by {
                    if exists|p: int| 0 <= p < q + 1 && first_producer(cs0, (#[trigger] sources@[p])@, j) {
                        let p = choose|p: int| 0 <= p < q + 1 && first_producer(cs0, (#[trigger] sources@[p])@, j);
                        if p == q as int {
                            assert(found == Some(j as usize)) by {
                                let i = found.unwrap();
                                assert(first_producer(cs0, source@, i as int));
                                if (i as int) < j {
                                    assert(produced_by(cs0[i as int], source@));
                                } else if (i as int) > j {
                                    assert(produced_by(cs0[j], source@));
                                }
                            }
                        }
                    }
                }
            }
            q = q + 1;
        }
        proof {
            assert forall|j: int| 0 <= j < cs0.len() implies (exists|p: int| 0 <= p < q && first_producer(cs0, (#[trigger] sources@[p])@, j))
                == quarantined_by_report(cs0, report.quarantined_sources@, j) by {}
            assert(error_views(self.diagnostics@) =~= start + report_errors(report@));
        }
    }

    fn first_producer_index(&self, source: &EffectSource) -> (r: Option<usize>)
        ensures
            match r {
                Some(i) => i < self.components@.len() && produced_by(self.components@[i as int], source@)
                    && forall|j: int| 0 <= j < i ==> !produced_by(self.components@[j], source@),
                None => forall|j: int| 0 <= j < self.components@.len() ==> !produced_by(self.components@[j], source@),
            },
    {
        let mut i: usize = 0;
        while i < self.components.len()
            invariant
                i <= self.components@.len(),
                forall|j: int| 0 <= j < i ==> !produced_by(self.components@[j], source@),
            decreases self.components.len() - i,
        {
            if text::str_eq(self.components[i].component_id.as_str(), source.module_id.as_str())
                || text::str_eq(self.components[i].surface_id.as_str(), source.runtime_id.as_str()) {
                return Some(i);
            }
            i = i + 1;
        }
        None
    }
}

/// `new` is `old` with at most its quarantine flag changed.
pub open spec fn same_identity_but_quarantine(new: ComponentRuntime, old: ComponentRuntime) -> bool {
    &&& new.component_id == old.component_id
    &&& new.surface_id == old.surface_id
    &&& new.failure_count == old.failure_count
    &&& new.hide_transition_ms == old.hide_transition_ms
    &&& new.paint_requested == old.paint_requested
    &&& new.theme_changed == old.theme_changed
    &&& new.locale_changed == old.locale_changed
    &&& new.keyboard_mode_override == old.keyboard_mode_override
    &&& new.surface_exiting == old.surface_exiting
    &&& new.popup_parent_surface == old.popup_parent_surface
    &&& new.popup_promoted == old.popup_promoted
    &&& new.children == old.children
    &&& new.force_full_present == old.force_full_present
}

// ---------------------------------------------------------------------------
// Service update metadata.

/// The host-owned trace of which service last delivered an update.
pub open spec fn update_metadata(service_name: Seq<char>, source_module: Seq<char>) -> JsonView {
    JsonView::Object(seq![]).with_field("name"@, JsonView::Str(service_name)).with_field(
        "source_module"@,
        JsonView::Str(source_module),
    )
}

pub fn service_update_metadata(service_name: &str, source_module: &str) -> (r: JsonValue)
    ensures
        r@ == update_metadata(service_name@, source_module@),
{
    let mut v = JsonValue::empty_object();
    v.set_field("name", JsonValue::text(service_name));
    v.set_field("source_module", JsonValue::text(source_module));
    v
}

/// The bytes a `str` feeds a hasher: its UTF-8 encoding, then the `0xff`
/// terminator that `Hash for str` writes after it.
pub open spec fn hashed_text(s: Seq<char>) -> Seq<Seq<u8>> {
    seq![encode_utf8(s), seq![0xffu8]]
}

/// The `DefaultHasher` hash of a service name followed by a source module,
/// each fed as `Hash for str` feeds it.
pub open spec fn metadata_hash(service_name: Seq<char>, source_module: Seq<char>) -> u64 {
    DefaultHasher::spec_finish(hashed_text(service_name) + hashed_text(source_module))
}

/// Feeds a text to a hasher as `Hash for str` does.
pub fn hash_text(hasher: &mut DefaultHasher, s: &str)
    ensures
        final(hasher)@ == old(hasher)@ + hashed_text(s@),
{
    let bytes = s.as_bytes();
    hasher.write(bytes);
    let mut terminator: Vec<u8> = Vec::new();
    terminator.push(0xffu8);
    hasher.write(terminator.as_slice());
    proof {
        assert(bytes@ == encode_utf8(s@));
        assert(terminator@ =~= seq![0xffu8]);
        assert(hasher@ =~= old(hasher)@ + hashed_text(s@));
    }
}

/// The fingerprint under which a component's copy of the update metadata is
/// cached: equal names and modules give equal fingerprints.
pub fn service_update_metadata_fingerprint(service_name: &str, source_module: &str) -> (r: u64)
    ensures
        r == metadata_hash(service_name@, source_module@),
{
    let mut hasher = DefaultHasher::new();
    hash_text(&mut hasher, service_name);
    hash_text(&mut hasher, source_module);
    proof {
        assert(hasher@ =~= hashed_text(service_name@) + hashed_text(source_module@));
    }
    hasher.finish()
}

/// Whether a direct drain of requests overran the scheduler's policy: work
/// was deferred, a cycle broken, or a budget exceeded.
pub open spec fn drain_overran(r: crate::effects::ReportState) -> bool {
    r.deferred > 0 || r.cycle_breaks > 0 || r.transaction_budget_exceeded > 0 || r.source_budget_exceeded > 0
}

pub open spec fn drain_overrun_message(dropped: usize) -> Seq<char> {
    "dropped "@ + decimal_text(dropped) + " shell effects from a direct drain after exceeding scheduler policy"@
}

impl Shell {
    /// After a direct drain of requests: when the frame overran the
    /// scheduler's policy, every scheduled effect is dropped and the drop is
    /// recorded as a lifecycle error of the shell. Returns how many were
    /// dropped, if any were.
    pub fn contain_drain_overrun(&mut self, report: &EffectSchedulerReport) -> (r: Option<usize>)
        requires
            old(self).effect_scheduler@.wf(),
        ensures
            drain_overran(report@) ==> {
                &&& r is Some && r.unwrap() == old(self).effect_scheduler@.pending().len()
                &&& final(self).effect_scheduler@ == (crate::effects::SchedulerState {
                    queued: Seq::empty(),
                    ready: Seq::empty(),
                    deferred: Seq::empty(),
                    ..old(self).effect_scheduler@
                })
                &&& error_views(final(self).diagnostics@) == error_views(old(self).diagnostics@).push(
                    ("@mesh/shell"@, "request_drain_budget_exceeded"@, drain_overrun_message(r.unwrap())),
                )
                &&& final(self).components == old(self).components
            },
            !drain_overran(report@) ==> r is None && *final(self) == *old(self),
    {
        if report.deferred > 0 || report.cycle_breaks > 0 || report.transaction_budget_exceeded > 0
            || report.source_budget_exceeded > 0 {
            let dropped = self.discard_scheduled_effects();
            let message = text::concat3(
                "dropped ",
                decimal(dropped).as_str(),
                " shell effects from a direct drain after exceeding scheduler policy",
            );
            self.record_lifecycle_error(String::from_str("@mesh/shell"), "request_drain_budget_exceeded", message);
            Some(dropped)
        } else {
            None
        }
    }
}

} // verus!
