//! A fresh shell and the debug snapshot's record of backend runtimes,
//! benchmark scenarios and profiling.
use vstd::prelude::*;
use crate::backend::{BackendRuntimeRecord, status_name};
use crate::effects::EffectScheduler;
use crate::requests::BenchmarkScenarioId;
use crate::shell::{DebugState, Shell};

verus! {

impl Shell {
    /// A shell with no components, surfaces, providers or pending work.
    pub fn new() -> (r: Shell)
        ensures
            r.effect_scheduler@.queued.len() == 0,
            r.effect_scheduler@.deferred.len() == 0,
            r.effect_scheduler@.quarantined.len() == 0,
            r.effect_scheduler@.active_context is None,
            r.effect_scheduler@.frame is None,
            r.activation_generation == 0,
            r.components@.len() == 0,
            r.core_surfaces@.len() == 0,
            r.surfaces@.len() == 0,
            r.pending_popover_hides@.len() == 0,
            r.keyboard_focus_surface is None,
            r.transfer_owned_keyboard_modes@.len() == 0,
            r.debug == (DebugState {
                enabled: false,
                show_layout_bounds: false,
                element_picker_enabled: false,
                profiling_enabled: false,
                profiling_session_id: 0,
                latest_benchmark_run: None,
            }),
            r.accepting_work,
            !r.shutdown_effects_allowed,
            !r.popup_supported,
            r.diagnostics@.len() == 0,
            r.backend_runtimes@.len() == 0,
            r.pending_backend_runtimes@.len() == 0,
            r.backend_statuses@.len() == 0,
            r.interface_contracts@.len() == 0,
    {
        Shell {
            effect_scheduler: EffectScheduler::default(),
            activation_generation: 0,
            components: Vec::new(),
            core_surfaces: Vec::new(),
            surfaces: Vec::new(),
            pending_popover_hides: Vec::new(),
            keyboard_focus_surface: None,
            transfer_owned_keyboard_modes: Vec::new(),
            debug: DebugState {
                enabled: false,
                show_layout_bounds: false,
                element_picker_enabled: false,
                profiling_enabled: false,
                profiling_session_id: 0,
                latest_benchmark_run: None,
            },
            diagnostics: Vec::new(),
            backend_runtimes: Vec::new(),
            pending_backend_runtimes: Vec::new(),
            backend_statuses: Vec::new(),
            interface_contracts: Vec::new(),
            accepting_work: true,
            shutdown_effects_allowed: false,
            popup_supported: false,
        }
    }
}

/// One provider's lifecycle as the debug snapshot shows it.
#[derive(Debug)]
pub struct BackendRuntimeEntry {
    pub interface: String,
    pub provider_id: String,
    pub status: String,
    pub message: String,
    pub failure_count: u32,
}

#[derive(Debug)]
pub struct BenchmarkScenarioEntry {
    pub id: BenchmarkScenarioId,
}

#[derive(Debug)]
pub struct BenchmarkSnapshot {
    pub scenarios: Vec<BenchmarkScenarioEntry>,
}

#[derive(Debug)]
pub struct ProfilingSnapshot {
    pub session_id: u64,
}

/// What the debug tooling shows of backend runtimes, benchmark scenarios and
/// the profiling session.
#[derive(Debug)]
pub struct DebugSnapshot {
    pub backend_runtimes: Vec<BackendRuntimeEntry>,
    pub benchmarks: BenchmarkSnapshot,
    pub profiling: Option<ProfilingSnapshot>,
}

/// The entry shows the record: same provider, interface, message and failure
/// count, and the status by name.
pub open spec fn entry_shows(e: BackendRuntimeEntry, r: BackendRuntimeRecord) -> bool {
    &&& e.interface@ == r.interface@
    &&& e.provider_id@ == r.provider_id@
    &&& e.status@ == status_name(r.status)
    &&& e.message@ == r.message@
    &&& e.failure_count == r.failure_count
}

impl Shell {
    /// The debug snapshot: every recorded provider lifecycle in recording
    /// order, every benchmark scenario, and the profiling session only while
    /// profiling is enabled.
    pub fn build_debug_snapshot(&self) -> (r: DebugSnapshot)
        ensures
            r.backend_runtimes@.len() == self.backend_statuses@.len(),
            forall|i: int| 0 <= i < self.backend_statuses@.len() ==> entry_shows(
                #[trigger] r.backend_runtimes@[i],
                self.backend_statuses@[i],
            ),
            r.benchmarks.scenarios@.len() == 12,
            forall|i: int| 0 <= i < 12 ==> (#[trigger] r.benchmarks.scenarios@[i]).id == BenchmarkScenarioId::all_spec()[i],
            r.profiling matches Some(p) ==> self.debug.profiling_enabled && p.session_id == self.debug.profiling_session_id,
            r.profiling is None ==> !self.debug.profiling_enabled,
    {
        let mut entries: Vec<BackendRuntimeEntry> = Vec::new();
        let mut i: usize = 0;
        while i < self.backend_statuses.len()
            invariant
                i <= self.backend_statuses@.len(),
                entries@.len() == i,
                forall|k: int| 0 <= k < i ==> entry_shows(#[trigger] entries@[k], self.backend_statuses@[k]),
            decreases self.backend_statuses.len() - i,
        {
            let rec = &self.backend_statuses[i];
            entries.push(BackendRuntimeEntry {
                interface: rec.interface.clone(),
                provider_id: rec.provider_id.clone(),
                status: String::from_str(rec.status.as_str()),
                message: rec.message.clone(),
                failure_count: rec.failure_count,
            });
            i = i + 1;
        }
        let ids = BenchmarkScenarioId::all();
        let mut scenarios: Vec<BenchmarkScenarioEntry> = Vec::new();
        let mut k: usize = 0;
        while k < ids.len()
            invariant
                ids@ == BenchmarkScenarioId::all_spec(),
                k <= ids@.len(),
                scenarios@.len() == k,
                forall|m: int| 0 <= m < k ==> (#[trigger] scenarios@[m]).id == ids@[m],
            decreases ids.len() - k,
        {
            scenarios.push(BenchmarkScenarioEntry { id: ids[k] });
            k = k + 1;
        }
        let profiling = if self.debug.profiling_enabled {
            Some(ProfilingSnapshot { session_id: self.debug.profiling_session_id })
        } else {
            None
        };
        DebugSnapshot { backend_runtimes: entries, benchmarks: BenchmarkSnapshot { scenarios }, profiling }
    }
}

} // verus!
