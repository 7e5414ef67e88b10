//! Backend provider lifecycle bookkeeping: the status the shell records for
//! each provider of an interface, and which interfaces a newly enabled module
//! must start a provider for.
use vstd::prelude::*;
use crate::services::{running_provider, find_slot_pub, error_views};
use crate::shell::BackendSlot;
use crate::shell::Shell;
use crate::text;

verus! {

/// Where a backend provider is in its lifecycle.
#[derive(Debug, Clone, Copy, PartialEq, Eq, Structural)]
pub enum BackendRuntimeStatus {
    NoActiveProvider,
    UnmetBackendRequirement,
    InvalidManifest,
    MissingCapability,
    MissingEntrypoint,
    MissingBinary,
    InitFailed,
    Running,
    PollFailed,
    Failed,
    Stopped,
    Quarantined,
}

pub open spec fn status_name(s: BackendRuntimeStatus) -> Seq<char> {
    match s {
        BackendRuntimeStatus::NoActiveProvider => "no_active_provider"@,
        BackendRuntimeStatus::UnmetBackendRequirement => "unmet_backend_requirement"@,
        BackendRuntimeStatus::InvalidManifest => "invalid_manifest"@,
        BackendRuntimeStatus::MissingCapability => "missing_capability"@,
        BackendRuntimeStatus::MissingEntrypoint => "missing_entrypoint"@,
        BackendRuntimeStatus::MissingBinary => "missing_binary"@,
        BackendRuntimeStatus::InitFailed => "init_failed"@,
        BackendRuntimeStatus::Running => "running"@,
        BackendRuntimeStatus::PollFailed => "poll_failed"@,
        BackendRuntimeStatus::Failed => "failed"@,
        BackendRuntimeStatus::Stopped => "stopped"@,
        BackendRuntimeStatus::Quarantined => "quarantined"@,
    }
}

/// The status a lifecycle status name stands for; an unknown name is a failure.
pub open spec fn status_named(name: Seq<char>) -> BackendRuntimeStatus {
    if name == "no_active_provider"@ {
        BackendRuntimeStatus::NoActiveProvider
    } else if name == "unmet_backend_requirement"@ {
        BackendRuntimeStatus::UnmetBackendRequirement
    } else if name == "invalid_manifest"@ {
        BackendRuntimeStatus::InvalidManifest
    } else if name == "missing_capability"@ {
        BackendRuntimeStatus::MissingCapability
    } else if name == "missing_entrypoint"@ {
        BackendRuntimeStatus::MissingEntrypoint
    } else if name == "missing_binary"@ {
        BackendRuntimeStatus::MissingBinary
    } else if name == "init_failed"@ {
        BackendRuntimeStatus::InitFailed
    } else if name == "running"@ {
        BackendRuntimeStatus::Running
    } else if name == "poll_failed"@ {
        BackendRuntimeStatus::PollFailed
    } else if name == "stopped"@ {
        BackendRuntimeStatus::Stopped
    } else if name == "quarantined"@ {
        BackendRuntimeStatus::Quarantined
    } else {
        BackendRuntimeStatus::Failed
    }
}

/// A failure of a started or starting provider, counted per provider.
pub open spec fn is_failure(s: BackendRuntimeStatus) -> bool {
    s == BackendRuntimeStatus::InitFailed || s == BackendRuntimeStatus::PollFailed || s
        == BackendRuntimeStatus::Failed
}

/// A terminal status: the provider's messages are no longer accepted.
pub open spec fn rejects_messages(s: BackendRuntimeStatus) -> bool {
    s == BackendRuntimeStatus::InitFailed || s == BackendRuntimeStatus::Failed || s
        == BackendRuntimeStatus::Stopped || s == BackendRuntimeStatus::Quarantined
}

impl BackendRuntimeStatus {
    pub fn as_str(self) -> (r: &'static str)
        ensures
            r@ == status_name(self),
    {
        match self {
            BackendRuntimeStatus::NoActiveProvider => "no_active_provider",
            BackendRuntimeStatus::UnmetBackendRequirement => "unmet_backend_requirement",
            BackendRuntimeStatus::InvalidManifest => "invalid_manifest",
            BackendRuntimeStatus::MissingCapability => "missing_capability",
            BackendRuntimeStatus::MissingEntrypoint => "missing_entrypoint",
            BackendRuntimeStatus::MissingBinary => "missing_binary",
            BackendRuntimeStatus::InitFailed => "init_failed",
            BackendRuntimeStatus::Running => "running",
            BackendRuntimeStatus::PollFailed => "poll_failed",
            BackendRuntimeStatus::Failed => "failed",
            BackendRuntimeStatus::Stopped => "stopped",
            BackendRuntimeStatus::Quarantined => "quarantined",
        }
    }

    pub fn from_str(name: &str) -> (r: BackendRuntimeStatus)
        ensures
            r == status_named(name@),
    {
        if text::str_eq(name, "no_active_provider") {
            BackendRuntimeStatus::NoActiveProvider
        } else if text::str_eq(name, "unmet_backend_requirement") {
            BackendRuntimeStatus::UnmetBackendRequirement
        } else if text::str_eq(name, "invalid_manifest") {
            BackendRuntimeStatus::InvalidManifest
        } else if text::str_eq(name, "missing_capability") {
            BackendRuntimeStatus::MissingCapability
        } else if text::str_eq(name, "missing_entrypoint") {
            BackendRuntimeStatus::MissingEntrypoint
        } else if text::str_eq(name, "missing_binary") {
            BackendRuntimeStatus::MissingBinary
        } else if text::str_eq(name, "init_failed") {
            BackendRuntimeStatus::InitFailed
        } else if text::str_eq(name, "running") {
            BackendRuntimeStatus::Running
        } else if text::str_eq(name, "poll_failed") {
            BackendRuntimeStatus::PollFailed
        } else if text::str_eq(name, "stopped") {
            BackendRuntimeStatus::Stopped
        } else if text::str_eq(name, "quarantined") {
            BackendRuntimeStatus::Quarantined
        } else {
            BackendRuntimeStatus::Failed
        }
    }

    pub fn is_failure(self) -> (r: bool)
        ensures
            r == is_failure(self),
    {
        self == BackendRuntimeStatus::InitFailed || self == BackendRuntimeStatus::PollFailed || self
            == BackendRuntimeStatus::Failed
    }

    pub fn rejects_provider_messages(self) -> (r: bool)
        ensures
            r == rejects_messages(self),
    {
        self == BackendRuntimeStatus::InitFailed || self == BackendRuntimeStatus::Failed || self
            == BackendRuntimeStatus::Stopped || self == BackendRuntimeStatus::Quarantined
    }
}

/// Every status is found again under its own name.
pub proof fn law_status_names_round_trip(s: BackendRuntimeStatus)
    ensures
        status_named(status_name(s)) == s,
{
    reveal_strlit("no_active_provider");
    reveal_strlit("unmet_backend_requirement");
    reveal_strlit("invalid_manifest");
    reveal_strlit("missing_capability");
    reveal_strlit("missing_entrypoint");
    reveal_strlit("missing_binary");
    reveal_strlit("init_failed");
    reveal_strlit("running");
    reveal_strlit("poll_failed");
    reveal_strlit("failed");
    reveal_strlit("stopped");
    reveal_strlit("quarantined");
    assert("no_active_provider"@.len() == 18 && "no_active_provider"@[0] == 'n');
    assert("unmet_backend_requirement"@.len() == 25 && "unmet_backend_requirement"@[0] == 'u');
    assert("invalid_manifest"@.len() == 16 && "invalid_manifest"@[0] == 'i');
    assert("missing_capability"@.len() == 18 && "missing_capability"@[0] == 'm');
    assert("missing_entrypoint"@.len() == 18 && "missing_entrypoint"@[8] == 'e');
    assert("missing_capability"@[8] == 'c');
    assert("missing_binary"@.len() == 14 && "missing_binary"@[0] == 'm');
    assert("init_failed"@.len() == 11 && "init_failed"@[0] == 'i');
    assert("running"@.len() == 7 && "running"@[0] == 'r');
    assert("poll_failed"@.len() == 11 && "poll_failed"@[0] == 'p');
    assert("failed"@.len() == 6 && "failed"@[0] == 'f');
    assert("stopped"@.len() == 7 && "stopped"@[0] == 's');
    assert("quarantined"@.len() == 11 && "quarantined"@[0] == 'q');
}

/// The lifecycle status recorded for one provider of an interface.
#[derive(Debug)]
pub struct BackendRuntimeRecord {
    pub interface: String,
    pub provider_id: String,
    pub status: BackendRuntimeStatus,
    pub message: String,
    pub failure_count: u32,
}

pub open spec fn record_is(r: BackendRuntimeRecord, interface: Seq<char>, provider_id: Seq<char>) -> bool {
    r.interface@ == interface && r.provider_id@ == provider_id
}

/// Index of the first record of a provider of an interface.
pub open spec fn first_record(rs: Seq<BackendRuntimeRecord>, interface: Seq<char>, provider_id: Seq<char>, i: int) -> bool {
    &&& 0 <= i < rs.len()
    &&& record_is(rs[i], interface, provider_id)
    &&& forall|j: int| 0 <= j < i ==> !record_is(rs[j], interface, provider_id)
}

pub open spec fn record_of(rs: Seq<BackendRuntimeRecord>, interface: Seq<char>, provider_id: Seq<char>) -> Option<BackendRuntimeRecord> {
    if exists|i: int| first_record(rs, interface, provider_id, i) {
        Some(rs[choose|i: int| first_record(rs, interface, provider_id, i)])
    } else {
        None
    }
}

/// The failure count after recording `status` over `previous`.
pub open spec fn next_failure_count(previous: Option<BackendRuntimeRecord>, status: BackendRuntimeStatus) -> u32 {
    let base: u32 = match previous {
        Some(r) => r.failure_count,
        None => 0,
    };
    if is_failure(status) {
        if base == u32::MAX {
            u32::MAX
        } else {
            (base + 1) as u32
        }
    } else {
        base
    }
}

fn find_record(rs: &Vec<BackendRuntimeRecord>, interface: &str, provider_id: &str) -> (r: Option<usize>)
    ensures
        match r {
            Some(i) => i < rs@.len() && first_record(rs@, interface@, provider_id@, i as int)
                && record_of(rs@, interface@, provider_id@) == Some(rs@[i as int]),
            None => record_of(rs@, interface@, provider_id@) is None,
        },
{
    let mut i: usize = 0;
    while i < rs.len()
        invariant
            i <= rs@.len(),
            forall|j: int| 0 <= j < i ==> !record_is(rs@[j], interface@, provider_id@),
        decreases rs.len() - i,
    {
        if text::str_eq(rs[i].interface.as_str(), interface) && text::str_eq(rs[i].provider_id.as_str(), provider_id) {
            proof {
                assert(first_record(rs@, interface@, provider_id@, i as int));
                let c = choose|c: int| first_record(rs@, interface@, provider_id@, c);
                assert(c == i as int) by {
                    if c < i as int {
                    } else if c > i as int {
                    }
                }
            }
            return Some(i);
        }
        i = i + 1;
    }
    None
}

impl Shell {
    /// Records a provider's lifecycle status and message. Each failure
    /// (initialization, poll, or runtime failure) adds one to the provider's
    /// failure count; other statuses keep it.
    pub fn record_backend_runtime_status(
        &mut self,
        interface: String,
        provider_id: String,
        status: BackendRuntimeStatus,
        message: String,
    )
        ensures
            match record_of(final(self).backend_statuses@, interface@, provider_id@) {
                Some(r) => r.status == status && r.message@ == message@ && r.failure_count
                    == next_failure_count(record_of(old(self).backend_statuses@, interface@, provider_id@), status),
                None => false,
            },
            forall|i: Seq<char>, p: Seq<char>| !(i == interface@ && p == provider_id@)
                ==> #[trigger] record_of(final(self).backend_statuses@, i, p) == record_of(old(self).backend_statuses@, i, p),
            final(self).components == old(self).components,
            final(self).backend_runtimes == old(self).backend_runtimes,
            final(self).pending_backend_runtimes == old(self).pending_backend_runtimes,
            final(self).diagnostics == old(self).diagnostics,
    {
        let ghost old_rs = self.backend_statuses@;
        match find_record(&self.backend_statuses, interface.as_str(), provider_id.as_str()) {
            Some(i) => {
                let count = self.backend_statuses[i].failure_count;
                let failure_count = if status.is_failure() {
                    count.saturating_add(1)
                } else {
                    count
                };
                self.backend_statuses[i].status = status;
                self.backend_statuses[i].message = message;
                self.backend_statuses[i].failure_count = failure_count;
                proof {
                    let rs = self.backend_statuses@;
                    assert(first_record(rs, interface@, provider_id@, i as int));
                    let c = choose|c: int| first_record(rs, interface@, provider_id@, c);
                    assert(c == i as int) by {
                        if c < i as int {
                        } else if c > i as int {
                        }
                    }
                    assert forall|x: Seq<char>, p: Seq<char>| !(x == interface@ && p == provider_id@)
                        implies #[trigger] record_of(rs, x, p) == record_of(old_rs, x, p) by {
                        assert forall|k: int| first_record(rs, x, p, k) <==> first_record(old_rs, x, p, k) by {
                            if 0 <= k < rs.len() {
                                assert forall|j: int| 0 <= j < k implies (record_is(rs[j], x, p) <==> record_is(old_rs[j], x, p)) by {}
                            }
                        }
                        if exists|k: int| first_record(rs, x, p, k) {
                            let k = choose|k: int| first_record(rs, x, p, k);
                            assert(k != i as int);
                            assert(rs[k] == old_rs[k]);
                        }
                    }
                }
            },
            None => {
                let failure_count: u32 = if status.is_failure() { 1 } else { 0 };
                self.backend_statuses.push(BackendRuntimeRecord { interface, provider_id, status, message, failure_count });
                proof {
                    let rs = self.backend_statuses@;
                    let n = old_rs.len() as int;
                    assert(first_record(rs, interface@, provider_id@, n)) by {
                        assert forall|j: int| 0 <= j < n implies !record_is(rs[j], interface@, provider_id@) by {
                            assert(rs[j] == old_rs[j]);
                            assert(!first_record(old_rs, interface@, provider_id@, j));
                            if record_is(old_rs[j], interface@, provider_id@) {
                                let m = lemma_some_first_record(old_rs, interface@, provider_id@, j);
                            }
                        }
                    }
                    let c = choose|c: int| first_record(rs, interface@, provider_id@, c);
                    assert(c == n) by {
                        if c < n {
                        } else if c > n {
                        }
                    }
                    assert forall|x: Seq<char>, p: Seq<char>| !(x == interface@ && p == provider_id@)
                        implies #[trigger] record_of(rs, x, p) == record_of(old_rs, x, p) by {
                        assert forall|k: int| first_record(rs, x, p, k) <==> first_record(old_rs, x, p, k) by {
                            if 0 <= k < old_rs.len() {
                                assert forall|j: int| 0 <= j < k implies rs[j] == old_rs[j] by {}
                                assert(rs[k] == old_rs[k]);
                            }
                        }
                    }
                }
            },
        }
    }

    /// The recorded status of a provider of an interface.
    pub fn backend_runtime_status(&self, interface: &str, provider_id: &str) -> (r: Option<&BackendRuntimeRecord>)
        ensures
            match r {
                Some(rec) => record_of(self.backend_statuses@, interface@, provider_id@) == Some(*rec),
                None => record_of(self.backend_statuses@, interface@, provider_id@) is None,
            },
    {
        match find_record(&self.backend_statuses, interface, provider_id) {
            Some(i) => Some(&self.backend_statuses[i]),
            None => None,
        }
    }
}

/// Some record of the provider at `j` makes a first one exist.
proof fn lemma_some_first_record(rs: Seq<BackendRuntimeRecord>, interface: Seq<char>, provider_id: Seq<char>, j: int) -> (m: int)
    requires
        0 <= j < rs.len(),
        record_is(rs[j], interface, provider_id),
    ensures
        first_record(rs, interface, provider_id, m),
    decreases j,
{
    if exists|m: int| 0 <= m < j && record_is(rs[m], interface, provider_id) {
        let m = choose|m: int| 0 <= m < j && record_is(rs[m], interface, provider_id);
        lemma_some_first_record(rs, interface, provider_id, m)
    } else {
        j
    }
}

// ---------------------------------------------------------------------------
// The installed module graph, as far as provider selection reads it.

/// A module's declaration that it provides an interface.
#[derive(Debug)]
pub struct ProviderContribution {
    pub module_id: String,
    pub interface: String,
}

/// The enabled provider declarations and the selected provider per interface.
#[derive(Debug)]
pub struct ModuleGraph {
    /// The installed modules.
    pub modules: Vec<String>,
    /// The module whose layout is the root of the composition, if any.
    pub root_layout: Option<String>,
    pub provider_contributions: Vec<ProviderContribution>,
    pub active_providers: Vec<ProviderContribution>,
}

/// The module selected to provide `interface`: the first selection for it.
pub open spec fn first_selection(sel: Seq<ProviderContribution>, interface: Seq<char>, i: int) -> bool {
    &&& 0 <= i < sel.len()
    &&& sel[i].interface@ == interface
    &&& forall|j: int| 0 <= j < i ==> sel[j].interface@ != interface
}

pub open spec fn active_provider(sel: Seq<ProviderContribution>, interface: Seq<char>) -> Option<Seq<char>> {
    if exists|i: int| first_selection(sel, interface, i) {
        Some(sel[choose|i: int| first_selection(sel, interface, i)].module_id@)
    } else {
        None
    }
}

/// The interfaces, in declaration order, that `module_id` declares, is the
/// selected provider of, and has no provider of its own running yet.
pub open spec fn newly_active_upto(
    g: ModuleGraph,
    slots: Seq<crate::shell::BackendSlot>,
    module_id: Seq<char>,
    n: int,
) -> Seq<Seq<char>>
    decreases n,
{
    if n <= 0 {
        seq![]
    } else {
        let rest = newly_active_upto(g, slots, module_id, n - 1);
        let p = g.provider_contributions@[n - 1];
        if p.module_id@ == module_id && active_provider(g.active_providers@, p.interface@) == Some(module_id)
            && running_provider(slots, p.interface@) != Some(module_id) {
            rest.push(p.interface@)
        } else {
            rest
        }
    }
}

pub open spec fn texts(ss: Seq<String>) -> Seq<Seq<char>> {
    Seq::new(ss.len(), |i: int| ss[i]@)
}

pub(crate) fn find_selection(sel: &Vec<ProviderContribution>, interface: &str) -> (r: Option<usize>)
    ensures
        match r {
            Some(i) => i < sel@.len() && active_provider(sel@, interface@) == Some(sel@[i as int].module_id@),
            None => active_provider(sel@, interface@) is None,
        },
{
    let mut i: usize = 0;
    while i < sel.len()
        invariant
            i <= sel@.len(),
            forall|j: int| 0 <= j < i ==> sel@[j].interface@ != interface@,
        decreases sel.len() - i,
    {
        if text::str_eq(sel[i].interface.as_str(), interface) {
            proof {
                assert(first_selection(sel@, interface@, i as int));
                let c = choose|c: int| first_selection(sel@, interface@, c);
                assert(c == i as int) by {
                    if c < i as int {
                    } else if c > i as int {
                    }
                }
            }
            return Some(i);
        }
        i = i + 1;
    }
    None
}

impl Shell {
    /// Interfaces where `module_id` is the graph's selected provider but has
    /// no runtime of its own yet: what enabling it must start.
    pub fn newly_active_backend_interfaces(&self, graph: &ModuleGraph, module_id: &str) -> (r: Vec<String>)
        ensures
            texts(r@) == newly_active_upto(*graph, self.backend_runtimes@, module_id@, graph.provider_contributions@.len() as int),
    {
        let mut out: Vec<String> = Vec::new();
        let mut k: usize = 0;
        while k < graph.provider_contributions.len()
            invariant
                k <= graph.provider_contributions@.len(),
                texts(out@) == newly_active_upto(*graph, self.backend_runtimes@, module_id@, k as int),
            decreases graph.provider_contributions.len() - k,
        {
            let p = &graph.provider_contributions[k];
            let selected = match find_selection(&graph.active_providers, p.interface.as_str()) {
                Some(i) => text::str_eq(graph.active_providers[i].module_id.as_str(), module_id),
                None => false,
            };
            let running_self = match crate::services::find_slot_pub(&self.backend_runtimes, p.interface.as_str()) {
                Some(i) => text::str_eq(self.backend_runtimes[i].provider_id.as_str(), module_id),
                None => false,
            };
            let ghost before = out@;
            if text::str_eq(p.module_id.as_str(), module_id) && selected && !running_self {
                out.push(p.interface.clone());
                proof {
                    assert(texts(out@) =~= texts(before).push(p.interface@));
                }
            }
            k = k + 1;
        }
        out
    }
}

// ---------------------------------------------------------------------------
// Provider selection.

/// Whether the graph has `provider_id` among the enabled providers of `interface`.
pub open spec fn declares_provider(g: ModuleGraph, interface: Seq<char>, provider_id: Seq<char>) -> bool {
    exists|k: int|
        0 <= k < g.provider_contributions@.len() && (#[trigger] g.provider_contributions@[k]).interface@
            == interface && g.provider_contributions@[k].module_id@ == provider_id
}

/// What selecting a provider for an interface comes to.
#[derive(Debug, Clone, Copy, PartialEq, Eq, Structural)]
pub enum ProviderSwitch {
    /// A profile switch is in progress; the request is dropped.
    Ignored,
    /// The selection was refused; a diagnostic was recorded.
    Rejected,
    /// A switch to this provider is already being prepared.
    AlreadyPending,
    /// The provider runs and is already the graph's selection.
    AlreadyActive,
    /// The provider runs; only the selection is to be saved, in the
    /// background when a profile write worker is available.
    SaveSelection { in_background: bool },
    /// A candidate runtime of the provider is to be started; the current
    /// provider stays active until the candidate is ready.
    StartCandidate,
}

pub open spec fn provider_switch_step(
    s: Shell,
    interface: Seq<char>,
    provider_id: Seq<char>,
    graph: Option<ModuleGraph>,
    transition_pending: bool,
    background_writes: bool,
    runtime_available: bool,
) -> ProviderSwitch {
    if transition_pending {
        ProviderSwitch::Ignored
    } else if graph is None {
        ProviderSwitch::Rejected
    } else if !declares_provider(graph.unwrap(), interface, provider_id) {
        ProviderSwitch::Rejected
    } else if running_provider(s.pending_backend_runtimes@, interface) == Some(provider_id) {
        ProviderSwitch::AlreadyPending
    } else if running_provider(s.backend_runtimes@, interface) == Some(provider_id) {
        if active_provider(graph.unwrap().active_providers@, interface) == Some(provider_id) {
            ProviderSwitch::AlreadyActive
        } else {
            ProviderSwitch::SaveSelection { in_background: background_writes }
        }
    } else if !runtime_available {
        ProviderSwitch::Rejected
    } else {
        ProviderSwitch::StartCandidate
    }
}

/// The diagnostic a refused selection records.
pub open spec fn provider_switch_error(
    interface: Seq<char>,
    provider_id: Seq<char>,
    graph_error: Option<Seq<char>>,
    declared: bool,
) -> (Seq<char>, Seq<char>, Seq<char>) {
    match graph_error {
        Some(e) => (
            "@mesh/settings"@,
            "provider_selection_graph_load_failed"@,
            "cannot select provider "@ + provider_id + " for "@ + interface + ": failed to load "@ + e,
        ),
        None => if !declared {
            (
                "@mesh/settings"@,
                "invalid_provider_selection"@,
                "cannot select provider "@ + provider_id + ": it is not an enabled provider for "@ + interface,
            )
        } else {
            (
                "@mesh/settings"@,
                "provider_switch_runtime_unavailable"@,
                "cannot switch provider "@ + provider_id + " for "@ + interface + ": backend runtime is unavailable"@,
            )
        },
    }
}

fn graph_declares(graph: &ModuleGraph, interface: &str, provider_id: &str) -> (r: bool)
    ensures
        r == declares_provider(*graph, interface@, provider_id@),
{
    let mut k: usize = 0;
    while k < graph.provider_contributions.len()
        invariant
            k <= graph.provider_contributions@.len(),
            forall|m: int| 0 <= m < k ==> !(graph.provider_contributions@[m].interface@ == interface@
                && graph.provider_contributions@[m].module_id@ == provider_id@),
        decreases graph.provider_contributions.len() - k,
    {
        if text::str_eq(graph.provider_contributions[k].interface.as_str(), interface)
            && text::str_eq(graph.provider_contributions[k].module_id.as_str(), provider_id) {
            return true;
        }
        k = k + 1;
    }
    false
}

impl Shell {
    fn record_settings_error(&mut self, code: &str, message: String)
        ensures
            error_views(final(self).diagnostics@) == error_views(old(self).diagnostics@).push(
                ("@mesh/settings"@, code@, message@),
            ),
            final(self).backend_runtimes == old(self).backend_runtimes,
            final(self).pending_backend_runtimes == old(self).pending_backend_runtimes,
            final(self).backend_statuses == old(self).backend_statuses,
            final(self).components == old(self).components,
    {
        let ghost before = self.diagnostics@;
        self.diagnostics.push(crate::shell::LifecycleError {
            module_id: String::from_str("@mesh/settings"),
            code: String::from_str(code),
            message,
        });
        proof {
            assert(error_views(self.diagnostics@) =~= error_views(before).push(("@mesh/settings"@, code@, message@)));
        }
    }

    /// Decides what selecting `provider_id` for `interface` comes to, given
    /// the installed module graph (or the text of the error loading it),
    /// whether a profile switch is in progress, whether profile writes run in
    /// the background, and whether a backend runtime is available to start
    /// candidates. A refusal records a diagnostic. Selecting the running
    /// provider cancels a switch being prepared for that interface: the
    /// prepared slot is handed back for retirement and recorded as stopped.
    pub fn apply_set_provider(
        &mut self,
        interface: &str,
        provider_id: &str,
        graph: Result<&ModuleGraph, &str>,
        transition_pending: bool,
        background_writes: bool,
        runtime_available: bool,
    ) -> (r: (ProviderSwitch, Option<BackendSlot>))
        ensures
            r.0 == provider_switch_step(
                *old(self),
                interface@,
                provider_id@,
                match graph {
                    Ok(g) => Some(*g),
                    Err(_) => None,
                },
                transition_pending,
                background_writes,
                runtime_available,
            ),
            r.0 == ProviderSwitch::Rejected ==> error_views(final(self).diagnostics@) == error_views(
                old(self).diagnostics@,
            ).push(
                provider_switch_error(
                    interface@,
                    provider_id@,
                    match graph {
                        Ok(_) => None,
                        Err(e) => Some(e@),
                    },
                    match graph {
                        Ok(g) => declares_provider(*g, interface@, provider_id@),
                        Err(_) => true,
                    },
                ),
            ),
            r.0 != ProviderSwitch::Rejected ==> final(self).diagnostics == old(self).diagnostics,
            (r.0 matches ProviderSwitch::SaveSelection { .. } || r.0 == ProviderSwitch::AlreadyActive)
                ==> match r.1 {
                Some(slot) => {
                    &&& exists|i: int|
                        crate::services::first_slot(old(self).pending_backend_runtimes@, interface@, i)
                            && slot == old(self).pending_backend_runtimes@[i]
                            && final(self).pending_backend_runtimes@ == old(self).pending_backend_runtimes@.remove(i)
                    &&& match crate::backend::record_of(final(self).backend_statuses@, slot.interface@, slot.provider_id@) {
                        Some(rec) => rec.status == BackendRuntimeStatus::Stopped && rec.message@ == "provider switch cancelled"@,
                        None => false,
                    }
                },
                None => running_provider(old(self).pending_backend_runtimes@, interface@) is None
                    && final(self).pending_backend_runtimes == old(self).pending_backend_runtimes,
            },
            !(r.0 matches ProviderSwitch::SaveSelection { .. } || r.0 == ProviderSwitch::AlreadyActive)
                ==> r.1 is None && final(self).pending_backend_runtimes == old(self).pending_backend_runtimes
                && final(self).backend_statuses == old(self).backend_statuses,
            final(self).backend_runtimes == old(self).backend_runtimes,
            final(self).components == old(self).components,
    {
        if transition_pending {
            return (ProviderSwitch::Ignored, None);
        }
        let g = match graph {
            Ok(g) => g,
            Err(e) => {
                let message = text::concat3("cannot select provider ", provider_id, " for ").concat(interface).concat(
                    ": failed to load ",
                ).concat(e);
                self.record_settings_error("provider_selection_graph_load_failed", message);
                return (ProviderSwitch::Rejected, None);
            },
        };
        if !graph_declares(g, interface, provider_id) {
            let message = text::concat3("cannot select provider ", provider_id, ": it is not an enabled provider for ").concat(
                interface,
            );
            self.record_settings_error("invalid_provider_selection", message);
            return (ProviderSwitch::Rejected, None);
        }
        let pending_same = match find_slot_pub(&self.pending_backend_runtimes, interface) {
            Some(i) => text::str_eq(self.pending_backend_runtimes[i].provider_id.as_str(), provider_id),
            None => false,
        };
        if pending_same {
            return (ProviderSwitch::AlreadyPending, None);
        }
        let running_same = match find_slot_pub(&self.backend_runtimes, interface) {
            Some(i) => text::str_eq(self.backend_runtimes[i].provider_id.as_str(), provider_id),
            None => false,
        };
        if running_same {
            let retired = match find_slot_pub(&self.pending_backend_runtimes, interface) {
                Some(i) => {
                    let slot = self.pending_backend_runtimes.remove(i);
                    self.record_backend_runtime_status(
                        slot.interface.clone(),
                        slot.provider_id.clone(),
                        BackendRuntimeStatus::Stopped,
                        String::from_str("provider switch cancelled"),
                    );
                    Some(slot)
                },
                None => None,
            };
            let selected = match find_selection(&g.active_providers, interface) {
                Some(i) => text::str_eq(g.active_providers[i].module_id.as_str(), provider_id),
                None => false,
            };
            if selected {
                return (ProviderSwitch::AlreadyActive, retired);
            }
            return (ProviderSwitch::SaveSelection { in_background: background_writes }, retired);
        }
        if !runtime_available {
            let message = text::concat3("cannot switch provider ", provider_id, " for ").concat(interface).concat(
                ": backend runtime is unavailable",
            );
            self.record_settings_error("provider_switch_runtime_unavailable", message);
            return (ProviderSwitch::Rejected, None);
        }
        (ProviderSwitch::StartCandidate, None)
    }
}


/// A provider's failure count never decreases, and each failure raises it
/// by one until the counter saturates.
pub proof fn law_failure_count_only_grows(previous: Option<BackendRuntimeRecord>, status: BackendRuntimeStatus)
    ensures
        ({
            let base: u32 = match previous {
                Some(r) => r.failure_count,
                None => 0,
            };
            &&& next_failure_count(previous, status) >= base
            &&& is_failure(status) && base < u32::MAX ==> next_failure_count(previous, status) == base + 1
            &&& !is_failure(status) ==> next_failure_count(previous, status) == base
        }),
{
}

} // verus!
