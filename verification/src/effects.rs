//! The shell's effect scheduler: requests are queued per producing source,
//! served round-robin under per-frame, per-source and per-transaction
//! budgets, and causal cycles and abusive producers are cut off.
use vstd::prelude::*;
use std::collections::hash_map::DefaultHasher;
use std::hash::Hasher;
use vstd::std_specs::hash::DefaultHasherAdditionalSpecFns;
use vstd::utf8::encode_utf8;
use crate::debug_text::{request_debug, request_debug_text};
use crate::services::{hash_text, hashed_text};
use crate::types::CoreRequest;
use crate::text;

verus! {

pub const MAX_EFFECTS_PER_FRAME: usize = 512;
pub const MAX_EFFECT_BYTES_PER_FRAME: usize = 524288;
pub const MAX_EFFECTS_PER_SOURCE_PER_FRAME: usize = 64;
pub const MAX_EFFECT_BYTES_PER_SOURCE_PER_FRAME: usize = 65536;
pub const MAX_EFFECTS_PER_TRANSACTION: usize = 256;
pub const MAX_REPEATED_CAUSAL_EFFECTS: usize = 4;
pub const MAX_SOURCE_BUDGET_VIOLATIONS: u32 = 3;

pub open spec fn sat_add(a: usize, b: usize) -> usize {
    if a + b > usize::MAX {
        usize::MAX
    } else {
        (a + b) as usize
    }
}

/// The weight a request charges against the byte budgets: 64 plus the
/// length in bytes of its debug rendering, saturating.
pub open spec fn request_weight(request: CoreRequest) -> usize {
    sat_add(64, encode_utf8(request_debug(request)).len() as usize)
}

/// The hash of a request's debug rendering, fed to a `DefaultHasher` as
/// `Hash for str` feeds a text: equal renderings give equal fingerprints.
pub open spec fn request_fingerprint(request: CoreRequest) -> u64 {
    DefaultHasher::spec_finish(hashed_text(request_debug(request)))
}

/// Fingerprint identifying repetitions of one request in a causal chain.
pub fn effect_fingerprint(request: &CoreRequest) -> (r: u64)
    ensures
        r == request_fingerprint(*request),
{
    let text = request_debug_text(request);
    let mut hasher = DefaultHasher::new();
    hash_text(&mut hasher, text.as_str());
    hasher.finish()
}

/// Weight of a request: 64 plus the length of its debug rendering, saturating.
pub fn effect_weight(request: &CoreRequest) -> (r: usize)
    ensures
        r == request_weight(*request),
{
    let text = request_debug_text(request);
    64usize.saturating_add(text.as_str().len())
}

/// The component runtime that produced an effect.
#[derive(Debug)]
pub struct EffectSource {
    pub module_id: String,
    pub runtime_id: String,
    pub generation: u64,
}

/// The identity of an effect source.
pub struct SourceKey {
    pub module_id: Seq<char>,
    pub runtime_id: Seq<char>,
    pub generation: u64,
}

impl View for EffectSource {
    type V = SourceKey;

    open spec fn view(&self) -> SourceKey {
        SourceKey {
            module_id: self.module_id@,
            runtime_id: self.runtime_id@,
            generation: self.generation,
        }
    }
}

impl EffectSource {
    pub fn new(module_id: &str, runtime_id: &str, generation: u64) -> (r: EffectSource)
        ensures
            r@ == (SourceKey { module_id: module_id@, runtime_id: runtime_id@, generation }),
    {
        EffectSource {
            module_id: String::from_str(module_id),
            runtime_id: String::from_str(runtime_id),
            generation,
        }
    }

    pub fn duplicate(&self) -> (r: EffectSource)
        ensures
            r == *self,
    {
        EffectSource {
            module_id: self.module_id.clone(),
            runtime_id: self.runtime_id.clone(),
            generation: self.generation,
        }
    }

    pub fn same(&self, other: &EffectSource) -> (r: bool)
        ensures
            r == (self@ == other@),
    {
        self.generation == other.generation && self.module_id == other.module_id
            && self.runtime_id == other.runtime_id
    }
}

/// The causal origin of an effect: who produced it, in which transaction,
/// and how many follow-up hops away from the transaction's root.
#[derive(Debug)]
pub struct EffectContext {
    pub source: EffectSource,
    pub transaction_id: u64,
    pub depth: u16,
}

impl EffectContext {
    pub fn duplicate(&self) -> (r: EffectContext)
        ensures
            r == *self,
    {
        EffectContext {
            source: self.source.duplicate(),
            transaction_id: self.transaction_id,
            depth: self.depth,
        }
    }
}

#[derive(Debug)]
pub struct ScheduledEffect {
    pub request: CoreRequest,
    pub context: EffectContext,
    pub fingerprint: u64,
}

pub open spec fn source_of(e: ScheduledEffect) -> SourceKey {
    e.context.source@
}

// ---------------------------------------------------------------------------
// Selections of effects.

/// Whether an effect belongs to the given source (if any) and transaction (if any).
pub open spec fn selects(e: ScheduledEffect, source: Option<SourceKey>, txn: Option<u64>) -> bool {
    (match source {
        Some(k) => source_of(e) == k,
        None => true,
    }) && (match txn {
        Some(t) => e.context.transaction_id == t,
        None => true,
    })
}

/// The effects that the selector keeps (`want`) or rejects (`!want`), in order.
pub open spec fn select(
    effects: Seq<ScheduledEffect>,
    source: Option<SourceKey>,
    txn: Option<u64>,
    want: bool,
) -> Seq<ScheduledEffect>
    decreases effects.len(),
{
    if effects.len() == 0 {
        Seq::empty()
    } else {
        let rest = select(effects.drop_last(), source, txn, want);
        if selects(effects.last(), source, txn) == want {
            rest.push(effects.last())
        } else {
            rest
        }
    }
}

pub open spec fn of_source(effects: Seq<ScheduledEffect>, k: SourceKey) -> Seq<ScheduledEffect> {
    select(effects, Some(k), None, true)
}

pub open spec fn not_of_source(effects: Seq<ScheduledEffect>, k: SourceKey) -> Seq<
    ScheduledEffect,
> {
    select(effects, Some(k), None, false)
}

pub open spec fn has_source(effects: Seq<ScheduledEffect>, k: SourceKey) -> bool {
    exists|i: int| 0 <= i < effects.len() && source_of(#[trigger] effects[i]) == k
}

/// The sources other than `k`, in order.
pub open spec fn sources_without(ready: Seq<EffectSource>, k: SourceKey) -> Seq<EffectSource>
    decreases ready.len(),
{
    if ready.len() == 0 {
        Seq::empty()
    } else {
        let rest = sources_without(ready.drop_last(), k);
        if ready.last()@ == k {
            rest
        } else {
            rest.push(ready.last())
        }
    }
}

/// Index of the first effect of source `k`.
pub open spec fn first_of_source(effects: Seq<ScheduledEffect>, k: SourceKey) -> int
    decreases effects.len(),
{
    if effects.len() == 0 {
        -1
    } else if source_of(effects[0]) == k {
        0
    } else {
        let r = first_of_source(effects.drop_first(), k);
        if r < 0 {
            -1
        } else {
            r + 1
        }
    }
}

pub proof fn lemma_select_len(
    effects: Seq<ScheduledEffect>,
    source: Option<SourceKey>,
    txn: Option<u64>,
    want: bool,
)
    ensures
        select(effects, source, txn, want).len() <= effects.len(),
        select(effects, source, txn, want).len() + select(effects, source, txn, !want).len()
            == effects.len(),
    decreases effects.len(),
{
    if effects.len() > 0 {
        lemma_select_len(effects.drop_last(), source, txn, want);
    }
}

pub proof fn lemma_select_members(
    effects: Seq<ScheduledEffect>,
    source: Option<SourceKey>,
    txn: Option<u64>,
    want: bool,
)
    ensures
        forall|i: int|
            0 <= i < select(effects, source, txn, want).len() ==> selects(
                #[trigger] select(effects, source, txn, want)[i],
                source,
                txn,
            ) == want,
    decreases effects.len(),
{
    if effects.len() > 0 {
        let t = effects.drop_last();
        lemma_select_members(t, source, txn, want);
        let r = select(t, source, txn, want);
        assert forall|i: int| 0 <= i < r.len() implies #[trigger] r.push(effects.last())[i] == r[i] by {}
    }
}

pub proof fn lemma_select_contains(
    effects: Seq<ScheduledEffect>,
    source: Option<SourceKey>,
    txn: Option<u64>,
    want: bool,
    e: ScheduledEffect,
)
    requires
        select(effects, source, txn, want).contains(e),
    ensures
        effects.contains(e),
{
    broadcast use vstd::seq_lib::group_to_multiset_ensures;

    lemma_select_multiset(effects, source, txn);
    let a = select(effects, source, txn, true).to_multiset();
    let b = select(effects, source, txn, false).to_multiset();
    assert(a.add(b).count(e) == a.count(e) + b.count(e));
}

pub proof fn lemma_select_multiset(
    effects: Seq<ScheduledEffect>,
    source: Option<SourceKey>,
    txn: Option<u64>,
)
    ensures
        select(effects, source, txn, true).to_multiset().add(
            select(effects, source, txn, false).to_multiset(),
        ) =~= effects.to_multiset(),
    decreases effects.len(),
{
    broadcast use vstd::seq_lib::group_to_multiset_ensures;

    if effects.len() > 0 {
        let t = effects.drop_last();
        lemma_select_multiset(t, source, txn);
        assert(effects =~= t.push(effects.last()));
    }
}

pub proof fn lemma_has_source_select(effects: Seq<ScheduledEffect>, k: SourceKey)
    ensures
        has_source(effects, k) == (of_source(effects, k).len() > 0),
        !has_source(not_of_source(effects, k), k),
    decreases effects.len(),
{
    lemma_select_members(effects, Some(k), None, true);
    lemma_select_members(effects, Some(k), None, false);
    if effects.len() > 0 {
        let t = effects.drop_last();
        lemma_has_source_select(t, k);
        if has_source(effects, k) && of_source(effects, k).len() == 0 {
            let i = choose|i: int| 0 <= i < effects.len() && source_of(effects[i]) == k;
            if i < effects.len() - 1 {
                assert(t[i] == effects[i]);
            }
        }
        if of_source(effects, k).len() > 0 {
            let e = of_source(effects, k)[0];
            assert(of_source(effects, k).contains(e));
            lemma_select_contains(effects, Some(k), None, true, e);
            let i = choose|i: int| 0 <= i < effects.len() && effects[i] == e;
            assert(source_of(effects[i]) == k);
        }
    }
}

pub proof fn lemma_first_of_source(effects: Seq<ScheduledEffect>, k: SourceKey)
    ensures
        -1 <= first_of_source(effects, k) < effects.len(),
        first_of_source(effects, k) >= 0 ==> source_of(effects[first_of_source(effects, k)]) == k,
        first_of_source(effects, k) >= 0 ==> forall|j: int|
            0 <= j < first_of_source(effects, k) ==> source_of(effects[j]) != k,
        (first_of_source(effects, k) >= 0) == has_source(effects, k),
    decreases effects.len(),
{
    if effects.len() > 0 && source_of(effects[0]) != k {
        let t = effects.drop_first();
        lemma_first_of_source(t, k);
        assert forall|j: int| 0 <= j < t.len() implies t[j] == effects[j + 1] by {}
        if first_of_source(effects, k) >= 0 {
            assert forall|j: int| 0 <= j < first_of_source(effects, k) implies source_of(
                effects[j],
            ) != k by {
                if j > 0 {
                    assert(t[j - 1] == effects[j]);
                }
            }
        }
        if has_source(effects, k) {
            let i = choose|i: int| 0 <= i < effects.len() && source_of(effects[i]) == k;
            assert(source_of(t[i - 1]) == k);
        }
    }
}

pub proof fn lemma_sources_without(ready: Seq<EffectSource>, k: SourceKey)
    ensures
        sources_without(ready, k).len() <= ready.len(),
        forall|i: int|
            0 <= i < sources_without(ready, k).len() ==> (#[trigger] sources_without(ready, k)[i])@
                != k,
    decreases ready.len(),
{
    if ready.len() > 0 {
        lemma_sources_without(ready.drop_last(), k);
    }
}

// ---------------------------------------------------------------------------
// Association lists keyed by source, transaction or causal key.

/// Index of the first entry for source `k`, or -1.
pub open spec fn source_entry<V>(entries: Seq<(EffectSource, V)>, k: SourceKey) -> int
    decreases entries.len(),
{
    if entries.len() == 0 {
        -1
    } else if entries[0].0@ == k {
        0
    } else {
        let r = source_entry(entries.drop_first(), k);
        if r < 0 {
            -1
        } else {
            r + 1
        }
    }
}

pub proof fn lemma_source_entry<V>(entries: Seq<(EffectSource, V)>, k: SourceKey)
    ensures
        -1 <= source_entry(entries, k) < entries.len(),
        source_entry(entries, k) >= 0 ==> entries[source_entry(entries, k)].0@ == k,
        forall|j: int|
            0 <= j < entries.len() && (source_entry(entries, k) < 0 || j < source_entry(
                entries,
                k,
            )) ==> entries[j].0@ != k,
    decreases entries.len(),
{
    if entries.len() > 0 && entries[0].0@ != k {
        let t = entries.drop_first();
        lemma_source_entry(t, k);
        assert forall|j: int|
            0 <= j < entries.len() && (source_entry(entries, k) < 0 || j < source_entry(
                entries,
                k,
            )) implies entries[j].0@ != k by {
            if j > 0 {
                assert(t[j - 1] == entries[j]);
            }
        }
    }
}

/// The value recorded for source `k`, zero when absent.
pub open spec fn source_count(entries: Seq<(EffectSource, usize)>, k: SourceKey) -> usize {
    let i = source_entry(entries, k);
    if i >= 0 {
        entries[i].1
    } else {
        0
    }
}

pub open spec fn source_violations(entries: Seq<(EffectSource, u32)>, k: SourceKey) -> u32 {
    let i = source_entry(entries, k);
    if i >= 0 {
        entries[i].1
    } else {
        0
    }
}

/// The list after recording `v` for `source`.
pub open spec fn source_put<V>(entries: Seq<(EffectSource, V)>, source: EffectSource, v: V) -> Seq<
    (EffectSource, V),
> {
    let i = source_entry(entries, source@);
    if i >= 0 {
        entries.update(i, (entries[i].0, v))
    } else {
        entries.push((source, v))
    }
}

pub open spec fn txn_entry(entries: Seq<(u64, usize)>, t: u64) -> int
    decreases entries.len(),
{
    if entries.len() == 0 {
        -1
    } else if entries[0].0 == t {
        0
    } else {
        let r = txn_entry(entries.drop_first(), t);
        if r < 0 {
            -1
        } else {
            r + 1
        }
    }
}

pub proof fn lemma_txn_entry(entries: Seq<(u64, usize)>, t: u64)
    ensures
        -1 <= txn_entry(entries, t) < entries.len(),
        txn_entry(entries, t) >= 0 ==> entries[txn_entry(entries, t)].0 == t,
        forall|j: int|
            0 <= j < entries.len() && (txn_entry(entries, t) < 0 || j < txn_entry(entries, t))
                ==> entries[j].0 != t,
    decreases entries.len(),
{
    if entries.len() > 0 && entries[0].0 != t {
        let s = entries.drop_first();
        lemma_txn_entry(s, t);
        assert forall|j: int|
            0 <= j < entries.len() && (txn_entry(entries, t) < 0 || j < txn_entry(entries, t))
                implies entries[j].0 != t by {
            if j > 0 {
                assert(s[j - 1] == entries[j]);
            }
        }
    }
}

pub open spec fn txn_count(entries: Seq<(u64, usize)>, t: u64) -> usize {
    let i = txn_entry(entries, t);
    if i >= 0 {
        entries[i].1
    } else {
        0
    }
}

/// `entry(t).or_default()`: the list with an entry for `t`.
pub open spec fn txn_ensure(entries: Seq<(u64, usize)>, t: u64) -> Seq<(u64, usize)> {
    if txn_entry(entries, t) >= 0 {
        entries
    } else {
        entries.push((t, 0))
    }
}

pub open spec fn txn_put(entries: Seq<(u64, usize)>, t: u64, v: usize) -> Seq<(u64, usize)> {
    let i = txn_entry(entries, t);
    if i >= 0 {
        entries.update(i, (t, v))
    } else {
        entries.push((t, v))
    }
}

/// Repetition counter of one fingerprint within a transaction's chain.
#[derive(Debug)]
pub struct CausalCount {
    pub transaction_id: u64,
    pub source: EffectSource,
    pub fingerprint: u64,
    pub count: usize,
}

pub open spec fn causal_entry(entries: Seq<CausalCount>, t: u64, k: SourceKey, fp: u64) -> int
    decreases entries.len(),
{
    if entries.len() == 0 {
        -1
    } else if entries[0].transaction_id == t && entries[0].source@ == k && entries[0].fingerprint
        == fp {
        0
    } else {
        let r = causal_entry(entries.drop_first(), t, k, fp);
        if r < 0 {
            -1
        } else {
            r + 1
        }
    }
}

pub proof fn lemma_causal_entry(entries: Seq<CausalCount>, t: u64, k: SourceKey, fp: u64)
    ensures
        -1 <= causal_entry(entries, t, k, fp) < entries.len(),
        causal_entry(entries, t, k, fp) >= 0 ==> ({
            let c = entries[causal_entry(entries, t, k, fp)];
            c.transaction_id == t && c.source@ == k && c.fingerprint == fp
        }),
        causal_entry(entries, t, k, fp) < 0 ==> forall|j: int|
            0 <= j < entries.len() ==> !(entries[j].transaction_id == t && entries[j].source@ == k
                && entries[j].fingerprint == fp),
    decreases entries.len(),
{
    if entries.len() > 0 && !(entries[0].transaction_id == t && entries[0].source@ == k
        && entries[0].fingerprint == fp) {
        let s = entries.drop_first();
        lemma_causal_entry(s, t, k, fp);
        assert forall|j: int| 0 <= j < s.len() implies s[j] == entries[j + 1] by {}
        if causal_entry(entries, t, k, fp) < 0 {
            assert forall|j: int| 0 <= j < entries.len() implies !(entries[j].transaction_id == t
                && entries[j].source@ == k && entries[j].fingerprint == fp) by {
                if j > 0 {
                    assert(s[j - 1] == entries[j]);
                }
            }
        }
    }
}

pub open spec fn chain_blocked(blocked: Seq<(u64, EffectSource)>, t: u64, k: SourceKey) -> bool {
    exists|i: int| 0 <= i < blocked.len() && #[trigger] blocked[i].0 == t && blocked[i].1@ == k
}

pub open spec fn source_listed(sources: Seq<EffectSource>, k: SourceKey) -> bool {
    exists|i: int| 0 <= i < sources.len() && (#[trigger] sources[i])@ == k
}


// ---------------------------------------------------------------------------
// Scheduler state.

/// Budget consumed in the current frame.
#[derive(Debug)]
pub struct EffectFrameBudget {
    pub processed: usize,
    pub bytes: usize,
    pub source_counts: Vec<(EffectSource, usize)>,
    pub source_bytes: Vec<(EffectSource, usize)>,
}

/// What the scheduler did to effects it did not run in a frame.
#[derive(Debug)]
pub struct EffectSchedulerReport {
    pub deferred: usize,
    pub dropped: usize,
    pub cycle_breaks: usize,
    pub transaction_budget_exceeded: usize,
    pub source_budget_exceeded: usize,
    pub quarantined_sources: Vec<EffectSource>,
}

/// Queues effects per source and hands them out fairly within budgets.
///
/// `queued` holds every effect waiting in a source queue in arrival order; a
/// source's queue is the subsequence of its effects. `ready_sources` is the
/// round-robin order of sources with waiting work, `deferred` the effects
/// carried to the next frame.
#[derive(Debug)]
pub struct EffectScheduler {
    pub queued: Vec<ScheduledEffect>,
    pub ready_sources: Vec<EffectSource>,
    pub deferred: Vec<ScheduledEffect>,
    pub next_transaction_id: u64,
    pub transaction_counts: Vec<(u64, usize)>,
    pub causal_counts: Vec<CausalCount>,
    pub source_budget_violations: Vec<(EffectSource, u32)>,
    pub quarantined_sources: Vec<EffectSource>,
    pub blocked_causal_chains: Vec<(u64, EffectSource)>,
    pub active_context: Option<EffectContext>,
    pub frame: Option<EffectFrameBudget>,
    pub report: EffectSchedulerReport,
}

pub struct FrameState {
    pub processed: usize,
    pub bytes: usize,
    pub source_counts: Seq<(EffectSource, usize)>,
    pub source_bytes: Seq<(EffectSource, usize)>,
}

pub struct ReportState {
    pub deferred: usize,
    pub dropped: usize,
    pub cycle_breaks: usize,
    pub transaction_budget_exceeded: usize,
    pub source_budget_exceeded: usize,
    pub quarantined_sources: Seq<EffectSource>,
}

pub struct SchedulerState {
    pub queued: Seq<ScheduledEffect>,
    pub ready: Seq<EffectSource>,
    pub deferred: Seq<ScheduledEffect>,
    pub next_transaction_id: u64,
    pub transaction_counts: Seq<(u64, usize)>,
    pub causal_counts: Seq<CausalCount>,
    pub violations: Seq<(EffectSource, u32)>,
    pub quarantined: Seq<EffectSource>,
    pub blocked: Seq<(u64, EffectSource)>,
    pub active_context: Option<EffectContext>,
    pub frame: Option<FrameState>,
    pub report: ReportState,
}

impl View for EffectFrameBudget {
    type V = FrameState;

    open spec fn view(&self) -> FrameState {
        FrameState {
            processed: self.processed,
            bytes: self.bytes,
            source_counts: self.source_counts@,
            source_bytes: self.source_bytes@,
        }
    }
}

impl View for EffectSchedulerReport {
    type V = ReportState;

    open spec fn view(&self) -> ReportState {
        ReportState {
            deferred: self.deferred,
            dropped: self.dropped,
            cycle_breaks: self.cycle_breaks,
            transaction_budget_exceeded: self.transaction_budget_exceeded,
            source_budget_exceeded: self.source_budget_exceeded,
            quarantined_sources: self.quarantined_sources@,
        }
    }
}

pub open spec fn frame_view(frame: Option<EffectFrameBudget>) -> Option<FrameState> {
    match frame {
        Some(f) => Some(f@),
        None => None,
    }
}

impl View for EffectScheduler {
    type V = SchedulerState;

    open spec fn view(&self) -> SchedulerState {
        SchedulerState {
            queued: self.queued@,
            ready: self.ready_sources@,
            deferred: self.deferred@,
            next_transaction_id: self.next_transaction_id,
            transaction_counts: self.transaction_counts@,
            causal_counts: self.causal_counts@,
            violations: self.source_budget_violations@,
            quarantined: self.quarantined_sources@,
            blocked: self.blocked_causal_chains@,
            active_context: self.active_context,
            frame: frame_view(self.frame),
            report: self.report@,
        }
    }
}

pub open spec fn empty_report() -> ReportState {
    ReportState {
        deferred: 0,
        dropped: 0,
        cycle_breaks: 0,
        transaction_budget_exceeded: 0,
        source_budget_exceeded: 0,
        quarantined_sources: Seq::empty(),
    }
}

pub open spec fn empty_frame() -> FrameState {
    FrameState { processed: 0, bytes: 0, source_counts: Seq::empty(), source_bytes: Seq::empty() }
}

impl SchedulerState {
    /// Every effect still owed a run: queued and deferred.
    pub open spec fn pending(self) -> Seq<ScheduledEffect> {
        self.queued + self.deferred
    }

    pub open spec fn wf(self) -> bool {
        self.queued.len() + self.deferred.len() <= usize::MAX
    }
}

pub open spec fn next_id(n: u64) -> u64 {
    if n == u64::MAX {
        1
    } else {
        (n + 1) as u64
    }
}

// ---------------------------------------------------------------------------
// Transitions.

/// `enqueue_with_context`: an effect of a quarantined source or of a blocked
/// causal chain is counted as dropped; any other joins its source's queue,
/// and a source without waiting work joins the back of the round-robin order.
pub open spec fn enqueue(s: SchedulerState, e: ScheduledEffect) -> SchedulerState {
    let k = source_of(e);
    if source_listed(s.quarantined, k) || chain_blocked(s.blocked, e.context.transaction_id, k) {
        SchedulerState { report: ReportState { dropped: sat_add(s.report.dropped, 1), ..s.report }, ..s }
    } else if has_source(s.queued, k) {
        SchedulerState { queued: s.queued.push(e), ..s }
    } else {
        SchedulerState { queued: s.queued.push(e), ready: s.ready.push(e.context.source), ..s }
    }
}

pub open spec fn enqueue_all(s: SchedulerState, effects: Seq<ScheduledEffect>) -> SchedulerState
    decreases effects.len(),
{
    if effects.len() == 0 {
        s
    } else {
        enqueue(enqueue_all(s, effects.drop_last()), effects.last())
    }
}

/// The effects of a batch: one fresh transaction, depth zero.
pub open spec fn batch_effects(items: Seq<(CoreRequest, EffectSource)>, txn: u64) -> Seq<
    ScheduledEffect,
> {
    Seq::new(
        items.len(),
        |i: int|
            ScheduledEffect {
                request: items[i].0,
                context: EffectContext { source: items[i].1, transaction_id: txn, depth: 0 },
                fingerprint: request_fingerprint(items[i].0),
            },
    )
}

pub open spec fn deeper(context: EffectContext) -> EffectContext {
    EffectContext {
        depth: if context.depth == u16::MAX {
            u16::MAX
        } else {
            (context.depth + 1) as u16
        },
        ..context
    }
}

/// Follow-up effects inherit the context one hop deeper.
pub open spec fn followup_effects(requests: Seq<CoreRequest>, context: EffectContext) -> Seq<
    ScheduledEffect,
> {
    Seq::new(
        requests.len(),
        |i: int|
            ScheduledEffect {
                request: requests[i],
                context: deeper(context),
                fingerprint: request_fingerprint(requests[i]),
            },
    )
}

/// A new frame: fresh budget and report, deferred effects re-enqueued.
pub open spec fn begin_frame_state(s: SchedulerState) -> SchedulerState {
    enqueue_all(
        SchedulerState {
            frame: Some(empty_frame()),
            report: empty_report(),
            deferred: Seq::empty(),
            ..s
        },
        s.deferred,
    )
}

/// Moves the queues of every ready source, in round-robin order, to the deferred list.
pub open spec fn defer_ready(s: SchedulerState) -> SchedulerState
    decreases s.ready.len(),
{
    if s.ready.len() == 0 {
        s
    } else {
        let k = s.ready[0]@;
        defer_ready(
            SchedulerState {
                ready: s.ready.drop_first(),
                queued: not_of_source(s.queued, k),
                deferred: s.deferred + of_source(s.queued, k),
                ..s
            },
        )
    }
}

/// Moves one source's queue to the deferred list.
pub open spec fn defer_source_state(s: SchedulerState, k: SourceKey) -> SchedulerState {
    SchedulerState {
        ready: sources_without(s.ready, k),
        queued: not_of_source(s.queued, k),
        deferred: s.deferred + of_source(s.queued, k),
        ..s
    }
}

/// Discards every pending effect of one source.
pub open spec fn drop_source_state(s: SchedulerState, k: SourceKey) -> SchedulerState {
    SchedulerState {
        ready: sources_without(s.ready, k),
        queued: not_of_source(s.queued, k),
        deferred: not_of_source(s.deferred, k),
        ..s
    }
}

/// Discards the pending effects of one causal chain (transaction and source);
/// the source's queued effects of other transactions move to the deferred list.
pub open spec fn drop_chain_state(s: SchedulerState, context: EffectContext) -> SchedulerState {
    let k = context.source@;
    let t = context.transaction_id;
    let ready1 = sources_without(s.ready, k);
    let q = of_source(s.queued, k);
    let s1 = if q.len() > 0 {
        let deferred1 = s.deferred + select(q, None, Some(t), false);
        SchedulerState {
            ready: if has_source(deferred1, k) {
                ready1.push(context.source)
            } else {
                ready1
            },
            queued: not_of_source(s.queued, k),
            deferred: deferred1,
            report: ReportState {
                dropped: sat_add(s.report.dropped, select(q, None, Some(t), true).len() as usize),
                ..s.report
            },
            ..s
        }
    } else {
        SchedulerState { ready: ready1, ..s }
    };
    SchedulerState { deferred: select(s1.deferred, Some(k), Some(t), false), ..s1 }
}

/// The state after deferring the rest of the frame with `effect` first.
pub open spec fn defer_rest(s: SchedulerState, effect: ScheduledEffect) -> SchedulerState {
    let s1 = defer_ready(SchedulerState { deferred: s.deferred.push(effect), ..s });
    SchedulerState { report: ReportState { deferred: s1.deferred.len() as usize, ..s1.report }, ..s1 }
}

/// Handling of an effect whose source exceeded its frame budget: deferred with
/// its source; the source is quarantined and its work discarded on the
/// third violation.
pub open spec fn over_source_budget(s: SchedulerState, effect: ScheduledEffect) -> SchedulerState {
    let source = effect.context.source;
    let k = source@;
    let s1 = defer_source_state(SchedulerState { deferred: s.deferred.push(effect), ..s }, k);
    let s2 = SchedulerState {
        report: ReportState {
            source_budget_exceeded: sat_add(s1.report.source_budget_exceeded, 1),
            ..s1.report
        },
        ..s1
    };
    let old_v = source_violations(s2.violations, k);
    let v: u32 = if old_v == u32::MAX {
        u32::MAX
    } else {
        (old_v + 1) as u32
    };
    let s3 = SchedulerState { violations: source_put(s2.violations, source, v), ..s2 };
    let s4 = if v >= MAX_SOURCE_BUDGET_VIOLATIONS && !source_listed(s3.quarantined, k) {
        drop_source_state(
            SchedulerState {
                quarantined: s3.quarantined.push(source),
                report: ReportState {
                    quarantined_sources: s3.report.quarantined_sources.push(source),
                    ..s3.report
                },
                ..s3
            },
            k,
        )
    } else {
        s3
    };
    SchedulerState { report: ReportState { deferred: s4.deferred.len() as usize, ..s4.report }, ..s4 }
}

pub proof fn lemma_drop_chain_shrinks(s: SchedulerState, context: EffectContext)
    ensures
        drop_chain_state(s, context).queued.len() <= s.queued.len(),
{
    lemma_select_len(s.queued, Some(context.source@), None, false);
}

pub proof fn lemma_drop_source_shrinks(s: SchedulerState, k: SourceKey)
    ensures
        drop_source_state(s, k).queued.len() <= s.queued.len(),
{
    lemma_select_len(s.queued, Some(k), None, false);
}

pub proof fn lemma_over_source_budget_shrinks(s: SchedulerState, effect: ScheduledEffect)
    ensures
        over_source_budget(s, effect).queued.len() <= s.queued.len(),
{
    let k = effect.context.source@;
    lemma_select_len(s.queued, Some(k), None, false);
    let s1 = defer_source_state(SchedulerState { deferred: s.deferred.push(effect), ..s }, k);
    lemma_select_len(s1.queued, Some(k), None, false);
}

/// Some ready source still has an effect queued.
pub open spec fn ready_has_work(s: SchedulerState) -> bool {
    exists|n: int| 0 <= n < s.ready.len() && has_source(s.queued, (#[trigger] s.ready[n])@)
}

/// One round of the scheduler: the next effect to run, if the frame admits one.
pub open spec fn next_step(s: SchedulerState) -> (SchedulerState, Option<ScheduledEffect>)
    decreases s.queued.len(), s.ready.len(),
{
    if s.ready.len() == 0 {
        (s, None)
    } else {
        let source = s.ready[0];
        let k = source@;
        let s1 = SchedulerState { ready: s.ready.drop_first(), ..s };
        if !has_source(s1.queued, k) {
            next_step(s1)
        } else {
            let i = first_of_source(s1.queued, k);
            proof {
                lemma_first_of_source(s1.queued, k);
            }
            let effect = s1.queued[i];
            let q2 = s1.queued.remove(i);
            let s2 = SchedulerState {
                queued: q2,
                ready: if has_source(q2, k) {
                    s1.ready.push(source)
                } else {
                    s1.ready
                },
                ..s1
            };
            let w = request_weight(effect.request);
            let frame = s2.frame.unwrap();
            let t = effect.context.transaction_id;
            if frame.processed >= MAX_EFFECTS_PER_FRAME {
                (defer_rest(s2, effect), None)
            } else if w > MAX_EFFECT_BYTES_PER_FRAME {
                let s3 = drop_chain_state(s2, effect.context);
                proof {
                    lemma_drop_chain_shrinks(s2, effect.context);
                }
                next_step(
                    SchedulerState {
                        report: ReportState { dropped: sat_add(s3.report.dropped, 1), ..s3.report },
                        ..s3
                    },
                )
            } else if sat_add(frame.bytes, w) > MAX_EFFECT_BYTES_PER_FRAME {
                (defer_rest(s2, effect), None)
            } else if source_count(frame.source_counts, k) >= MAX_EFFECTS_PER_SOURCE_PER_FRAME
                || sat_add(source_count(frame.source_bytes, k), w)
                > MAX_EFFECT_BYTES_PER_SOURCE_PER_FRAME {
                proof {
                    lemma_over_source_budget_shrinks(s2, effect);
                }
                next_step(over_source_budget(s2, effect))
            } else {
                let tc = txn_count(s2.transaction_counts, t);
                let s3 = SchedulerState {
                    transaction_counts: txn_ensure(s2.transaction_counts, t),
                    ..s2
                };
                if tc >= MAX_EFFECTS_PER_TRANSACTION {
                    let s4 = drop_chain_state(s3, effect.context);
                    proof {
                        lemma_drop_chain_shrinks(s3, effect.context);
                    }
                    next_step(
                        SchedulerState {
                            report: ReportState {
                                transaction_budget_exceeded: sat_add(
                                    s4.report.transaction_budget_exceeded,
                                    1,
                                ),
                                dropped: sat_add(s4.report.dropped, 1),
                                ..s4.report
                            },
                            ..s4
                        },
                    )
                } else {
                    let ci = causal_entry(s3.causal_counts, t, k, effect.fingerprint);
                    let old_c = if ci >= 0 {
                        s3.causal_counts[ci].count
                    } else {
                        0
                    };
                    let c = sat_add(old_c, 1);
                    let counts = if ci >= 0 {
                        s3.causal_counts.update(ci, CausalCount { count: c, ..s3.causal_counts[ci] })
                    } else {
                        s3.causal_counts.push(
                            CausalCount {
                                transaction_id: t,
                                source: effect.context.source,
                                fingerprint: effect.fingerprint,
                                count: c,
                            },
                        )
                    };
                    if effect.context.depth > 0 && c > MAX_REPEATED_CAUSAL_EFFECTS {
                        let s4 = drop_chain_state(
                            SchedulerState { causal_counts: counts, ..s3 },
                            effect.context,
                        );
                        proof {
                            lemma_drop_chain_shrinks(
                                SchedulerState { causal_counts: counts, ..s3 },
                                effect.context,
                            );
                        }
                        next_step(
                            SchedulerState {
                                blocked: if chain_blocked(s4.blocked, t, k) {
                                    s4.blocked
                                } else {
                                    s4.blocked.push((t, effect.context.source))
                                },
                                report: ReportState {
                                    cycle_breaks: sat_add(s4.report.cycle_breaks, 1),
                                    dropped: sat_add(s4.report.dropped, 1),
                                    ..s4.report
                                },
                                ..s4
                            },
                        )
                    } else {
                        let s4 = if effect.context.depth > 0 {
                            SchedulerState { causal_counts: counts, ..s3 }
                        } else {
                            s3
                        };
                        (
                            SchedulerState {
                                frame: Some(
                                    FrameState {
                                        processed: (frame.processed + 1) as usize,
                                        bytes: sat_add(frame.bytes, w),
                                        source_counts: source_put(
                                            frame.source_counts,
                                            source,
                                            (source_count(frame.source_counts, k) + 1) as usize,
                                        ),
                                        source_bytes: source_put(
                                            frame.source_bytes,
                                            source,
                                            (source_count(frame.source_bytes, k) + w) as usize,
                                        ),
                                    },
                                ),
                                transaction_counts: txn_put(s4.transaction_counts, t, (tc + 1) as usize),
                                ..s4
                            },
                            Some(effect),
                        )
                    }
                }
            }
        }
    }
}


// ---------------------------------------------------------------------------
// Executable helpers.

pub open spec fn key_of(source: Option<&EffectSource>) -> Option<SourceKey> {
    match source {
        Some(s) => Some(s@),
        None => None,
    }
}

fn effect_selected(e: &ScheduledEffect, source: Option<&EffectSource>, txn: Option<u64>) -> (r:
    bool)
    ensures
        r == selects(*e, key_of(source), txn),
{
    let source_ok = match source {
        Some(s) => e.context.source.same(s),
        None => true,
    };
    let txn_ok = match txn {
        Some(t) => e.context.transaction_id == t,
        None => true,
    };
    source_ok && txn_ok
}

/// Splits effects, keeping order, into those the selector keeps and the rest.
fn partition_effects(
    effects: Vec<ScheduledEffect>,
    source: Option<&EffectSource>,
    txn: Option<u64>,
) -> (r: (Vec<ScheduledEffect>, Vec<ScheduledEffect>))
    ensures
        r.0@ == select(effects@, key_of(source), txn, true),
        r.1@ == select(effects@, key_of(source), txn, false),
{
    let ghost all = effects@;
    let mut rest = effects;
    let mut kept: Vec<ScheduledEffect> = Vec::new();
    let mut other: Vec<ScheduledEffect> = Vec::new();
    let ghost mut i: int = 0;
    while rest.len() > 0
        invariant
            0 <= i <= all.len(),
            rest@ == all.subrange(i, all.len() as int),
            kept@ == select(all.subrange(0, i), key_of(source), txn, true),
            other@ == select(all.subrange(0, i), key_of(source), txn, false),
        decreases rest.len(),
    {
        let e = rest.remove(0);
        proof {
            assert(all.subrange(0, i + 1).drop_last() =~= all.subrange(0, i));
            assert(all.subrange(0, i + 1).last() == e);
        }
        if effect_selected(&e, source, txn) {
            kept.push(e);
        } else {
            other.push(e);
        }
        proof {
            i = i + 1;
            assert(rest@ =~= all.subrange(i, all.len() as int));
        }
    }
    proof {
        assert(all.subrange(0, i) =~= all);
    }
    (kept, other)
}

/// The sources other than `k`, keeping order.
fn sources_except(ready: Vec<EffectSource>, k: &EffectSource) -> (r: Vec<EffectSource>)
    ensures
        r@ == sources_without(ready@, k@),
{
    let ghost all = ready@;
    let mut rest = ready;
    let mut out: Vec<EffectSource> = Vec::new();
    let ghost mut i: int = 0;
    while rest.len() > 0
        invariant
            0 <= i <= all.len(),
            rest@ == all.subrange(i, all.len() as int),
            out@ == sources_without(all.subrange(0, i), k@),
        decreases rest.len(),
    {
        let s = rest.remove(0);
        proof {
            assert(all.subrange(0, i + 1).drop_last() =~= all.subrange(0, i));
            assert(all.subrange(0, i + 1).last() == s);
        }
        if !s.same(k) {
            out.push(s);
        }
        proof {
            i = i + 1;
            assert(rest@ =~= all.subrange(i, all.len() as int));
        }
    }
    proof {
        assert(all.subrange(0, i) =~= all);
    }
    out
}

fn has_effect_of(effects: &Vec<ScheduledEffect>, k: &EffectSource) -> (r: bool)
    ensures
        r == has_source(effects@, k@),
{
    let mut i: usize = 0;
    while i < effects.len()
        invariant
            i <= effects@.len(),
            forall|j: int| 0 <= j < i ==> source_of(effects@[j]) != k@,
        decreases effects.len() - i,
    {
        if effects[i].context.source.same(k) {
            return true;
        }
        i = i + 1;
    }
    false
}

fn first_effect_of(effects: &Vec<ScheduledEffect>, k: &EffectSource) -> (r: Option<usize>)
    ensures
        match r {
            Some(i) => first_of_source(effects@, k@) == i as int,
            None => first_of_source(effects@, k@) == -1,
        },
{
    proof {
        lemma_first_of_source(effects@, k@);
    }
    let mut i: usize = 0;
    while i < effects.len()
        invariant
            i <= effects@.len(),
            forall|j: int| 0 <= j < i ==> source_of(effects@[j]) != k@,
            -1 <= first_of_source(effects@, k@) < effects@.len(),
            first_of_source(effects@, k@) >= 0 ==> source_of(effects@[first_of_source(effects@, k@)]) == k@,
            first_of_source(effects@, k@) >= 0 ==> forall|j: int|
                0 <= j < first_of_source(effects@, k@) ==> source_of(effects@[j]) != k@,
            (first_of_source(effects@, k@) >= 0) == has_source(effects@, k@),
        decreases effects.len() - i,
    {
        if effects[i].context.source.same(k) {
            return Some(i);
        }
        i = i + 1;
    }
    None
}

fn find_source_entry<V>(entries: &Vec<(EffectSource, V)>, k: &EffectSource) -> (r: Option<usize>)
    ensures
        match r {
            Some(i) => source_entry(entries@, k@) == i as int && i < entries@.len(),
            None => source_entry(entries@, k@) == -1,
        },
{
    proof {
        lemma_source_entry(entries@, k@);
    }
    let mut i: usize = 0;
    while i < entries.len()
        invariant
            i <= entries@.len(),
            forall|j: int| 0 <= j < i ==> entries@[j].0@ != k@,
            -1 <= source_entry(entries@, k@) < entries@.len(),
            source_entry(entries@, k@) >= 0 ==> entries@[source_entry(entries@, k@)].0@ == k@,
            forall|j: int|
                0 <= j < entries@.len() && (source_entry(entries@, k@) < 0 || j < source_entry(
                    entries@,
                    k@,
                )) ==> entries@[j].0@ != k@,
        decreases entries.len() - i,
    {
        if entries[i].0.same(k) {
            return Some(i);
        }
        i = i + 1;
    }
    None
}

fn find_txn_entry(entries: &Vec<(u64, usize)>, t: u64) -> (r: Option<usize>)
    ensures
        match r {
            Some(i) => txn_entry(entries@, t) == i as int && i < entries@.len(),
            None => txn_entry(entries@, t) == -1,
        },
{
    proof {
        lemma_txn_entry(entries@, t);
    }
    let mut i: usize = 0;
    while i < entries.len()
        invariant
            i <= entries@.len(),
            forall|j: int| 0 <= j < i ==> entries@[j].0 != t,
            -1 <= txn_entry(entries@, t) < entries@.len(),
            txn_entry(entries@, t) >= 0 ==> entries@[txn_entry(entries@, t)].0 == t,
            forall|j: int|
                0 <= j < entries@.len() && (txn_entry(entries@, t) < 0 || j < txn_entry(
                    entries@,
                    t,
                )) ==> entries@[j].0 != t,
        decreases entries.len() - i,
    {
        if entries[i].0 == t {
            return Some(i);
        }
        i = i + 1;
    }
    None
}

fn find_causal_entry(entries: &Vec<CausalCount>, t: u64, k: &EffectSource, fp: u64) -> (r: Option<
    usize,
>)
    ensures
        match r {
            Some(i) => causal_entry(entries@, t, k@, fp) == i as int && i < entries@.len(),
            None => causal_entry(entries@, t, k@, fp) == -1,
        },
{
    proof {
        lemma_causal_entry(entries@, t, k@, fp);
    }
    let mut i: usize = 0;
    while i < entries.len()
        invariant
            i <= entries@.len(),
            forall|j: int|
                0 <= j < i ==> !(entries@[j].transaction_id == t && entries@[j].source@ == k@
                    && entries@[j].fingerprint == fp),
            -1 <= causal_entry(entries@, t, k@, fp) < entries@.len(),
            causal_entry(entries@, t, k@, fp) >= 0 ==> ({
                let c = entries@[causal_entry(entries@, t, k@, fp)];
                c.transaction_id == t && c.source@ == k@ && c.fingerprint == fp
            }),
        decreases entries.len() - i,
    {
        if entries[i].transaction_id == t && entries[i].fingerprint == fp
            && entries[i].source.same(k) {
            proof {
                lemma_causal_first(entries@, t, k@, fp, i as int);
            }
            return Some(i);
        }
        i = i + 1;
    }
    proof {
        lemma_causal_none(entries@, t, k@, fp);
    }
    None
}

proof fn lemma_causal_first(entries: Seq<CausalCount>, t: u64, k: SourceKey, fp: u64, i: int)
    requires
        0 <= i < entries.len(),
        entries[i].transaction_id == t && entries[i].source@ == k && entries[i].fingerprint == fp,
        forall|j: int|
            0 <= j < i ==> !(entries[j].transaction_id == t && entries[j].source@ == k
                && entries[j].fingerprint == fp),
    ensures
        causal_entry(entries, t, k, fp) == i,
    decreases i,
{
    if i > 0 {
        let s = entries.drop_first();
        assert forall|j: int|
            0 <= j < i - 1 implies !(s[j].transaction_id == t && s[j].source@ == k
            && s[j].fingerprint == fp) by {
            assert(s[j] == entries[j + 1]);
        }
        lemma_causal_first(s, t, k, fp, i - 1);
    }
}

proof fn lemma_causal_none(entries: Seq<CausalCount>, t: u64, k: SourceKey, fp: u64)
    requires
        forall|j: int|
            0 <= j < entries.len() ==> !(entries[j].transaction_id == t && entries[j].source@ == k
                && entries[j].fingerprint == fp),
    ensures
        causal_entry(entries, t, k, fp) == -1,
    decreases entries.len(),
{
    if entries.len() > 0 {
        let s = entries.drop_first();
        assert forall|j: int|
            0 <= j < s.len() implies !(s[j].transaction_id == t && s[j].source@ == k
            && s[j].fingerprint == fp) by {
            assert(s[j] == entries[j + 1]);
        }
        lemma_causal_none(s, t, k, fp);
    }
}

fn source_is_listed(sources: &Vec<EffectSource>, k: &EffectSource) -> (r: bool)
    ensures
        r == source_listed(sources@, k@),
{
    let mut i: usize = 0;
    while i < sources.len()
        invariant
            i <= sources@.len(),
            forall|j: int| 0 <= j < i ==> sources@[j]@ != k@,
        decreases sources.len() - i,
    {
        if sources[i].same(k) {
            return true;
        }
        i = i + 1;
    }
    false
}

fn chain_is_blocked(blocked: &Vec<(u64, EffectSource)>, t: u64, k: &EffectSource) -> (r: bool)
    ensures
        r == chain_blocked(blocked@, t, k@),
{
    let mut i: usize = 0;
    while i < blocked.len()
        invariant
            i <= blocked@.len(),
            forall|j: int| 0 <= j < i ==> !(blocked@[j].0 == t && blocked@[j].1@ == k@),
        decreases blocked.len() - i,
    {
        if blocked[i].0 == t && blocked[i].1.same(k) {
            return true;
        }
        i = i + 1;
    }
    false
}

fn source_count_of(entries: &Vec<(EffectSource, usize)>, k: &EffectSource) -> (r: usize)
    ensures
        r == source_count(entries@, k@),
{
    match find_source_entry(entries, k) {
        Some(i) => entries[i].1,
        None => 0,
    }
}

fn source_set(entries: &mut Vec<(EffectSource, usize)>, source: &EffectSource, v: usize)
    ensures
        final(entries)@ == source_put(old(entries)@, *source, v),
{
    match find_source_entry(entries, source) {
        Some(i) => {
            let key = entries[i].0.duplicate();
            entries.set(i, (key, v));
        },
        None => {
            entries.push((source.duplicate(), v));
        },
    }
}

fn empty_report_value() -> (r: EffectSchedulerReport)
    ensures
        r@ == empty_report(),
{
    EffectSchedulerReport {
        deferred: 0,
        dropped: 0,
        cycle_breaks: 0,
        transaction_budget_exceeded: 0,
        source_budget_exceeded: 0,
        quarantined_sources: Vec::new(),
    }
}

impl Default for EffectScheduler {
    fn default() -> (r: EffectScheduler)
        ensures
            r@.queued.len() == 0,
            r@.ready.len() == 0,
            r@.deferred.len() == 0,
            r@.next_transaction_id == 1,
            r@.transaction_counts.len() == 0,
            r@.causal_counts.len() == 0,
            r@.violations.len() == 0,
            r@.quarantined.len() == 0,
            r@.blocked.len() == 0,
            r@.active_context is None,
            r@.frame is None,
            r@.report == empty_report(),
    {
        EffectScheduler {
            queued: Vec::new(),
            ready_sources: Vec::new(),
            deferred: Vec::new(),
            next_transaction_id: 1,
            transaction_counts: Vec::new(),
            causal_counts: Vec::new(),
            source_budget_violations: Vec::new(),
            quarantined_sources: Vec::new(),
            blocked_causal_chains: Vec::new(),
            active_context: None,
            frame: None,
            report: empty_report_value(),
        }
    }
}


impl EffectScheduler {
    /// Hands out a transaction identifier; identifiers are never zero and wrap.
    pub fn next_transaction_id(&mut self) -> (r: u64)
        ensures
            r == old(self)@.next_transaction_id,
            final(self)@ == (SchedulerState { next_transaction_id: next_id(r), ..old(self)@ }),
    {
        let transaction_id = self.next_transaction_id;
        let w = self.next_transaction_id.wrapping_add(1);
        self.next_transaction_id = if w < 1 {
            1
        } else {
            w
        };
        transaction_id
    }

    pub fn enqueue_with_context(&mut self, effect: ScheduledEffect)
        requires
            old(self)@.queued.len() + old(self)@.deferred.len() < usize::MAX,
        ensures
            final(self)@ == enqueue(old(self)@, effect),
    {
        let source = effect.context.source.duplicate();
        if source_is_listed(&self.quarantined_sources, &source) || chain_is_blocked(
            &self.blocked_causal_chains,
            effect.context.transaction_id,
            &source,
        ) {
            self.report.dropped = self.report.dropped.saturating_add(1);
            return;
        }
        let was_empty = !has_effect_of(&self.queued, &source);
        self.queued.push(effect);
        if was_empty {
            self.ready_sources.push(source);
        }
    }

    /// Enqueues every effect of `effects` in order.
    fn enqueue_each(&mut self, effects: Vec<ScheduledEffect>)
        requires
            old(self)@.queued.len() + old(self)@.deferred.len() + effects@.len() <= usize::MAX,
        ensures
            final(self)@ == enqueue_all(old(self)@, effects@),
    {
        let ghost all = effects@;
        let ghost start = self@;
        let mut rest = effects;
        let ghost mut i: int = 0;
        while rest.len() > 0
            invariant
                0 <= i <= all.len(),
                rest@ == all.subrange(i, all.len() as int),
                self@ == enqueue_all(start, all.subrange(0, i)),
                self@.queued.len() + self@.deferred.len() <= start.queued.len()
                    + start.deferred.len() + i,
                start.queued.len() + start.deferred.len() + all.len() <= usize::MAX,
            decreases rest.len(),
        {
            let e = rest.remove(0);
            proof {
                assert(all.subrange(0, i + 1).drop_last() =~= all.subrange(0, i));
                assert(all.subrange(0, i + 1).last() == e);
            }
            self.enqueue_with_context(e);
            proof {
                i = i + 1;
                assert(rest@ =~= all.subrange(i, all.len() as int));
            }
        }
        proof {
            assert(all.subrange(0, i) =~= all);
        }
    }

    /// Enqueues a batch of effects as one new transaction.
    pub fn enqueue_batch(&mut self, items: Vec<(CoreRequest, EffectSource)>)
        requires
            old(self)@.queued.len() + old(self)@.deferred.len() + items@.len() <= usize::MAX,
        ensures
            final(self)@ == enqueue_all(
                SchedulerState { next_transaction_id: next_id(old(self)@.next_transaction_id), ..old(self)@ },
                batch_effects(items@, old(self)@.next_transaction_id),
            ),
    {
        let transaction_id = self.next_transaction_id();
        let ghost all = items@;
        let mut rest = items;
        let mut effects: Vec<ScheduledEffect> = Vec::new();
        let ghost mut i: int = 0;
        while rest.len() > 0
            invariant
                0 <= i <= all.len(),
                rest@ == all.subrange(i, all.len() as int),
                effects@ == batch_effects(all, transaction_id).subrange(0, i),
            decreases rest.len(),
        {
            let (request, source) = rest.remove(0);
            let fingerprint = effect_fingerprint(&request);
            effects.push(
                ScheduledEffect {
                    request,
                    context: EffectContext { source, transaction_id, depth: 0 },
                    fingerprint,
                },
            );
            proof {
                i = i + 1;
                assert(rest@ =~= all.subrange(i, all.len() as int));
                assert(effects@ =~= batch_effects(all, transaction_id).subrange(0, i));
            }
        }
        proof {
            assert(batch_effects(all, transaction_id).subrange(0, i) =~= batch_effects(all, transaction_id));
        }
        self.enqueue_each(effects);
    }

    /// Enqueues follow-ups of the effect being applied, one hop deeper in its
    /// causal chain; without an active effect they are discarded.
    pub fn enqueue_followups(&mut self, requests: Vec<CoreRequest>)
        requires
            old(self)@.queued.len() + old(self)@.deferred.len() + requests@.len() <= usize::MAX,
        ensures
            final(self)@ == match old(self)@.active_context {
                Some(context) => enqueue_all(old(self)@, followup_effects(requests@, context)),
                None => old(self)@,
            },
    {
        let context = match &self.active_context {
            Some(context) => context.duplicate(),
            None => {
                return;
            },
        };
        let depth = context.depth.saturating_add(1);
        let ghost all = requests@;
        let mut rest = requests;
        let mut effects: Vec<ScheduledEffect> = Vec::new();
        let ghost mut i: int = 0;
        while rest.len() > 0
            invariant
                0 <= i <= all.len(),
                rest@ == all.subrange(i, all.len() as int),
                effects@ == followup_effects(all, context).subrange(0, i),
                depth == deeper(context).depth,
            decreases rest.len(),
        {
            let request = rest.remove(0);
            let fingerprint = effect_fingerprint(&request);
            let followup_context = EffectContext {
                source: context.source.duplicate(),
                transaction_id: context.transaction_id,
                depth,
            };
            effects.push(ScheduledEffect { request, context: followup_context, fingerprint });
            proof {
                i = i + 1;
                assert(rest@ =~= all.subrange(i, all.len() as int));
                assert(effects@ =~= followup_effects(all, context).subrange(0, i));
            }
        }
        proof {
            assert(followup_effects(all, context).subrange(0, i) =~= followup_effects(all, context));
        }
        self.enqueue_each(effects);
    }

    /// Opens a frame: a fresh budget and report, deferred work re-enqueued.
    pub fn begin_frame(&mut self)
        requires
            old(self)@.wf(),
        ensures
            final(self)@ == begin_frame_state(old(self)@),
    {
        self.frame = Some(
            EffectFrameBudget {
                processed: 0,
                bytes: 0,
                source_counts: Vec::new(),
                source_bytes: Vec::new(),
            },
        );
        self.report = empty_report_value();
        let mut deferred: Vec<ScheduledEffect> = Vec::new();
        std::mem::swap(&mut deferred, &mut self.deferred);
        self.enqueue_each(deferred);
    }

    pub fn active_context(&self) -> (r: Option<EffectContext>)
        ensures
            r == self@.active_context,
    {
        match &self.active_context {
            Some(context) => Some(context.duplicate()),
            None => None,
        }
    }

    pub fn set_active_context(&mut self, context: EffectContext)
        ensures
            final(self)@ == (SchedulerState { active_context: Some(context), ..old(self)@ }),
    {
        self.active_context = Some(context);
    }

    pub fn clear_active_context(&mut self)
        ensures
            final(self)@ == (SchedulerState { active_context: None, ..old(self)@ }),
    {
        self.active_context = None;
    }

    /// Moves every ready source's queue, in round-robin order, to the deferred list.
    pub fn defer_ready_queues(&mut self)
        ensures
            final(self)@ == defer_ready(old(self)@),
    {
        while self.ready_sources.len() > 0
            invariant
                defer_ready(self@) == defer_ready(old(self)@),
            decreases self.ready_sources.len(),
        {
            let ghost before = self@;
            let source = self.ready_sources.remove(0);
            let mut queued: Vec<ScheduledEffect> = Vec::new();
            std::mem::swap(&mut queued, &mut self.queued);
            let (mut moved, rest) = partition_effects(queued, Some(&source), None);
            self.queued = rest;
            self.deferred.append(&mut moved);
            proof {
                assert(self@ == (SchedulerState {
                    ready: before.ready.drop_first(),
                    queued: not_of_source(before.queued, source@),
                    deferred: before.deferred + of_source(before.queued, source@),
                    ..before
                }));
            }
        }
    }

    /// Moves one source's queue to the deferred list.
    pub fn defer_source(&mut self, source: &EffectSource)
        ensures
            final(self)@ == defer_source_state(old(self)@, source@),
    {
        let mut ready: Vec<EffectSource> = Vec::new();
        std::mem::swap(&mut ready, &mut self.ready_sources);
        self.ready_sources = sources_except(ready, source);
        let mut queued: Vec<ScheduledEffect> = Vec::new();
        std::mem::swap(&mut queued, &mut self.queued);
        let (mut moved, rest) = partition_effects(queued, Some(source), None);
        self.queued = rest;
        self.deferred.append(&mut moved);
    }

    /// Discards every pending effect of one source.
    pub fn drop_source(&mut self, source: &EffectSource)
        ensures
            final(self)@ == drop_source_state(old(self)@, source@),
    {
        let mut ready: Vec<EffectSource> = Vec::new();
        std::mem::swap(&mut ready, &mut self.ready_sources);
        self.ready_sources = sources_except(ready, source);
        let mut queued: Vec<ScheduledEffect> = Vec::new();
        std::mem::swap(&mut queued, &mut self.queued);
        let (_, rest) = partition_effects(queued, Some(source), None);
        self.queued = rest;
        let mut deferred: Vec<ScheduledEffect> = Vec::new();
        std::mem::swap(&mut deferred, &mut self.deferred);
        let (_, kept) = partition_effects(deferred, Some(source), None);
        self.deferred = kept;
    }

    /// Discards the pending effects of one causal chain.
    pub fn drop_causal_chain(&mut self, context: &EffectContext)
        ensures
            final(self)@ == drop_chain_state(old(self)@, *context),
    {
        let ghost s = self@;
        let source = &context.source;
        let t = context.transaction_id;
        let mut ready: Vec<EffectSource> = Vec::new();
        std::mem::swap(&mut ready, &mut self.ready_sources);
        self.ready_sources = sources_except(ready, source);
        let mut queued: Vec<ScheduledEffect> = Vec::new();
        std::mem::swap(&mut queued, &mut self.queued);
        let (queue, rest) = partition_effects(queued, Some(source), None);
        self.queued = rest;
        if queue.len() > 0 {
            let (chain, mut others) = partition_effects(queue, None, Some(t));
            self.report.dropped = self.report.dropped.saturating_add(chain.len());
            self.deferred.append(&mut others);
            if has_effect_of(&self.deferred, source) {
                self.ready_sources.push(source.duplicate());
            }
        } else {
            proof {
                assert(self.queued@ == s.queued) by {
                    lemma_select_len(s.queued, Some(source@), None, true);
                    lemma_select_len(s.queued, Some(source@), None, false);
                    lemma_not_of_source_identity(s.queued, source@);
                }
            }
        }
        let mut deferred: Vec<ScheduledEffect> = Vec::new();
        std::mem::swap(&mut deferred, &mut self.deferred);
        let (_, kept) = partition_effects(deferred, Some(source), Some(t));
        self.deferred = kept;
    }

    /// Number of effects still owed a run.
    pub fn pending_len(&self) -> (r: usize)
        requires
            self@.wf(),
        ensures
            r == self@.pending().len(),
    {
        self.queued.len() + self.deferred.len()
    }

    /// Drops all pending work, returning how much there was.
    pub fn discard_pending(&mut self) -> (r: usize)
        requires
            old(self)@.wf(),
        ensures
            r == old(self)@.pending().len(),
            final(self)@ == (SchedulerState {
                queued: Seq::empty(),
                ready: Seq::empty(),
                deferred: Seq::empty(),
                ..old(self)@
            }),
    {
        let count = self.pending_len();
        self.queued.clear();
        self.ready_sources.clear();
        self.deferred.clear();
        count
    }
}

impl EffectScheduler {
    fn frame_figures(&self, source: &EffectSource) -> (r: (usize, usize, usize, usize))
        requires
            self@.frame is Some,
        ensures
            r.0 == self@.frame.unwrap().processed,
            r.1 == self@.frame.unwrap().bytes,
            r.2 == source_count(self@.frame.unwrap().source_counts, source@),
            r.3 == source_count(self@.frame.unwrap().source_bytes, source@),
    {
        match &self.frame {
            Some(frame) => (
                frame.processed,
                frame.bytes,
                source_count_of(&frame.source_counts, source),
                source_count_of(&frame.source_bytes, source),
            ),
            None => (0, 0, 0, 0),
        }
    }

    /// Defers the rest of the frame with `effect` first.
    fn defer_rest_of_frame(&mut self, effect: ScheduledEffect)
        ensures
            final(self)@ == defer_rest(old(self)@, effect),
    {
        self.deferred.push(effect);
        self.defer_ready_queues();
        self.report.deferred = self.deferred.len();
    }

    fn handle_source_over_budget(&mut self, effect: ScheduledEffect)
        ensures
            final(self)@ == over_source_budget(old(self)@, effect),
    {
        let source = effect.context.source.duplicate();
        self.deferred.push(effect);
        self.defer_source(&source);
        self.report.source_budget_exceeded = self.report.source_budget_exceeded.saturating_add(1);
        let old_v = match find_source_entry(&self.source_budget_violations, &source) {
            Some(i) => self.source_budget_violations[i].1,
            None => 0,
        };
        let v = old_v.saturating_add(1);
        match find_source_entry(&self.source_budget_violations, &source) {
            Some(i) => {
                let key = self.source_budget_violations[i].0.duplicate();
                self.source_budget_violations.set(i, (key, v));
            },
            None => {
                self.source_budget_violations.push((source.duplicate(), v));
            },
        }
        if v >= MAX_SOURCE_BUDGET_VIOLATIONS && !source_is_listed(
            &self.quarantined_sources,
            &source,
        ) {
            self.quarantined_sources.push(source.duplicate());
            self.report.quarantined_sources.push(source.duplicate());
            self.drop_source(&source);
        }
        self.report.deferred = self.deferred.len();
    }

    /// Takes the next effect to run in this frame, or `None` when the frame
    /// has no more room or no more work. A frame must be open once some
    /// ready source has work; without work it answers `None` either way.
    pub fn next_effect(&mut self) -> (r: Option<ScheduledEffect>)
        requires
            old(self)@.frame is Some || !ready_has_work(old(self)@),
        ensures
            (final(self)@, r) == next_step(old(self)@),
    {
        let ghost target = next_step(self@);
        loop
            invariant
                next_step(self@) == target,
                target == next_step(old(self)@),
                self@.frame is Some || !ready_has_work(self@),
            decreases self.queued.len(), self.ready_sources.len(),
        {
            let ghost before = self@;
            if self.ready_sources.len() == 0 {
                return None;
            }
            let source = self.ready_sources.remove(0);
            let i = match first_effect_of(&self.queued, &source) {
                Some(i) => i,
                None => {
                    proof {
                        lemma_first_of_source(self@.queued, source@);
                        if before.frame is None {
                            assert forall|n: int| 0 <= n < self@.ready.len() implies !has_source(
                                self@.queued,
                                (#[trigger] self@.ready[n])@,
                            ) by {
                                assert(self@.ready[n] == before.ready[n + 1]);
                            }
                        }
                    }
                    continue;
                },
            };
            proof {
                lemma_first_of_source(self@.queued, source@);
                if before.frame is None {
                    assert(before.ready[0] == source);
                    assert(has_source(before.queued, before.ready[0]@));
                }
            }
            let effect = self.queued.remove(i);
            if has_effect_of(&self.queued, &source) {
                self.ready_sources.push(source.duplicate());
            }
            let ghost s2 = self@;
            let weight = effect_weight(&effect.request);
            let (processed, bytes, source_count, source_bytes) = self.frame_figures(&source);
            let t = effect.context.transaction_id;
            if processed >= MAX_EFFECTS_PER_FRAME {
                self.defer_rest_of_frame(effect);
                return None;
            }
            if weight > MAX_EFFECT_BYTES_PER_FRAME {
                self.drop_causal_chain(&effect.context);
                proof {
                    lemma_drop_chain_shrinks(s2, effect.context);
                }
                self.report.dropped = self.report.dropped.saturating_add(1);
                continue;
            }
            if bytes.saturating_add(weight) > MAX_EFFECT_BYTES_PER_FRAME {
                self.defer_rest_of_frame(effect);
                return None;
            }
            if source_count >= MAX_EFFECTS_PER_SOURCE_PER_FRAME || source_bytes.saturating_add(weight)
                > MAX_EFFECT_BYTES_PER_SOURCE_PER_FRAME {
                proof {
                    lemma_over_source_budget_shrinks(s2, effect);
                }
                self.handle_source_over_budget(effect);
                continue;
            }
            let transaction_count = match find_txn_entry(&self.transaction_counts, t) {
                Some(j) => self.transaction_counts[j].1,
                None => {
                    self.transaction_counts.push((t, 0));
                    0
                },
            };
            let ghost s3 = self@;
            if transaction_count >= MAX_EFFECTS_PER_TRANSACTION {
                self.drop_causal_chain(&effect.context);
                proof {
                    lemma_drop_chain_shrinks(s3, effect.context);
                }
                self.report.transaction_budget_exceeded = self.report.transaction_budget_exceeded.saturating_add(1);
                self.report.dropped = self.report.dropped.saturating_add(1);
                continue;
            }
            if effect.context.depth > 0 {
                let fp = effect.fingerprint;
                let count = match find_causal_entry(&self.causal_counts, t, &effect.context.source, fp) {
                    Some(j) => {
                        let c = self.causal_counts[j].count.saturating_add(1);
                        let entry = CausalCount {
                            transaction_id: self.causal_counts[j].transaction_id,
                            source: self.causal_counts[j].source.duplicate(),
                            fingerprint: self.causal_counts[j].fingerprint,
                            count: c,
                        };
                        self.causal_counts.set(j, entry);
                        c
                    },
                    None => {
                        self.causal_counts.push(
                            CausalCount {
                                transaction_id: t,
                                source: effect.context.source.duplicate(),
                                fingerprint: fp,
                                count: 1,
                            },
                        );
                        1
                    },
                };
                if count > MAX_REPEATED_CAUSAL_EFFECTS {
                    let ghost s4 = self@;
                    self.drop_causal_chain(&effect.context);
                    proof {
                        lemma_drop_chain_shrinks(s4, effect.context);
                    }
                    if !chain_is_blocked(&self.blocked_causal_chains, t, &effect.context.source) {
                        self.blocked_causal_chains.push((t, effect.context.source.duplicate()));
                    }
                    self.report.cycle_breaks = self.report.cycle_breaks.saturating_add(1);
                    self.report.dropped = self.report.dropped.saturating_add(1);
                    continue;
                }
            }
            let mut frame = self.frame.take().unwrap();
            source_set(&mut frame.source_counts, &source, source_count + 1);
            source_set(&mut frame.source_bytes, &source, source_bytes + weight);
            frame.processed = processed + 1;
            frame.bytes = bytes.saturating_add(weight);
            self.frame = Some(frame);
            match find_txn_entry(&self.transaction_counts, t) {
                Some(j) => {
                    self.transaction_counts.set(j, (t, transaction_count + 1));
                },
                None => {
                    self.transaction_counts.push((t, transaction_count + 1));
                },
            }
            return Some(effect);
        }
    }
}

/// Whether a transaction still has pending work.
pub open spec fn txn_live(s: SchedulerState, t: u64) -> bool {
    exists|i: int| 0 <= i < s.pending().len() && #[trigger] s.pending()[i].context.transaction_id == t
}

pub open spec fn live_txn_counts(entries: Seq<(u64, usize)>, s: SchedulerState) -> Seq<(u64, usize)>
    decreases entries.len(),
{
    if entries.len() == 0 {
        Seq::empty()
    } else {
        let rest = live_txn_counts(entries.drop_last(), s);
        if txn_live(s, entries.last().0) {
            rest.push(entries.last())
        } else {
            rest
        }
    }
}

pub open spec fn live_causal_counts(entries: Seq<CausalCount>, s: SchedulerState) -> Seq<CausalCount>
    decreases entries.len(),
{
    if entries.len() == 0 {
        Seq::empty()
    } else {
        let rest = live_causal_counts(entries.drop_last(), s);
        if txn_live(s, entries.last().transaction_id) {
            rest.push(entries.last())
        } else {
            rest
        }
    }
}

/// Closing a frame: counters of transactions without pending work are
/// forgotten, the budget is released and the frame's report handed out.
pub open spec fn finish_state(s: SchedulerState) -> (SchedulerState, ReportState) {
    (
        SchedulerState {
            transaction_counts: live_txn_counts(s.transaction_counts, s),
            causal_counts: live_causal_counts(s.causal_counts, s),
            frame: None,
            report: empty_report(),
            ..s
        },
        ReportState { deferred: s.deferred.len() as usize, ..s.report },
    )
}

impl EffectScheduler {
    fn transaction_is_live(&self, t: u64) -> (r: bool)
        ensures
            r == txn_live(self@, t),
    {
        let mut i: usize = 0;
        while i < self.queued.len()
            invariant
                i <= self.queued@.len(),
                forall|j: int| 0 <= j < i ==> self.queued@[j].context.transaction_id != t,
            decreases self.queued.len() - i,
        {
            if self.queued[i].context.transaction_id == t {
                assert(self@.pending()[i as int] == self.queued@[i as int]);
                return true;
            }
            i = i + 1;
        }
        let mut j: usize = 0;
        while j < self.deferred.len()
            invariant
                j <= self.deferred@.len(),
                forall|m: int| 0 <= m < self.queued@.len() ==> self.queued@[m].context.transaction_id != t,
                forall|m: int| 0 <= m < j ==> self.deferred@[m].context.transaction_id != t,
            decreases self.deferred.len() - j,
        {
            if self.deferred[j].context.transaction_id == t {
                assert(self@.pending()[self.queued@.len() + j] == self.deferred@[j as int]);
                return true;
            }
            j = j + 1;
        }
        assert forall|m: int| 0 <= m < self@.pending().len() implies #[trigger] self@.pending()[m].context.transaction_id != t by {
            if m >= self.queued@.len() {
                assert(self@.pending()[m] == self.deferred@[m - self.queued@.len()]);
            }
        }
        false
    }

    /// Closes the frame and returns its report.
    pub fn finish_frame(&mut self) -> (r: EffectSchedulerReport)
        ensures
            (final(self)@, r@) == finish_state(old(self)@),
    {
        let ghost s = self@;
        let mut counts: Vec<(u64, usize)> = Vec::new();
        std::mem::swap(&mut counts, &mut self.transaction_counts);
        let ghost all = counts@;
        let mut kept: Vec<(u64, usize)> = Vec::new();
        let ghost mut i: int = 0;
        while counts.len() > 0
            invariant
                0 <= i <= all.len(),
                counts@ == all.subrange(i, all.len() as int),
                kept@ == live_txn_counts(all.subrange(0, i), s),
                self.queued@ == s.queued,
                self.deferred@ == s.deferred,
            decreases counts.len(),
        {
            let entry = counts.remove(0);
            proof {
                assert(all.subrange(0, i + 1).drop_last() =~= all.subrange(0, i));
                assert(all.subrange(0, i + 1).last() == entry);
            }
            if self.transaction_is_live(entry.0) {
                kept.push(entry);
            }
            proof {
                i = i + 1;
                assert(counts@ =~= all.subrange(i, all.len() as int));
            }
        }
        proof {
            assert(all.subrange(0, i) =~= all);
        }
        self.transaction_counts = kept;
        let mut causal: Vec<CausalCount> = Vec::new();
        std::mem::swap(&mut causal, &mut self.causal_counts);
        let ghost all_c = causal@;
        let mut kept_c: Vec<CausalCount> = Vec::new();
        let ghost mut k: int = 0;
        while causal.len() > 0
            invariant
                0 <= k <= all_c.len(),
                causal@ == all_c.subrange(k, all_c.len() as int),
                kept_c@ == live_causal_counts(all_c.subrange(0, k), s),
                self.queued@ == s.queued,
                self.deferred@ == s.deferred,
            decreases causal.len(),
        {
            let entry = causal.remove(0);
            proof {
                assert(all_c.subrange(0, k + 1).drop_last() =~= all_c.subrange(0, k));
                assert(all_c.subrange(0, k + 1).last() == entry);
            }
            if self.transaction_is_live(entry.transaction_id) {
                kept_c.push(entry);
            }
            proof {
                k = k + 1;
                assert(causal@ =~= all_c.subrange(k, all_c.len() as int));
            }
        }
        proof {
            assert(all_c.subrange(0, k) =~= all_c);
        }
        self.causal_counts = kept_c;
        self.frame = None;
        let mut report = empty_report_value();
        std::mem::swap(&mut report, &mut self.report);
        report.deferred = self.deferred.len();
        report
    }
}

/// What a frame of effects asks of its runner next.
#[derive(Debug)]
pub enum FrameStep {
    /// Run this effect, under its context; then settle it.
    Run(ScheduledEffect),
    /// The frame is over; what the scheduler did to the work it did not run.
    Finished(EffectSchedulerReport),
}

/// The work after the follow-ups `requests` of the running effect join it:
/// each becomes an effect of the running context one level deeper, unless
/// no effect is running or the queues cannot count them.
pub open spec fn followups_joined(s: SchedulerState, requests: Seq<CoreRequest>) -> SchedulerState {
    if s.queued.len() + s.deferred.len() + requests.len() > usize::MAX {
        s
    } else {
        match s.active_context {
            Some(context) => enqueue_all(s, followup_effects(requests, context)),
            None => s,
        }
    }
}

/// Taking the next effect from `s` leaves `t` and asks `r`: the effect that
/// the round hands out, now the running one, or, when none is left, the
/// end of the frame.
pub open spec fn frame_step_taken(s: SchedulerState, t: SchedulerState, r: FrameStep) -> bool {
    match r {
        FrameStep::Run(e) => next_step(s).1 == Some(e) && t == (SchedulerState {
            active_context: Some(e.context),
            ..next_step(s).0
        }),
        FrameStep::Finished(report) => next_step(s).1 is None && (t, report@) == finish_state(next_step(s).0),
    }
}

pub proof fn lemma_enqueue_all_keeps_frame(s: SchedulerState, effects: Seq<ScheduledEffect>)
    ensures
        enqueue_all(s, effects).frame == s.frame,
    decreases effects.len(),
{
    if effects.len() > 0 {
        lemma_enqueue_all_keeps_frame(s, effects.drop_last());
    }
}

impl EffectScheduler {
    /// Takes the next effect of the open frame and makes it the running one,
    /// or finishes the frame when none is left.
    fn take_or_finish(&mut self) -> (r: FrameStep)
        requires
            old(self)@.frame is Some,
        ensures
            frame_step_taken(old(self)@, final(self)@, r),
    {
        match self.next_effect() {
            Some(effect) => {
                self.set_active_context(effect.context.duplicate());
                FrameStep::Run(effect)
            },
            None => FrameStep::Finished(self.finish_frame()),
        }
    }

    /// Opens a frame and takes its first effect.
    pub fn start_frame(&mut self) -> (r: FrameStep)
        requires
            old(self)@.wf(),
        ensures
            frame_step_taken(begin_frame_state(old(self)@), final(self)@, r),
    {
        self.begin_frame();
        proof {
            lemma_enqueue_all_keeps_frame(
                SchedulerState {
                    frame: Some(empty_frame()),
                    report: empty_report(),
                    deferred: Seq::empty(),
                    ..old(self)@
                },
                old(self)@.deferred,
            );
        }
        self.take_or_finish()
    }

    /// Settles the effect that ran and takes the next: its follow-ups
    /// (`Some`) join the work as `enqueue_followups` adds them, when the
    /// queues can count them; a failure (`None`) ends the frame at once.
    /// Either way no effect runs any more.
    pub fn settle_effect(&mut self, follow_ups: Option<Vec<CoreRequest>>) -> (r: FrameStep)
        requires
            old(self)@.frame is Some,
        ensures
            match follow_ups {
                Some(requests) => frame_step_taken(
                    SchedulerState { active_context: None, ..followups_joined(old(self)@, requests@) },
                    final(self)@,
                    r,
                ),
                None => r is Finished && (final(self)@, r->Finished_0@) == finish_state(
                    SchedulerState { active_context: None, ..old(self)@ },
                ),
            },
    {
        match follow_ups {
            Some(requests) => {
                let room = self.queued.len() <= usize::MAX - self.deferred.len() && requests.len() <= usize::MAX
                    - self.deferred.len() - self.queued.len();
                if room {
                    self.enqueue_followups(requests);
                    proof {
                        if old(self)@.active_context is Some {
                            lemma_enqueue_all_keeps_frame(
                                old(self)@,
                                followup_effects(requests@, old(self)@.active_context.unwrap()),
                            );
                        }
                    }
                }
                self.clear_active_context();
                self.take_or_finish()
            },
            None => {
                self.clear_active_context();
                FrameStep::Finished(self.finish_frame())
            },
        }
    }
}

/// When no effect belongs to `k`, removing `k`'s effects leaves the list as it was.
pub proof fn lemma_not_of_source_identity(effects: Seq<ScheduledEffect>, k: SourceKey)
    requires
        of_source(effects, k).len() == 0,
    ensures
        not_of_source(effects, k) == effects,
    decreases effects.len(),
{
    if effects.len() > 0 {
        let t = effects.drop_last();
        lemma_select_len(t, Some(k), None, true);
        if selects(effects.last(), Some(k), None) {
            lemma_select_len(t, Some(k), None, true);
        } else {
            lemma_not_of_source_identity(t, k);
            assert(effects =~= t.push(effects.last()));
        }
    }
}

} // verus!
