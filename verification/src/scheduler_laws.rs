//! What every round of the effect scheduler keeps: work is neither made up
//! nor duplicated, a quarantined producer stays quarantined and never runs
//! again, a frame never runs past its effect and byte budgets, and no source
//! runs past its share of a frame nor any transaction past its effect budget.
use vstd::prelude::*;
use vstd::multiset::Multiset;
use crate::effects::{
    ScheduledEffect, SchedulerState, FrameState, SourceKey, EffectContext, ReportState, next_step,
    enqueue, enqueue_all, begin_frame_state, defer_ready, defer_source_state, drop_source_state,
    drop_chain_state, defer_rest, over_source_budget, select, of_source, not_of_source,
    source_of, source_listed, lemma_select_multiset, lemma_select_members,
    lemma_first_of_source, first_of_source, has_source, empty_frame,
    MAX_EFFECTS_PER_FRAME, MAX_EFFECT_BYTES_PER_FRAME,
};

verus! {

broadcast use {vstd::multiset::group_multiset_axioms, vstd::seq_lib::group_to_multiset_ensures};

/// Every effect still owed a run, counted with multiplicity.
pub open spec fn pending_multiset(s: SchedulerState) -> Multiset<ScheduledEffect> {
    s.queued.to_multiset().add(s.deferred.to_multiset())
}

/// How many times `e` was handed out.
pub open spec fn handed_count(r: Option<ScheduledEffect>, e: ScheduledEffect) -> nat {
    match r {
        Some(x) => if x == e {
            1
        } else {
            0
        },
        None => 0,
    }
}

/// No pending effect belongs to a quarantined source.
pub open spec fn quarantine_clean(s: SchedulerState) -> bool {
    forall|e: ScheduledEffect|
        #[trigger] pending_multiset(s).count(e) > 0 ==> !source_listed(s.quarantined, source_of(e))
}

/// The frame has run no more effects and bytes than its budget.
pub open spec fn frame_within_budget(f: FrameState) -> bool {
    f.processed <= MAX_EFFECTS_PER_FRAME && f.bytes <= MAX_EFFECT_BYTES_PER_FRAME
}

/// `a` is a prefix of `b`.
pub open spec fn extends<A>(a: Seq<A>, b: Seq<A>) -> bool {
    a.len() <= b.len() && forall|i: int| 0 <= i < a.len() ==> #[trigger] b[i] == a[i]
}

proof fn lemma_select_counts(
    q: Seq<ScheduledEffect>,
    source: Option<SourceKey>,
    txn: Option<u64>,
)
    ensures
        forall|e: ScheduledEffect|
            #[trigger] q.to_multiset().count(e) == select(q, source, txn, true).to_multiset().count(
                e,
            ) + select(q, source, txn, false).to_multiset().count(e),
{
    lemma_select_multiset(q, source, txn);
}

proof fn lemma_not_of_source_free(q: Seq<ScheduledEffect>, k: SourceKey)
    ensures
        forall|e: ScheduledEffect|
            source_of(e) == k ==> #[trigger] not_of_source(q, k).to_multiset().count(e) == 0,
{
    lemma_select_members(q, Some(k), None, false);
    let r = not_of_source(q, k);
    assert forall|e: ScheduledEffect| source_of(e) == k implies #[trigger] r.to_multiset().count(e)
        == 0 by {
        if r.to_multiset().count(e) > 0 {
            assert(r.contains(e));
            let i = choose|i: int| 0 <= i < r.len() && r[i] == e;
            assert(r[i] == e);
        }
    }
}

proof fn lemma_concat_counts(a: Seq<ScheduledEffect>, b: Seq<ScheduledEffect>)
    ensures
        forall|e: ScheduledEffect|
            #[trigger] (a + b).to_multiset().count(e) == a.to_multiset().count(e)
                + b.to_multiset().count(e),
{
    vstd::seq_lib::lemma_multiset_commutative(a, b);
}

proof fn lemma_defer_ready(s: SchedulerState)
    ensures
        forall|e: ScheduledEffect|
            #[trigger] pending_multiset(defer_ready(s)).count(e) == pending_multiset(s).count(e),
        defer_ready(s).quarantined == s.quarantined,
        defer_ready(s).frame == s.frame,
        defer_ready(s).transaction_counts == s.transaction_counts,
    decreases s.ready.len(),
{
    if s.ready.len() > 0 {
        let k = s.ready[0]@;
        let s1 = SchedulerState {
            ready: s.ready.drop_first(),
            queued: not_of_source(s.queued, k),
            deferred: s.deferred + of_source(s.queued, k),
            ..s
        };
        lemma_defer_ready(s1);
        lemma_select_counts(s.queued, Some(k), None);
        lemma_concat_counts(s.deferred, of_source(s.queued, k));
        assert forall|e: ScheduledEffect|
            #[trigger] pending_multiset(s1).count(e) == pending_multiset(s).count(e) by {}
    }
}

proof fn lemma_defer_source(s: SchedulerState, k: SourceKey)
    ensures
        forall|e: ScheduledEffect|
            #[trigger] pending_multiset(defer_source_state(s, k)).count(e) == pending_multiset(
                s,
            ).count(e),
        defer_source_state(s, k).quarantined == s.quarantined,
        defer_source_state(s, k).frame == s.frame,
{
    lemma_select_counts(s.queued, Some(k), None);
    lemma_concat_counts(s.deferred, of_source(s.queued, k));
}

proof fn lemma_drop_source(s: SchedulerState, k: SourceKey)
    ensures
        forall|e: ScheduledEffect|
            #[trigger] pending_multiset(drop_source_state(s, k)).count(e) <= pending_multiset(
                s,
            ).count(e),
        forall|e: ScheduledEffect|
            source_of(e) == k ==> #[trigger] pending_multiset(drop_source_state(s, k)).count(e)
                == 0,
        drop_source_state(s, k).quarantined == s.quarantined,
        drop_source_state(s, k).frame == s.frame,
{
    lemma_select_counts(s.queued, Some(k), None);
    lemma_select_counts(s.deferred, Some(k), None);
    lemma_not_of_source_free(s.queued, k);
    lemma_not_of_source_free(s.deferred, k);
}

proof fn lemma_drop_chain(s: SchedulerState, context: EffectContext)
    ensures
        forall|e: ScheduledEffect|
            #[trigger] pending_multiset(drop_chain_state(s, context)).count(e) <= pending_multiset(
                s,
            ).count(e),
        drop_chain_state(s, context).quarantined == s.quarantined,
        drop_chain_state(s, context).frame == s.frame,
{
    let k = context.source@;
    let t = context.transaction_id;
    let q = of_source(s.queued, k);
    lemma_select_counts(s.queued, Some(k), None);
    lemma_select_counts(q, None, Some(t));
    let r = drop_chain_state(s, context);
    if q.len() > 0 {
        let deferred1 = s.deferred + select(q, None, Some(t), false);
        lemma_concat_counts(s.deferred, select(q, None, Some(t), false));
        lemma_select_counts(deferred1, Some(k), Some(t));
        assert(r.queued == not_of_source(s.queued, k));
        assert(r.deferred == select(deferred1, Some(k), Some(t), false));
        assert forall|e: ScheduledEffect| #[trigger]
            pending_multiset(r).count(e) <= pending_multiset(s).count(e) by {
            assert(deferred1.to_multiset().count(e) >= r.deferred.to_multiset().count(e));
            assert(q.to_multiset().count(e) >= select(q, None, Some(t), false).to_multiset().count(e));
            assert(s.queued.to_multiset().count(e) == q.to_multiset().count(e) + r.queued.to_multiset().count(e));
        }
    } else {
        lemma_select_counts(s.deferred, Some(k), Some(t));
        assert(r.queued == s.queued);
        assert(r.deferred == select(s.deferred, Some(k), Some(t), false));
        assert forall|e: ScheduledEffect| #[trigger]
            pending_multiset(r).count(e) <= pending_multiset(s).count(e) by {}
    }
}

proof fn lemma_defer_rest(s: SchedulerState, effect: ScheduledEffect)
    ensures
        forall|e: ScheduledEffect|
            #[trigger] pending_multiset(defer_rest(s, effect)).count(e) == pending_multiset(s).count(
                e,
            ) + handed_count(Some(effect), e),
        defer_rest(s, effect).quarantined == s.quarantined,
        defer_rest(s, effect).frame == s.frame,
        defer_rest(s, effect).transaction_counts == s.transaction_counts,
{
    let s0 = SchedulerState { deferred: s.deferred.push(effect), ..s };
    lemma_defer_ready(s0);
    let r = defer_rest(s, effect);
    assert(r.queued == defer_ready(s0).queued && r.deferred == defer_ready(s0).deferred);
    assert forall|e: ScheduledEffect| #[trigger]
        pending_multiset(s0).count(e) == pending_multiset(s).count(e) + handed_count(
            Some(effect),
            e,
        ) by {}
    assert forall|e: ScheduledEffect| #[trigger]
        pending_multiset(r).count(e) == pending_multiset(defer_ready(s0)).count(e) by {}
}

proof fn lemma_listed_push(q: Seq<crate::effects::EffectSource>, x: crate::effects::EffectSource, k: SourceKey)
    ensures
        source_listed(q.push(x), k) == (source_listed(q, k) || x@ == k),
{
    if source_listed(q, k) {
        let i = choose|i: int| 0 <= i < q.len() && (#[trigger] q[i])@ == k;
        assert(q.push(x)[i] == q[i]);
    }
    if x@ == k {
        assert(q.push(x)[q.len() as int] == x);
    }
    if source_listed(q.push(x), k) {
        let i = choose|i: int| 0 <= i < q.push(x).len() && (#[trigger] q.push(x)[i])@ == k;
        if i < q.len() {
            assert(q[i] == q.push(x)[i]);
        }
    }
}

proof fn lemma_extends_listed(a: Seq<crate::effects::EffectSource>, b: Seq<crate::effects::EffectSource>, k: SourceKey)
    requires
        extends(a, b),
        source_listed(a, k),
    ensures
        source_listed(b, k),
{
    let i = choose|i: int| 0 <= i < a.len() && (#[trigger] a[i])@ == k;
    assert(b[i] == a[i]);
}

proof fn lemma_over_source_budget(s: SchedulerState, effect: ScheduledEffect)
    ensures
        forall|e: ScheduledEffect|
            #[trigger] pending_multiset(over_source_budget(s, effect)).count(e) <= pending_multiset(
                s,
            ).count(e) + handed_count(Some(effect), e),
        over_source_budget(s, effect).frame == s.frame,
        extends(s.quarantined, over_source_budget(s, effect).quarantined),
        quarantine_clean(s) && !source_listed(s.quarantined, source_of(effect)) ==> quarantine_clean(
            over_source_budget(s, effect),
        ),
{
    let source = effect.context.source;
    let k = source@;
    let s0 = SchedulerState { deferred: s.deferred.push(effect), ..s };
    let s1 = defer_source_state(s0, k);
    lemma_defer_source(s0, k);
    assert forall|e: ScheduledEffect| #[trigger]
        pending_multiset(s0).count(e) == pending_multiset(s).count(e) + handed_count(
            Some(effect),
            e,
        ) by {}
    let r = over_source_budget(s, effect);
    let s2 = SchedulerState {
        report: ReportState {
            source_budget_exceeded: crate::effects::sat_add(s1.report.source_budget_exceeded, 1),
            ..s1.report
        },
        ..s1
    };
    let old_v = crate::effects::source_violations(s2.violations, k);
    let v: u32 = if old_v == u32::MAX {
        u32::MAX
    } else {
        (old_v + 1) as u32
    };
    let s3 = SchedulerState { violations: crate::effects::source_put(s2.violations, source, v), ..s2 };
    if v >= crate::effects::MAX_SOURCE_BUDGET_VIOLATIONS && !source_listed(s3.quarantined, k) {
        let s3q = s.quarantined.push(source);
        let pre = SchedulerState {
            quarantined: s3q,
            report: ReportState {
                quarantined_sources: s3.report.quarantined_sources.push(source),
                ..s3.report
            },
            ..s3
        };
        let d = drop_source_state(pre, k);
        lemma_drop_source(pre, k);
        assert(r.queued == d.queued && r.deferred == d.deferred && r.quarantined == s3q);
        assert forall|e: ScheduledEffect| #[trigger]
            pending_multiset(r).count(e) == pending_multiset(d).count(e) by {}
        assert forall|e: ScheduledEffect| #[trigger]
            pending_multiset(pre).count(e) == pending_multiset(s1).count(e) by {}
        assert(extends(s.quarantined, r.quarantined));
        if quarantine_clean(s) && !source_listed(s.quarantined, source_of(effect)) {
            assert forall|e: ScheduledEffect| #[trigger]
                pending_multiset(r).count(e) > 0 implies !source_listed(r.quarantined, source_of(e)) by {
                lemma_listed_push(s.quarantined, source, source_of(e));
                assert(pending_multiset(d).count(e) > 0);
                assert(pending_multiset(pre).count(e) > 0);
                assert(pending_multiset(s1).count(e) > 0);
                assert(pending_multiset(s0).count(e) > 0);
                if e != effect {
                    assert(pending_multiset(s).count(e) > 0);
                }
            }
        }
    } else {
        assert(r.queued == s1.queued && r.deferred == s1.deferred);
        assert(r.quarantined == s.quarantined);
        assert forall|e: ScheduledEffect| #[trigger]
            pending_multiset(r).count(e) == pending_multiset(s1).count(e) by {}
        assert(extends(s.quarantined, r.quarantined));
        if quarantine_clean(s) && !source_listed(s.quarantined, source_of(effect)) {
            assert forall|e: ScheduledEffect| #[trigger]
                pending_multiset(r).count(e) > 0 implies !source_listed(r.quarantined, source_of(e)) by {
                assert(pending_multiset(s1).count(e) > 0);
                assert(pending_multiset(s0).count(e) > 0);
                if e != effect {
                    assert(pending_multiset(s).count(e) > 0);
                }
            }
        }
    }
}

/// Every count in `a`'s pending work is at most the one in `b`'s.
pub open spec fn pending_within(a: SchedulerState, b: SchedulerState) -> bool {
    forall|e: ScheduledEffect| #[trigger]
        pending_multiset(a).count(e) <= pending_multiset(b).count(e)
}

/// What one round of the scheduler keeps, from `s` to `t` handing out `r`.
pub open spec fn step_keeps(s: SchedulerState, t: SchedulerState, r: Option<ScheduledEffect>) -> bool {
    &&& forall|e: ScheduledEffect| #[trigger]
        pending_multiset(t).count(e) + handed_count(r, e) <= pending_multiset(s).count(e)
    &&& extends(s.quarantined, t.quarantined)
    &&& quarantine_clean(s) ==> quarantine_clean(t) && (r matches Some(x) ==> !source_listed(
        t.quarantined,
        source_of(x),
    ))
    &&& t.frame is Some
    &&& frame_within_budget(s.frame.unwrap()) ==> frame_within_budget(t.frame.unwrap())
}

proof fn lemma_chain(s: SchedulerState, mid: SchedulerState, t: SchedulerState, r: Option<ScheduledEffect>)
    requires
        step_keeps(mid, t, r),
        pending_within(mid, s),
        extends(s.quarantined, mid.quarantined),
        quarantine_clean(s) ==> quarantine_clean(mid),
        mid.frame == s.frame,
    ensures
        step_keeps(s, t, r),
{
    assert forall|e: ScheduledEffect| #[trigger]
        pending_multiset(t).count(e) + handed_count(r, e) <= pending_multiset(s).count(e) by {
        assert(pending_multiset(mid).count(e) <= pending_multiset(s).count(e));
    }
    assert forall|i: int| 0 <= i < s.quarantined.len() implies #[trigger] t.quarantined[i]
        == s.quarantined[i] by {
        assert(mid.quarantined[i] == s.quarantined[i]);
    }
}

proof fn lemma_same_queues_clean(a: SchedulerState, b: SchedulerState)
    requires
        pending_within(a, b),
        a.quarantined == b.quarantined,
        quarantine_clean(b),
    ensures
        quarantine_clean(a),
{
    assert forall|e: ScheduledEffect| #[trigger] pending_multiset(a).count(e) > 0 implies !source_listed(
        a.quarantined,
        source_of(e),
    ) by {
        assert(pending_multiset(b).count(e) > 0);
    }
}

#[verifier::rlimit(50)]
proof fn lemma_next_step(s: SchedulerState)
    requires
        s.frame is Some,
    ensures
        step_keeps(s, next_step(s).0, next_step(s).1),
    decreases s.queued.len(), s.ready.len(),
{
    if s.ready.len() == 0 {
        assert(extends(s.quarantined, s.quarantined));
        return;
    }
    let source = s.ready[0];
    let k = source@;
    let s1 = SchedulerState { ready: s.ready.drop_first(), ..s };
    assert forall|e: ScheduledEffect| #[trigger]
        pending_multiset(s1).count(e) == pending_multiset(s).count(e) by {}
    assert(extends(s.quarantined, s1.quarantined));
    if !has_source(s1.queued, k) {
        lemma_next_step(s1);
        lemma_chain(s, s1, next_step(s1).0, next_step(s1).1);
        return;
    }
    let i = first_of_source(s1.queued, k);
    lemma_first_of_source(s1.queued, k);
    let effect = s1.queued[i];
    let q2 = s1.queued.remove(i);
    let s2 = SchedulerState {
        queued: q2,
        ready: if has_source(q2, k) {
            s1.ready.push(source)
        } else {
            s1.ready
        },
        ..s1
    };
    assert(s1.queued.to_multiset().count(effect) > 0);
    assert forall|e: ScheduledEffect| #[trigger]
        pending_multiset(s2).count(e) + handed_count(Some(effect), e) == pending_multiset(s).count(e) by {}
    assert(pending_within(s2, s));
    assert(extends(s.quarantined, s2.quarantined));
    if quarantine_clean(s) {
        lemma_same_queues_clean(s2, s);
        assert(pending_multiset(s).count(effect) > 0);
    }
    let w = crate::effects::request_weight(effect.request);
    let frame = s2.frame.unwrap();
    let t = effect.context.transaction_id;
    let (fin, out) = next_step(s);
    if frame.processed >= MAX_EFFECTS_PER_FRAME || (w <= MAX_EFFECT_BYTES_PER_FRAME
        && crate::effects::sat_add(frame.bytes, w) > MAX_EFFECT_BYTES_PER_FRAME) {
        lemma_defer_rest(s2, effect);
        assert(fin == defer_rest(s2, effect) && out is None);
        assert forall|e: ScheduledEffect| #[trigger]
            pending_multiset(fin).count(e) == pending_multiset(s).count(e) by {}
        if quarantine_clean(s) {
            lemma_same_queues_clean(fin, s);
        }
        return;
    }
    if w > MAX_EFFECT_BYTES_PER_FRAME {
        let s3 = drop_chain_state(s2, effect.context);
        lemma_drop_chain(s2, effect.context);
        crate::effects::lemma_drop_chain_shrinks(s2, effect.context);
        let s4 = SchedulerState {
            report: ReportState { dropped: crate::effects::sat_add(s3.report.dropped, 1), ..s3.report },
            ..s3
        };
        assert forall|e: ScheduledEffect| #[trigger]
            pending_multiset(s4).count(e) <= pending_multiset(s).count(e) by {
            assert(pending_multiset(s3).count(e) <= pending_multiset(s2).count(e));
        }
        if quarantine_clean(s) {
            lemma_same_queues_clean(s4, s);
        }
        lemma_next_step(s4);
        lemma_chain(s, s4, next_step(s4).0, next_step(s4).1);
        return;
    }
    let fk = crate::effects::source_count(frame.source_counts, k);
    if fk >= crate::effects::MAX_EFFECTS_PER_SOURCE_PER_FRAME || crate::effects::sat_add(
        crate::effects::source_count(frame.source_bytes, k),
        w,
    ) > crate::effects::MAX_EFFECT_BYTES_PER_SOURCE_PER_FRAME {
        let s3 = over_source_budget(s2, effect);
        lemma_over_source_budget(s2, effect);
        crate::effects::lemma_over_source_budget_shrinks(s2, effect);
        assert forall|e: ScheduledEffect| #[trigger]
            pending_multiset(s3).count(e) <= pending_multiset(s).count(e) by {}
        assert forall|i: int| 0 <= i < s.quarantined.len() implies #[trigger] s3.quarantined[i]
            == s.quarantined[i] by {
            assert(s2.quarantined[i] == s.quarantined[i]);
        }
        lemma_next_step(s3);
        lemma_chain(s, s3, next_step(s3).0, next_step(s3).1);
        return;
    }
    let tc = crate::effects::txn_count(s2.transaction_counts, t);
    let s3 = SchedulerState {
        transaction_counts: crate::effects::txn_ensure(s2.transaction_counts, t),
        ..s2
    };
    assert forall|e: ScheduledEffect| #[trigger]
        pending_multiset(s3).count(e) == pending_multiset(s2).count(e) by {}
    if tc >= crate::effects::MAX_EFFECTS_PER_TRANSACTION {
        let s4 = drop_chain_state(s3, effect.context);
        lemma_drop_chain(s3, effect.context);
        crate::effects::lemma_drop_chain_shrinks(s3, effect.context);
        let s5 = SchedulerState {
            report: ReportState {
                transaction_budget_exceeded: crate::effects::sat_add(
                    s4.report.transaction_budget_exceeded,
                    1,
                ),
                dropped: crate::effects::sat_add(s4.report.dropped, 1),
                ..s4.report
            },
            ..s4
        };
        assert forall|e: ScheduledEffect| #[trigger]
            pending_multiset(s5).count(e) <= pending_multiset(s).count(e) by {
            assert(pending_multiset(s4).count(e) <= pending_multiset(s3).count(e));
        }
        if quarantine_clean(s) {
            lemma_same_queues_clean(s5, s);
        }
        lemma_next_step(s5);
        lemma_chain(s, s5, next_step(s5).0, next_step(s5).1);
        return;
    }
    let ci = crate::effects::causal_entry(s3.causal_counts, t, k, effect.fingerprint);
    let old_c = if ci >= 0 {
        s3.causal_counts[ci].count
    } else {
        0
    };
    let c = crate::effects::sat_add(old_c, 1);
    let counts = if ci >= 0 {
        s3.causal_counts.update(ci, crate::effects::CausalCount { count: c, ..s3.causal_counts[ci] })
    } else {
        s3.causal_counts.push(
            crate::effects::CausalCount {
                transaction_id: t,
                source: effect.context.source,
                fingerprint: effect.fingerprint,
                count: c,
            },
        )
    };
    if effect.context.depth > 0 && c > crate::effects::MAX_REPEATED_CAUSAL_EFFECTS {
        let sc = SchedulerState { causal_counts: counts, ..s3 };
        let s4 = drop_chain_state(sc, effect.context);
        lemma_drop_chain(sc, effect.context);
        crate::effects::lemma_drop_chain_shrinks(sc, effect.context);
        let s5 = SchedulerState {
            blocked: if crate::effects::chain_blocked(s4.blocked, t, k) {
                s4.blocked
            } else {
                s4.blocked.push((t, effect.context.source))
            },
            report: ReportState {
                cycle_breaks: crate::effects::sat_add(s4.report.cycle_breaks, 1),
                dropped: crate::effects::sat_add(s4.report.dropped, 1),
                ..s4.report
            },
            ..s4
        };
        assert forall|e: ScheduledEffect| #[trigger]
            pending_multiset(s5).count(e) <= pending_multiset(s).count(e) by {
            assert(pending_multiset(s4).count(e) <= pending_multiset(sc).count(e));
            assert(pending_multiset(sc).count(e) == pending_multiset(s3).count(e));
        }
        if quarantine_clean(s) {
            lemma_same_queues_clean(s5, s);
        }
        lemma_next_step(s5);
        lemma_chain(s, s5, next_step(s5).0, next_step(s5).1);
        return;
    }
    assert(out == Some(effect));
    assert forall|e: ScheduledEffect| #[trigger]
        pending_multiset(fin).count(e) == pending_multiset(s2).count(e) by {}
    assert(extends(s.quarantined, fin.quarantined));
    if quarantine_clean(s) {
        lemma_same_queues_clean(fin, s);
    }
}

proof fn lemma_enqueue(s: SchedulerState, e: ScheduledEffect)
    ensures
        forall|x: ScheduledEffect| #[trigger]
            pending_multiset(enqueue(s, e)).count(x) == pending_multiset(s).count(x) + if source_listed(
                s.quarantined,
                source_of(e),
            ) || crate::effects::chain_blocked(s.blocked, e.context.transaction_id, source_of(e)) {
                0nat
            } else {
                handed_count(Some(e), x)
            },
        enqueue(s, e).quarantined == s.quarantined,
        enqueue(s, e).frame == s.frame,
        enqueue(s, e).blocked == s.blocked,
        quarantine_clean(s) ==> quarantine_clean(enqueue(s, e)),
{
    let r = enqueue(s, e);
    if quarantine_clean(s) {
        assert forall|x: ScheduledEffect| #[trigger] pending_multiset(r).count(x) > 0 implies !source_listed(
            r.quarantined,
            source_of(x),
        ) by {
            if x != e || source_listed(s.quarantined, source_of(e)) || crate::effects::chain_blocked(
                s.blocked,
                e.context.transaction_id,
                source_of(e),
            ) {
                assert(pending_multiset(s).count(x) > 0);
            }
        }
    }
}

proof fn lemma_enqueue_all(s: SchedulerState, effects: Seq<ScheduledEffect>)
    ensures
        forall|x: ScheduledEffect| #[trigger]
            pending_multiset(enqueue_all(s, effects)).count(x) <= pending_multiset(s).count(x)
                + effects.to_multiset().count(x),
        enqueue_all(s, effects).quarantined == s.quarantined,
        enqueue_all(s, effects).frame == s.frame,
        quarantine_clean(s) ==> quarantine_clean(enqueue_all(s, effects)),
    decreases effects.len(),
{
    if effects.len() > 0 {
        let init = effects.drop_last();
        lemma_enqueue_all(s, init);
        lemma_enqueue(enqueue_all(s, init), effects.last());
        assert(effects =~= init.push(effects.last()));
    }
}

/// Every source has run at most its count and byte share of the frame.
pub open spec fn sources_within_budget(f: FrameState) -> bool {
    forall|k: SourceKey| #[trigger] crate::effects::source_count(f.source_counts, k)
        <= crate::effects::MAX_EFFECTS_PER_SOURCE_PER_FRAME && crate::effects::source_count(f.source_bytes, k)
        <= crate::effects::MAX_EFFECT_BYTES_PER_SOURCE_PER_FRAME
}

/// Every transaction has run at most its budget of effects.
pub open spec fn transactions_within_budget(counts: Seq<(u64, usize)>) -> bool {
    forall|t: u64| #[trigger] crate::effects::txn_count(counts, t) <= crate::effects::MAX_EFFECTS_PER_TRANSACTION
}

/// The frame `g` and transaction counts `tc1` are `f` and `tc0` with the
/// run of `e` recorded: one more effect in the frame, one more for its
/// source, its weight added to its source's bytes, one more for its
/// transaction, and every other source and transaction as it was.
pub open spec fn run_recorded(f: FrameState, g: FrameState, tc0: Seq<(u64, usize)>, tc1: Seq<(u64, usize)>, e: ScheduledEffect) -> bool {
    let k = source_of(e);
    let t = e.context.transaction_id;
    &&& g.processed == f.processed + 1
    &&& g.bytes == crate::effects::sat_add(f.bytes, crate::effects::request_weight(e.request))
    &&& crate::effects::source_count(g.source_counts, k) == crate::effects::source_count(f.source_counts, k) + 1
    &&& crate::effects::source_count(g.source_bytes, k) == crate::effects::source_count(f.source_bytes, k)
        + crate::effects::request_weight(e.request)
    &&& crate::effects::txn_count(tc1, t) == crate::effects::txn_count(tc0, t) + 1
    &&& forall|k2: SourceKey| k2 != k ==> #[trigger] crate::effects::source_count(g.source_counts, k2)
        == crate::effects::source_count(f.source_counts, k2) && crate::effects::source_count(g.source_bytes, k2)
        == crate::effects::source_count(f.source_bytes, k2)
    &&& forall|t2: u64| t2 != t ==> #[trigger] crate::effects::txn_count(tc1, t2) == crate::effects::txn_count(tc0, t2)
}

/// What one round of the scheduler does to the frame's and the
/// transactions' counters, from `s` to `t` handing out `r`.
pub open spec fn counters_step(s: SchedulerState, t: SchedulerState, r: Option<ScheduledEffect>) -> bool {
    &&& t.frame is Some
    &&& match r {
        Some(e) => run_recorded(s.frame.unwrap(), t.frame.unwrap(), s.transaction_counts, t.transaction_counts, e),
        None => t.frame == s.frame && forall|x: u64| #[trigger] crate::effects::txn_count(t.transaction_counts, x)
            == crate::effects::txn_count(s.transaction_counts, x),
    }
    &&& sources_within_budget(s.frame.unwrap()) ==> sources_within_budget(t.frame.unwrap())
    &&& transactions_within_budget(s.transaction_counts) ==> transactions_within_budget(t.transaction_counts)
}

proof fn lemma_source_entry_first<V>(entries: Seq<(crate::effects::EffectSource, V)>, k: SourceKey, idx: int)
    requires
        -1 <= idx < entries.len(),
        idx >= 0 ==> entries[idx].0@ == k,
        forall|j: int| 0 <= j < entries.len() && (idx < 0 || j < idx) ==> entries[j].0@ != k,
    ensures
        crate::effects::source_entry(entries, k) == idx,
{
    crate::effects::lemma_source_entry(entries, k);
    let e = crate::effects::source_entry(entries, k);
    if e >= 0 && idx >= 0 && e < idx {
        assert(entries[e].0@ != k);
    }
    if e >= 0 && idx >= 0 && idx < e {
        assert(entries[idx].0@ != k);
    }
    if e < 0 && idx >= 0 {
        assert(entries[idx].0@ != k);
    }
    if e >= 0 && idx < 0 {
        assert(entries[e].0@ != k);
    }
}

proof fn lemma_source_put_count(entries: Seq<(crate::effects::EffectSource, usize)>, source: crate::effects::EffectSource, v: usize, k: SourceKey)
    ensures
        crate::effects::source_count(crate::effects::source_put(entries, source, v), k) == if k == source@ {
            v
        } else {
            crate::effects::source_count(entries, k)
        },
{
    let i = crate::effects::source_entry(entries, source@);
    crate::effects::lemma_source_entry(entries, source@);
    crate::effects::lemma_source_entry(entries, k);
    let n = crate::effects::source_put(entries, source, v);
    let e = crate::effects::source_entry(entries, k);
    if i >= 0 {
        assert forall|j: int| 0 <= j < n.len() implies #[trigger] n[j].0 == entries[j].0 by {}
        lemma_source_entry_first(n, k, e);
    } else {
        if k == source@ {
            lemma_source_entry_first(n, k, entries.len() as int);
        } else {
            lemma_source_entry_first(n, k, e);
        }
    }
}

proof fn lemma_txn_first(entries: Seq<(u64, usize)>, t: u64, idx: int)
    requires
        -1 <= idx < entries.len(),
        idx >= 0 ==> entries[idx].0 == t,
        forall|j: int| 0 <= j < entries.len() && (idx < 0 || j < idx) ==> entries[j].0 != t,
    ensures
        crate::effects::txn_entry(entries, t) == idx,
{
    crate::effects::lemma_txn_entry(entries, t);
    let e = crate::effects::txn_entry(entries, t);
    if e >= 0 && idx >= 0 && e < idx {
        assert(entries[e].0 != t);
    }
    if e >= 0 && idx >= 0 && idx < e {
        assert(entries[idx].0 != t);
    }
    if e < 0 && idx >= 0 {
        assert(entries[idx].0 != t);
    }
    if e >= 0 && idx < 0 {
        assert(entries[e].0 != t);
    }
}

proof fn lemma_txn_put_count(entries: Seq<(u64, usize)>, t: u64, v: usize, x: u64)
    ensures
        crate::effects::txn_count(crate::effects::txn_put(entries, t, v), x) == if x == t {
            v
        } else {
            crate::effects::txn_count(entries, x)
        },
        crate::effects::txn_count(crate::effects::txn_ensure(entries, t), x) == crate::effects::txn_count(entries, x),
{
    let i = crate::effects::txn_entry(entries, t);
    crate::effects::lemma_txn_entry(entries, t);
    crate::effects::lemma_txn_entry(entries, x);
    let e = crate::effects::txn_entry(entries, x);
    let n = crate::effects::txn_put(entries, t, v);
    if i >= 0 {
        assert forall|j: int| 0 <= j < n.len() implies #[trigger] n[j].0 == entries[j].0 by {}
        lemma_txn_first(n, x, e);
    } else {
        let m = entries.push((t, 0));
        if x == t {
            lemma_txn_first(n, x, entries.len() as int);
            lemma_txn_first(m, x, entries.len() as int);
        } else {
            lemma_txn_first(n, x, e);
            lemma_txn_first(m, x, e);
        }
    }
}

proof fn lemma_counters_carry(s: SchedulerState, mid: SchedulerState, t: SchedulerState, r: Option<ScheduledEffect>)
    requires
        counters_step(mid, t, r),
        mid.frame == s.frame,
        forall|x: u64| #[trigger] crate::effects::txn_count(mid.transaction_counts, x) == crate::effects::txn_count(
            s.transaction_counts,
            x,
        ),
    ensures
        counters_step(s, t, r),
{
    if transactions_within_budget(s.transaction_counts) {
        assert forall|x: u64| #[trigger] crate::effects::txn_count(mid.transaction_counts, x)
            <= crate::effects::MAX_EFFECTS_PER_TRANSACTION by {
            assert(crate::effects::txn_count(s.transaction_counts, x) <= crate::effects::MAX_EFFECTS_PER_TRANSACTION);
        }
    }
    match r {
        Some(e) => {
            assert(crate::effects::txn_count(mid.transaction_counts, e.context.transaction_id)
                == crate::effects::txn_count(s.transaction_counts, e.context.transaction_id));
            assert forall|t2: u64| t2 != e.context.transaction_id implies #[trigger] crate::effects::txn_count(
                t.transaction_counts,
                t2,
            ) == crate::effects::txn_count(s.transaction_counts, t2) by {
                assert(crate::effects::txn_count(mid.transaction_counts, t2) == crate::effects::txn_count(
                    s.transaction_counts,
                    t2,
                ));
            }
        },
        None => {
            assert forall|x: u64| #[trigger] crate::effects::txn_count(t.transaction_counts, x)
                == crate::effects::txn_count(s.transaction_counts, x) by {
                assert(crate::effects::txn_count(mid.transaction_counts, x) == crate::effects::txn_count(
                    s.transaction_counts,
                    x,
                ));
            }
        },
    }
}

#[verifier::rlimit(60)]
proof fn lemma_next_step_counters(s: SchedulerState)
    requires
        s.frame is Some,
    ensures
        counters_step(s, next_step(s).0, next_step(s).1),
    decreases s.queued.len(), s.ready.len(),
{
    if s.ready.len() == 0 {
        return;
    }
    let source = s.ready[0];
    let k = source@;
    let s1 = SchedulerState { ready: s.ready.drop_first(), ..s };
    if !has_source(s1.queued, k) {
        lemma_next_step_counters(s1);
        lemma_counters_carry(s, s1, next_step(s1).0, next_step(s1).1);
        return;
    }
    let i = first_of_source(s1.queued, k);
    lemma_first_of_source(s1.queued, k);
    let effect = s1.queued[i];
    let q2 = s1.queued.remove(i);
    let s2 = SchedulerState {
        queued: q2,
        ready: if has_source(q2, k) {
            s1.ready.push(source)
        } else {
            s1.ready
        },
        ..s1
    };
    let w = crate::effects::request_weight(effect.request);
    let frame = s2.frame.unwrap();
    let t = effect.context.transaction_id;
    let (fin, out) = next_step(s);
    if frame.processed >= MAX_EFFECTS_PER_FRAME || (w <= MAX_EFFECT_BYTES_PER_FRAME
        && crate::effects::sat_add(frame.bytes, w) > MAX_EFFECT_BYTES_PER_FRAME) {
        lemma_defer_rest(s2, effect);
        assert(fin == defer_rest(s2, effect) && out is None);
        return;
    }
    if w > MAX_EFFECT_BYTES_PER_FRAME {
        let s3 = drop_chain_state(s2, effect.context);
        lemma_drop_chain(s2, effect.context);
        crate::effects::lemma_drop_chain_shrinks(s2, effect.context);
        let s4 = SchedulerState {
            report: ReportState { dropped: crate::effects::sat_add(s3.report.dropped, 1), ..s3.report },
            ..s3
        };
        lemma_next_step_counters(s4);
        lemma_counters_carry(s, s4, next_step(s4).0, next_step(s4).1);
        return;
    }
    let fk = crate::effects::source_count(frame.source_counts, k);
    let fb = crate::effects::source_count(frame.source_bytes, k);
    if fk >= crate::effects::MAX_EFFECTS_PER_SOURCE_PER_FRAME || crate::effects::sat_add(fb, w)
        > crate::effects::MAX_EFFECT_BYTES_PER_SOURCE_PER_FRAME {
        let s3 = over_source_budget(s2, effect);
        lemma_over_source_budget(s2, effect);
        crate::effects::lemma_over_source_budget_shrinks(s2, effect);
        lemma_next_step_counters(s3);
        lemma_counters_carry(s, s3, next_step(s3).0, next_step(s3).1);
        return;
    }
    let tc = crate::effects::txn_count(s2.transaction_counts, t);
    let s3 = SchedulerState {
        transaction_counts: crate::effects::txn_ensure(s2.transaction_counts, t),
        ..s2
    };
    assert forall|x: u64| #[trigger] crate::effects::txn_count(s3.transaction_counts, x)
        == crate::effects::txn_count(s.transaction_counts, x) by {
        lemma_txn_put_count(s2.transaction_counts, t, 0, x);
    }
    if tc >= crate::effects::MAX_EFFECTS_PER_TRANSACTION {
        let s4 = drop_chain_state(s3, effect.context);
        lemma_drop_chain(s3, effect.context);
        crate::effects::lemma_drop_chain_shrinks(s3, effect.context);
        let s5 = SchedulerState {
            report: ReportState {
                transaction_budget_exceeded: crate::effects::sat_add(
                    s4.report.transaction_budget_exceeded,
                    1,
                ),
                dropped: crate::effects::sat_add(s4.report.dropped, 1),
                ..s4.report
            },
            ..s4
        };
        lemma_next_step_counters(s5);
        lemma_counters_carry(s, s5, next_step(s5).0, next_step(s5).1);
        return;
    }
    let ci = crate::effects::causal_entry(s3.causal_counts, t, k, effect.fingerprint);
    let old_c = if ci >= 0 {
        s3.causal_counts[ci].count
    } else {
        0
    };
    let c = crate::effects::sat_add(old_c, 1);
    let counts = if ci >= 0 {
        s3.causal_counts.update(ci, crate::effects::CausalCount { count: c, ..s3.causal_counts[ci] })
    } else {
        s3.causal_counts.push(
            crate::effects::CausalCount {
                transaction_id: t,
                source: effect.context.source,
                fingerprint: effect.fingerprint,
                count: c,
            },
        )
    };
    if effect.context.depth > 0 && c > crate::effects::MAX_REPEATED_CAUSAL_EFFECTS {
        let sc = SchedulerState { causal_counts: counts, ..s3 };
        let s4 = drop_chain_state(sc, effect.context);
        lemma_drop_chain(sc, effect.context);
        crate::effects::lemma_drop_chain_shrinks(sc, effect.context);
        let s5 = SchedulerState {
            blocked: if crate::effects::chain_blocked(s4.blocked, t, k) {
                s4.blocked
            } else {
                s4.blocked.push((t, effect.context.source))
            },
            report: ReportState {
                cycle_breaks: crate::effects::sat_add(s4.report.cycle_breaks, 1),
                dropped: crate::effects::sat_add(s4.report.dropped, 1),
                ..s4.report
            },
            ..s4
        };
        lemma_next_step_counters(s5);
        lemma_counters_carry(s, s5, next_step(s5).0, next_step(s5).1);
        return;
    }
    assert(out == Some(effect));
    let g = fin.frame.unwrap();
    assert(source_of(effect) == k);
    assert forall|k2: SourceKey| #![trigger crate::effects::source_count(g.source_counts, k2)]
        #![trigger crate::effects::source_count(g.source_bytes, k2)]
        true implies crate::effects::source_count(g.source_counts, k2) == if k2 == k {
            (fk + 1) as usize
        } else {
            crate::effects::source_count(frame.source_counts, k2)
        } && crate::effects::source_count(g.source_bytes, k2) == if k2 == k {
            (fb + w) as usize
        } else {
            crate::effects::source_count(frame.source_bytes, k2)
        } by {
        lemma_source_put_count(frame.source_counts, source, (fk + 1) as usize, k2);
        lemma_source_put_count(frame.source_bytes, source, (fb + w) as usize, k2);
    }
    assert forall|x: u64| #[trigger] crate::effects::txn_count(fin.transaction_counts, x) == if x == t {
        (tc + 1) as usize
    } else {
        crate::effects::txn_count(s.transaction_counts, x)
    } by {
        lemma_txn_put_count(s3.transaction_counts, t, (tc + 1) as usize, x);
    }
    assert(fb + w <= crate::effects::MAX_EFFECT_BYTES_PER_SOURCE_PER_FRAME);
    assert(crate::effects::txn_count(s.transaction_counts, t) == tc);
}

/// No source runs past its share of a frame and no transaction past its
/// budget: a round hands out nothing and leaves the frame's counters and
/// every transaction's count as they were, or it hands out one effect and
/// records exactly its run (one more effect in the frame, one more and its
/// weight for its source, one more for its transaction, every other
/// source and transaction untouched); a round that starts with every
/// source within its count and byte share of the frame and every
/// transaction within its budget ends so.
pub proof fn law_source_and_transaction_budgets_hold(s: SchedulerState)
    requires
        s.frame is Some,
    ensures
        counters_step(s, next_step(s).0, next_step(s).1),
{
    lemma_next_step_counters(s);
}

/// The effects handed out, in order, by rounds that answered `outs`.
pub open spec fn handed(outs: Seq<Option<ScheduledEffect>>) -> Seq<ScheduledEffect>
    decreases outs.len(),
{
    if outs.len() == 0 {
        Seq::empty()
    } else {
        match outs.last() {
            Some(e) => handed(outs.drop_last()).push(e),
            None => handed(outs.drop_last()),
        }
    }
}

/// How many of `es` belong to source `k`.
pub open spec fn count_of_source(es: Seq<ScheduledEffect>, k: SourceKey) -> nat
    decreases es.len(),
{
    if es.len() == 0 {
        0
    } else {
        count_of_source(es.drop_last(), k) + if source_of(es.last()) == k {
            1nat
        } else {
            0nat
        }
    }
}

/// The total weight of those of `es` that belong to source `k`.
pub open spec fn weight_of_source(es: Seq<ScheduledEffect>, k: SourceKey) -> nat
    decreases es.len(),
{
    if es.len() == 0 {
        0
    } else {
        weight_of_source(es.drop_last(), k) + if source_of(es.last()) == k {
            crate::effects::request_weight(es.last().request) as nat
        } else {
            0nat
        }
    }
}

/// The total weight of `es`.
pub open spec fn total_weight(es: Seq<ScheduledEffect>) -> nat
    decreases es.len(),
{
    if es.len() == 0 {
        0
    } else {
        total_weight(es.drop_last()) + crate::effects::request_weight(es.last().request) as nat
    }
}

/// How many of `es` belong to transaction `t`.
pub open spec fn count_of_transaction(es: Seq<ScheduledEffect>, t: u64) -> nat
    decreases es.len(),
{
    if es.len() == 0 {
        0
    } else {
        count_of_transaction(es.drop_last(), t) + if es.last().context.transaction_id == t {
            1nat
        } else {
            0nat
        }
    }
}

/// A round of the scheduler from `s` answered `r`, and what its runner did
/// before the next round, leading to `t`, kept the frame and every
/// transaction's count (setting or clearing the running effect, enqueueing
/// follow-ups).
pub open spec fn round_then(s: SchedulerState, r: Option<ScheduledEffect>, t: SchedulerState) -> bool {
    &&& r == next_step(s).1
    &&& t.frame == next_step(s).0.frame
    &&& forall|x: u64| #[trigger] crate::effects::txn_count(t.transaction_counts, x)
        == crate::effects::txn_count(next_step(s).0.transaction_counts, x)
}

/// `states` are the states before each round of a frame and after the
/// last, and `outs` what the rounds answered.
pub open spec fn frame_rounds(states: Seq<SchedulerState>, outs: Seq<Option<ScheduledEffect>>) -> bool {
    &&& states.len() == outs.len() + 1
    &&& forall|i: int| 0 <= i < outs.len() ==> #[trigger] round_then(states[i], outs[i], states[i + 1])
}

/// What a frame's counters say after rounds that handed out `h`, starting
/// from an empty frame and transaction counts `tc0`.
pub open spec fn frame_accounts(f: FrameState, tc: Seq<(u64, usize)>, tc0: Seq<(u64, usize)>, h: Seq<ScheduledEffect>) -> bool {
    &&& f.processed == h.len()
    &&& f.bytes == total_weight(h)
    &&& forall|k: SourceKey| #[trigger] crate::effects::source_count(f.source_counts, k) == count_of_source(h, k)
        && crate::effects::source_count(f.source_bytes, k) == weight_of_source(h, k)
    &&& forall|t: u64| #[trigger] crate::effects::txn_count(tc, t) == crate::effects::txn_count(tc0, t)
        + count_of_transaction(h, t)
}

#[verifier::spinoff_prover]
#[verifier::rlimit(50)]
proof fn lemma_frame_rounds(states: Seq<SchedulerState>, outs: Seq<Option<ScheduledEffect>>)
    requires
        frame_rounds(states, outs),
        states[0].frame == Some(empty_frame()),
        transactions_within_budget(states[0].transaction_counts),
    ensures
        states.last().frame is Some,
        frame_within_budget(states.last().frame.unwrap()),
        sources_within_budget(states.last().frame.unwrap()),
        transactions_within_budget(states.last().transaction_counts),
        frame_accounts(
            states.last().frame.unwrap(),
            states.last().transaction_counts,
            states[0].transaction_counts,
            handed(outs),
        ),
    decreases outs.len(),
{
    let n = outs.len();
    if n == 0 {
        law_begin_frame_keeps_quarantine_and_work(states[0]);
        assert forall|k: SourceKey| #[trigger] crate::effects::source_count(empty_frame().source_counts, k) == 0
            && crate::effects::source_count(empty_frame().source_bytes, k) == 0 by {}
        return;
    }
    let pre = states.subrange(0, n as int);
    let pouts = outs.subrange(0, n - 1);
    assert forall|i: int| 0 <= i < pouts.len() implies #[trigger] round_then(pre[i], pouts[i], pre[i + 1]) by {
        assert(round_then(states[i], outs[i], states[i + 1]));
    }
    lemma_frame_rounds(pre, pouts);
    assert(pouts =~= outs.drop_last());
    let s = states[n - 1];
    assert(pre.last() == s);
    assert(round_then(states[n - 1], outs[n - 1], states[n as int]));
    let (mid, r) = next_step(s);
    lemma_next_step(s);
    lemma_next_step_counters(s);
    let t = states.last();
    let f = s.frame.unwrap();
    let g = t.frame.unwrap();
    let h0 = handed(pouts);
    assert forall|x: u64| #[trigger] crate::effects::txn_count(t.transaction_counts, x)
        == crate::effects::txn_count(mid.transaction_counts, x) by {}
    if transactions_within_budget(mid.transaction_counts) {
        assert forall|x: u64| #[trigger] crate::effects::txn_count(t.transaction_counts, x)
            <= crate::effects::MAX_EFFECTS_PER_TRANSACTION by {
            assert(crate::effects::txn_count(mid.transaction_counts, x) <= crate::effects::MAX_EFFECTS_PER_TRANSACTION);
        }
    }
    match r {
        Some(e) => {
            assert(handed(outs) == h0.push(e));
            let h = h0.push(e);
            assert(h.drop_last() =~= h0);
            assert(f.bytes <= MAX_EFFECT_BYTES_PER_FRAME);
            assert(g.bytes <= MAX_EFFECT_BYTES_PER_FRAME);
            assert(g.bytes == f.bytes + crate::effects::request_weight(e.request));
            assert forall|k: SourceKey| #[trigger] crate::effects::source_count(g.source_counts, k) == count_of_source(h, k)
                && crate::effects::source_count(g.source_bytes, k) == weight_of_source(h, k) by {
                assert(crate::effects::source_count(f.source_counts, k) == count_of_source(h0, k));
                assert(crate::effects::source_count(f.source_bytes, k) == weight_of_source(h0, k));
                assert(h.last() == e);
                assert(count_of_source(h, k) == count_of_source(h0, k) + if source_of(e) == k {
                    1nat
                } else {
                    0nat
                });
                assert(weight_of_source(h, k) == weight_of_source(h0, k) + if source_of(e) == k {
                    crate::effects::request_weight(e.request) as nat
                } else {
                    0nat
                });
                if source_of(e) != k {
                    assert(crate::effects::source_count(g.source_counts, k) == crate::effects::source_count(f.source_counts, k));
                    assert(crate::effects::source_count(g.source_bytes, k) == crate::effects::source_count(f.source_bytes, k));
                }
            }
            assert forall|x: u64| #[trigger] crate::effects::txn_count(t.transaction_counts, x) == crate::effects::txn_count(
                states[0].transaction_counts,
                x,
            ) + count_of_transaction(h, x) by {
                assert(crate::effects::txn_count(s.transaction_counts, x) == crate::effects::txn_count(
                    states[0].transaction_counts,
                    x,
                ) + count_of_transaction(h0, x));
                assert(crate::effects::txn_count(t.transaction_counts, x) == crate::effects::txn_count(mid.transaction_counts, x));
            }
        },
        None => {
            assert(handed(outs) == h0);
            assert forall|x: u64| #[trigger] crate::effects::txn_count(t.transaction_counts, x) == crate::effects::txn_count(
                states[0].transaction_counts,
                x,
            ) + count_of_transaction(h0, x) by {
                assert(crate::effects::txn_count(s.transaction_counts, x) == crate::effects::txn_count(
                    states[0].transaction_counts,
                    x,
                ) + count_of_transaction(h0, x));
                assert(crate::effects::txn_count(t.transaction_counts, x) == crate::effects::txn_count(mid.transaction_counts, x));
            }
        },
    }
}

/// Over a whole frame, the effects handed out keep every budget: after
/// rounds that start from a freshly opened frame, with every transaction
/// within its budget, and between which the runner keeps the frame and the
/// transaction counts, the frame has run exactly the effects handed out,
/// at most as many and as heavy as its budget allows; each source, exactly
/// its handed-out effects, at most its count and byte share; and each
/// transaction, its earlier effects and those handed out, at most its
/// budget.
pub proof fn law_frame_budgets_over_a_frame(states: Seq<SchedulerState>, outs: Seq<Option<ScheduledEffect>>)
    requires
        frame_rounds(states, outs),
        states[0].frame == Some(empty_frame()),
        transactions_within_budget(states[0].transaction_counts),
    ensures
        states.last().frame is Some,
        frame_accounts(
            states.last().frame.unwrap(),
            states.last().transaction_counts,
            states[0].transaction_counts,
            handed(outs),
        ),
        handed(outs).len() <= MAX_EFFECTS_PER_FRAME,
        total_weight(handed(outs)) <= MAX_EFFECT_BYTES_PER_FRAME,
        forall|k: SourceKey| #[trigger] count_of_source(handed(outs), k)
            <= crate::effects::MAX_EFFECTS_PER_SOURCE_PER_FRAME && weight_of_source(handed(outs), k)
            <= crate::effects::MAX_EFFECT_BYTES_PER_SOURCE_PER_FRAME,
        forall|t: u64| #[trigger] count_of_transaction(handed(outs), t) + crate::effects::txn_count(
            states[0].transaction_counts,
            t,
        ) <= crate::effects::MAX_EFFECTS_PER_TRANSACTION,
{
    lemma_frame_rounds(states, outs);
    let f = states.last().frame.unwrap();
    assert forall|k: SourceKey| #[trigger] count_of_source(handed(outs), k)
        <= crate::effects::MAX_EFFECTS_PER_SOURCE_PER_FRAME && weight_of_source(handed(outs), k)
        <= crate::effects::MAX_EFFECT_BYTES_PER_SOURCE_PER_FRAME by {
        assert(crate::effects::source_count(f.source_counts, k) == count_of_source(handed(outs), k));
    }
    assert forall|t: u64| #[trigger] count_of_transaction(handed(outs), t) + crate::effects::txn_count(
        states[0].transaction_counts,
        t,
    ) <= crate::effects::MAX_EFFECTS_PER_TRANSACTION by {
        assert(crate::effects::txn_count(states.last().transaction_counts, t) <= crate::effects::MAX_EFFECTS_PER_TRANSACTION);
    }
}

/// Work is never made up or duplicated: after a round of the scheduler, the
/// pending effects together with the one handed out are, with multiplicity,
/// among the effects pending before the round.
pub proof fn law_next_effect_hands_out_only_pending_work(s: SchedulerState)
    requires
        s.frame is Some,
    ensures
        forall|e: ScheduledEffect| #[trigger]
            pending_multiset(next_step(s).0).count(e) + handed_count(next_step(s).1, e)
                <= pending_multiset(s).count(e),
{
    lemma_next_step(s);
}

/// Quarantine is permanent and effective: a round of the scheduler never
/// lifts a quarantine, and if no pending effect belonged to a quarantined
/// source before the round, none does after it and the effect handed out
/// does not either.
pub proof fn law_quarantined_sources_never_run(s: SchedulerState)
    requires
        s.frame is Some,
        quarantine_clean(s),
    ensures
        extends(s.quarantined, next_step(s).0.quarantined),
        quarantine_clean(next_step(s).0),
        next_step(s).1 matches Some(e) ==> !source_listed(next_step(s).0.quarantined, source_of(e)),
{
    lemma_next_step(s);
}

/// A frame never runs more effects or bytes than its budget: a round that
/// starts within the budget ends within it.
pub proof fn law_frame_stays_within_budget(s: SchedulerState)
    requires
        s.frame is Some,
        frame_within_budget(s.frame.unwrap()),
    ensures
        next_step(s).0.frame is Some,
        frame_within_budget(next_step(s).0.frame.unwrap()),
{
    lemma_next_step(s);
}

/// Enqueueing never lifts a quarantine nor lets a quarantined source's work
/// in: an effect of a quarantined source, or of a blocked causal chain, is
/// dropped, and any other joins the pending work exactly once.
pub proof fn law_enqueue_respects_quarantine(s: SchedulerState, e: ScheduledEffect)
    ensures
        enqueue(s, e).quarantined == s.quarantined,
        quarantine_clean(s) ==> quarantine_clean(enqueue(s, e)),
        source_listed(s.quarantined, source_of(e)) ==> forall|x: ScheduledEffect| #[trigger]
            pending_multiset(enqueue(s, e)).count(x) == pending_multiset(s).count(x),
        !source_listed(s.quarantined, source_of(e)) && !crate::effects::chain_blocked(
            s.blocked,
            e.context.transaction_id,
            source_of(e),
        ) ==> pending_multiset(enqueue(s, e)).count(e) == pending_multiset(s).count(e) + 1,
{
    lemma_enqueue(s, e);
}

/// Opening a frame starts it within budget, keeps every quarantine, and adds
/// no work: the pending effects afterwards are among those before it.
pub proof fn law_begin_frame_keeps_quarantine_and_work(s: SchedulerState)
    ensures
        begin_frame_state(s).frame == Some(empty_frame()),
        frame_within_budget(empty_frame()),
        sources_within_budget(empty_frame()),
        begin_frame_state(s).quarantined == s.quarantined,
        quarantine_clean(s) ==> quarantine_clean(begin_frame_state(s)),
        pending_within(begin_frame_state(s), s),
{
    let s0 = SchedulerState {
        frame: Some(empty_frame()),
        report: crate::effects::empty_report(),
        deferred: Seq::empty(),
        ..s
    };
    lemma_enqueue_all(s0, s.deferred);
    assert forall|x: ScheduledEffect| #[trigger]
        pending_multiset(s0).count(x) + s.deferred.to_multiset().count(x) == pending_multiset(s).count(x) by {}
    if quarantine_clean(s) {
        assert forall|x: ScheduledEffect| #[trigger] pending_multiset(s0).count(x) > 0 implies !source_listed(
            s0.quarantined,
            source_of(x),
        ) by {
            assert(pending_multiset(s).count(x) > 0);
        }
    }
}

} // verus!
