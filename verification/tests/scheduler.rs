use mesh_shell::effects::{
    effect_fingerprint, effect_weight, EffectContext, EffectScheduler, EffectSource,
    FrameStep, ScheduledEffect, MAX_EFFECTS_PER_FRAME, MAX_EFFECTS_PER_SOURCE_PER_FRAME,
};
use mesh_shell::types::CoreRequest;

fn scheduler_source(module_id: &str, runtime_id: &str) -> EffectSource {
    EffectSource {
        module_id: module_id.to_string(),
        runtime_id: runtime_id.to_string(),
        generation: 4,
    }
}

fn position_request(surface_id: &str) -> CoreRequest {
    CoreRequest::PositionSurface {
        surface_id: surface_id.to_string(),
        margin_top: 0,
        margin_left: 0,
    }
}

#[test]
fn effect_scheduler_round_robins_sources() {
    let mut scheduler = EffectScheduler::default();
    let source_a = scheduler_source("@test/a", "a");
    let source_b = scheduler_source("@test/b", "b");
    scheduler.enqueue_batch(vec![
        (position_request("a-1"), source_a.duplicate()),
        (position_request("a-2"), source_a.duplicate()),
        (position_request("a-3"), source_a),
        (position_request("b-1"), source_b.duplicate()),
        (position_request("b-2"), source_b.duplicate()),
        (position_request("b-3"), source_b),
    ]);
    scheduler.begin_frame();

    let order = (0..6)
        .map(|_| scheduler.next_effect().unwrap().context.source.module_id)
        .collect::<Vec<_>>();

    assert_eq!(
        order,
        vec!["@test/a", "@test/b", "@test/a", "@test/b", "@test/a", "@test/b"]
    );
    assert_eq!(scheduler.finish_frame().deferred, 0);
}

#[test]
fn effect_scheduler_defers_residual_work_after_source_budget() {
    let mut scheduler = EffectScheduler::default();
    let source_a = scheduler_source("@test/a", "a");
    let source_b = scheduler_source("@test/b", "b");
    let mut batch = Vec::new();
    for index in 0..100 {
        batch.push((position_request(&format!("a-{index}")), source_a.duplicate()));
    }
    for index in 0..100 {
        batch.push((position_request(&format!("b-{index}")), source_b.duplicate()));
    }
    scheduler.enqueue_batch(batch);
    scheduler.begin_frame();

    let mut processed = 0;
    while scheduler.next_effect().is_some() {
        processed += 1;
    }
    let report = scheduler.finish_frame();

    assert_eq!(processed, MAX_EFFECTS_PER_SOURCE_PER_FRAME * 2);
    assert_eq!(report.deferred, 200 - processed);
    assert_eq!(scheduler.pending_len(), report.deferred);
}

#[test]
fn effect_scheduler_breaks_repeated_causal_effects() {
    let mut scheduler = EffectScheduler::default();
    let source = scheduler_source("@test/cycle", "cycle");
    scheduler.enqueue_batch(vec![(position_request("cycle"), source)]);
    scheduler.begin_frame();

    while let Some(effect) = scheduler.next_effect() {
        scheduler.set_active_context(effect.context.duplicate());
        scheduler.enqueue_followups(vec![effect.request]);
        scheduler.clear_active_context();
    }
    let report = scheduler.finish_frame();

    assert_eq!(report.cycle_breaks, 1);
    assert_eq!(scheduler.pending_len(), 0);
}

#[test]
fn scheduler_quarantines_a_source_after_three_budget_violations_and_never_runs_it_again() {
    let mut scheduler = EffectScheduler::default();
    let noisy = scheduler_source("@test/noisy", "noisy");
    let mut batch = Vec::new();
    for index in 0..(MAX_EFFECTS_PER_SOURCE_PER_FRAME * 4) {
        batch.push((position_request(&format!("n-{index}")), noisy.duplicate()));
    }
    scheduler.enqueue_batch(batch);

    let mut quarantined = Vec::new();
    for _ in 0..3 {
        scheduler.begin_frame();
        while scheduler.next_effect().is_some() {}
        let report = scheduler.finish_frame();
        quarantined.extend(report.quarantined_sources);
    }
    assert_eq!(quarantined.len(), 1);
    assert_eq!(quarantined[0].module_id, "@test/noisy");
    assert_eq!(scheduler.pending_len(), 0);

    // New work from the quarantined source is dropped on arrival.
    scheduler.enqueue_batch(vec![(position_request("late"), noisy.duplicate())]);
    assert_eq!(scheduler.pending_len(), 0);
    scheduler.begin_frame();
    assert!(scheduler.next_effect().is_none());
    let report = scheduler.finish_frame();
    assert_eq!(report.dropped, 0);
}

#[test]
fn scheduler_frame_never_runs_more_than_its_effect_budget() {
    let mut scheduler = EffectScheduler::default();
    for source in 0..20 {
        let s = scheduler_source(&format!("@test/s{source}"), &format!("s{source}"));
        let mut batch = Vec::new();
        for index in 0..40 {
            batch.push((position_request(&format!("s{source}-{index}")), s.duplicate()));
        }
        scheduler.enqueue_batch(batch);
    }
    scheduler.begin_frame();
    let mut processed = 0;
    while scheduler.next_effect().is_some() {
        processed += 1;
    }
    let report = scheduler.finish_frame();
    assert_eq!(processed, MAX_EFFECTS_PER_FRAME);
    assert_eq!(report.deferred, 800 - MAX_EFFECTS_PER_FRAME);
    assert_eq!(scheduler.pending_len(), 800 - MAX_EFFECTS_PER_FRAME);
}

#[test]
fn one_transaction_runs_at_most_its_budget_per_frame() {
    let mut scheduler = EffectScheduler::default();
    let mut batch = Vec::new();
    for source in 0..20 {
        let s = scheduler_source(&format!("@test/s{source}"), &format!("s{source}"));
        for index in 0..40 {
            batch.push((position_request(&format!("s{source}-{index}")), s.duplicate()));
        }
    }
    scheduler.enqueue_batch(batch);
    scheduler.begin_frame();
    let mut processed = 0;
    while scheduler.next_effect().is_some() {
        processed += 1;
    }
    let report = scheduler.finish_frame();
    assert_eq!(processed, 256);
    assert!(report.transaction_budget_exceeded > 0);
    assert_eq!(scheduler.pending_len(), 0);
}

#[test]
fn scheduler_hands_out_each_effect_once() {
    let mut scheduler = EffectScheduler::default();
    let source = scheduler_source("@test/once", "once");
    scheduler.enqueue_batch(vec![
        (position_request("x"), source.duplicate()),
        (position_request("y"), source.duplicate()),
    ]);
    scheduler.begin_frame();
    let first = scheduler.next_effect().unwrap();
    let second = scheduler.next_effect().unwrap();
    assert!(scheduler.next_effect().is_none());
    assert!(matches!(first.request, CoreRequest::PositionSurface { ref surface_id, .. } if surface_id == "x"));
    assert!(matches!(second.request, CoreRequest::PositionSurface { ref surface_id, .. } if surface_id == "y"));
    assert_eq!(first.context.transaction_id, second.context.transaction_id);
    assert_eq!(first.context.depth, 0);
    scheduler.finish_frame();
    assert_eq!(scheduler.pending_len(), 0);
}

#[test]
fn transaction_ids_are_never_zero_and_advance() {
    let mut scheduler = EffectScheduler::default();
    assert_eq!(scheduler.next_transaction_id(), 1);
    assert_eq!(scheduler.next_transaction_id(), 2);
    scheduler.next_transaction_id = u64::MAX;
    assert_eq!(scheduler.next_transaction_id(), u64::MAX);
    assert_eq!(scheduler.next_transaction_id(), 1);
}

#[test]
fn followups_without_an_active_effect_are_discarded() {
    let mut scheduler = EffectScheduler::default();
    scheduler.enqueue_followups(vec![position_request("orphan")]);
    assert_eq!(scheduler.pending_len(), 0);
    assert!(scheduler.active_context().is_none());
}

#[test]
fn discard_pending_reports_and_drops_all_work() {
    let mut scheduler = EffectScheduler::default();
    let source = scheduler_source("@test/d", "d");
    scheduler.enqueue_batch(vec![
        (position_request("1"), source.duplicate()),
        (position_request("2"), source.duplicate()),
        (position_request("3"), source),
    ]);
    assert_eq!(scheduler.discard_pending(), 3);
    assert_eq!(scheduler.pending_len(), 0);
}

#[test]
fn drop_source_and_defer_source_move_only_that_sources_work() {
    let mut scheduler = EffectScheduler::default();
    let a = scheduler_source("@test/a", "a");
    let b = scheduler_source("@test/b", "b");
    scheduler.enqueue_batch(vec![
        (position_request("a"), a.duplicate()),
        (position_request("b"), b.duplicate()),
    ]);
    scheduler.defer_source(&a);
    assert_eq!(scheduler.pending_len(), 2);
    assert_eq!(scheduler.deferred.len(), 1);
    scheduler.drop_source(&a);
    assert_eq!(scheduler.pending_len(), 1);
    scheduler.defer_ready_queues();
    assert_eq!(scheduler.deferred.len(), 1);
    assert_eq!(scheduler.queued.len(), 0);
}

#[test]
fn drop_causal_chain_discards_one_transaction_of_one_source() {
    let mut scheduler = EffectScheduler::default();
    let a = scheduler_source("@test/a", "a");
    scheduler.enqueue_batch(vec![(position_request("t1"), a.duplicate())]);
    scheduler.enqueue_batch(vec![(position_request("t2"), a.duplicate())]);
    let context = EffectContext { source: a.duplicate(), transaction_id: 1, depth: 0 };
    scheduler.drop_causal_chain(&context);
    assert_eq!(scheduler.pending_len(), 1);
    assert_eq!(scheduler.deferred[0].context.transaction_id, 2);
}

#[test]
fn enqueue_with_context_drops_effects_of_quarantined_sources() {
    let mut scheduler = EffectScheduler::default();
    let a = scheduler_source("@test/a", "a");
    scheduler.quarantined_sources.push(a.duplicate());
    let request = position_request("q");
    let fingerprint = effect_fingerprint(&request);
    scheduler.enqueue_with_context(ScheduledEffect {
        request,
        context: EffectContext { source: a, transaction_id: 9, depth: 0 },
        fingerprint,
    });
    assert_eq!(scheduler.pending_len(), 0);
    assert_eq!(scheduler.report.dropped, 1);
}

#[test]
fn effect_weight_is_sixty_four_plus_the_debug_text() {
    let request = CoreRequest::Shutdown;
    assert_eq!(effect_weight(&request), 64 + "Shutdown".len());
    assert_eq!(effect_fingerprint(&request), effect_fingerprint(&CoreRequest::Shutdown));
    assert_ne!(
        effect_fingerprint(&CoreRequest::Shutdown),
        effect_fingerprint(&CoreRequest::CycleDebugTab)
    );
}

#[test]
fn a_frame_runs_each_effect_then_its_follow_ups_and_finishes() {
    let mut scheduler = EffectScheduler::default();
    scheduler.enqueue_batch(vec![(position_request("first"), scheduler_source("@test/a", "a"))]);
    let step = scheduler.start_frame();
    let effect = match step {
        FrameStep::Run(effect) => effect,
        FrameStep::Finished(_) => panic!("the queued effect should run"),
    };
    assert!(matches!(&effect.request, CoreRequest::PositionSurface { surface_id, .. } if surface_id == "first"));
    assert!(scheduler.active_context.is_some());

    let step = scheduler.settle_effect(Some(vec![position_request("follow-up")]));
    let follow_up = match step {
        FrameStep::Run(effect) => effect,
        FrameStep::Finished(_) => panic!("the follow-up should run in the same frame"),
    };
    assert!(matches!(&follow_up.request, CoreRequest::PositionSurface { surface_id, .. } if surface_id == "follow-up"));
    assert_eq!(follow_up.context.depth, effect.context.depth + 1);
    assert_eq!(follow_up.context.transaction_id, effect.context.transaction_id);

    match scheduler.settle_effect(Some(Vec::new())) {
        FrameStep::Finished(report) => assert_eq!(report.dropped, 0),
        FrameStep::Run(_) => panic!("no work is left"),
    }
    assert!(scheduler.frame.is_none());
    assert!(scheduler.active_context.is_none());
}

#[test]
fn a_failed_effect_ends_its_frame_and_keeps_the_rest_pending() {
    let mut scheduler = EffectScheduler::default();
    let source = scheduler_source("@test/a", "a");
    scheduler.enqueue_batch(vec![
        (position_request("one"), source.duplicate()),
        (position_request("two"), source),
    ]);
    assert!(matches!(scheduler.start_frame(), FrameStep::Run(_)));
    assert!(matches!(scheduler.settle_effect(None), FrameStep::Finished(_)));
    assert!(scheduler.frame.is_none());
    assert!(scheduler.active_context.is_none());
    assert_eq!(scheduler.queued.len(), 1);
}

#[test]
fn without_work_next_effect_answers_none_even_outside_a_frame() {
    let mut scheduler = EffectScheduler::default();
    assert!(scheduler.frame.is_none());
    assert!(scheduler.next_effect().is_none());
    assert!(scheduler.frame.is_none());
}
