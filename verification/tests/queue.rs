use bank_files::queue::{
    ApplyCounts, EnqueueOperationResult, OperationQueue, OperationSource, QueuedOperation,
    QueuedOperationKind, QueuedOperationStatus, RuleCombineSummary,
};
use bank_files::queue_run::{
    apply_progress_message, enqueue_status_message, finish_queue_run, finish_queue_step,
    next_queue_step, queue_apply_ids, start_queue_run, QueueApplyRefusal, StepOutcome,
};
use bank_files::queue_text::{
    apply_summary_message, operation_apply_button_sensitive, operation_details,
    operation_details_icon_name, operation_matches_query, operation_queue_action_enabled,
    operation_queue_button_is_suggested,
};
use bank_files::records::EditableRule;

fn rule(search: &str) -> EditableRule {
    EditableRule {
        search: search.to_string(),
        ..EditableRule::new_default()
    }
}

#[test]
fn enqueue_assigns_stable_ids_and_counts_actionable_items() {
    let mut queue = OperationQueue::new();

    let first = queue.enqueue_rule(rule("alpha"), true, OperationSource::CreateRule);
    let second = queue.enqueue_rule(rule("beta"), true, OperationSource::ChangeBudgetCode);

    assert_eq!(first, EnqueueOperationResult::Queued(1));
    assert_eq!(second, EnqueueOperationResult::Queued(2));
    assert_eq!(queue.actionable_count(), 2);
}

#[test]
fn duplicate_rule_operations_are_not_enqueued_twice() {
    let mut queue = OperationQueue::new();
    let first = queue.enqueue_rule(rule("alpha"), true, OperationSource::CreateRule);
    let duplicate = queue.enqueue_rule(rule("alpha"), true, OperationSource::CreateRule);
    let other_source = queue.enqueue_rule(rule("alpha"), true, OperationSource::ChangeBudgetCode);

    assert_eq!(first, EnqueueOperationResult::Queued(1));
    assert_eq!(duplicate, EnqueueOperationResult::AlreadyQueued(1));
    assert_eq!(other_source, EnqueueOperationResult::Queued(2));
    assert_eq!(queue.operations().len(), 2);
}

#[test]
fn queued_action_sensitivity_follows_duplicate_state() {
    assert!(operation_queue_action_enabled(true, false, true));
    assert!(!operation_queue_action_enabled(true, true, true));
    assert!(!operation_queue_action_enabled(false, false, true));
    assert!(!operation_queue_action_enabled(true, false, false));
}

#[test]
fn pending_remove_deletes_item() {
    let mut queue = OperationQueue::new();
    let id = queue
        .enqueue_rule(rule("alpha"), true, OperationSource::CreateRule)
        .id();

    assert!(queue.remove(id));
    assert!(queue.operations().is_empty());
}

#[test]
fn applying_item_cannot_be_removed() {
    let mut queue = OperationQueue::new();
    let id = queue
        .enqueue_rule(rule("alpha"), true, OperationSource::CreateRule)
        .id();

    assert!(queue.mark_applying(id));
    assert!(!queue.remove(id));
    assert_eq!(queue.operations().len(), 1);
}

#[test]
fn apply_buttons_are_disabled_while_loading_or_processing() {
    assert!(operation_apply_button_sensitive(&QueuedOperationStatus::Pending, false, 0));
    assert!(!operation_apply_button_sensitive(&QueuedOperationStatus::Pending, true, 0));
    assert!(!operation_apply_button_sensitive(&QueuedOperationStatus::Pending, false, 1));
    assert!(!operation_apply_button_sensitive(&QueuedOperationStatus::Applied, false, 0));
}

#[test]
fn applied_and_failed_items_can_be_removed() {
    let mut queue = OperationQueue::new();
    let applied = queue
        .enqueue_rule(rule("alpha"), true, OperationSource::CreateRule)
        .id();
    let failed = queue
        .enqueue_rule(rule("beta"), true, OperationSource::CreateRule)
        .id();

    queue.mark_applied(applied);
    queue.mark_failed(failed, "nope".to_string());

    assert!(queue.remove(applied));
    assert!(queue.remove(failed));
    assert!(queue.operations().is_empty());
}

#[test]
fn apply_summary_includes_rule_combine_result() {
    let message = apply_summary_message(
        ApplyCounts { applied: 2, failed: 0 },
        Some(RuleCombineSummary { before_count: 8, after_count: 5 }),
    );

    assert!(message.contains('2'));
    assert!(message.contains('8'));
    assert!(message.contains('5'));
}

#[test]
fn operation_search_matches_rule_details() {
    let operation = QueuedOperation {
        id: 1,
        kind: QueuedOperationKind::Rule {
            rule: EditableRule {
                field: "counterparty".to_string(),
                search: "Coffee Shop".to_string(),
                category: "Food".to_string(),
                budget_code: "FOOD".to_string(),
                ..EditableRule::new_default()
            },
            ensure_budget: true,
            source: OperationSource::CreateRule,
        },
        status: QueuedOperationStatus::Pending,
    };

    assert!(operation_matches_query(&operation, "coffee food"));
    assert!(operation_matches_query(&operation, "coffee shop"));
    assert!(!operation_matches_query(&operation, "transport"));
}

#[test]
fn queue_button_is_suggested_only_for_pending_operations() {
    assert!(!operation_queue_button_is_suggested(0));
    assert!(operation_queue_button_is_suggested(1));
}

#[test]
fn clear_applied_removes_only_successful_items() {
    let mut queue = OperationQueue::new();
    let applied = queue
        .enqueue_rule(rule("alpha"), true, OperationSource::CreateRule)
        .id();
    let failed = queue
        .enqueue_rule(rule("beta"), true, OperationSource::CreateRule)
        .id();
    let pending = queue
        .enqueue_rule(rule("gamma"), true, OperationSource::CreateRule)
        .id();

    queue.mark_applied(applied);
    queue.mark_failed(failed, "nope".to_string());

    assert_eq!(queue.applied_count(), 1);
    assert_eq!(queue.clear_applied(), 1);
    assert_eq!(queue.applied_count(), 0);
    assert_eq!(
        queue
            .operations()
            .iter()
            .map(|operation| operation.id)
            .collect::<Vec<_>>(),
        vec![failed, pending]
    );
}

#[test]
fn operation_details_icon_tracks_expansion_state() {
    assert_eq!(operation_details_icon_name(false), "pan-end-symbolic");
    assert_eq!(operation_details_icon_name(true), "pan-down-symbolic");
}

#[test]
fn operation_details_keep_full_rule_text() {
    let long_search =
        "a very long shop counterparty with multiple words that should not be truncated";
    let kind = QueuedOperationKind::Rule {
        rule: EditableRule {
            field: "counterparty".to_string(),
            search: long_search.to_string(),
            is_regex: true,
            category: "Groceries and daily shopping".to_string(),
            budget_code: "GROCERY-LONG".to_string(),
            direction: "expense".to_string(),
            amount_min: "-100".to_string(),
            notes: "Generated from repeated matches".to_string(),
            ..EditableRule::new_default()
        },
        ensure_budget: true,
        source: OperationSource::CreateRule,
    };

    let details = operation_details(&kind, &QueuedOperationStatus::Pending);

    assert!(details.contains(long_search));
    assert!(details.contains("Groceries and daily shopping"));
    assert!(details.contains("GROCERY-LONG"));
    assert!(details.contains("-100"));
    assert!(details.contains("Generated from repeated matches"));
}

#[test]
fn operation_details_include_failure_message() {
    let kind = QueuedOperationKind::Rule {
        rule: rule("alpha"),
        ensure_budget: false,
        source: OperationSource::CreateRule,
    };

    let details = operation_details(
        &kind,
        &QueuedOperationStatus::Failed("full failure text".to_string()),
    );

    assert!(details.contains("alpha"));
    assert!(details.contains("full failure text"));
}

#[test]
fn failed_item_can_be_retried() {
    let mut queue = OperationQueue::new();
    let id = queue
        .enqueue_rule(rule("alpha"), true, OperationSource::CreateRule)
        .id();
    queue.mark_failed(id, "nope".to_string());

    assert_eq!(queue.actionable_ids(), vec![id]);
    assert!(queue.mark_applying(id));
}

#[test]
fn a_queue_run_applies_each_operation_once() {
    let mut queue = OperationQueue::new();
    let a = queue.enqueue_rule(rule("alpha"), true, OperationSource::CreateRule).id();
    let b = queue.enqueue_rule(rule("beta"), true, OperationSource::CreateRule).id();
    let c = queue.enqueue_rule(rule("gamma"), true, OperationSource::CreateRule).id();
    queue.mark_applied(c);

    assert_eq!(queue_apply_ids(&queue, &[c]), Err(QueueApplyRefusal::NoOperations));
    let ids = queue_apply_ids(&queue, &[a, 99, c, b]).unwrap();
    assert_eq!(ids, vec![a, b]);

    let mut run = start_queue_run(&mut queue, ids);
    assert!(queue.is_processing());
    assert_eq!(queue_apply_ids(&queue, &[a]), Err(QueueApplyRefusal::AlreadyRunning));

    let step = next_queue_step(&mut queue, &mut run).unwrap();
    assert_eq!((step.id, step.position, step.total), (a, 1, 2));
    assert_eq!(apply_progress_message(step.position, step.total), "Applying queued operation 1 of 2...");
    assert!(!queue.remove(a));
    finish_queue_step(&mut queue, &mut run, step.id, StepOutcome::Applied);

    queue.remove(b);
    assert!(next_queue_step(&mut queue, &mut run).is_none());
    assert_eq!(run.counts, ApplyCounts { applied: 1, failed: 0 });
    assert!(finish_queue_run(&mut queue, &run));
    assert!(!queue.is_processing());
    assert_eq!(queue.applied_count(), 2);
}

#[test]
fn a_failed_step_is_counted_and_can_be_retried() {
    let mut queue = OperationQueue::new();
    let a = queue.enqueue_rule(rule("alpha"), true, OperationSource::CreateRule).id();
    let ids = queue_apply_ids(&queue, &[a]).unwrap();
    let mut run = start_queue_run(&mut queue, ids);
    let step = next_queue_step(&mut queue, &mut run).unwrap();
    finish_queue_step(&mut queue, &mut run, step.id, StepOutcome::Canceled);
    assert!(next_queue_step(&mut queue, &mut run).is_none());
    assert!(!finish_queue_run(&mut queue, &run));
    assert_eq!(run.counts, ApplyCounts { applied: 0, failed: 1 });
    let details = operation_details(
        &QueuedOperationKind::Rule { rule: rule("alpha"), ensure_budget: true, source: OperationSource::CreateRule },
        &queue.operations()[0].status,
    );
    assert!(details.contains("The background task stopped unexpectedly."));
    assert_eq!(queue.actionable_ids(), vec![a]);
}

#[test]
fn enqueue_messages_tell_new_from_duplicate() {
    assert_eq!(enqueue_status_message(EnqueueOperationResult::Queued(3)), "Operation added to queue.");
    assert_eq!(
        enqueue_status_message(EnqueueOperationResult::AlreadyQueued(3)),
        "Operation is already in the processing queue."
    );
    assert_eq!(QueueApplyRefusal::NoOperations.message(), "No queued operations to apply.");
}

#[test]
fn queued_ids_count_the_operations_added() {
    let mut queue = OperationQueue::new();
    let answers = vec![
        queue.enqueue_rule(rule("a"), true, OperationSource::CreateRule),
        queue.enqueue_rule(rule("b"), true, OperationSource::CreateRule),
        queue.enqueue_rule(rule("a"), true, OperationSource::CreateRule),
        queue.enqueue_rule(rule("c"), false, OperationSource::CreateRule),
    ];
    assert_eq!(
        answers,
        vec![
            EnqueueOperationResult::Queued(1),
            EnqueueOperationResult::Queued(2),
            EnqueueOperationResult::AlreadyQueued(1),
            EnqueueOperationResult::Queued(3),
        ]
    );
    let ids = queue.operations().iter().map(|o| o.id).collect::<Vec<_>>();
    assert_eq!(ids, vec![1, 2, 3]);
}

#[test]
fn a_queue_run_passes_over_only_operations_that_cannot_be_applied() {
    let mut queue = OperationQueue::new();
    let a = queue.enqueue_rule(rule("alpha"), true, OperationSource::CreateRule).id();
    let b = queue.enqueue_rule(rule("beta"), true, OperationSource::CreateRule).id();
    let c = queue.enqueue_rule(rule("gamma"), true, OperationSource::CreateRule).id();
    let ids = queue_apply_ids(&queue, &[a, b, c]).unwrap();
    let mut run = start_queue_run(&mut queue, ids);

    let first = next_queue_step(&mut queue, &mut run).unwrap();
    assert_eq!((first.id, first.position, first.total), (a, 1, 3));
    finish_queue_step(&mut queue, &mut run, first.id, StepOutcome::Applied);

    assert!(queue.remove(b));
    let second = next_queue_step(&mut queue, &mut run).unwrap();
    assert_eq!((second.id, second.position, second.total), (c, 3, 3));
    finish_queue_step(&mut queue, &mut run, second.id, StepOutcome::Failed("no".to_string()));

    assert!(next_queue_step(&mut queue, &mut run).is_none());
    assert_eq!(run.counts, ApplyCounts { applied: 1, failed: 1 });
    assert!(finish_queue_run(&mut queue, &run));
}
