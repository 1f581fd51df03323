//! The texts that describe queued operations, the search over them, and the
//! state of the queue's buttons.
use vstd::prelude::*;

use crate::queue::{
    actionable, actionable_ops, ApplyCounts, OperationQueue, OperationSource, QueuedOperation,
    QueuedOperationKind, QueuedOperationStatus, RuleCombineSummary,
};
use crate::text::{
    chars_contain, chars_of, contains_seq, decimal, decimal_string, join, join_chars, lowercase_text,
    owned, push_char, push_str, str_equal, string_of, string_of_range, to_lowercase, trim, trim_str,
    words, words_of,
};

verus! {

/// The ellipsis that marks a shortened text.
pub open spec fn ellipsis() -> char {
    '\u{2026}'
}

/// A text cut to at most `max` characters; where it is cut, its last
/// character is an ellipsis.
pub open spec fn truncated(s: Seq<char>, max: nat) -> Seq<char> {
    if s.len() <= max {
        s
    } else if max == 0 {
        Seq::empty()
    } else {
        s.take(max - 1).push(ellipsis())
    }
}

pub open spec fn source_title(source: OperationSource) -> Seq<char> {
    match source {
        OperationSource::CreateRule => "Create rule"@,
        OperationSource::ChangeBudgetCode => "Change budget code"@,
        OperationSource::MarkTransfer => "Mark transfer"@,
        OperationSource::MarkInvalid => "Mark invalid detection"@,
    }
}

/// The title of a queued operation.
pub open spec fn title_text(kind: QueuedOperationKind) -> Seq<char> {
    match kind {
        QueuedOperationKind::Rule { source, .. } => source_title(source),
    }
}

/// The name of a queued operation's status.
pub open spec fn status_text(status: QueuedOperationStatus) -> Seq<char> {
    match status {
        QueuedOperationStatus::Pending => "Pending"@,
        QueuedOperationStatus::Applying => "Applying"@,
        QueuedOperationStatus::Applied => "Applied"@,
        QueuedOperationStatus::Failed(_) => "Failed"@,
    }
}

/// The name of the transaction field that a rule searches.
pub open spec fn field_label(field: Seq<char>) -> Seq<char> {
    if field == "counterparty"@ {
        "Counterparty"@
    } else if field == "description"@ {
        "Description"@
    } else if field == "tags"@ {
        "Tags"@
    } else if field == "account"@ {
        "Account"@
    } else if field == "transaction_id"@ {
        "Transaction ID"@
    } else {
        "Everything"@
    }
}

/// The name of the transactions that a rule applies to.
pub open spec fn direction_label(direction: Seq<char>) -> Seq<char> {
    if direction == "expense"@ {
        "Expenses"@
    } else if direction == "income"@ {
        "Income"@
    } else if direction == "transfer"@ {
        "Transfers"@
    } else {
        "All transactions"@
    }
}

pub open spec fn yes_no(b: bool) -> Seq<char> {
    if b {
        "Yes"@
    } else {
        "No"@
    }
}

/// A line `label: value`.
pub open spec fn detail_line(label: Seq<char>, value: Seq<char>) -> Seq<char> {
    label + ": "@ + value
}

/// The lines of an operation's details.
pub open spec fn detail_lines(kind: QueuedOperationKind, status: QueuedOperationStatus) -> Seq<
    Seq<char>,
> {
    let base = match kind {
        QueuedOperationKind::Rule { rule, ensure_budget, .. } => {
            let head = seq![
                detail_line("Action"@, title_text(kind)),
                detail_line("Status"@, status_text(status)),
                detail_line("Field"@, field_label(rule.field@)),
                detail_line("Match"@, trim(rule.search@)),
                detail_line("Regular expression"@, yes_no(rule.is_regex)),
                detail_line("Category"@, trim(rule.category@)),
                detail_line("Budget code"@, trim(rule.budget_code@)),
                detail_line("Direction"@, direction_label(rule.direction@)),
            ];
            let with_min = if trim(rule.amount_min@).len() > 0 {
                head.push(detail_line("Minimum amount"@, trim(rule.amount_min@)))
            } else {
                head
            };
            let with_max = if trim(rule.amount_max@).len() > 0 {
                with_min.push(detail_line("Maximum amount"@, trim(rule.amount_max@)))
            } else {
                with_min
            };
            let with_notes = if trim(rule.notes@).len() > 0 {
                with_max.push(detail_line("Notes"@, trim(rule.notes@)))
            } else {
                with_max
            };
            with_notes.push(detail_line("Create missing budget"@, yes_no(ensure_budget)))
        },
    };
    match status {
        QueuedOperationStatus::Failed(message) => base.push(detail_line("Error"@, message@)),
        _ => base,
    }
}

/// The full details of an operation, one line each.
pub open spec fn details_text(kind: QueuedOperationKind, status: QueuedOperationStatus) -> Seq<char> {
    join(detail_lines(kind, status), "\n"@)
}

/// The one-line summary of an operation.
pub open spec fn subtitle_text(kind: QueuedOperationKind) -> Seq<char> {
    match kind {
        QueuedOperationKind::Rule { rule, .. } => "Rule "@ + field_label(rule.field@) + ": "@
            + truncated(rule.search@, 48) + " -> "@ + truncated(rule.category@, 32) + " / "@
            + truncated(rule.budget_code@, 20) + " ("@ + direction_label(rule.direction@) + ")"@,
    }
}

/// The lower-cased text that the queue search looks through.
pub open spec fn keywords_text(op: QueuedOperation) -> Seq<char> {
    lowercase_text(
        join(
            seq![
                title_text(op.kind),
                status_text(op.status),
                subtitle_text(op.kind),
                details_text(op.kind, op.status),
            ],
            " "@,
        ),
    )
}

/// An operation matches a query when every word of the query occurs in its
/// keywords.
pub open spec fn matches_query(op: QueuedOperation, query: Seq<char>) -> bool {
    query.len() == 0 || forall|i: int|
        0 <= i < words(query).len() ==> contains_seq(keywords_text(op), #[trigger] words(query)[i])
}

/// The message after a run of the queue.
pub open spec fn counts_message(applied: nat, failed: nat) -> Seq<char> {
    if applied == 0 && failed == 0 {
        "No queued operations were applied."@
    } else if failed == 0 {
        "Applied "@ + decimal(applied) + " queued operation(s)."@
    } else if applied == 0 {
        decimal(failed) + " queued operation(s) failed."@
    } else {
        "Applied "@ + decimal(applied) + " queued operation(s); "@ + decimal(failed) + " failed."@
    }
}

/// The message after a run of the queue, with the result of combining rules.
pub open spec fn apply_summary_text(counts: ApplyCounts, combine: Option<RuleCombineSummary>) -> Seq<
    char,
> {
    let message = counts_message(counts.applied as nat, counts.failed as nat);
    match combine {
        Some(summary) => message + " Grouped and combined rules from "@ + decimal(
            summary.before_count as nat,
        ) + " to "@ + decimal(summary.after_count as nat) + "."@,
        None => message,
    }
}

/// The number of failed operations.
pub open spec fn failed_ops(ops: Seq<QueuedOperation>) -> Seq<QueuedOperation> {
    ops.filter(|op: QueuedOperation| op.status is Failed)
}

/// The summary line of the queue.
pub open spec fn queue_summary_text(ops: Seq<QueuedOperation>) -> Seq<char> {
    if ops.len() == 0 {
        "No pending operations."@
    } else if failed_ops(ops).len() > 0 {
        decimal(actionable_ops(ops).len()) + " pending, "@ + decimal(failed_ops(ops).len())
            + " failed."@
    } else {
        decimal(actionable_ops(ops).len()) + " pending operation(s)."@
    }
}

/// `usize` in decimal.
pub fn usize_text(n: usize) -> (r: String)
    ensures
        r@ == decimal(n as nat),
{
    decimal_string(n as u64)
}

/// The text cut to at most `max` characters, an ellipsis marking the cut.
pub fn truncate(s: &str, max: usize) -> (r: String)
    ensures
        r@ == truncated(s@, max as nat),
{
    let cs = chars_of(s);
    if cs.len() <= max {
        owned(s)
    } else if max == 0 {
        String::new()
    } else {
        let mut r = string_of_range(cs.as_slice(), 0, max - 1);
        push_char(&mut r, '\u{2026}');
        assert(cs@.subrange(0, max - 1) == s@.take(max - 1));
        r
    }
}

/// The title of a queued operation.
pub fn operation_title(kind: &QueuedOperationKind) -> (r: String)
    ensures
        r@ == title_text(*kind),
{
    match kind {
        QueuedOperationKind::Rule { source, .. } => match source {
            OperationSource::CreateRule => owned("Create rule"),
            OperationSource::ChangeBudgetCode => owned("Change budget code"),
            OperationSource::MarkTransfer => owned("Mark transfer"),
            OperationSource::MarkInvalid => owned("Mark invalid detection"),
        },
    }
}

/// The name of a status.
pub fn operation_status_text(status: &QueuedOperationStatus) -> (r: String)
    ensures
        r@ == status_text(*status),
{
    match status {
        QueuedOperationStatus::Pending => owned("Pending"),
        QueuedOperationStatus::Applying => owned("Applying"),
        QueuedOperationStatus::Applied => owned("Applied"),
        QueuedOperationStatus::Failed(_) => owned("Failed"),
    }
}

/// The name of the transaction field that a rule searches.
pub fn rule_field_label(field: &str) -> (r: &'static str)
    ensures
        r@ == field_label(field@),
{
    if str_equal(field, "counterparty") {
        "Counterparty"
    } else if str_equal(field, "description") {
        "Description"
    } else if str_equal(field, "tags") {
        "Tags"
    } else if str_equal(field, "account") {
        "Account"
    } else if str_equal(field, "transaction_id") {
        "Transaction ID"
    } else {
        "Everything"
    }
}

/// The name of the transactions that a rule applies to.
pub fn rule_direction_label(direction: &str) -> (r: &'static str)
    ensures
        r@ == direction_label(direction@),
{
    if str_equal(direction, "expense") {
        "Expenses"
    } else if str_equal(direction, "income") {
        "Income"
    } else if str_equal(direction, "transfer") {
        "Transfers"
    } else {
        "All transactions"
    }
}

fn yes_no_text(b: bool) -> (r: &'static str)
    ensures
        r@ == yes_no(b),
{
    if b {
        "Yes"
    } else {
        "No"
    }
}

/// A line `label: value`.
pub fn operation_detail_line(label: &str, value: &str) -> (r: String)
    ensures
        r@ == detail_line(label@, value@),
{
    let mut r = owned(label);
    push_str(&mut r, ": ");
    push_str(&mut r, value);
    r
}

fn line_chars(label: &str, value: &str) -> (r: Vec<char>)
    ensures
        r@ == detail_line(label@, value@),
{
    let line = operation_detail_line(label, value);
    chars_of(line.as_str())
}

/// The full details of an operation, one line each, the rule's texts kept
/// whole.
pub fn operation_details(kind: &QueuedOperationKind, status: &QueuedOperationStatus) -> (r: String)
    ensures
        r@ == details_text(*kind, *status),
{
    let mut lines: Vec<Vec<char>> = Vec::new();
    let ghost expected: Seq<Seq<char>>;
    match kind {
        QueuedOperationKind::Rule { rule, ensure_budget, .. } => {
            let title = operation_title(kind);
            lines.push(line_chars("Action", title.as_str()));
            let st = operation_status_text(status);
            lines.push(line_chars("Status", st.as_str()));
            lines.push(line_chars("Field", rule_field_label(rule.field.as_str())));
            let search = trim_str(rule.search.as_str());
            lines.push(line_chars("Match", search.as_str()));
            lines.push(line_chars("Regular expression", yes_no_text(rule.is_regex)));
            let category = trim_str(rule.category.as_str());
            lines.push(line_chars("Category", category.as_str()));
            let code = trim_str(rule.budget_code.as_str());
            lines.push(line_chars("Budget code", code.as_str()));
            lines.push(line_chars("Direction", rule_direction_label(rule.direction.as_str())));
            let min = trim_str(rule.amount_min.as_str());
            if !min.as_str().is_empty() {
                lines.push(line_chars("Minimum amount", min.as_str()));
            }
            let max = trim_str(rule.amount_max.as_str());
            if !max.as_str().is_empty() {
                lines.push(line_chars("Maximum amount", max.as_str()));
            }
            let notes = trim_str(rule.notes.as_str());
            if !notes.as_str().is_empty() {
                lines.push(line_chars("Notes", notes.as_str()));
            }
            lines.push(line_chars("Create missing budget", yes_no_text(*ensure_budget)));
        },
    }
    if let QueuedOperationStatus::Failed(message) = status {
        lines.push(line_chars("Error", message.as_str()));
    }
    assert(lines@.map_values(|w: Vec<char>| w@) =~= detail_lines(*kind, *status));
    let nl: [char; 1] = ['\n'];
    assert(nl@ == "\n"@) by {
        reveal_strlit("\n");
    }
    let joined = join_chars(&lines, &nl);
    string_of(joined.as_slice())
}

/// The one-line summary of an operation, its texts shortened.
pub fn operation_subtitle(kind: &QueuedOperationKind) -> (r: String)
    ensures
        r@ == subtitle_text(*kind),
{
    match kind {
        QueuedOperationKind::Rule { rule, .. } => {
            let mut r = owned("Rule ");
            push_str(&mut r, rule_field_label(rule.field.as_str()));
            push_str(&mut r, ": ");
            let search = truncate(rule.search.as_str(), 48);
            push_str(&mut r, search.as_str());
            push_str(&mut r, " -> ");
            let category = truncate(rule.category.as_str(), 32);
            push_str(&mut r, category.as_str());
            push_str(&mut r, " / ");
            let code = truncate(rule.budget_code.as_str(), 20);
            push_str(&mut r, code.as_str());
            push_str(&mut r, " (");
            push_str(&mut r, rule_direction_label(rule.direction.as_str()));
            push_str(&mut r, ")");
            r
        },
    }
}

/// The lower-cased text that the queue search looks through.
pub fn operation_keywords(operation: &QueuedOperation) -> (r: String)
    ensures
        r@ == keywords_text(*operation),
{
    let mut parts: Vec<Vec<char>> = Vec::new();
    let title = operation_title(&operation.kind);
    parts.push(chars_of(title.as_str()));
    let status = operation_status_text(&operation.status);
    parts.push(chars_of(status.as_str()));
    let subtitle = operation_subtitle(&operation.kind);
    parts.push(chars_of(subtitle.as_str()));
    let details = operation_details(&operation.kind, &operation.status);
    parts.push(chars_of(details.as_str()));
    let sp: [char; 1] = [' '];
    assert(sp@ == " "@) by {
        reveal_strlit(" ");
    }
    assert(parts@.map_values(|w: Vec<char>| w@) =~= seq![
        title@,
        status@,
        subtitle@,
        details@,
    ]);
    let joined = join_chars(&parts, &sp);
    let text = string_of(joined.as_slice());
    to_lowercase(text.as_str())
}

/// Whether an operation matches the search query: every word of the query
/// occurs in the operation's keywords.
pub fn operation_matches_query(operation: &QueuedOperation, query: &str) -> (r: bool)
    ensures
        r == matches_query(*operation, query@),
{
    let q = chars_of(query);
    if q.len() == 0 {
        return true;
    }
    let keywords = operation_keywords(operation);
    let k = chars_of(keywords.as_str());
    let terms = words_of(q.as_slice());
    let ghost ws = terms@.map_values(|w: Vec<char>| w@);
    let mut i: usize = 0;
    while i < terms.len()
        invariant
            i <= terms.len(),
            ws == terms@.map_values(|w: Vec<char>| w@),
            ws == words(query@),
            k@ == keywords_text(*operation),
            forall|j: int| 0 <= j < i ==> contains_seq(k@, #[trigger] ws[j]),
        decreases terms.len() - i,
    {
        if !chars_contain(k.as_slice(), terms[i].as_slice()) {
            assert(ws[i as int] == terms@[i as int]@);
            return false;
        }
        i += 1;
    }
    true
}

/// The summary line of the queue.
pub fn queue_summary(queue: &OperationQueue) -> (r: String)
    ensures
        r@ == queue_summary_text(queue.ops()),
{
    let operations = queue.operations();
    let actionable_count = queue.actionable_count();
    let mut failed: usize = 0;
    let mut i: usize = 0;
    while i < operations.len()
        invariant
            i <= operations.len(),
            operations@ == queue.ops(),
            failed == failed_ops(operations@.take(i as int)).len(),
            failed <= i,
        decreases operations.len() - i,
    {
        proof {
            let t = operations@.take(i as int + 1);
            assert(t.drop_last() == operations@.take(i as int));
            assert(t.last() == operations@[i as int]);
            reveal_with_fuel(Seq::filter, 1);
        }
        if let QueuedOperationStatus::Failed(_) = operations[i].status {
            failed += 1;
        }
        i += 1;
    }
    assert(operations@.take(operations.len() as int) == operations@);
    if operations.len() == 0 {
        owned("No pending operations.")
    } else if failed > 0 {
        let mut r = usize_text(actionable_count);
        push_str(&mut r, " pending, ");
        let f = usize_text(failed);
        push_str(&mut r, f.as_str());
        push_str(&mut r, " failed.");
        r
    } else {
        let mut r = usize_text(actionable_count);
        push_str(&mut r, " pending operation(s).");
        r
    }
}

/// The message after a run of the queue.
pub fn apply_summary_message(counts: ApplyCounts, combine_summary: Option<RuleCombineSummary>) -> (r:
    String)
    ensures
        r@ == apply_summary_text(counts, combine_summary),
{
    let mut message = if counts.applied == 0 && counts.failed == 0 {
        owned("No queued operations were applied.")
    } else if counts.failed == 0 {
        let mut m = owned("Applied ");
        let a = usize_text(counts.applied);
        push_str(&mut m, a.as_str());
        push_str(&mut m, " queued operation(s).");
        m
    } else if counts.applied == 0 {
        let mut m = usize_text(counts.failed);
        push_str(&mut m, " queued operation(s) failed.");
        m
    } else {
        let mut m = owned("Applied ");
        let a = usize_text(counts.applied);
        push_str(&mut m, a.as_str());
        push_str(&mut m, " queued operation(s); ");
        let f = usize_text(counts.failed);
        push_str(&mut m, f.as_str());
        push_str(&mut m, " failed.");
        m
    };
    if let Some(summary) = combine_summary {
        push_str(&mut message, " Grouped and combined rules from ");
        let b = usize_text(summary.before_count);
        push_str(&mut message, b.as_str());
        push_str(&mut message, " to ");
        let a = usize_text(summary.after_count);
        push_str(&mut message, a.as_str());
        push_str(&mut message, ".");
    }
    message
}

/// A queue action is enabled when its base state allows it, the configuration
/// can be written, and the same operation is not queued already.
pub fn operation_queue_action_enabled(base_enabled: bool, queued: bool, config_enabled: bool) -> (r:
    bool)
    ensures
        r == (base_enabled && config_enabled && !queued),
{
    base_enabled && config_enabled && !queued
}

/// The queue's actions are idle when no run is in progress and nothing loads.
pub fn operation_queue_actions_are_idle(processing: bool, loading_count: u32) -> (r: bool)
    ensures
        r == (!processing && loading_count == 0),
{
    !processing && loading_count == 0
}

/// An operation's apply button is active when the operation can be applied
/// and the queue is idle.
pub fn operation_apply_button_sensitive(
    status: &QueuedOperationStatus,
    processing: bool,
    loading_count: u32,
) -> (r: bool)
    ensures
        r == (actionable(*status) && !processing && loading_count == 0),
{
    status.is_actionable() && operation_queue_actions_are_idle(processing, loading_count)
}

/// The queue button is highlighted while operations wait.
pub fn operation_queue_button_is_suggested(actionable_count: usize) -> (r: bool)
    ensures
        r == (actionable_count > 0),
{
    actionable_count > 0
}

/// The icon of an operation row's expander.
pub fn operation_details_icon_name(expanded: bool) -> (r: &'static str)
    ensures
        r@ == (if expanded {
            "pan-down-symbolic"@
        } else {
            "pan-end-symbolic"@
        }),
{
    if expanded {
        "pan-down-symbolic"
    } else {
        "pan-end-symbolic"
    }
}

/// Whether the configuration can be written at all, as the app decides it.
pub enum ActionAvailability {
    Available,
    /// The action is not offered.
    Hidden,
    /// The action is shown but cannot be used, for this reason.
    Disabled(String),
}

/// How a widget that queues an operation looks.
pub struct QueueActionWidgetState {
    pub visible: bool,
    pub sensitive: bool,
    pub tooltip: Option<String>,
}

/// The tooltip of a widget whose operation is queued already.
pub open spec fn already_queued_tooltip() -> Seq<char> {
    "This operation is already in the processing queue."@
}

/// How a widget that queues an operation looks: where the configuration can
/// be written, as its base state says, active unless the operation is queued
/// or the configuration busy, with a note where it is queued; hidden where
/// the action is not offered; inactive, with the reason, where it is
/// disabled.
pub fn queue_action_widget_state(
    base_enabled: bool,
    base_visible: bool,
    base_tooltip: Option<&str>,
    queued: bool,
    config_idle: bool,
    availability: &ActionAvailability,
) -> (r: QueueActionWidgetState)
    ensures
        match availability {
            ActionAvailability::Available => {
                &&& r.visible == base_visible
                &&& r.sensitive == (base_enabled && config_idle && !queued)
                &&& if queued {
                    r.tooltip matches Some(t) && t@ == already_queued_tooltip()
                } else {
                    match base_tooltip {
                        Some(b) => r.tooltip matches Some(t) && t@ == b@,
                        None => r.tooltip is None,
                    }
                }
            },
            ActionAvailability::Hidden => !r.visible && !r.sensitive && r.tooltip is None,
            ActionAvailability::Disabled(reason) => {
                &&& r.visible == base_visible
                &&& !r.sensitive
                &&& r.tooltip matches Some(t) && t@ == reason@
            },
        },
{
    match availability {
        ActionAvailability::Available => {
            let sensitive = operation_queue_action_enabled(base_enabled, queued, config_idle);
            let tooltip = if queued {
                Some(owned("This operation is already in the processing queue."))
            } else {
                match base_tooltip {
                    Some(b) => Some(owned(b)),
                    None => None,
                }
            };
            QueueActionWidgetState { visible: base_visible, sensitive, tooltip }
        },
        ActionAvailability::Hidden => QueueActionWidgetState {
            visible: false,
            sensitive: false,
            tooltip: None,
        },
        ActionAvailability::Disabled(reason) => QueueActionWidgetState {
            visible: base_visible,
            sensitive: false,
            tooltip: Some(reason.clone()),
        },
    }
}

/// Whether a menu action that queues an operation is enabled: the
/// configuration can be written and is not busy, and the action's base
/// state allows it while the operation is not queued.
pub fn queue_menu_action_enabled(
    base_enabled: bool,
    queued: bool,
    config_idle: bool,
    availability: &ActionAvailability,
) -> (r: bool)
    ensures
        r == (base_enabled && !queued && config_idle && availability is Available),
{
    let config_enabled = match availability {
        ActionAvailability::Available => config_idle,
        _ => false,
    };
    operation_queue_action_enabled(base_enabled, queued, config_enabled)
}

/// The configuration is idle when the management window is closed and
/// nothing loads.
pub fn queue_config_idle(management_dialog_active: bool, loading_count: u32) -> (r: bool)
    ensures
        r == (!management_dialog_active && loading_count == 0),
{
    !management_dialog_active && loading_count == 0
}

} // verus!
