//! The processing queue: configuration changes that wait to be applied, each
//! with a stable id and a status.
use vstd::prelude::*;

use crate::records::EditableRule;

verus! {

/// Where a queued operation comes from.
#[derive(Debug, Clone, Copy, PartialEq, Eq, Structural)]
pub enum OperationSource {
    CreateRule,
    ChangeBudgetCode,
    MarkTransfer,
    MarkInvalid,
}

/// The state of a queued operation.
pub enum QueuedOperationStatus {
    Pending,
    Applying,
    Applied,
    Failed(String),
}

/// What a queued operation does.
pub enum QueuedOperationKind {
    Rule { rule: EditableRule, ensure_budget: bool, source: OperationSource },
}

/// One entry of the queue.
pub struct QueuedOperation {
    pub id: u64,
    pub kind: QueuedOperationKind,
    pub status: QueuedOperationStatus,
}

/// The answer to a request to queue an operation.
#[derive(Debug, Clone, Copy, PartialEq, Eq, Structural)]
pub enum EnqueueOperationResult {
    Queued(u64),
    AlreadyQueued(u64),
}

/// How many operations of one run were applied and how many failed.
#[derive(Debug, Clone, Copy, PartialEq, Eq, Structural)]
pub struct ApplyCounts {
    pub applied: usize,
    pub failed: usize,
}

/// The rule count before and after queued rules were grouped and combined.
#[derive(Debug, Clone, Copy, PartialEq, Eq, Structural)]
pub struct RuleCombineSummary {
    pub before_count: usize,
    pub after_count: usize,
}

/// The queue of operations.
pub struct OperationQueue {
    next_id: u64,
    operations: Vec<QueuedOperation>,
    processing: bool,
    queued: Ghost<nat>,
}

/// Pending and failed operations can be applied (again).
pub open spec fn actionable(s: QueuedOperationStatus) -> bool {
    s is Pending || s is Failed
}

/// Every operation but one being applied can be removed.
pub open spec fn removable(s: QueuedOperationStatus) -> bool {
    !(s is Applying)
}

/// The status of an operation equal to another one, the failure message
/// compared by its text.
pub open spec fn same_status(a: QueuedOperationStatus, b: QueuedOperationStatus) -> bool {
    match (a, b) {
        (QueuedOperationStatus::Pending, QueuedOperationStatus::Pending) => true,
        (QueuedOperationStatus::Applying, QueuedOperationStatus::Applying) => true,
        (QueuedOperationStatus::Applied, QueuedOperationStatus::Applied) => true,
        (QueuedOperationStatus::Failed(m1), QueuedOperationStatus::Failed(m2)) => m1@ == m2@,
        _ => false,
    }
}

/// Two kinds describe the same operation (`==` on the original kind).
pub open spec fn same_kind(a: QueuedOperationKind, b: QueuedOperationKind) -> bool {
    match (a, b) {
        (
            QueuedOperationKind::Rule { rule: r1, ensure_budget: e1, source: s1 },
            QueuedOperationKind::Rule { rule: r2, ensure_budget: e2, source: s2 },
        ) => r1.same_as(&r2) && e1 == e2 && s1 == s2,
    }
}

/// The position of the first operation that satisfies `p`.
pub open spec fn find_first(
    ops: Seq<QueuedOperation>,
    p: spec_fn(QueuedOperation) -> bool,
) -> Option<int>
    decreases ops.len(),
{
    if ops.len() == 0 {
        None
    } else if p(ops[0]) {
        Some(0)
    } else {
        match find_first(ops.drop_first(), p) {
            Some(i) => Some(i + 1),
            None => None,
        }
    }
}

/// The first operation of a kind.
pub open spec fn with_kind(k: QueuedOperationKind) -> spec_fn(QueuedOperation) -> bool {
    |op: QueuedOperation| same_kind(op.kind, k)
}

/// The first operation with an id.
pub open spec fn with_id(id: u64) -> spec_fn(QueuedOperation) -> bool {
    |op: QueuedOperation| op.id == id
}

/// The first operation with an id that can be removed.
pub open spec fn removable_with_id(id: u64) -> spec_fn(QueuedOperation) -> bool {
    |op: QueuedOperation| op.id == id && removable(op.status)
}

/// The first operation with an id that can be applied.
pub open spec fn actionable_with_id(id: u64) -> spec_fn(QueuedOperation) -> bool {
    |op: QueuedOperation| op.id == id && actionable(op.status)
}

/// The id that the first operation of a kind carries, if one is queued.
pub open spec fn existing_id(ops: Seq<QueuedOperation>, k: QueuedOperationKind) -> Option<u64> {
    match find_first(ops, with_kind(k)) {
        Some(i) => Some(ops[i].id),
        None => None,
    }
}

/// The id that follows `id`, staying at the largest one.
pub open spec fn following_id(id: u64) -> u64 {
    if id == u64::MAX {
        id
    } else {
        (id + 1) as u64
    }
}

/// Queuing an operation of a kind: the operations, the next id and the
/// answer afterwards.
pub open spec fn enqueue_model(
    ops: Seq<QueuedOperation>,
    next_id: u64,
    k: QueuedOperationKind,
) -> (Seq<QueuedOperation>, u64, EnqueueOperationResult) {
    match existing_id(ops, k) {
        Some(id) => (ops, next_id, EnqueueOperationResult::AlreadyQueued(id)),
        None => (
            ops.push(QueuedOperation { id: next_id, kind: k, status: QueuedOperationStatus::Pending }),
            following_id(next_id),
            EnqueueOperationResult::Queued(next_id),
        ),
    }
}

/// Removing the operation with an id, unless it is being applied.
pub open spec fn remove_model(ops: Seq<QueuedOperation>, id: u64) -> (Seq<QueuedOperation>, bool) {
    match find_first(ops, removable_with_id(id)) {
        Some(i) => (ops.remove(i), true),
        None => (ops, false),
    }
}

/// The operations that are not applied yet, in their order.
pub open spec fn without_applied(ops: Seq<QueuedOperation>) -> Seq<QueuedOperation> {
    ops.filter(|op: QueuedOperation| !(op.status is Applied))
}

/// Setting the status of the operation with an id; with `only_actionable`,
/// only where that operation can be applied.
pub open spec fn set_status_model(
    ops: Seq<QueuedOperation>,
    id: u64,
    status: QueuedOperationStatus,
    only_actionable: bool,
) -> (Seq<QueuedOperation>, bool) {
    match find_first(ops, with_id(id)) {
        Some(i) => if only_actionable && !actionable(ops[i].status) {
            (ops, false)
        } else {
            (ops.update(i, QueuedOperation { id: ops[i].id, kind: ops[i].kind, status }), true)
        },
        None => (ops, false),
    }
}

/// The operations that can be applied, in their order.
pub open spec fn actionable_ops(ops: Seq<QueuedOperation>) -> Seq<QueuedOperation> {
    ops.filter(|op: QueuedOperation| actionable(op.status))
}

/// The applied operations, in their order.
pub open spec fn applied_ops(ops: Seq<QueuedOperation>) -> Seq<QueuedOperation> {
    ops.filter(|op: QueuedOperation| op.status is Applied)
}

/// The ids of the operations, in order.
pub open spec fn ids_of(ops: Seq<QueuedOperation>) -> Seq<u64> {
    ops.map_values(|op: QueuedOperation| op.id)
}

/// The queue is well formed: ids grow strictly from first to last and stay
/// below the next id that will be handed out.
pub open spec fn well_formed(ops: Seq<QueuedOperation>, next_id: u64) -> bool {
    &&& forall|i: int, j: int| 0 <= i < j < ops.len() ==> ops[i].id < ops[j].id
    &&& forall|i: int| 0 <= i < ops.len() ==> #[trigger] ops[i].id < next_id
}

proof fn lemma_find_first_at(ops: Seq<QueuedOperation>, p: spec_fn(QueuedOperation) -> bool, i: int)
    requires
        0 <= i < ops.len(),
        p(ops[i]),
        forall|j: int| 0 <= j < i ==> !p(#[trigger] ops[j]),
    ensures
        find_first(ops, p) == Some(i),
    decreases i,
{
    if i > 0 {
        assert(!p(ops[0]));
        assert forall|j: int| 0 <= j < i - 1 implies !p(#[trigger] ops.drop_first()[j]) by {
            assert(ops.drop_first()[j] == ops[j + 1]);
        }
        lemma_find_first_at(ops.drop_first(), p, i - 1);
    }
}

proof fn lemma_find_first_none(ops: Seq<QueuedOperation>, p: spec_fn(QueuedOperation) -> bool)
    requires
        forall|j: int| 0 <= j < ops.len() ==> !p(#[trigger] ops[j]),
    ensures
        find_first(ops, p) is None,
    decreases ops.len(),
{
    if ops.len() > 0 {
        assert(!p(ops[0]));
        assert forall|j: int| 0 <= j < ops.len() - 1 implies !p(#[trigger] ops.drop_first()[j]) by {
            assert(ops.drop_first()[j] == ops[j + 1]);
        }
        lemma_find_first_none(ops.drop_first(), p);
    }
}

/// What `find_first` finds: the least position that satisfies the predicate.
pub proof fn lemma_find_first_spec(ops: Seq<QueuedOperation>, p: spec_fn(QueuedOperation) -> bool)
    ensures
        match find_first(ops, p) {
            Some(i) => 0 <= i < ops.len() && p(ops[i]) && forall|j: int|
                0 <= j < i ==> !p(#[trigger] ops[j]),
            None => forall|j: int| 0 <= j < ops.len() ==> !p(#[trigger] ops[j]),
        },
    decreases ops.len(),
{
    if ops.len() > 0 && !p(ops[0]) {
        lemma_find_first_spec(ops.drop_first(), p);
        match find_first(ops.drop_first(), p) {
            Some(i) => {
                assert forall|j: int| 0 <= j < i + 1 implies !p(#[trigger] ops[j]) by {
                    if j > 0 {
                        assert(ops[j] == ops.drop_first()[j - 1]);
                    }
                }
            },
            None => {
                assert forall|j: int| 0 <= j < ops.len() implies !p(#[trigger] ops[j]) by {
                    if j > 0 {
                        assert(ops[j] == ops.drop_first()[j - 1]);
                    }
                }
            },
        }
    }
}


/// Keeping only some operations keeps the ids ordered and below the next id.
proof fn lemma_filter_well_formed(
    ops: Seq<QueuedOperation>,
    next_id: u64,
    p: spec_fn(QueuedOperation) -> bool,
)
    requires
        well_formed(ops, next_id),
    ensures
        well_formed(ops.filter(p), next_id),
    decreases ops.len(),
{
    reveal_with_fuel(Seq::filter, 1);
    if ops.len() > 0 {
        let rest = ops.drop_last();
        assert(well_formed(rest, next_id));
        lemma_filter_well_formed(rest, next_id, p);
        let f = rest.filter(p);
        if p(ops.last()) {
            assert forall|i: int| 0 <= i < f.len() implies #[trigger] f[i].id < ops.last().id by {
                assert(f.contains(f[i]));
                rest.lemma_filter_contains_rev(p, f[i]);
                let k = choose|k: int| 0 <= k < rest.len() && rest[k] == f[i];
                assert(ops[k] == rest[k]);
            }
        }
    }
}

/// Two rule changes count as the same queued operation exactly when their
/// rules agree on every field, and their budget flags and sources agree.
/// So queuing a change that differs in any of these from every queued one
/// adds it, pending, under the next id; and queuing one that agrees with a
/// queued one adds nothing and answers that operation's id.
pub proof fn lemma_rule_changes_match_on_every_field(
    ops: Seq<QueuedOperation>,
    next_id: u64,
    rule: EditableRule,
    ensure_budget: bool,
    source: OperationSource,
)
    ensures
        forall|other: EditableRule, e: bool, s: OperationSource|
            #[trigger] same_kind(
                QueuedOperationKind::Rule { rule, ensure_budget, source },
                QueuedOperationKind::Rule { rule: other, ensure_budget: e, source: s },
            ) <==> {
                &&& rule.priority == other.priority
                &&& rule.active == other.active
                &&& rule.field@ == other.field@
                &&& rule.search@ == other.search@
                &&& rule.is_regex == other.is_regex
                &&& rule.category@ == other.category@
                &&& rule.budget_code@ == other.budget_code@
                &&& rule.direction@ == other.direction@
                &&& rule.amount_min@ == other.amount_min@
                &&& rule.amount_max@ == other.amount_max@
                &&& rule.notes@ == other.notes@
                &&& ensure_budget == e
                &&& source == s
            },
        ({
            let k = QueuedOperationKind::Rule { rule, ensure_budget, source };
            (forall|i: int| 0 <= i < ops.len() ==> !same_kind(#[trigger] ops[i].kind, k))
                ==> enqueue_model(ops, next_id, k) == (
                ops.push(
                    QueuedOperation { id: next_id, kind: k, status: QueuedOperationStatus::Pending },
                ),
                following_id(next_id),
                EnqueueOperationResult::Queued(next_id),
            )
        }),
        ({
            let k = QueuedOperationKind::Rule { rule, ensure_budget, source };
            forall|i: int|
                0 <= i < ops.len() && same_kind(#[trigger] ops[i].kind, k) ==> (exists|j: int|
                    0 <= j <= i && enqueue_model(ops, next_id, k) == (
                        ops,
                        next_id,
                        EnqueueOperationResult::AlreadyQueued(ops[j].id),
                    ))
        }),
{
    let k = QueuedOperationKind::Rule { rule, ensure_budget, source };
    lemma_find_first_spec(ops, with_kind(k));
    if forall|i: int| 0 <= i < ops.len() ==> !same_kind(#[trigger] ops[i].kind, k) {
        assert forall|j: int| 0 <= j < ops.len() implies !(#[trigger] with_kind(k)(ops[j])) by {
            let a = ops[j].kind;
            let b = k;
            match (a, b) {
                (
                    QueuedOperationKind::Rule { rule: r1, ensure_budget: e1, source: s1 },
                    QueuedOperationKind::Rule { rule: r2, ensure_budget: e2, source: s2 },
                ) => {
                    assert(!same_kind(ops[j].kind, k));
                },
            }
        }
        lemma_find_first_none(ops, with_kind(k));
    }
    assert forall|i: int|
        0 <= i < ops.len() && same_kind(#[trigger] ops[i].kind, k) implies (exists|j: int|
            0 <= j <= i && enqueue_model(ops, next_id, k) == (
                ops,
                next_id,
                EnqueueOperationResult::AlreadyQueued(ops[j].id),
            )) by {
        match find_first(ops, with_kind(k)) {
            Some(j) => {
                if j > i {
                    assert(!with_kind(k)(ops[i]));
                }
            },
            None => {
                assert(!with_kind(k)(ops[i]));
            },
        }
    }
}

/// A kind is the same as itself.
pub proof fn lemma_same_kind_reflexive(k: QueuedOperationKind)
    ensures
        same_kind(k, k),
{
}

/// Queuing preserves well-formedness while ids are left to hand out.
pub proof fn lemma_enqueue_well_formed(ops: Seq<QueuedOperation>, next_id: u64, k: QueuedOperationKind)
    requires
        well_formed(ops, next_id),
        next_id < u64::MAX,
    ensures
        well_formed(enqueue_model(ops, next_id, k).0, enqueue_model(ops, next_id, k).1),
{
}

/// Removing an operation, clearing applied ones and setting a status all
/// preserve well-formedness.
pub proof fn lemma_changes_keep_well_formed(
    ops: Seq<QueuedOperation>,
    next_id: u64,
    id: u64,
    status: QueuedOperationStatus,
    only_actionable: bool,
)
    requires
        well_formed(ops, next_id),
    ensures
        well_formed(remove_model(ops, id).0, next_id),
        well_formed(without_applied(ops), next_id),
        well_formed(set_status_model(ops, id, status, only_actionable).0, next_id),
{
    lemma_find_first_spec(ops, removable_with_id(id));
    lemma_find_first_spec(ops, with_id(id));
    lemma_filter_well_formed(ops, next_id, |op: QueuedOperation| !(op.status is Applied));
    match find_first(ops, removable_with_id(id)) {
        Some(i) => {
            let r = ops.remove(i);
            assert forall|a: int, b: int| 0 <= a < b < r.len() implies r[a].id < r[b].id by {
                let a0 = if a < i { a } else { a + 1 };
                let b0 = if b < i { b } else { b + 1 };
                assert(r[a] == ops[a0]);
                assert(r[b] == ops[b0]);
            }
            assert forall|a: int| 0 <= a < r.len() implies #[trigger] r[a].id < next_id by {
                let a0 = if a < i { a } else { a + 1 };
                assert(r[a] == ops[a0]);
            }
        },
        None => {},
    }
}

/// Whether the operation with an id can be started: the first operation
/// with that id exists and can be applied (what `mark_applying` tests).
pub open spec fn can_start(ops: Seq<QueuedOperation>, id: u64) -> bool {
    set_status_model(ops, id, QueuedOperationStatus::Applying, true).1
}

/// An operation that can be started is one that can be applied; in a
/// well-formed queue, where ids are distinct, the converse holds too.
pub proof fn lemma_start_matches_actionable(ops: Seq<QueuedOperation>, next_id: u64, id: u64)
    ensures
        can_start(ops, id) ==> find_first(ops, actionable_with_id(id)) == find_first(ops, with_id(id)),
        well_formed(ops, next_id) ==> (can_start(ops, id) <==> find_first(
            ops,
            actionable_with_id(id),
        ) is Some),
{
    lemma_find_first_spec(ops, with_id(id));
    lemma_find_first_spec(ops, actionable_with_id(id));
    match find_first(ops, with_id(id)) {
        Some(i) => {
            if actionable(ops[i].status) {
                assert forall|j: int| 0 <= j < i implies !(#[trigger] actionable_with_id(id)(
                    ops[j],
                )) by {
                    assert(!with_id(id)(ops[j]));
                }
                lemma_find_first_at(ops, actionable_with_id(id), i);
            } else if well_formed(ops, next_id) {
                assert forall|j: int| 0 <= j < ops.len() implies !(#[trigger] actionable_with_id(
                    id,
                )(ops[j])) by {
                    if j < i {
                        assert(!with_id(id)(ops[j]));
                    } else if j > i {
                        assert(ops[i].id < ops[j].id);
                    }
                }
            }
        },
        None => {
            assert forall|j: int| 0 <= j < ops.len() implies !(#[trigger] actionable_with_id(id)(
                ops[j],
            )) by {
                assert(!with_id(id)(ops[j]));
            }
        },
    }
}

/// No two queued operations are of the same kind.
pub open spec fn kinds_distinct(ops: Seq<QueuedOperation>) -> bool {
    forall|i: int, j: int|
        0 <= i < j < ops.len() ==> !same_kind(#[trigger] ops[i].kind, #[trigger] ops[j].kind)
}

proof fn lemma_filter_kinds_distinct(ops: Seq<QueuedOperation>, p: spec_fn(QueuedOperation) -> bool)
    requires
        kinds_distinct(ops),
    ensures
        kinds_distinct(ops.filter(p)),
    decreases ops.len(),
{
    reveal_with_fuel(Seq::filter, 1);
    if ops.len() > 0 {
        let rest = ops.drop_last();
        assert(kinds_distinct(rest)) by {
            assert forall|i: int, j: int| 0 <= i < j < rest.len() implies !same_kind(
                #[trigger] rest[i].kind,
                #[trigger] rest[j].kind,
            ) by {
                assert(rest[i] == ops[i] && rest[j] == ops[j]);
            }
        }
        lemma_filter_kinds_distinct(rest, p);
        let f = rest.filter(p);
        if p(ops.last()) {
            let g = f.push(ops.last());
            assert forall|i: int, j: int| 0 <= i < j < g.len() implies !same_kind(
                #[trigger] g[i].kind,
                #[trigger] g[j].kind,
            ) by {
                if j == g.len() - 1 {
                    assert(f.contains(f[i]));
                    rest.lemma_filter_contains_rev(p, f[i]);
                    let k = choose|k: int| 0 <= k < rest.len() && rest[k] == f[i];
                    assert(ops[k] == rest[k]);
                    assert(g[j] == ops[ops.len() - 1]);
                } else {
                    assert(g[i] == f[i] && g[j] == f[j]);
                }
            }
        }
    }
}

/// Queuing, removing, clearing the applied operations and setting a status
/// all keep the queued operations of different kinds.
pub proof fn lemma_kinds_stay_distinct(
    ops: Seq<QueuedOperation>,
    next_id: u64,
    k: QueuedOperationKind,
    id: u64,
    status: QueuedOperationStatus,
    only_actionable: bool,
)
    requires
        kinds_distinct(ops),
    ensures
        kinds_distinct(enqueue_model(ops, next_id, k).0),
        kinds_distinct(remove_model(ops, id).0),
        kinds_distinct(without_applied(ops)),
        kinds_distinct(set_status_model(ops, id, status, only_actionable).0),
{
    lemma_find_first_spec(ops, with_kind(k));
    lemma_find_first_spec(ops, removable_with_id(id));
    lemma_find_first_spec(ops, with_id(id));
    lemma_filter_kinds_distinct(ops, |op: QueuedOperation| !(op.status is Applied));
    if find_first(ops, with_kind(k)) is None {
        let e = enqueue_model(ops, next_id, k).0;
        assert forall|i: int, j: int| 0 <= i < j < e.len() implies !same_kind(
            #[trigger] e[i].kind,
            #[trigger] e[j].kind,
        ) by {
            if j == ops.len() {
                assert(e[i] == ops[i]);
                assert(!with_kind(k)(ops[i]));
            } else {
                assert(e[i] == ops[i] && e[j] == ops[j]);
            }
        }
    }
    match find_first(ops, removable_with_id(id)) {
        Some(i) => {
            let r = ops.remove(i);
            assert forall|a: int, b: int| 0 <= a < b < r.len() implies !same_kind(
                #[trigger] r[a].kind,
                #[trigger] r[b].kind,
            ) by {
                let a0 = if a < i { a } else { a + 1 };
                let b0 = if b < i { b } else { b + 1 };
                assert(r[a] == ops[a0]);
                assert(r[b] == ops[b0]);
            }
        },
        None => {},
    }
    match find_first(ops, with_id(id)) {
        Some(i) => {
            let u = set_status_model(ops, id, status, only_actionable).0;
            assert forall|a: int, b: int| 0 <= a < b < u.len() implies !same_kind(
                #[trigger] u[a].kind,
                #[trigger] u[b].kind,
            ) by {
                assert(u[a].kind == ops[a].kind && u[b].kind == ops[b].kind);
            }
        },
        None => {},
    }
}

/// The queue after queuing operations of the given kinds, one after the
/// other, into a new queue: its operations, its next id and the answers.
pub open spec fn after_enqueues(kinds: Seq<QueuedOperationKind>) -> (
    Seq<QueuedOperation>,
    u64,
    Seq<EnqueueOperationResult>,
)
    decreases kinds.len(),
{
    if kinds.len() == 0 {
        (Seq::empty(), 1, Seq::empty())
    } else {
        let (ops, next, answers) = after_enqueues(kinds.drop_last());
        let (ops2, next2, answer) = enqueue_model(ops, next, kinds.last());
        (ops2, next2, answers.push(answer))
    }
}

/// Queuing operations into a new queue (fewer than there are ids): the next
/// id is one more than the number of operations that were added; the queue
/// holds exactly those, with the ids 1, 2, … in order, all pending; and no
/// two of them are of the same kind. (Each answer is what `enqueue_model`
/// gives for its step: `Queued` with the next id where no operation of the
/// kind is queued, else `AlreadyQueued` with that operation's id.)
pub proof fn lemma_enqueue_history(kinds: Seq<QueuedOperationKind>)
    requires
        kinds.len() + 1 < u64::MAX,
    ensures
        ({
            let (ops, next, answers) = after_enqueues(kinds);
            &&& answers.len() == kinds.len()
            &&& next == 1 + answers.filter(|a: EnqueueOperationResult| a is Queued).len()
            &&& ops.len() + 1 == next
            &&& forall|i: int|
                0 <= i < ops.len() ==> #[trigger] ops[i].id == i + 1 && ops[i].status is Pending
            &&& kinds_distinct(ops)
            &&& well_formed(ops, next)
        }),
    decreases kinds.len(),
{
    reveal_with_fuel(Seq::filter, 1);
    if kinds.len() > 0 {
        let rest = kinds.drop_last();
        lemma_enqueue_history(rest);
        let (ops, next, answers) = after_enqueues(rest);
        let k = kinds.last();
        lemma_kinds_stay_distinct(ops, next, k, 0, QueuedOperationStatus::Pending, false);
        lemma_enqueue_well_formed(ops, next, k);
        lemma_find_first_spec(ops, with_kind(k));
        let a = enqueue_model(ops, next, k).2;
        assert(answers.push(a).drop_last() == answers);
    }
}

/// Queuing the same operation a second time answers with the id it got the
/// first time and changes nothing.
pub proof fn lemma_enqueue_twice(ops: Seq<QueuedOperation>, next_id: u64, k: QueuedOperationKind)
    ensures
        ({
            let (ops1, next1, r1) = enqueue_model(ops, next_id, k);
            let (ops2, next2, r2) = enqueue_model(ops1, next1, k);
            &&& ops2 == ops1
            &&& next2 == next1
            &&& r2 == EnqueueOperationResult::AlreadyQueued(
                match r1 {
                    EnqueueOperationResult::Queued(id) => id,
                    EnqueueOperationResult::AlreadyQueued(id) => id,
                },
            )
        }),
{
    lemma_find_first_spec(ops, with_kind(k));
    match find_first(ops, with_kind(k)) {
        Some(i) => {},
        None => {
            let ops1 = enqueue_model(ops, next_id, k).0;
            assert forall|j: int| 0 <= j < ops.len() implies !(#[trigger] with_kind(k)(ops1[j])) by {
                assert(ops1[j] == ops[j]);
            }
            assert(with_kind(k)(ops1[ops.len() as int]));
            lemma_find_first_at(ops1, with_kind(k), ops.len() as int);
        },
    }
}

/// Removing an operation right after it was queued restores the queue.
pub proof fn lemma_remove_undoes_enqueue(ops: Seq<QueuedOperation>, next_id: u64, k: QueuedOperationKind)
    requires
        well_formed(ops, next_id),
        enqueue_model(ops, next_id, k).2 is Queued,
    ensures
        remove_model(enqueue_model(ops, next_id, k).0, next_id) == (ops, true),
{
    let ops1 = enqueue_model(ops, next_id, k).0;
    assert forall|j: int| 0 <= j < ops.len() implies !(#[trigger] removable_with_id(next_id)(
        ops1[j],
    )) by {
        assert(ops1[j] == ops[j]);
        assert(ops[j].id < next_id);
    }
    lemma_find_first_at(ops1, removable_with_id(next_id), ops.len() as int);
    assert(ops1.remove(ops.len() as int) =~= ops);
}

/// An operation that failed can be applied again.
pub proof fn lemma_failed_can_be_retried(ops: Seq<QueuedOperation>, id: u64, message: String)
    requires
        find_first(ops, with_id(id)) is Some,
    ensures
        set_status_model(
            set_status_model(ops, id, QueuedOperationStatus::Failed(message), false).0,
            id,
            QueuedOperationStatus::Applying,
            true,
        ).1,
{
    lemma_find_first_spec(ops, with_id(id));
    let i = find_first(ops, with_id(id))->0;
    let ops1 = set_status_model(ops, id, QueuedOperationStatus::Failed(message), false).0;
    assert forall|j: int| 0 <= j < i implies !(#[trigger] with_id(id)(ops1[j])) by {
        assert(ops1[j] == ops[j]);
    }
    lemma_find_first_at(ops1, with_id(id), i);
}

/// An operation that is being applied cannot be removed, and the attempt
/// changes nothing.
pub proof fn lemma_applying_is_not_removed(ops: Seq<QueuedOperation>, next_id: u64, id: u64)
    requires
        well_formed(ops, next_id),
        set_status_model(ops, id, QueuedOperationStatus::Applying, true).1,
    ensures
        ({
            let ops1 = set_status_model(ops, id, QueuedOperationStatus::Applying, true).0;
            remove_model(ops1, id) == (ops1, false)
        }),
{
    lemma_find_first_spec(ops, with_id(id));
    let i = find_first(ops, with_id(id))->0;
    let ops1 = set_status_model(ops, id, QueuedOperationStatus::Applying, true).0;
    assert forall|j: int| 0 <= j < ops1.len() implies !(#[trigger] removable_with_id(id)(ops1[j])) by {
        if j != i {
            assert(ops1[j] == ops[j]);
            if j < i {
                assert(ops[j].id < ops[i].id);
            } else {
                assert(ops[i].id < ops[j].id);
            }
        }
    }
    lemma_find_first_none(ops1, removable_with_id(id));
}

proof fn lemma_filter_filter(
    ops: Seq<QueuedOperation>,
    p: spec_fn(QueuedOperation) -> bool,
    q: spec_fn(QueuedOperation) -> bool,
)
    requires
        forall|op: QueuedOperation| #[trigger] q(op) ==> p(op),
    ensures
        ops.filter(p).filter(q) == ops.filter(q),
    decreases ops.len(),
{
    reveal_with_fuel(Seq::filter, 1);
    if ops.len() > 0 {
        lemma_filter_filter(ops.drop_last(), p, q);
        let f = ops.drop_last().filter(p);
        if p(ops.last()) {
            assert(f.push(ops.last()).drop_last() == f);
        }
    }
}

/// Clearing the applied operations leaves every operation that can still be
/// applied, in order, and no applied one.
pub proof fn lemma_clear_applied_keeps_actionable(ops: Seq<QueuedOperation>)
    ensures
        actionable_ops(without_applied(ops)) == actionable_ops(ops),
        applied_ops(without_applied(ops)).len() == 0,
{
    lemma_filter_filter(
        ops,
        |op: QueuedOperation| !(op.status is Applied),
        |op: QueuedOperation| actionable(op.status),
    );
    let w = without_applied(ops);
    let a = applied_ops(w);
    if a.len() > 0 {
        w.lemma_filter_pred(|op: QueuedOperation| op.status is Applied, 0);
        assert(a.contains(a[0]));
        w.lemma_filter_contains_rev(|op: QueuedOperation| op.status is Applied, a[0]);
        let k = choose|k: int| 0 <= k < w.len() && w[k] == a[0];
        ops.lemma_filter_pred(|op: QueuedOperation| !(op.status is Applied), k);
    }
}

impl QueuedOperationStatus {
    /// Pending and failed operations can be applied.
    pub fn is_actionable(&self) -> (r: bool)
        ensures
            r == actionable(*self),
    {
        match self {
            QueuedOperationStatus::Pending => true,
            QueuedOperationStatus::Failed(_) => true,
            _ => false,
        }
    }

    /// Every operation but one being applied can be removed.
    pub fn can_remove(&self) -> (r: bool)
        ensures
            r == removable(*self),
    {
        match self {
            QueuedOperationStatus::Applying => false,
            _ => true,
        }
    }

    /// A copy of the status.
    pub fn duplicate(&self) -> (r: QueuedOperationStatus)
        ensures
            r == *self,
    {
        match self {
            QueuedOperationStatus::Pending => QueuedOperationStatus::Pending,
            QueuedOperationStatus::Applying => QueuedOperationStatus::Applying,
            QueuedOperationStatus::Applied => QueuedOperationStatus::Applied,
            QueuedOperationStatus::Failed(m) => QueuedOperationStatus::Failed(m.clone()),
        }
    }
}

impl QueuedOperationKind {
    /// Whether two kinds describe the same operation.
    pub fn equals(&self, other: &QueuedOperationKind) -> (r: bool)
        ensures
            r == same_kind(*self, *other),
    {
        match (self, other) {
            (
                QueuedOperationKind::Rule { rule: r1, ensure_budget: e1, source: s1 },
                QueuedOperationKind::Rule { rule: r2, ensure_budget: e2, source: s2 },
            ) => r1.equals(r2) && *e1 == *e2 && *s1 == *s2,
        }
    }

    /// A copy of the kind.
    pub fn duplicate(&self) -> (r: QueuedOperationKind)
        ensures
            r == *self,
    {
        match self {
            QueuedOperationKind::Rule { rule, ensure_budget, source } => QueuedOperationKind::Rule {
                rule: rule.duplicate(),
                ensure_budget: *ensure_budget,
                source: *source,
            },
        }
    }
}

impl QueuedOperation {
    /// A copy of the operation.
    pub fn duplicate(&self) -> (r: QueuedOperation)
        ensures
            r == *self,
    {
        QueuedOperation { id: self.id, kind: self.kind.duplicate(), status: self.status.duplicate() }
    }
}

impl EnqueueOperationResult {
    /// Whether the operation was added to the queue.
    pub fn queued(self) -> (r: bool)
        ensures
            r == (self is Queued),
    {
        match self {
            EnqueueOperationResult::Queued(_) => true,
            EnqueueOperationResult::AlreadyQueued(_) => false,
        }
    }

    /// The id of the queued operation, new or already there.
    pub fn id(self) -> (r: u64)
        ensures
            r == match self {
                EnqueueOperationResult::Queued(id) => id,
                EnqueueOperationResult::AlreadyQueued(id) => id,
            },
    {
        match self {
            EnqueueOperationResult::Queued(id) => id,
            EnqueueOperationResult::AlreadyQueued(id) => id,
        }
    }
}

impl OperationQueue {
    /// The queued operations, in order.
    pub closed spec fn ops(&self) -> Seq<QueuedOperation> {
        self.operations@
    }

    /// The id that the next new operation gets.
    pub closed spec fn next(&self) -> u64 {
        self.next_id
    }

    /// Whether a run of the queue is in progress.
    pub closed spec fn running(&self) -> bool {
        self.processing
    }

    /// How many times an operation was queued (answered `Queued`).
    pub closed spec fn queued_count(&self) -> nat {
        self.queued@
    }

    /// The next id is one more than the number of operations queued so far,
    /// up to the largest id, which is then handed out again; and while ids
    /// are left to hand out, the operations' ids increase along the queue
    /// and stay below the next id.
    #[verifier::type_invariant]
    pub open spec fn ids_in_order(self) -> bool {
        &&& self.next() == (if self.queued_count() + 1 < u64::MAX {
            (self.queued_count() + 1) as int
        } else {
            u64::MAX as int
        })
        &&& self.next() < u64::MAX ==> well_formed(self.ops(), self.next())
    }

    /// An empty queue; ids start at 1.
    pub fn new() -> (q: OperationQueue)
        ensures
            q.ops() == Seq::<QueuedOperation>::empty(),
            q.next() == 1,
            q.queued_count() == 0,
            !q.running(),
            well_formed(q.ops(), q.next()),
    {
        OperationQueue {
            next_id: 1,
            operations: Vec::new(),
            processing: false,
            queued: Ghost(0),
        }
    }

    /// The id of the first queued operation of a kind.
    pub fn existing_operation_id(&self, kind: &QueuedOperationKind) -> (r: Option<u64>)
        ensures
            r == existing_id(self.ops(), *kind),
    {
        let mut i: usize = 0;
        while i < self.operations.len()
            invariant
                i <= self.operations.len(),
                forall|j: int| 0 <= j < i ==> !(#[trigger] with_kind(*kind)(self.operations@[j])),
            decreases self.operations.len() - i,
        {
            if self.operations[i].kind.equals(kind) {
                proof {
                    lemma_find_first_at(self.operations@, with_kind(*kind), i as int);
                }
                return Some(self.operations[i].id);
            }
            i += 1;
        }
        proof {
            lemma_find_first_none(self.operations@, with_kind(*kind));
        }
        None
    }

    /// Whether an operation of a kind is queued.
    pub fn contains_kind(&self, kind: &QueuedOperationKind) -> (r: bool)
        ensures
            r == existing_id(self.ops(), *kind) is Some,
    {
        self.existing_operation_id(kind).is_some()
    }

    /// Queues a rule change, unless the same change is queued already.
    pub fn enqueue_rule(&mut self, rule: EditableRule, ensure_budget: bool, source: OperationSource) -> (r:
        EnqueueOperationResult)
        ensures
            (final(self).ops(), final(self).next(), r) == enqueue_model(
                old(self).ops(),
                old(self).next(),
                QueuedOperationKind::Rule { rule, ensure_budget, source },
            ),
            final(self).running() == old(self).running(),
            final(self).queued_count() == old(self).queued_count() + (if r is Queued {
                1nat
            } else {
                0nat
            }),
            r matches EnqueueOperationResult::Queued(id) ==> (old(self).queued_count() + 1 < u64::MAX
                ==> id == old(self).queued_count() + 1),
    {
        proof {
            use_type_invariant(&*self);
        }
        let kind = QueuedOperationKind::Rule { rule, ensure_budget, source };
        match self.existing_operation_id(&kind) {
            Some(id) => EnqueueOperationResult::AlreadyQueued(id),
            None => {
                proof {
                    if self.next_id < u64::MAX {
                        lemma_enqueue_well_formed(self.operations@, self.next_id, kind);
                    }
                }
                let id = self.next_id;
                let mut ops: Vec<QueuedOperation> = Vec::new();
                std::mem::swap(&mut ops, &mut self.operations);
                ops.push(QueuedOperation { id, kind, status: QueuedOperationStatus::Pending });
                let processing = self.processing;
                let queued = Ghost(self.queued@ + 1);
                *self = OperationQueue {
                    next_id: id.saturating_add(1),
                    operations: ops,
                    processing,
                    queued,
                };
                EnqueueOperationResult::Queued(id)
            },
        }
    }

    /// A copy of the queued operations.
    pub fn operations(&self) -> (r: Vec<QueuedOperation>)
        ensures
            r@ == self.ops(),
    {
        let mut r: Vec<QueuedOperation> = Vec::new();
        let mut i: usize = 0;
        while i < self.operations.len()
            invariant
                i <= self.operations.len(),
                r@ == self.operations@.take(i as int),
            decreases self.operations.len() - i,
        {
            r.push(self.operations[i].duplicate());
            assert(self.operations@.take(i as int + 1) == self.operations@.take(i as int).push(
                self.operations@[i as int],
            ));
            i += 1;
        }
        assert(self.operations@.take(self.operations.len() as int) == self.operations@);
        r
    }

    /// The number of operations that can be applied.
    pub fn actionable_count(&self) -> (r: usize)
        ensures
            r == actionable_ops(self.ops()).len(),
    {
        let mut n: usize = 0;
        let mut i: usize = 0;
        while i < self.operations.len()
            invariant
                i <= self.operations.len(),
                n == actionable_ops(self.operations@.take(i as int)).len(),
                n <= i,
            decreases self.operations.len() - i,
        {
            proof {
                let s = self.operations@.take(i as int + 1);
                assert(s.drop_last() == self.operations@.take(i as int));
                assert(s.last() == self.operations@[i as int]);
                reveal_with_fuel(Seq::filter, 1);
            }
            if self.operations[i].status.is_actionable() {
                n += 1;
            }
            i += 1;
        }
        assert(self.operations@.take(self.operations.len() as int) == self.operations@);
        n
    }

    /// The ids of the operations that can be applied, in order.
    pub fn actionable_ids(&self) -> (r: Vec<u64>)
        ensures
            r@ == ids_of(actionable_ops(self.ops())),
    {
        let mut r: Vec<u64> = Vec::new();
        let mut i: usize = 0;
        while i < self.operations.len()
            invariant
                i <= self.operations.len(),
                r@ == ids_of(actionable_ops(self.operations@.take(i as int))),
            decreases self.operations.len() - i,
        {
            proof {
                let s = self.operations@.take(i as int + 1);
                assert(s.drop_last() == self.operations@.take(i as int));
                assert(s.last() == self.operations@[i as int]);
                reveal_with_fuel(Seq::filter, 1);
            }
            let ghost r0 = actionable_ops(self.operations@.take(i as int));
            if self.operations[i].status.is_actionable() {
                r.push(self.operations[i].id);
                assert(ids_of(r0.push(self.operations@[i as int])) == ids_of(r0).push(
                    self.operations@[i as int].id,
                ));
            }
            i += 1;
        }
        assert(self.operations@.take(self.operations.len() as int) == self.operations@);
        r
    }

    /// The number of applied operations.
    pub fn applied_count(&self) -> (r: usize)
        ensures
            r == applied_ops(self.ops()).len(),
    {
        let mut n: usize = 0;
        let mut i: usize = 0;
        while i < self.operations.len()
            invariant
                i <= self.operations.len(),
                n == applied_ops(self.operations@.take(i as int)).len(),
                n <= i,
            decreases self.operations.len() - i,
        {
            proof {
                let s = self.operations@.take(i as int + 1);
                assert(s.drop_last() == self.operations@.take(i as int));
                assert(s.last() == self.operations@[i as int]);
                reveal_with_fuel(Seq::filter, 1);
            }
            if let QueuedOperationStatus::Applied = self.operations[i].status {
                n += 1;
            }
            i += 1;
        }
        assert(self.operations@.take(self.operations.len() as int) == self.operations@);
        n
    }

    /// Removes the applied operations and answers how many there were.
    pub fn clear_applied(&mut self) -> (r: usize)
        ensures
            final(self).ops() == without_applied(old(self).ops()),
            r == old(self).ops().len() - final(self).ops().len(),
            final(self).next() == old(self).next(),
            final(self).queued_count() == old(self).queued_count(),
            final(self).running() == old(self).running(),
    {
        let mut kept: Vec<QueuedOperation> = Vec::new();
        let before = self.operations.len();
        let mut i: usize = 0;
        while i < before
            invariant
                before == self.operations.len(),
                self.operations@ == old(self).operations@,
                i <= before,
                kept@ == without_applied(self.operations@.take(i as int)),
                kept@.len() <= i,
            decreases before - i,
        {
            proof {
                let t = self.operations@.take(i as int + 1);
                assert(t.drop_last() == self.operations@.take(i as int));
                assert(t.last() == self.operations@[i as int]);
                reveal_with_fuel(Seq::filter, 1);
            }
            if let QueuedOperationStatus::Applied = self.operations[i].status {
            } else {
                kept.push(self.operations[i].duplicate());
            }
            i += 1;
        }
        assert(self.operations@.take(before as int) == self.operations@);
        proof {
            use_type_invariant(&*self);
            if self.next_id < u64::MAX {
                lemma_filter_well_formed(
                    self.operations@,
                    self.next_id,
                    |op: QueuedOperation| !(op.status is Applied),
                );
            }
        }
        let after = kept.len();
        self.operations = kept;
        before - after
    }

    /// Whether a run of the queue is in progress.
    pub fn is_processing(&self) -> (r: bool)
        ensures
            r == self.running(),
    {
        self.processing
    }

    /// Marks whether a run of the queue is in progress.
    pub fn set_processing(&mut self, processing: bool)
        ensures
            final(self).running() == processing,
            final(self).ops() == old(self).ops(),
            final(self).next() == old(self).next(),
            final(self).queued_count() == old(self).queued_count(),
    {
        proof {
            use_type_invariant(&*self);
        }
        self.processing = processing;
    }

    /// The kind of the operation with an id, where it can be applied.
    pub fn operation_kind(&self, id: u64) -> (r: Option<QueuedOperationKind>)
        ensures
            r == match find_first(self.ops(), actionable_with_id(id)) {
                Some(i) => Some(self.ops()[i].kind),
                None => None,
            },
    {
        let mut i: usize = 0;
        while i < self.operations.len()
            invariant
                i <= self.operations.len(),
                forall|j: int|
                    0 <= j < i ==> !(#[trigger] actionable_with_id(id)(self.operations@[j])),
            decreases self.operations.len() - i,
        {
            if self.operations[i].id == id && self.operations[i].status.is_actionable() {
                proof {
                    lemma_find_first_at(self.operations@, actionable_with_id(id), i as int);
                }
                return Some(self.operations[i].kind.duplicate());
            }
            i += 1;
        }
        proof {
            lemma_find_first_none(self.operations@, actionable_with_id(id));
        }
        None
    }

    /// Sets the status of the operation with an id; with `only_actionable`,
    /// only where it can be applied.
    fn set_status_if(&mut self, id: u64, status: QueuedOperationStatus, only_actionable: bool) -> (r:
        bool)
        ensures
            (final(self).ops(), r) == set_status_model(old(self).ops(), id, status, only_actionable),
            final(self).next() == old(self).next(),
            final(self).queued_count() == old(self).queued_count(),
            final(self).running() == old(self).running(),
    {
        let mut i: usize = 0;
        while i < self.operations.len()
            invariant
                i <= self.operations.len(),
                self.operations@ == old(self).operations@,
                self.next_id == old(self).next_id,
                self.queued == old(self).queued,
                self.processing == old(self).processing,
                forall|j: int| 0 <= j < i ==> !(#[trigger] with_id(id)(self.operations@[j])),
            decreases self.operations.len() - i,
        {
            if self.operations[i].id == id {
                proof {
                    lemma_find_first_at(self.operations@, with_id(id), i as int);
                }
                if only_actionable && !self.operations[i].status.is_actionable() {
                    return false;
                }
                let kind = self.operations[i].kind.duplicate();
                proof {
                    use_type_invariant(&*self);
                    if self.next_id < u64::MAX {
                        lemma_changes_keep_well_formed(
                            self.operations@,
                            self.next_id,
                            id,
                            status,
                            only_actionable,
                        );
                    }
                }
                let mut ops: Vec<QueuedOperation> = Vec::new();
                std::mem::swap(&mut ops, &mut self.operations);
                ops.set(i, QueuedOperation { id, kind, status });
                self.operations = ops;
                return true;
            }
            i += 1;
        }
        proof {
            lemma_find_first_none(self.operations@, with_id(id));
        }
        false
    }

    /// Sets the status of the operation with an id.
    pub fn set_status(&mut self, id: u64, status: QueuedOperationStatus) -> (r: bool)
        ensures
            (final(self).ops(), r) == set_status_model(old(self).ops(), id, status, false),
            final(self).next() == old(self).next(),
            final(self).queued_count() == old(self).queued_count(),
            final(self).running() == old(self).running(),
    {
        self.set_status_if(id, status, false)
    }

    /// Marks the operation with an id as being applied, where it can be
    /// applied.
    pub fn mark_applying(&mut self, id: u64) -> (r: bool)
        ensures
            (final(self).ops(), r) == set_status_model(
                old(self).ops(),
                id,
                QueuedOperationStatus::Applying,
                true,
            ),
            final(self).next() == old(self).next(),
            final(self).queued_count() == old(self).queued_count(),
            final(self).running() == old(self).running(),
    {
        self.set_status_if(id, QueuedOperationStatus::Applying, true)
    }

    /// Marks the operation with an id as applied.
    pub fn mark_applied(&mut self, id: u64)
        ensures
            final(self).ops() == set_status_model(
                old(self).ops(),
                id,
                QueuedOperationStatus::Applied,
                false,
            ).0,
            final(self).next() == old(self).next(),
            final(self).queued_count() == old(self).queued_count(),
            final(self).running() == old(self).running(),
    {
        self.set_status(id, QueuedOperationStatus::Applied);
    }

    /// Marks the operation with an id as failed, with the message.
    pub fn mark_failed(&mut self, id: u64, message: String)
        ensures
            final(self).ops() == set_status_model(
                old(self).ops(),
                id,
                QueuedOperationStatus::Failed(message),
                false,
            ).0,
            final(self).next() == old(self).next(),
            final(self).queued_count() == old(self).queued_count(),
            final(self).running() == old(self).running(),
    {
        self.set_status(id, QueuedOperationStatus::Failed(message));
    }

    /// Removes the operation with an id, unless it is being applied.
    pub fn remove(&mut self, id: u64) -> (r: bool)
        ensures
            (final(self).ops(), r) == remove_model(old(self).ops(), id),
            final(self).next() == old(self).next(),
            final(self).queued_count() == old(self).queued_count(),
            final(self).running() == old(self).running(),
    {
        let mut i: usize = 0;
        while i < self.operations.len()
            invariant
                i <= self.operations.len(),
                self.operations@ == old(self).operations@,
                self.next_id == old(self).next_id,
                self.queued == old(self).queued,
                self.processing == old(self).processing,
                forall|j: int|
                    0 <= j < i ==> !(#[trigger] removable_with_id(id)(self.operations@[j])),
            decreases self.operations.len() - i,
        {
            if self.operations[i].id == id && self.operations[i].status.can_remove() {
                proof {
                    lemma_find_first_at(self.operations@, removable_with_id(id), i as int);
                    use_type_invariant(&*self);
                    if self.next_id < u64::MAX {
                        lemma_changes_keep_well_formed(
                            self.operations@,
                            self.next_id,
                            id,
                            QueuedOperationStatus::Pending,
                            false,
                        );
                    }
                }
                let mut ops: Vec<QueuedOperation> = Vec::new();
                std::mem::swap(&mut ops, &mut self.operations);
                ops.remove(i);
                self.operations = ops;
                return true;
            }
            i += 1;
        }
        proof {
            lemma_find_first_none(self.operations@, removable_with_id(id));
        }
        false
    }
}

} // verus!
