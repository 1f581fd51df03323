//! Moving the rules of one budget code to another budget code.
use vstd::prelude::*;

use crate::forms::{trimmed_chars, BudgetFormState, RuleFormState};
use crate::records::EditableRule;
use crate::text::{
    chars_eq_ignore_ascii_case, eq_ignore_ascii_case, lemma_trim_idempotent, owned, push_str,
    str_equal, trim, trim_str,
};
use crate::queue_text::usize_text;
use crate::text::decimal;

verus! {

/// A budget code that rules can be moved to.
pub struct BudgetMoveTarget {
    pub code: String,
    pub category: String,
    pub direction: String,
}

/// What a move changed.
#[derive(Debug, Clone, Copy, PartialEq, Eq, Structural)]
pub struct BudgetMoveResult {
    pub rules_changed: usize,
    pub source_budget_count: usize,
    pub budgets_removed: usize,
}

/// Two budget codes match when the first is not empty and both are equal up
/// to ASCII case once trimmed.
pub open spec fn codes_match(left: Seq<char>, right: Seq<char>) -> bool {
    trim(left).len() > 0 && eq_ignore_ascii_case(trim(left), trim(right))
}

/// The position of the first target whose code matches.
pub open spec fn target_index(options: Seq<BudgetMoveTarget>, code: Seq<char>) -> Option<int>
    decreases options.len(),
{
    if options.len() == 0 {
        None
    } else if codes_match(options[0].code@, code) {
        Some(0)
    } else {
        match target_index(options.drop_first(), code) {
            Some(i) => Some(i + 1),
            None => None,
        }
    }
}

/// A code can be offered as a target when it is not empty and no earlier
/// target has it.
pub open spec fn code_eligible(code: Seq<char>, options: Seq<BudgetMoveTarget>) -> bool {
    trim(code).len() > 0 && forall|i: int|
        0 <= i < options.len() ==> !codes_match(#[trigger] options[i].code@, code)
}

/// The targets offered by budget forms: one per code of a non-deleted form,
/// the first form of a code giving its category and direction.
pub open spec fn move_targets(forms: Seq<BudgetFormState>) -> Seq<(Seq<char>, Seq<char>, Seq<char>)>
    decreases forms.len(),
{
    if forms.len() == 0 {
        Seq::empty()
    } else {
        let rest = move_targets(forms.drop_last());
        let f = forms.last();
        let code = trim(f.budget.code@);
        if !f.deleted && code.len() > 0 && forall|i: int|
            0 <= i < rest.len() ==> !codes_match(#[trigger] rest[i].0, code) {
            rest.push((code, trim(f.budget.category@), f.budget.direction@))
        } else {
            rest
        }
    }
}

/// The position of the first target view whose code matches.
pub open spec fn first_match(ts: Seq<(Seq<char>, Seq<char>, Seq<char>)>, code: Seq<char>) -> Option<int>
    decreases ts.len(),
{
    if ts.len() == 0 {
        None
    } else if codes_match(ts[0].0, code) {
        Some(0)
    } else {
        match first_match(ts.drop_first(), code) {
            Some(i) => Some(i + 1),
            None => None,
        }
    }
}

/// The target that budget forms offer for a code.
pub open spec fn found_target(forms: Seq<BudgetFormState>, code: Seq<char>) -> Option<
    (Seq<char>, Seq<char>, Seq<char>),
> {
    match first_match(move_targets(forms), code) {
        Some(i) => Some(move_targets(forms)[i]),
        None => None,
    }
}

pub open spec fn target_view(t: BudgetMoveTarget) -> (Seq<char>, Seq<char>, Seq<char>) {
    (t.code@, t.category@, t.direction@)
}

/// Whether two budget codes match.
pub fn budget_code_matches(left: &str, right: &str) -> (r: bool)
    ensures
        r == codes_match(left@, right@),
{
    let l = trimmed_chars(left);
    let rr = trimmed_chars(right);
    l.len() > 0 && chars_eq_ignore_ascii_case(l.as_slice(), rr.as_slice())
}

/// The first target whose code matches.
pub fn budget_move_target_for_code<'a>(options: &'a [BudgetMoveTarget], code: &str) -> (r: Option<
    &'a BudgetMoveTarget,
>)
    ensures
        match target_index(options@, code@) {
            Some(i) => 0 <= i < options@.len() && r == Some(&options@[i]),
            None => r is None,
        },
{
    let mut i: usize = 0;
    assert(options@.skip(0) == options@);
    while i < options.len()
        invariant
            i <= options.len(),
            target_index(options@, code@) == match target_index(options@.skip(i as int), code@) {
                Some(k) => Some(k + i),
                None => None,
            },
        decreases options.len() - i,
    {
        assert(options@.skip(i as int).drop_first() == options@.skip(i as int + 1));
        assert(options@.skip(i as int)[0] == options@[i as int]);
        if budget_code_matches(options[i].code.as_str(), code) {
            return Some(&options[i]);
        }
        i += 1;
    }
    assert(options@.skip(i as int).len() == 0);
    None
}

/// Whether moving from one code to another changes the direction of the
/// rules; false where either code is not offered.
pub fn budget_move_changes_direction(options: &[BudgetMoveTarget], from: &str, to: &str) -> (r: bool)
    ensures
        r == match (target_index(options@, from@), target_index(options@, to@)) {
            (Some(i), Some(j)) => options@[i].direction@ != options@[j].direction@,
            _ => false,
        },
{
    let source = match budget_move_target_for_code(options, from) {
        Some(s) => s,
        None => return false,
    };
    let target = match budget_move_target_for_code(options, to) {
        Some(t) => t,
        None => return false,
    };
    !str_equal(source.direction.as_str(), target.direction.as_str())
}

/// The label of a target: its code, and its category where it has one.
pub fn budget_move_label(option: &BudgetMoveTarget) -> (r: String)
    ensures
        r@ == if trim(option.category@).len() == 0 {
            option.code@
        } else {
            option.code@ + " \u{b7} "@ + option.category@
        },
{
    if crate::text::is_blank_str(option.category.as_str()) {
        owned(option.code.as_str())
    } else {
        let mut r = owned(option.code.as_str());
        push_str(&mut r, " \u{b7} ");
        push_str(&mut r, option.category.as_str());
        r
    }
}

/// Whether a code can be offered as a target beside the ones already offered.
pub fn budget_move_code_is_eligible(code: &str, options: &[BudgetMoveTarget]) -> (r: bool)
    ensures
        r == code_eligible(code@, options@),
{
    let t = trimmed_chars(code);
    if t.len() == 0 {
        return false;
    }
    let mut i: usize = 0;
    while i < options.len()
        invariant
            i <= options.len(),
            trim(code@).len() > 0,
            forall|k: int| 0 <= k < i ==> !codes_match(#[trigger] options@[k].code@, code@),
        decreases options.len() - i,
    {
        if budget_code_matches(options[i].code.as_str(), code) {
            return false;
        }
        i += 1;
    }
    true
}

/// The targets offered by the budget forms.
pub fn budget_move_targets(forms: &[BudgetFormState]) -> (r: Vec<BudgetMoveTarget>)
    ensures
        r@.map_values(|t: BudgetMoveTarget| target_view(t)) == move_targets(forms@),
{
    let mut options: Vec<BudgetMoveTarget> = Vec::new();
    let mut i: usize = 0;
    while i < forms.len()
        invariant
            i <= forms.len(),
            options@.map_values(|t: BudgetMoveTarget| target_view(t)) == move_targets(
                forms@.take(i as int),
            ),
        decreases forms.len() - i,
    {
        let ghost ov = options@.map_values(|t: BudgetMoveTarget| target_view(t));
        proof {
            let t = forms@.take(i as int + 1);
            assert(t.drop_last() == forms@.take(i as int));
            assert(t.last() == forms@[i as int]);
        }
        if !forms[i].deleted {
            let code = trim_str(forms[i].budget.code.as_str());
            let eligible = budget_move_code_is_eligible(code.as_str(), options.as_slice());
            proof {
                assert(trim(code@) == code@) by {
                    crate::text::lemma_trim_idempotent(forms@[i as int].budget.code@);
                }
                if eligible {
                    assert forall|k: int| 0 <= k < ov.len() implies !codes_match(
                        #[trigger] ov[k].0,
                        code@,
                    ) by {
                        assert(ov[k] == target_view(options@[k]));
                    }
                } else if code@.len() > 0 {
                    let k = choose|k: int|
                        0 <= k < options@.len() && codes_match(#[trigger] options@[k].code@, code@);
                    assert(ov[k] == target_view(options@[k]));
                }
            }
            if eligible {
                let category = trim_str(forms[i].budget.category.as_str());
                let direction = forms[i].budget.direction.clone();
                let t = BudgetMoveTarget { code, category, direction };
                options.push(t);
                assert(options@.map_values(|t: BudgetMoveTarget| target_view(t)) == ov.push(
                    target_view(t),
                ));
                assert(move_targets(forms@.take(i as int + 1)) == ov.push(target_view(t)));
            } else {
                proof {
                    let f = forms@.take(i as int + 1).last();
                    let c = trim(f.budget.code@);
                    assert(c == code@);
                    if c.len() > 0 {
                        assert(!code_eligible(code@, options@));
                        assert(exists|k: int|
                            0 <= k < options@.len() && codes_match(
                                #[trigger] options@[k].code@,
                                code@,
                            ));
                        let k = choose|k: int|
                            0 <= k < options@.len() && codes_match(
                                #[trigger] options@[k].code@,
                                code@,
                            );
                        assert(ov[k].0 == options@[k].code@);
                        assert(!(forall|j: int|
                            0 <= j < ov.len() ==> !codes_match(#[trigger] ov[j].0, c)));
                    }
                }
                assert(move_targets(forms@.take(i as int + 1)) == ov);
            }
        } else {
            assert(move_targets(forms@.take(i as int + 1)) == ov);
        }
        i += 1;
    }
    assert(forms@.take(forms.len() as int) == forms@);
    options
}

proof fn lemma_target_index_views(options: Seq<BudgetMoveTarget>, code: Seq<char>)
    ensures
        target_index(options, code) == first_match(
            options.map_values(|t: BudgetMoveTarget| target_view(t)),
            code,
        ),
    decreases options.len(),
{
    if options.len() > 0 {
        lemma_target_index_views(options.drop_first(), code);
        assert(options.drop_first().map_values(|t: BudgetMoveTarget| target_view(t))
            == options.map_values(|t: BudgetMoveTarget| target_view(t)).drop_first());
    }
}

proof fn lemma_first_match_bounds(ts: Seq<(Seq<char>, Seq<char>, Seq<char>)>, code: Seq<char>)
    ensures
        match first_match(ts, code) {
            Some(i) => 0 <= i < ts.len() && codes_match(ts[i].0, code),
            None => forall|i: int| 0 <= i < ts.len() ==> !codes_match(#[trigger] ts[i].0, code),
        },
    decreases ts.len(),
{
    if ts.len() > 0 {
        lemma_first_match_bounds(ts.drop_first(), code);
        if !codes_match(ts[0].0, code) {
            match first_match(ts.drop_first(), code) {
                Some(i) => {},
                None => {
                    assert forall|i: int| 0 <= i < ts.len() implies !codes_match(
                        #[trigger] ts[i].0,
                        code,
                    ) by {
                        if i > 0 {
                            assert(ts[i] == ts.drop_first()[i - 1]);
                        }
                    }
                },
            }
        }
    }
}

/// The target that the budget forms offer for a code.
pub fn find_budget_move_target(forms: &[BudgetFormState], code: &str) -> (r: Option<BudgetMoveTarget>)
    ensures
        match r {
            Some(t) => found_target(forms@, code@) == Some(target_view(t)),
            None => found_target(forms@, code@) is None,
        },
{
    let options = budget_move_targets(forms);
    proof {
        lemma_target_index_views(options@, code@);
    }
    match budget_move_target_for_code(options.as_slice(), code) {
        Some(t) => {
            proof {
                let i = target_index(options@, code@)->0;
                assert(options@.map_values(|t: BudgetMoveTarget| target_view(t))[i] == target_view(
                    options@[i],
                ));
            }
            Some(
                BudgetMoveTarget {
                    code: t.code.clone(),
                    category: t.category.clone(),
                    direction: t.direction.clone(),
                },
            )
        },
        None => None,
    }
}

/// A rule form moved to a target: its budget code, category and direction
/// set to the target's, everything else kept.
pub open spec fn rule_moved(
    f: RuleFormState,
    g: RuleFormState,
    t: (Seq<char>, Seq<char>, Seq<char>),
) -> bool {
    &&& g.deleted == f.deleted
    &&& g.visible == f.visible
    &&& g.rule.budget_code@ == t.0
    &&& g.rule.category@ == t.1
    &&& g.rule.direction@ == t.2
    &&& g.rule == EditableRule {
        budget_code: g.rule.budget_code,
        category: g.rule.category,
        direction: g.rule.direction,
        ..f.rule
    }
}

/// A rule form is moved when it is not deleted and uses the source code.
pub open spec fn rule_uses_code(f: RuleFormState, from: Seq<char>) -> bool {
    !f.deleted && codes_match(f.rule.budget_code@, from)
}

/// A budget form is the source when it is not deleted and has the code.
pub open spec fn budget_has_code(f: BudgetFormState, from: Seq<char>) -> bool {
    !f.deleted && codes_match(f.budget.code@, from)
}

/// Moves the rules of budget code `from` to the target offered for `to`,
/// and deletes the source budgets where asked; nothing changes where no
/// target is offered for `to`.
pub fn move_budget_code_between_forms(
    rules: &mut Vec<RuleFormState>,
    budgets: &mut Vec<BudgetFormState>,
    from: &str,
    to: &str,
    remove_source_budget: bool,
) -> (r: BudgetMoveResult)
    ensures
        final(rules)@.len() == old(rules)@.len(),
        final(budgets)@.len() == old(budgets)@.len(),
        match found_target(old(budgets)@, to@) {
            None => {
                &&& final(rules)@ == old(rules)@
                &&& final(budgets)@ == old(budgets)@
                &&& r == BudgetMoveResult {
                    rules_changed: 0,
                    source_budget_count: 0,
                    budgets_removed: 0,
                }
            },
            Some(t) => {
                &&& forall|i: int|
                    0 <= i < old(rules)@.len() ==> if rule_uses_code(old(rules)@[i], from@) {
                        rule_moved(old(rules)@[i], #[trigger] final(rules)@[i], t)
                    } else {
                        final(rules)@[i] == old(rules)@[i]
                    }
                &&& forall|i: int|
                    0 <= i < old(budgets)@.len() ==> #[trigger] final(budgets)@[i] == if remove_source_budget
                        && budget_has_code(old(budgets)@[i], from@) {
                        BudgetFormState { deleted: true, ..old(budgets)@[i] }
                    } else {
                        old(budgets)@[i]
                    }
                &&& r.rules_changed == old(rules)@.filter(
                    |f: RuleFormState| rule_uses_code(f, from@),
                ).len()
                &&& r.source_budget_count == old(budgets)@.filter(
                    |f: BudgetFormState| budget_has_code(f, from@),
                ).len()
                &&& r.budgets_removed == if remove_source_budget {
                    r.source_budget_count
                } else {
                    0
                }
            },
        },
{
    let target = match find_budget_move_target(budgets.as_slice(), to) {
        Some(t) => t,
        None => {
            return BudgetMoveResult { rules_changed: 0, source_budget_count: 0, budgets_removed: 0 };
        },
    };
    let ghost tv = target_view(target);
    let ghost original_rules = rules@;
    let ghost original_budgets = budgets@;
    let mut rules_changed: usize = 0;
    let mut i: usize = 0;
    while i < rules.len()
        invariant
            i <= rules.len() == original_rules.len(),
            tv == target_view(target),
            forall|k: int|
                0 <= k < i ==> if rule_uses_code(original_rules[k], from@) {
                    rule_moved(original_rules[k], #[trigger] rules@[k], tv)
                } else {
                    rules@[k] == original_rules[k]
                },
            forall|k: int| i <= k < rules@.len() ==> #[trigger] rules@[k] == original_rules[k],
            rules_changed == original_rules.take(i as int).filter(
                |f: RuleFormState| rule_uses_code(f, from@),
            ).len(),
            rules_changed <= i,
        decreases rules.len() - i,
    {
        proof {
            let t = original_rules.take(i as int + 1);
            assert(t.drop_last() == original_rules.take(i as int));
            assert(t.last() == original_rules[i as int]);
            reveal_with_fuel(Seq::filter, 1);
        }
        if !rules[i].deleted && budget_code_matches(rules[i].rule.budget_code.as_str(), from) {
            let mut rule = rules[i].rule.duplicate();
            rule.budget_code = target.code.clone();
            rule.category = target.category.clone();
            rule.direction = target.direction.clone();
            let deleted = rules[i].deleted;
            let visible = rules[i].visible;
            rules.set(i, RuleFormState { deleted, visible, rule });
            rules_changed += 1;
        }
        i += 1;
    }
    assert(original_rules.take(original_rules.len() as int) == original_rules);
    let mut source_budget_count: usize = 0;
    let mut budgets_removed: usize = 0;
    let mut j: usize = 0;
    while j < budgets.len()
        invariant
            j <= budgets.len() == original_budgets.len(),
            forall|k: int|
                0 <= k < j ==> #[trigger] budgets@[k] == if remove_source_budget && budget_has_code(
                    original_budgets[k],
                    from@,
                ) {
                    BudgetFormState { deleted: true, ..original_budgets[k] }
                } else {
                    original_budgets[k]
                },
            forall|k: int| j <= k < budgets@.len() ==> #[trigger] budgets@[k] == original_budgets[k],
            source_budget_count == original_budgets.take(j as int).filter(
                |f: BudgetFormState| budget_has_code(f, from@),
            ).len(),
            source_budget_count <= j,
            budgets_removed == if remove_source_budget {
                source_budget_count
            } else {
                0
            },
        decreases budgets.len() - j,
    {
        proof {
            let t = original_budgets.take(j as int + 1);
            assert(t.drop_last() == original_budgets.take(j as int));
            assert(t.last() == original_budgets[j as int]);
            reveal_with_fuel(Seq::filter, 1);
        }
        if !budgets[j].deleted && budget_code_matches(budgets[j].budget.code.as_str(), from) {
            source_budget_count += 1;
            if remove_source_budget {
                let visible = budgets[j].visible;
                let original_code = budgets[j].original_code.clone();
                let auto_code = budgets[j].auto_code;
                let budget = budgets[j].budget.duplicate();
                budgets.set(j, BudgetFormState { deleted: true, visible, original_code, auto_code, budget });
                budgets_removed += 1;
            }
        }
        j += 1;
    }
    assert(original_budgets.take(original_budgets.len() as int) == original_budgets);
    BudgetMoveResult { rules_changed, source_budget_count, budgets_removed }
}

/// The status message after a move.
pub open spec fn move_message(from: Seq<char>, to: Seq<char>, r: BudgetMoveResult) -> Seq<char> {
    let f = trim(from);
    let t = trim(to);
    if r.source_budget_count == 0 {
        "No source budget code found to move."@
    } else if r.rules_changed == 0 && r.budgets_removed == 0 {
        "No rules used "@ + f + "; kept budget code "@ + f + ". Review, then Save."@
    } else if r.rules_changed == 0 {
        "No rules used "@ + f + "; removed budget code "@ + f + ". Review, then Save."@
    } else if r.budgets_removed == 0 {
        "Moved "@ + decimal(r.rules_changed as nat) + " rule(s) from "@ + f + " to "@ + t
            + ". Kept "@ + f + ". Review, then Save."@
    } else {
        "Moved "@ + decimal(r.rules_changed as nat) + " rule(s) from "@ + f + " to "@ + t
            + " and removed "@ + f + ". Review, then Save."@
    }
}

/// The status message after a move.
pub fn move_budget_status_message(from: &str, to: &str, result: BudgetMoveResult) -> (r: String)
    ensures
        r@ == move_message(from@, to@, result),
{
    if result.source_budget_count == 0 {
        return owned("No source budget code found to move.");
    }
    let f = trim_str(from);
    let t = trim_str(to);
    let kept_source = result.budgets_removed == 0;
    if result.rules_changed == 0 {
        let mut m = owned("No rules used ");
        push_str(&mut m, f.as_str());
        if kept_source {
            push_str(&mut m, "; kept budget code ");
        } else {
            push_str(&mut m, "; removed budget code ");
        }
        push_str(&mut m, f.as_str());
        push_str(&mut m, ". Review, then Save.");
        m
    } else {
        let mut m = owned("Moved ");
        let count = usize_text(result.rules_changed);
        push_str(&mut m, count.as_str());
        push_str(&mut m, " rule(s) from ");
        push_str(&mut m, f.as_str());
        push_str(&mut m, " to ");
        push_str(&mut m, t.as_str());
        if kept_source {
            push_str(&mut m, ". Kept ");
        } else {
            push_str(&mut m, " and removed ");
        }
        push_str(&mut m, f.as_str());
        push_str(&mut m, ". Review, then Save.");
        m
    }
}


/// The move targets are the budgets that are not deleted: every target is
/// the trimmed code, trimmed category and direction of a budget form that is
/// not deleted (so a deleted budget's code is never offered), and every form
/// that is not deleted and has a code is offered under a matching code.
pub proof fn lemma_move_targets_are_live_budgets(forms: Seq<BudgetFormState>)
    ensures
        forall|t: int|
            0 <= t < move_targets(forms).len() ==> exists|i: int|
                0 <= i < forms.len() && !forms[i].deleted && #[trigger] move_targets(forms)[t] == (
                    trim(forms[i].budget.code@),
                    trim(forms[i].budget.category@),
                    forms[i].budget.direction@,
                ),
        forall|i: int|
            0 <= i < forms.len() && !forms[i].deleted && trim(#[trigger] forms[i].budget.code@).len()
                > 0 ==> exists|t: int|
                0 <= t < move_targets(forms).len() && codes_match(
                    move_targets(forms)[t].0,
                    forms[i].budget.code@,
                ),
    decreases forms.len(),
{
    if forms.len() > 0 {
        let init = forms.drop_last();
        lemma_move_targets_are_live_budgets(init);
        let rest = move_targets(init);
        let f = forms.last();
        let n = forms.len() - 1;
        let code = trim(f.budget.code@);
        lemma_trim_idempotent(f.budget.code@);
        let ts = move_targets(forms);
        assert forall|t: int| 0 <= t < ts.len() implies exists|i: int|
            0 <= i < forms.len() && !forms[i].deleted && #[trigger] ts[t] == (
                trim(forms[i].budget.code@),
                trim(forms[i].budget.category@),
                forms[i].budget.direction@,
            ) by {
            if t < rest.len() {
                assert(ts[t] == rest[t]);
                let i = choose|i: int|
                    0 <= i < init.len() && !init[i].deleted && #[trigger] rest[t] == (
                        trim(init[i].budget.code@),
                        trim(init[i].budget.category@),
                        init[i].budget.direction@,
                    );
                assert(forms[i] == init[i]);
            } else {
                assert(forms[n] == f);
            }
        }
        assert forall|i: int|
            0 <= i < forms.len() && !forms[i].deleted && trim(#[trigger] forms[i].budget.code@).len()
                > 0 implies exists|t: int|
            0 <= t < ts.len() && codes_match(ts[t].0, forms[i].budget.code@) by {
            if i < n {
                assert(forms[i] == init[i]);
                assert(trim(init[i].budget.code@).len() > 0);
                let t = choose|t: int|
                    0 <= t < rest.len() && codes_match(rest[t].0, init[i].budget.code@);
                assert(ts[t] == rest[t]);
            } else {
                assert(forms[i] == f);
                if forall|j: int| 0 <= j < rest.len() ==> !codes_match(#[trigger] rest[j].0, code) {
                    assert(ts[rest.len() as int].0 == code);
                    assert(codes_match(code, f.budget.code@));
                } else {
                    let j = choose|j: int| 0 <= j < rest.len() && codes_match(#[trigger] rest[j].0, code);
                    assert(ts[j] == rest[j]);
                    assert(codes_match(ts[j].0, f.budget.code@));
                }
            }
        }
    }
}


/// The first matching target view, where there is one, is a target whose
/// code matches.
proof fn lemma_first_match_matches(ts: Seq<(Seq<char>, Seq<char>, Seq<char>)>, code: Seq<char>)
    ensures
        first_match(ts, code) matches Some(i) ==> 0 <= i < ts.len() && codes_match(ts[i].0, code),
        (forall|j: int| 0 <= j < ts.len() ==> !codes_match(#[trigger] ts[j].0, code)) ==> first_match(
            ts,
            code,
        ) is None,
    decreases ts.len(),
{
    if ts.len() > 0 {
        lemma_first_match_matches(ts.drop_first(), code);
        if !codes_match(ts[0].0, code) {
            if forall|j: int| 0 <= j < ts.len() ==> !codes_match(#[trigger] ts[j].0, code) {
                assert forall|j: int| 0 <= j < ts.drop_first().len() implies !codes_match(
                    #[trigger] ts.drop_first()[j].0,
                    code,
                ) by {
                    assert(ts.drop_first()[j] == ts[j + 1]);
                }
            }
        }
    }
}

/// Rules are moved only to a budget that is not deleted: the target offered
/// for a code is a live budget form's trimmed code that matches it; and where
/// no live budget form's code matches, no target is offered, so a move there
/// changes nothing.
pub proof fn lemma_move_goes_to_a_live_budget(forms: Seq<BudgetFormState>, to: Seq<char>)
    ensures
        found_target(forms, to) matches Some(t) ==> exists|i: int|
            0 <= i < forms.len() && !forms[i].deleted && t.0 == trim(
                #[trigger] forms[i].budget.code@,
            ) && codes_match(forms[i].budget.code@, to),
        (forall|i: int|
            0 <= i < forms.len() && !forms[i].deleted ==> !codes_match(
                #[trigger] forms[i].budget.code@,
                to,
            )) ==> found_target(forms, to) is None,
{
    let ts = move_targets(forms);
    lemma_move_targets_are_live_budgets(forms);
    lemma_first_match_matches(ts, to);
    assert forall|i: int| 0 <= i < forms.len() implies trim(trim(#[trigger] forms[i].budget.code@))
        == trim(forms[i].budget.code@) by {
        lemma_trim_idempotent(forms[i].budget.code@);
    }
    match first_match(ts, to) {
        Some(k) => {
            let i = choose|i: int|
                0 <= i < forms.len() && !forms[i].deleted && #[trigger] ts[k] == (
                    trim(forms[i].budget.code@),
                    trim(forms[i].budget.category@),
                    forms[i].budget.direction@,
                );
            assert(trim(trim(forms[i].budget.code@)) == trim(forms[i].budget.code@));
        },
        None => {},
    }
    if forall|i: int|
        0 <= i < forms.len() && !forms[i].deleted ==> !codes_match(
            #[trigger] forms[i].budget.code@,
            to,
        ) {
        assert forall|j: int| 0 <= j < ts.len() implies !codes_match(#[trigger] ts[j].0, to) by {
            let i = choose|i: int|
                0 <= i < forms.len() && !forms[i].deleted && #[trigger] ts[j] == (
                    trim(forms[i].budget.code@),
                    trim(forms[i].budget.category@),
                    forms[i].budget.direction@,
                );
            assert(trim(trim(forms[i].budget.code@)) == trim(forms[i].budget.code@));
            assert(!codes_match(forms[i].budget.code@, to));
        }
    }
}

} // verus!
