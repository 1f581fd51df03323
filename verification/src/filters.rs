//! The management window's search: the text each form is searched in, and
//! which forms stay visible once it is known which of them match.
use vstd::prelude::*;

use crate::forms::{AliasFormState, BudgetFormState, RuleFormState};
use crate::records::{EditableAlias, EditableBudget, EditableRule};
use crate::snapshot::{int_text, i32_text};
use crate::text::{
    contains_seq, decimal, decimal_string, eq_ignore_ascii_case, owned, push_str, str_eq_ignore_ascii_case, trim,
    trim_str,
};

verus! {

/// The text a rule's form is searched in: its state, priority, field,
/// trimmed search text, kind of match, category, budget code, direction, amounts
/// and notes, and `deleted` where it is deleted, separated by spaces.
pub open spec fn rule_haystack(r: EditableRule, deleted: bool) -> Seq<char> {
    (if r.active {
        "active"@
    } else {
        "inactive"@
    }) + " "@ + int_text(r.priority as int) + " "@ + r.field@ + " "@ + trim(r.search@) + " "@ + (if r.is_regex {
        "regex"@
    } else {
        "text"@
    }) + " "@ + r.category@ + " "@ + r.budget_code@ + " "@ + r.direction@ + " "@ + r.amount_min@
        + " "@ + r.amount_max@ + " "@ + r.notes@ + " "@ + (if deleted {
        "deleted"@
    } else {
        Seq::empty()
    })
}

/// The text a rule's form is searched in.
pub fn rule_form_search_text(form: &RuleFormState) -> (r: String)
    ensures
        r@ == rule_haystack(form.rule, form.deleted),
{
    let rule = &form.rule;
    let mut text = owned(if rule.active { "active" } else { "inactive" });
    push_str(&mut text, " ");
    let priority = i32_text(rule.priority);
    push_str(&mut text, priority.as_str());
    push_str(&mut text, " ");
    push_str(&mut text, rule.field.as_str());
    push_str(&mut text, " ");
    let search = trim_str(rule.search.as_str());
    push_str(&mut text, search.as_str());
    push_str(&mut text, " ");
    push_str(&mut text, if rule.is_regex { "regex" } else { "text" });
    push_str(&mut text, " ");
    push_str(&mut text, rule.category.as_str());
    push_str(&mut text, " ");
    push_str(&mut text, rule.budget_code.as_str());
    push_str(&mut text, " ");
    push_str(&mut text, rule.direction.as_str());
    push_str(&mut text, " ");
    push_str(&mut text, rule.amount_min.as_str());
    push_str(&mut text, " ");
    push_str(&mut text, rule.amount_max.as_str());
    push_str(&mut text, " ");
    push_str(&mut text, rule.notes.as_str());
    push_str(&mut text, " ");
    if form.deleted {
        push_str(&mut text, "deleted");
    } else {
        assert(text@ + Seq::<char>::empty() == text@);
    }
    text
}

/// The text a budget's form is searched in: its code, category, figures,
/// direction, income basis and notes, and `deleted` where it is deleted,
/// separated by spaces.
pub open spec fn budget_haystack(b: EditableBudget, deleted: bool) -> Seq<char> {
    b.code@ + " "@ + b.category@ + " "@ + b.monthly_budget@ + " "@ + b.yearly_budget@ + " "@
        + b.direction@ + " "@ + b.income_basis@ + " "@ + b.notes@ + " "@ + (if deleted {
        "deleted"@
    } else {
        Seq::empty()
    })
}

/// The text a budget's form is searched in.
pub fn budget_form_search_text(form: &BudgetFormState) -> (r: String)
    ensures
        r@ == budget_haystack(form.budget, form.deleted),
{
    let b = &form.budget;
    let mut text = b.code.clone();
    push_str(&mut text, " ");
    push_str(&mut text, b.category.as_str());
    push_str(&mut text, " ");
    push_str(&mut text, b.monthly_budget.as_str());
    push_str(&mut text, " ");
    push_str(&mut text, b.yearly_budget.as_str());
    push_str(&mut text, " ");
    push_str(&mut text, b.direction.as_str());
    push_str(&mut text, " ");
    push_str(&mut text, b.income_basis.as_str());
    push_str(&mut text, " ");
    push_str(&mut text, b.notes.as_str());
    push_str(&mut text, " ");
    if form.deleted {
        push_str(&mut text, "deleted");
    } else {
        assert(text@ + Seq::<char>::empty() == text@);
    }
    text
}

/// The text a field name's form is searched in: the field and the bank's
/// name.
pub open spec fn alias_haystack(a: EditableAlias) -> Seq<char> {
    a.canonical@ + " "@ + a.alias@
}

/// The text a field name's form is searched in.
pub fn alias_form_search_text(form: &AliasFormState) -> (r: String)
    ensures
        r@ == alias_haystack(form.alias),
{
    let mut text = form.alias.canonical.clone();
    push_str(&mut text, " ");
    push_str(&mut text, form.alias.alias.as_str());
    text
}

/// Whether a query asks for the active rules only: it is `active`, ignoring
/// ASCII case and surrounding whitespace. (A plain text search for it would
/// also find the inactive rules, whose text holds `inactive`.)
pub open spec fn active_only(query: Seq<char>) -> bool {
    eq_ignore_ascii_case(trim(query), "active"@)
}

/// Whether a rule form is shown for a query: it is not deleted, and it is
/// active where the query asks for the active rules only, else its search
/// text matches the query.
pub open spec fn rule_shown(f: RuleFormState, query: Seq<char>, matches: bool) -> bool {
    !f.deleted && if active_only(query) {
        f.rule.active
    } else {
        matches
    }
}

/// Whether a query asks for the active rules only.
pub fn rule_filter_is_active_only(query: &str) -> (r: bool)
    ensures
        r == active_only(query@),
{
    let t = trim_str(query);
    str_eq_ignore_ascii_case(t.as_str(), "active")
}

/// Shows the rule forms that the query shows, hides the others, and answers
/// how many are shown. `matches` says, form by form, whether the form's
/// search text matches the query (every form matches an empty query).
pub fn apply_rule_form_filter(forms: &mut Vec<RuleFormState>, query: &str, matches: &[bool]) -> (r:
    usize)
    requires
        matches@.len() == old(forms)@.len(),
    ensures
        final(forms)@.len() == old(forms)@.len(),
        forall|i: int|
            0 <= i < old(forms)@.len() ==> #[trigger] final(forms)@[i] == (RuleFormState {
                visible: rule_shown(old(forms)@[i], query@, matches@[i]),
                ..old(forms)@[i]
            }),
        r == Seq::new(
            matches@.len(),
            |i: int| rule_shown(old(forms)@[i], query@, matches@[i]),
        ).filter(|v: bool| v).len(),
{
    let active = rule_filter_is_active_only(query);
    let ghost original = forms@;
    let ghost shown = Seq::new(
        matches@.len(),
        |i: int| rule_shown(original[i], query@, matches@[i]),
    );
    let mut count: usize = 0;
    let mut i: usize = 0;
    while i < forms.len()
        invariant
            i <= forms.len() == original.len() == matches@.len(),
            active == active_only(query@),
            shown == Seq::new(
                matches@.len(),
                |i: int| rule_shown(original[i], query@, matches@[i]),
            ),
            forall|k: int|
                0 <= k < i ==> #[trigger] forms@[k] == (RuleFormState {
                    visible: rule_shown(original[k], query@, matches@[k]),
                    ..original[k]
                }),
            forall|k: int| i <= k < forms@.len() ==> #[trigger] forms@[k] == original[k],
            count == shown.take(i as int).filter(|v: bool| v).len(),
            count <= i,
        decreases forms.len() - i,
    {
        proof {
            let t = shown.take(i as int + 1);
            assert(t.drop_last() == shown.take(i as int));
            assert(t.last() == shown[i as int]);
            reveal_with_fuel(Seq::filter, 1);
        }
        let visible = !forms[i].deleted && if active {
            forms[i].rule.active
        } else {
            matches[i]
        };
        let rule = forms[i].rule.duplicate();
        let deleted = forms[i].deleted;
        forms.set(i, RuleFormState { deleted, visible, rule });
        if visible {
            count += 1;
        }
        i += 1;
    }
    assert(shown.take(shown.len() as int) == shown);
    count
}

/// Shows the budget forms that match and hides the others, and answers how
/// many are shown. A deleted budget form stays on view (with its undo
/// button) where it matches; its search text holds the word `deleted`.
pub fn apply_budget_form_filter(forms: &mut Vec<BudgetFormState>, matches: &[bool]) -> (r: usize)
    requires
        matches@.len() == old(forms)@.len(),
    ensures
        final(forms)@.len() == old(forms)@.len(),
        forall|i: int|
            0 <= i < old(forms)@.len() ==> #[trigger] final(forms)@[i] == (BudgetFormState {
                visible: matches@[i],
                ..old(forms)@[i]
            }),
        r == matches@.filter(|v: bool| v).len(),
{
    let ghost original = forms@;
    let mut count: usize = 0;
    let mut i: usize = 0;
    while i < forms.len()
        invariant
            i <= forms.len() == original.len() == matches@.len(),
            forall|k: int|
                0 <= k < i ==> #[trigger] forms@[k] == (BudgetFormState {
                    visible: matches@[k],
                    ..original[k]
                }),
            forall|k: int| i <= k < forms@.len() ==> #[trigger] forms@[k] == original[k],
            count == matches@.take(i as int).filter(|v: bool| v).len(),
            count <= i,
        decreases forms.len() - i,
    {
        proof {
            let t = matches@.take(i as int + 1);
            assert(t.drop_last() == matches@.take(i as int));
            assert(t.last() == matches@[i as int]);
            reveal_with_fuel(Seq::filter, 1);
        }
        let visible = matches[i];
        let g = BudgetFormState {
            deleted: forms[i].deleted,
            visible,
            original_code: forms[i].original_code.clone(),
            auto_code: forms[i].auto_code,
            budget: forms[i].budget.duplicate(),
        };
        forms.set(i, g);
        if visible {
            count += 1;
        }
        i += 1;
    }
    assert(matches@.take(matches@.len() as int) == matches@);
    count
}

/// Shows the field name forms that are not deleted and match, hides the
/// others, and answers how many are shown.
pub fn apply_alias_form_filter(forms: &mut Vec<AliasFormState>, matches: &[bool]) -> (r: usize)
    requires
        matches@.len() == old(forms)@.len(),
    ensures
        final(forms)@.len() == old(forms)@.len(),
        forall|i: int|
            0 <= i < old(forms)@.len() ==> #[trigger] final(forms)@[i] == (AliasFormState {
                visible: !old(forms)@[i].deleted && matches@[i],
                ..old(forms)@[i]
            }),
        r == Seq::new(matches@.len(), |i: int| !old(forms)@[i].deleted && matches@[i]).filter(
            |v: bool| v,
        ).len(),
{
    let ghost original = forms@;
    let ghost shown = Seq::new(matches@.len(), |i: int| !original[i].deleted && matches@[i]);
    let mut count: usize = 0;
    let mut i: usize = 0;
    while i < forms.len()
        invariant
            i <= forms.len() == original.len() == matches@.len(),
            shown == Seq::new(matches@.len(), |i: int| !original[i].deleted && matches@[i]),
            forall|k: int|
                0 <= k < i ==> #[trigger] forms@[k] == (AliasFormState {
                    visible: !original[k].deleted && matches@[k],
                    ..original[k]
                }),
            forall|k: int| i <= k < forms@.len() ==> #[trigger] forms@[k] == original[k],
            count == shown.take(i as int).filter(|v: bool| v).len(),
            count <= i,
        decreases forms.len() - i,
    {
        proof {
            let t = shown.take(i as int + 1);
            assert(t.drop_last() == shown.take(i as int));
            assert(t.last() == shown[i as int]);
            reveal_with_fuel(Seq::filter, 1);
        }
        let visible = !forms[i].deleted && matches[i];
        let alias = forms[i].alias.duplicate();
        let deleted = forms[i].deleted;
        forms.set(i, AliasFormState { deleted, visible, alias });
        if visible {
            count += 1;
        }
        i += 1;
    }
    assert(shown.take(shown.len() as int) == shown);
    count
}

/// The status line under the search: a reminder that changes need saving
/// while the query is blank, else the number of forms of each kind shown.
pub open spec fn filter_status_text(query: Seq<char>, rules: nat, budgets: nat, aliases: nat) -> Seq<
    char,
> {
    if trim(query).len() == 0 {
        "Changes are only applied after Save."@
    } else {
        "Filter active: "@ + decimal(rules) + " rule(s), "@ + decimal(budgets) + " budget(s), "@
            + decimal(aliases) + " field name(s) visible."@
    }
}

/// The status line under the search.
pub fn management_filter_status(
    query: &str,
    rules_count: usize,
    budgets_count: usize,
    aliases_count: usize,
) -> (r: String)
    ensures
        r@ == filter_status_text(query@, rules_count as nat, budgets_count as nat, aliases_count as nat),
{
    let t = trim_str(query);
    if t.as_str().is_empty() {
        return owned("Changes are only applied after Save.");
    }
    let mut text = owned("Filter active: ");
    let r = decimal_string(rules_count as u64);
    push_str(&mut text, r.as_str());
    push_str(&mut text, " rule(s), ");
    let b = decimal_string(budgets_count as u64);
    push_str(&mut text, b.as_str());
    push_str(&mut text, " budget(s), ");
    let a = decimal_string(aliases_count as u64);
    push_str(&mut text, a.as_str());
    push_str(&mut text, " field name(s) visible.");
    text
}


/// A text that ends with a part contains it.
proof fn lemma_contains_end(a: Seq<char>, x: Seq<char>)
    ensures
        contains_seq(a + x, x),
{
    assert((a + x).subrange(a.len() as int, (a.len() + x.len()) as int) =~= x);
}

/// A text that contains a part still does with more appended.
proof fn lemma_contains_extend(a: Seq<char>, b: Seq<char>, x: Seq<char>)
    requires
        contains_seq(a, x),
    ensures
        contains_seq(a + b, x),
{
    let i = choose|i: int| 0 <= i && i + x.len() <= a.len() && #[trigger] a.subrange(i, i + x.len()) == x;
    assert((a + b).subrange(i, i + x.len()) =~= a.subrange(i, i + x.len()));
}

/// The text a rule's form is searched in holds every value the form shows:
/// its field, search text (trimmed), category, budget code, direction,
/// amounts and notes, and its priority's digits; and `deleted` for a deleted
/// form. So a query for any of them finds the rule.
pub proof fn lemma_rule_search_text_holds_every_field(r: EditableRule, deleted: bool)
    ensures
        contains_seq(rule_haystack(r, deleted), r.field@),
        contains_seq(rule_haystack(r, deleted), trim(r.search@)),
        contains_seq(rule_haystack(r, deleted), r.category@),
        contains_seq(rule_haystack(r, deleted), r.budget_code@),
        contains_seq(rule_haystack(r, deleted), r.direction@),
        contains_seq(rule_haystack(r, deleted), r.amount_min@),
        contains_seq(rule_haystack(r, deleted), r.amount_max@),
        contains_seq(rule_haystack(r, deleted), r.notes@),
        contains_seq(rule_haystack(r, deleted), int_text(r.priority as int)),
        deleted ==> contains_seq(rule_haystack(r, deleted), "deleted"@),
{
    assert forall|a: Seq<char>, b: Seq<char>, x: Seq<char>|
        contains_seq(a, x) implies #[trigger] contains_seq(a + b, x) by {
        lemma_contains_extend(a, b, x);
    }
    assert forall|a: Seq<char>, x: Seq<char>| #[trigger] contains_seq(a + x, x) by {
        lemma_contains_end(a, x);
    }
    assert(contains_seq(rule_haystack(r, deleted), r.field@));
    assert(contains_seq(rule_haystack(r, deleted), trim(r.search@)));
    assert(contains_seq(rule_haystack(r, deleted), r.category@));
    assert(contains_seq(rule_haystack(r, deleted), r.budget_code@));
    assert(contains_seq(rule_haystack(r, deleted), r.direction@));
    assert(contains_seq(rule_haystack(r, deleted), r.amount_min@));
    assert(contains_seq(rule_haystack(r, deleted), r.amount_max@));
    assert(contains_seq(rule_haystack(r, deleted), r.notes@));
    assert(contains_seq(rule_haystack(r, deleted), int_text(r.priority as int)));
}

/// The text a budget's form is searched in holds every value the form
/// shows: its code, category, figures, direction, income basis and notes;
/// and `deleted` for a deleted form.
pub proof fn lemma_budget_search_text_holds_every_field(b: EditableBudget, deleted: bool)
    ensures
        contains_seq(budget_haystack(b, deleted), b.code@),
        contains_seq(budget_haystack(b, deleted), b.category@),
        contains_seq(budget_haystack(b, deleted), b.monthly_budget@),
        contains_seq(budget_haystack(b, deleted), b.yearly_budget@),
        contains_seq(budget_haystack(b, deleted), b.direction@),
        contains_seq(budget_haystack(b, deleted), b.income_basis@),
        contains_seq(budget_haystack(b, deleted), b.notes@),
        deleted ==> contains_seq(budget_haystack(b, deleted), "deleted"@),
{
    assert forall|a: Seq<char>, c: Seq<char>, x: Seq<char>|
        contains_seq(a, x) implies #[trigger] contains_seq(a + c, x) by {
        lemma_contains_extend(a, c, x);
    }
    assert forall|a: Seq<char>, x: Seq<char>| #[trigger] contains_seq(a + x, x) by {
        lemma_contains_end(a, x);
    }
    assert(contains_seq(budget_haystack(b, deleted), b.code@)) by {
        lemma_contains_end(Seq::<char>::empty(), b.code@);
        assert(Seq::<char>::empty() + b.code@ =~= b.code@);
    }
    assert(contains_seq(budget_haystack(b, deleted), b.category@));
    assert(contains_seq(budget_haystack(b, deleted), b.monthly_budget@));
    assert(contains_seq(budget_haystack(b, deleted), b.yearly_budget@));
    assert(contains_seq(budget_haystack(b, deleted), b.direction@));
    assert(contains_seq(budget_haystack(b, deleted), b.income_basis@));
    assert(contains_seq(budget_haystack(b, deleted), b.notes@));
}


/// The text a field name's form is searched in holds the field and the
/// bank's name.
pub proof fn lemma_alias_search_text_holds_both_names(a: EditableAlias)
    ensures
        contains_seq(alias_haystack(a), a.canonical@),
        contains_seq(alias_haystack(a), a.alias@),
{
    lemma_contains_end(Seq::<char>::empty(), a.canonical@);
    assert(Seq::<char>::empty() + a.canonical@ =~= a.canonical@);
    lemma_contains_extend(a.canonical@, " "@, a.canonical@);
    lemma_contains_extend(a.canonical@ + " "@, a.alias@, a.canonical@);
    lemma_contains_end(a.canonical@ + " "@, a.alias@);
}

} // verus!
