//! Saving the management window: carrying budget code renames and deletions
//! over to the forms that name those codes, collecting what is written, and
//! the message that follows.
use vstd::prelude::*;

use crate::forms::{
    apply_budget_code_renames_to_rule_forms, collect_budget_code_renames, form_renames,
    renamed_budget_code, renamed_code, AliasFormState, BudgetFormState, RuleFormState,
};
use crate::records::{BudgetCodeRename, EditableAlias, EditableBudget, EditableRule};
use crate::snapshot::{
    aliases_collected_from, collect_alias_forms, collect_rule_forms, live_aliases, live_rules,
    rules_collected_from,
};
use crate::text::{
    decimal, decimal_string, eq_ignore_ascii_case, lemma_trim_idempotent, owned, push_str,
    str_eq_ignore_ascii_case, str_equal, trim, trim_str,
};

verus! {

/// The codes of the deleted budget forms: each one's trimmed original and
/// current code, the blank ones left out.
pub open spec fn deleted_codes(forms: Seq<BudgetFormState>) -> Seq<Seq<char>>
    decreases forms.len(),
{
    if forms.len() == 0 {
        Seq::empty()
    } else {
        let rest = deleted_codes(forms.drop_last());
        let f = forms.last();
        if f.deleted {
            let a = trim(f.original_code@);
            let b = trim(f.budget.code@);
            let with_a = if a.len() > 0 {
                rest.push(a)
            } else {
                rest
            };
            if b.len() > 0 {
                with_a.push(b)
            } else {
                with_a
            }
        } else {
            rest
        }
    }
}

/// Whether a parent code names a deleted budget, ignoring ASCII case and
/// surrounding whitespace.
pub open spec fn names_deleted(parent: Seq<char>, codes: Seq<Seq<char>>) -> bool {
    exists|k: int| 0 <= k < codes.len() && eq_ignore_ascii_case(trim(#[trigger] codes[k]), trim(parent))
}

/// The parent code a budget form gets: none where it is deleted or has no
/// parent; blank where its parent was deleted; the trimmed new code where
/// its parent was renamed; else its parent stays.
pub open spec fn new_parent(
    f: BudgetFormState,
    renames: Seq<BudgetCodeRename>,
    codes: Seq<Seq<char>>,
) -> Option<Seq<char>> {
    let p = f.budget.parent_code@;
    if f.deleted || trim(p).len() == 0 {
        None
    } else if names_deleted(p, codes) {
        Some(Seq::empty())
    } else {
        match renamed_code(p, renames) {
            Some(to) => Some(trim(to)),
            None => None,
        }
    }
}

/// Collects the codes of the deleted budget forms.
fn deleted_budget_codes(forms: &[BudgetFormState]) -> (r: Vec<String>)
    ensures
        r@.map_values(|s: String| s@) == deleted_codes(forms@),
{
    let mut codes: Vec<String> = Vec::new();
    let mut i: usize = 0;
    while i < forms.len()
        invariant
            i <= forms.len(),
            codes@.map_values(|s: String| s@) == deleted_codes(forms@.take(i as int)),
        decreases forms.len() - i,
    {
        proof {
            let t = forms@.take(i as int + 1);
            assert(t.drop_last() == forms@.take(i as int));
        }
        if forms[i].deleted {
            let a = trim_str(forms[i].original_code.as_str());
            let b = trim_str(forms[i].budget.code.as_str());
            if !a.as_str().is_empty() {
                let ghost before = codes@;
                codes.push(a);
                assert(codes@.map_values(|s: String| s@) == before.map_values(|s: String| s@).push(
                    a@,
                ));
            }
            if !b.as_str().is_empty() {
                let ghost before = codes@;
                codes.push(b);
                assert(codes@.map_values(|s: String| s@) == before.map_values(|s: String| s@).push(
                    b@,
                ));
            }
        }
        i += 1;
    }
    assert(forms@.take(forms.len() as int) == forms@);
    codes
}

/// Whether a parent code names one of the deleted codes.
fn parent_names_deleted(parent: &str, codes: &[String]) -> (r: bool)
    ensures
        r == names_deleted(parent@, codes@.map_values(|s: String| s@)),
{
    let p = trim_str(parent);
    let ghost cs = codes@.map_values(|s: String| s@);
    let mut k: usize = 0;
    while k < codes.len()
        invariant
            k <= codes.len(),
            p@ == trim(parent@),
            cs == codes@.map_values(|s: String| s@),
            forall|j: int| 0 <= j < k ==> !eq_ignore_ascii_case(trim(#[trigger] cs[j]), trim(parent@)),
        decreases codes.len() - k,
    {
        let c = trim_str(codes[k].as_str());
        if str_eq_ignore_ascii_case(c.as_str(), p.as_str()) {
            assert(eq_ignore_ascii_case(trim(cs[k as int]), trim(parent@)));
            return true;
        }
        k += 1;
    }
    false
}

/// Clears the parent of budgets whose parent was deleted, and gives the new
/// code to budgets whose parent was renamed; answers how many changed.
pub fn apply_budget_code_renames_to_budget_parent_forms(
    forms: &mut Vec<BudgetFormState>,
    renames: &[BudgetCodeRename],
) -> (r: usize)
    ensures
        final(forms)@.len() == old(forms)@.len(),
        forall|i: int|
            0 <= i < old(forms)@.len() ==> {
                let f = #[trigger] old(forms)@[i];
                let g = final(forms)@[i];
                match new_parent(f, renames@, deleted_codes(old(forms)@)) {
                    Some(p) => {
                        &&& g.deleted == f.deleted
                        &&& g.visible == f.visible
                        &&& g.original_code == f.original_code
                        &&& g.auto_code == f.auto_code
                        &&& g.budget == EditableBudget { parent_code: g.budget.parent_code, ..f.budget }
                        &&& g.budget.parent_code@ == p
                    },
                    None => g == f,
                }
            },
        r == old(forms)@.filter(
            |f: BudgetFormState| new_parent(f, renames@, deleted_codes(old(forms)@)) is Some,
        ).len(),
{
    let codes = deleted_budget_codes(forms.as_slice());
    let ghost ds = deleted_codes(forms@);
    let ghost original = forms@;
    let mut updated: usize = 0;
    let mut i: usize = 0;
    while i < forms.len()
        invariant
            i <= forms.len() == original.len(),
            codes@.map_values(|s: String| s@) == ds,
            forall|k: int|
                0 <= k < i ==> {
                    let f = #[trigger] original[k];
                    let g = forms@[k];
                    match new_parent(f, renames@, ds) {
                        Some(p) => {
                            &&& g.deleted == f.deleted
                            &&& g.visible == f.visible
                            &&& g.original_code == f.original_code
                            &&& g.auto_code == f.auto_code
                            &&& g.budget == EditableBudget {
                                parent_code: g.budget.parent_code,
                                ..f.budget
                            }
                            &&& g.budget.parent_code@ == p
                        },
                        None => g == f,
                    }
                },
            forall|k: int| i <= k < forms@.len() ==> #[trigger] forms@[k] == original[k],
            updated == original.take(i as int).filter(
                |f: BudgetFormState| new_parent(f, renames@, ds) is Some,
            ).len(),
            updated <= i,
        decreases forms.len() - i,
    {
        proof {
            let t = original.take(i as int + 1);
            assert(t.drop_last() == original.take(i as int));
            assert(t.last() == original[i as int]);
            reveal_with_fuel(Seq::filter, 1);
        }
        let parent = trim_str(forms[i].budget.parent_code.as_str());
        if !forms[i].deleted && !parent.as_str().is_empty() {
            let new_code: Option<String> = if parent_names_deleted(
                forms[i].budget.parent_code.as_str(),
                codes.as_slice(),
            ) {
                Some(String::new())
            } else {
                match renamed_budget_code(forms[i].budget.parent_code.as_str(), renames) {
                    Some(to) => {
                        let target = trim_str(to);
                        if str_equal(parent.as_str(), target.as_str()) {
                            None
                        } else {
                            Some(target)
                        }
                    },
                    None => None,
                }
            };
            if let Some(code) = new_code {
                let mut budget = forms[i].budget.duplicate();
                budget.parent_code = code;
                let g = BudgetFormState {
                    deleted: forms[i].deleted,
                    visible: forms[i].visible,
                    original_code: forms[i].original_code.clone(),
                    auto_code: forms[i].auto_code,
                    budget,
                };
                forms.set(i, g);
                updated += 1;
            }
        }
        i += 1;
    }
    assert(original.take(original.len() as int) == original);
    updated
}

/// What a save writes: the budget code renames, how many rules they
/// renamed, and the rules and field names to write.
pub struct SavePlan {
    pub renames: Vec<BudgetCodeRename>,
    pub renamed_rule_count: usize,
    pub rules: Vec<EditableRule>,
    pub aliases: Vec<EditableAlias>,
}

/// Prepares a save: reads the budget code renames from the budget forms,
/// carries them over to the rule forms, then collects the rules and field
/// names to write.
pub fn prepare_management_save(
    rule_forms: &mut Vec<RuleFormState>,
    budget_forms: &[BudgetFormState],
    alias_forms: &[AliasFormState],
) -> (r: SavePlan)
    ensures
        r.renames@.map_values(|x: BudgetCodeRename| (x.from@, x.to@)) == form_renames(
            budget_forms@,
        ),
        final(rule_forms)@.len() == old(rule_forms)@.len(),
        forall|i: int|
            0 <= i < old(rule_forms)@.len() ==> {
                let f = old(rule_forms)@[i];
                let g = #[trigger] final(rule_forms)@[i];
                &&& g.deleted == f.deleted
                &&& g.visible == f.visible
                &&& if !f.deleted && renamed_code(f.rule.budget_code@, r.renames@) is Some {
                    g.rule == EditableRule { budget_code: g.rule.budget_code, ..f.rule }
                        && g.rule.budget_code@ == trim(
                        renamed_code(f.rule.budget_code@, r.renames@)->0,
                    )
                } else {
                    g == f
                }
            },
        r.renamed_rule_count == old(rule_forms)@.filter(
            |f: RuleFormState| !f.deleted && renamed_code(f.rule.budget_code@, r.renames@) is Some,
        ).len(),
        rules_collected_from(live_rules(final(rule_forms)@), r.rules@),
        aliases_collected_from(live_aliases(alias_forms@), r.aliases@),
{
    let renames = collect_budget_code_renames(budget_forms);
    let renamed_rule_count = apply_budget_code_renames_to_rule_forms(rule_forms, renames.as_slice());
    let rules = collect_rule_forms(rule_forms.as_slice());
    let aliases = collect_alias_forms(alias_forms);
    SavePlan { renames, renamed_rule_count, rules, aliases }
}

/// How a save ended.
pub enum SaveOutcome {
    /// Everything was written and read back.
    Saved,
    /// Writing or reading back failed with this message.
    Failed(String),
    /// The background task stopped before it answered.
    Canceled,
}

/// The message a save ends with.
pub open spec fn save_message(renamed_rule_count: nat, outcome: SaveOutcome) -> Seq<char> {
    match outcome {
        SaveOutcome::Saved => if renamed_rule_count == 0 {
            "Changes saved."@
        } else {
            "Changes saved. "@ + decimal(renamed_rule_count)
                + " rule(s) updated for renamed budget codes."@
        },
        SaveOutcome::Failed(error) => "Save failed: "@ + error@,
        SaveOutcome::Canceled => "Save canceled: the background task stopped unexpectedly."@,
    }
}

/// The message a save ends with.
pub fn save_status_message(renamed_rule_count: usize, outcome: &SaveOutcome) -> (r: String)
    ensures
        r@ == save_message(renamed_rule_count as nat, *outcome),
{
    match outcome {
        SaveOutcome::Saved => {
            if renamed_rule_count == 0 {
                owned("Changes saved.")
            } else {
                let mut message = owned("Changes saved. ");
                let count = decimal_string(renamed_rule_count as u64);
                push_str(&mut message, count.as_str());
                push_str(&mut message, " rule(s) updated for renamed budget codes.");
                message
            }
        },
        SaveOutcome::Failed(error) => {
            let mut message = owned("Save failed: ");
            push_str(&mut message, error.as_str());
            message
        },
        SaveOutcome::Canceled => owned("Save canceled: the background task stopped unexpectedly."),
    }
}

/// A budget form once saved: it remembers its trimmed code as the code it
/// was loaded with, and its code is no longer generated.
pub open spec fn saved_form(before: BudgetFormState, after: BudgetFormState) -> bool {
    if before.deleted {
        after == before
    } else {
        &&& after == BudgetFormState {
            original_code: after.original_code,
            auto_code: false,
            ..before
        }
        &&& after.original_code@ == trim(before.budget.code@)
    }
}

/// Marks the budget forms that are not deleted as saved.
pub fn mark_budget_forms_saved(forms: &mut Vec<BudgetFormState>)
    ensures
        final(forms)@.len() == old(forms)@.len(),
        forall|i: int|
            0 <= i < old(forms)@.len() ==> saved_form(old(forms)@[i], #[trigger] final(forms)@[i]),
{
    let ghost original = forms@;
    let mut i: usize = 0;
    while i < forms.len()
        invariant
            i <= forms.len() == original.len(),
            forall|k: int| 0 <= k < i ==> saved_form(original[k], #[trigger] forms@[k]),
            forall|k: int| i <= k < forms@.len() ==> #[trigger] forms@[k] == original[k],
        decreases forms.len() - i,
    {
        if !forms[i].deleted {
            let g = BudgetFormState {
                deleted: forms[i].deleted,
                visible: forms[i].visible,
                original_code: trim_str(forms[i].budget.code.as_str()),
                auto_code: false,
                budget: forms[i].budget.duplicate(),
            };
            forms.set(i, g);
        }
        i += 1;
    }
}

/// Once the budget forms are marked as saved, they hold no rename: every
/// form's code is the code it remembers.
pub proof fn lemma_saved_forms_hold_no_renames(before: Seq<BudgetFormState>, after: Seq<BudgetFormState>)
    requires
        after.len() == before.len(),
        forall|i: int| 0 <= i < before.len() ==> saved_form(before[i], #[trigger] after[i]),
    ensures
        form_renames(after).len() == 0,
    decreases before.len(),
{
    if before.len() > 0 {
        let n = before.len() - 1;
        assert forall|i: int| 0 <= i < n implies saved_form(
            before.drop_last()[i],
            #[trigger] after.drop_last()[i],
        ) by {
            assert(saved_form(before[i], after[i]));
        }
        lemma_saved_forms_hold_no_renames(before.drop_last(), after.drop_last());
        assert(saved_form(before[n], after[n]));
        let f = after.last();
        if !f.deleted {
            lemma_trim_idempotent(before[n].budget.code@);
            assert(trim(f.original_code@) == trim(f.budget.code@));
        }
    }
}

} // verus!
