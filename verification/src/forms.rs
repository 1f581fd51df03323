//! The state of the management window's forms as plain values, and the edits
//! that apply to them: budget code renames, orphaned rules, planned income.
use vstd::prelude::*;

use crate::records::{BudgetCodeRename, EditableAlias, EditableBudget, EditableRule};
use crate::text::{
    chars_eq_ignore_ascii_case, chars_equal, chars_of, eq_ignore_ascii_case, is_ws, is_whitespace,
    lower_ascii, lower_ascii_chars, string_of, trim, trim_bounds, trim_end, trim_start, trim_str,
};

verus! {

/// A rule's form: the values in its widgets and whether it is deleted or
/// shown.
pub struct RuleFormState {
    pub deleted: bool,
    pub visible: bool,
    pub rule: EditableRule,
}

/// A budget's form: the values in its widgets, the code it was loaded with,
/// and whether it is deleted or shown.
pub struct BudgetFormState {
    pub deleted: bool,
    pub visible: bool,
    pub original_code: String,
    pub auto_code: bool,
    pub budget: EditableBudget,
}

/// A field name's form.
pub struct AliasFormState {
    pub deleted: bool,
    pub visible: bool,
    pub alias: EditableAlias,
}

/// The key by which budget codes are compared: trimmed and ASCII lower-cased.
pub open spec fn code_key(code: Seq<char>) -> Seq<char> {
    lower_ascii(trim(code))
}

/// The budget code that a rename list gives a code: the target of the first
/// rename whose source has the same key; none for an empty code.
pub open spec fn rename_index(code: Seq<char>, renames: Seq<BudgetCodeRename>) -> Option<int>
    decreases renames.len(),
{
    if code_key(code).len() == 0 || renames.len() == 0 {
        None
    } else if code_key(renames[0].from@) == code_key(code) {
        Some(0)
    } else {
        match rename_index(code, renames.drop_first()) {
            Some(i) => Some(i + 1),
            None => None,
        }
    }
}

/// The code after the renames: the rename's target where one applies and
/// differs from the code once both are trimmed.
pub open spec fn renamed_code(code: Seq<char>, renames: Seq<BudgetCodeRename>) -> Option<Seq<char>> {
    match rename_index(code, renames) {
        Some(i) => if trim(code) != trim(renames[i].to@) {
            Some(renames[i].to@)
        } else {
            None
        },
        None => None,
    }
}

/// Characters that a normalized key keeps.
pub open spec fn key_char(c: char) -> bool {
    !is_ws(c) && c != '-' && c != '_'
}

/// A key that ignores case, whitespace, hyphens and underscores.
pub open spec fn normalized_key(s: Seq<char>) -> Seq<char> {
    lower_ascii(s.filter(|c: char| key_char(c)))
}

/// The reserved code of the planned income budget, compared ignoring case and
/// surrounding whitespace.
pub open spec fn is_planned_income_code(code: Seq<char>) -> bool {
    eq_ignore_ascii_case(trim(code), "INC"@)
}

/// A budget is the planned income budget by its special kind or its code.
pub open spec fn planned_income_budget(special: Seq<char>, code: Seq<char>) -> bool {
    special == "planned-income"@ || is_planned_income_code(code)
}

/// A rule's budget code is orphaned when it is not empty and no budget has
/// its key.
pub open spec fn orphaned(code: Seq<char>, keys: Seq<Seq<char>>) -> bool {
    trim(code).len() > 0 && !keys.contains(normalized_key(trim(code)))
}

/// The renames read from budget forms: the non-deleted forms whose trimmed
/// code differs from the trimmed code they were loaded with, both non-empty.
pub open spec fn form_renames(forms: Seq<BudgetFormState>) -> Seq<(Seq<char>, Seq<char>)>
    decreases forms.len(),
{
    if forms.len() == 0 {
        Seq::empty()
    } else {
        let rest = form_renames(forms.drop_last());
        let f = forms.last();
        let from = trim(f.original_code@);
        let to = trim(f.budget.code@);
        if !f.deleted && from.len() > 0 && to.len() > 0 && from != to {
            rest.push((from, to))
        } else {
            rest
        }
    }
}

/// The normalized keys of the codes of the non-deleted budget forms, the
/// empty key left out.
pub open spec fn active_keys(forms: Seq<BudgetFormState>) -> Seq<Seq<char>>
    decreases forms.len(),
{
    if forms.len() == 0 {
        Seq::empty()
    } else {
        let rest = active_keys(forms.drop_last());
        let f = forms.last();
        let key = normalized_key(f.budget.code@);
        if !f.deleted && key.len() > 0 {
            rest.push(key)
        } else {
            rest
        }
    }
}

/// `str::to_ascii_lowercase` of the trimmed code.
pub fn budget_code_key(code: &str) -> (r: String)
    ensures
        r@ == code_key(code@),
{
    let cs = chars_of(code);
    let (a, b) = trim_bounds(cs.as_slice());
    let t = slice_range(cs.as_slice(), a, b);
    let l = lower_ascii_chars(t.as_slice());
    string_of(l.as_slice())
}

fn slice_range(cs: &[char], from: usize, to: usize) -> (r: Vec<char>)
    requires
        from <= to <= cs.len(),
    ensures
        r@ == cs@.subrange(from as int, to as int),
{
    let mut r: Vec<char> = Vec::new();
    let mut i = from;
    while i < to
        invariant
            from <= i <= to <= cs.len(),
            r@ == cs@.subrange(from as int, i as int),
        decreases to - i,
    {
        r.push(cs[i]);
        assert(cs@.subrange(from as int, i as int + 1) == cs@.subrange(from as int, i as int).push(
            cs@[i as int],
        ));
        i += 1;
    }
    r
}

/// The trimmed characters of a text.
pub fn trimmed_chars(s: &str) -> (r: Vec<char>)
    ensures
        r@ == trim(s@),
{
    let cs = chars_of(s);
    let (a, b) = trim_bounds(cs.as_slice());
    slice_range(cs.as_slice(), a, b)
}

/// Whether two codes have the same key.
fn same_code_key(a: &str, b: &str) -> (r: bool)
    ensures
        r == (code_key(a@) == code_key(b@)),
{
    let ta = trimmed_chars(a);
    let tb = trimmed_chars(b);
    let la = lower_ascii_chars(ta.as_slice());
    let lb = lower_ascii_chars(tb.as_slice());
    chars_equal(la.as_slice(), lb.as_slice())
}

/// The position of the first rename whose source has the code's key.
fn rename_position(code: &str, renames: &[BudgetCodeRename]) -> (r: Option<usize>)
    ensures
        match rename_index(code@, renames@) {
            Some(i) => 0 <= i < renames@.len() && r == Some(i as usize),
            None => r is None,
        },
{
    let key = budget_code_key(code);
    if key.as_str().is_empty() {
        return None;
    }
    let mut i: usize = 0;
    assert(renames@.skip(0) == renames@);
    while i < renames.len()
        invariant
            i <= renames.len(),
            code_key(code@).len() > 0,
            rename_index(code@, renames@) == match rename_index(code@, renames@.skip(i as int)) {
                Some(k) => Some(k + i),
                None => None,
            },
        decreases renames.len() - i,
    {
        assert(renames@.skip(i as int).drop_first() == renames@.skip(i as int + 1));
        assert(renames@.skip(i as int)[0] == renames@[i as int]);
        if same_code_key(renames[i].from.as_str(), code) {
            return Some(i);
        }
        i += 1;
    }
    assert(renames@.skip(i as int).len() == 0);
    None
}

/// The target of the first rename whose source has the code's key.
pub fn renamed_budget_code<'a>(code: &str, renames: &'a [BudgetCodeRename]) -> (r: Option<&'a str>)
    ensures
        match rename_index(code@, renames@) {
            Some(i) => 0 <= i < renames@.len() && r is Some && r->0@ == renames@[i].to@,
            None => r is None,
        },
{
    match rename_position(code, renames) {
        Some(i) => Some(renames[i].to.as_str()),
        None => None,
    }
}

/// A rule after the renames.
pub open spec fn rule_after_renames(rule: EditableRule, renames: Seq<BudgetCodeRename>) -> EditableRule {
    match rename_index(rule.budget_code@, renames) {
        Some(i) => if trim(rule.budget_code@) != trim(renames[i].to@) {
            EditableRule { budget_code: renames[i].to, ..rule }
        } else {
            rule
        },
        None => rule,
    }
}

/// Whether the renames change a rule.
pub open spec fn rule_renamed(rule: EditableRule, renames: Seq<BudgetCodeRename>) -> bool {
    renamed_code(rule.budget_code@, renames) is Some
}

/// Gives each rule the budget code that the renames give its code, each rule
/// renamed at most once (no chain of renames), and answers how many changed.
pub fn apply_budget_code_renames_to_rules(rules: &mut Vec<EditableRule>, renames: &[BudgetCodeRename]) -> (r:
    usize)
    ensures
        final(rules)@.len() == old(rules)@.len(),
        forall|i: int|
            0 <= i < old(rules)@.len() ==> #[trigger] final(rules)@[i] == rule_after_renames(
                old(rules)@[i],
                renames@,
            ),
        r == old(rules)@.filter(|rule: EditableRule| rule_renamed(rule, renames@)).len(),
{
    let ghost original = rules@;
    let mut updated: usize = 0;
    let mut i: usize = 0;
    while i < rules.len()
        invariant
            i <= rules.len() == original.len(),
            forall|k: int|
                0 <= k < i ==> #[trigger] rules@[k] == rule_after_renames(original[k], renames@),
            forall|k: int| i <= k < rules@.len() ==> #[trigger] rules@[k] == original[k],
            updated == original.take(i as int).filter(
                |rule: EditableRule| rule_renamed(rule, renames@),
            ).len(),
            updated <= i,
        decreases rules.len() - i,
    {
        proof {
            let t = original.take(i as int + 1);
            assert(t.drop_last() == original.take(i as int));
            assert(t.last() == original[i as int]);
            reveal_with_fuel(Seq::filter, 1);
        }
        let position = rename_position(rules[i].budget_code.as_str(), renames);
        if let Some(p) = position {
            let current = trim_str(rules[i].budget_code.as_str());
            let target = trim_str(renames[p].to.as_str());
            if !crate::text::str_equal(current.as_str(), target.as_str()) {
                let mut rule = rules[i].duplicate();
                rule.budget_code = renames[p].to.clone();
                rules.set(i, rule);
                updated += 1;
            }
        }
        i += 1;
    }
    assert(original.take(original.len() as int) == original);
    updated
}

/// `normalize_key`: the text without whitespace, hyphens and underscores,
/// ASCII lower-cased.
pub fn normalize_key(s: &str) -> (r: String)
    ensures
        r@ == normalized_key(s@),
{
    let cs = chars_of(s);
    let mut kept: Vec<char> = Vec::new();
    let mut i: usize = 0;
    while i < cs.len()
        invariant
            i <= cs.len(),
            cs@ == s@,
            kept@ == cs@.take(i as int).filter(|c: char| key_char(c)),
        decreases cs.len() - i,
    {
        proof {
            let t = cs@.take(i as int + 1);
            assert(t.drop_last() == cs@.take(i as int));
            assert(t.last() == cs@[i as int]);
            reveal_with_fuel(Seq::filter, 1);
        }
        let c = cs[i];
        if !is_whitespace(c) && c != '-' && c != '_' {
            kept.push(c);
        }
        i += 1;
    }
    assert(cs@.take(cs.len() as int) == cs@);
    let l = lower_ascii_chars(kept.as_slice());
    string_of(l.as_slice())
}

/// Whether a budget code is the reserved planned income code `INC`.
pub fn budget_code_is_planned_income(code: &str) -> (r: bool)
    ensures
        r == is_planned_income_code(code@),
{
    let t = trimmed_chars(code);
    let inc: [char; 3] = ['I', 'N', 'C'];
    assert(inc@ == "INC"@) by {
        reveal_strlit("INC");
    }
    chars_eq_ignore_ascii_case(t.as_slice(), &inc)
}

/// Whether a budget is the planned income budget, by its special kind or its
/// code.
pub fn is_planned_income_budget(special: &str, code: &str) -> (r: bool)
    ensures
        r == planned_income_budget(special@, code@),
{
    crate::text::str_equal(special, "planned-income") || budget_code_is_planned_income(code)
}

/// Whether a rule's budget code is orphaned: not empty and the key of no
/// active budget.
pub fn budget_code_is_orphaned(budget_code: &str, budget_codes: &[String]) -> (r: bool)
    ensures
        r == orphaned(budget_code@, budget_codes@.map_values(|s: String| s@)),
{
    let t = trim_str(budget_code);
    if t.as_str().is_empty() {
        return false;
    }
    let key = normalize_key(t.as_str());
    let ghost keys = budget_codes@.map_values(|s: String| s@);
    let mut i: usize = 0;
    while i < budget_codes.len()
        invariant
            i <= budget_codes.len(),
            keys == budget_codes@.map_values(|s: String| s@),
            key@ == normalized_key(trim(budget_code@)),
            trim(budget_code@).len() > 0,
            forall|k: int| 0 <= k < i ==> keys[k] != key@,
        decreases budget_codes.len() - i,
    {
        assert(keys[i as int] == budget_codes@[i as int]@);
        if crate::text::str_equal(budget_codes[i].as_str(), key.as_str()) {
            assert(keys[i as int] == budget_codes@[i as int]@);
            assert(keys[i as int] == key@);
            assert(keys.contains(key@));
            return false;
        }
        i += 1;
    }
    assert(!keys.contains(key@));
    true
}

/// The normalized keys of the codes of the non-deleted budget forms.
pub fn active_budget_code_keys(forms: &[BudgetFormState]) -> (r: Vec<String>)
    ensures
        r@.map_values(|s: String| s@) == active_keys(forms@),
{
    let mut keys: Vec<String> = Vec::new();
    let mut i: usize = 0;
    while i < forms.len()
        invariant
            i <= forms.len(),
            keys@.map_values(|s: String| s@) == active_keys(forms@.take(i as int)),
        decreases forms.len() - i,
    {
        proof {
            let t = forms@.take(i as int + 1);
            assert(t.drop_last() == forms@.take(i as int));
        }
        if !forms[i].deleted {
            let key = normalize_key(forms[i].budget.code.as_str());
            if !key.as_str().is_empty() {
                let ghost before = keys@;
                keys.push(key);
                assert(keys@.map_values(|s: String| s@) == before.map_values(|s: String| s@).push(
                    key@,
                ));
            }
        }
        i += 1;
    }
    assert(forms@.take(forms.len() as int) == forms@);
    keys
}

/// A rule form after cleaning orphaned rules: deleted and hidden where its
/// budget code is orphaned.
pub open spec fn after_orphan_cleanup(form: RuleFormState, keys: Seq<Seq<char>>) -> RuleFormState {
    if !form.deleted && orphaned(form.rule.budget_code@, keys) {
        RuleFormState { deleted: true, visible: false, rule: form.rule }
    } else {
        form
    }
}

pub open spec fn cleaned_as_orphan(form: RuleFormState, keys: Seq<Seq<char>>) -> bool {
    !form.deleted && orphaned(form.rule.budget_code@, keys)
}

/// Deletes the rules whose budget code no active budget has, and answers how
/// many.
pub fn mark_orphaned_rule_forms_deleted(rules: &mut Vec<RuleFormState>, budgets: &[BudgetFormState]) -> (r:
    usize)
    ensures
        final(rules)@.len() == old(rules)@.len(),
        forall|i: int|
            0 <= i < old(rules)@.len() ==> #[trigger] final(rules)@[i] == after_orphan_cleanup(
                old(rules)@[i],
                active_keys(budgets@),
            ),
        r == old(rules)@.filter(
            |form: RuleFormState| cleaned_as_orphan(form, active_keys(budgets@)),
        ).len(),
{
    let keys = active_budget_code_keys(budgets);
    let ghost ks = active_keys(budgets@);
    let ghost original = rules@;
    let mut removed: usize = 0;
    let mut i: usize = 0;
    while i < rules.len()
        invariant
            i <= rules.len() == original.len(),
            keys@.map_values(|s: String| s@) == ks,
            ks == active_keys(budgets@),
            forall|k: int| 0 <= k < i ==> #[trigger] rules@[k] == after_orphan_cleanup(original[k], ks),
            forall|k: int| i <= k < rules@.len() ==> #[trigger] rules@[k] == original[k],
            removed == original.take(i as int).filter(
                |form: RuleFormState| cleaned_as_orphan(form, ks),
            ).len(),
            removed <= i,
        decreases rules.len() - i,
    {
        proof {
            let t = original.take(i as int + 1);
            assert(t.drop_last() == original.take(i as int));
            assert(t.last() == original[i as int]);
            reveal_with_fuel(Seq::filter, 1);
        }
        if !rules[i].deleted && budget_code_is_orphaned(
            rules[i].rule.budget_code.as_str(),
            keys.as_slice(),
        ) {
            let rule = rules[i].rule.duplicate();
            rules.set(i, RuleFormState { deleted: true, visible: false, rule });
            removed += 1;
        }
        i += 1;
    }
    assert(original.take(original.len() as int) == original);
    removed
}

/// The renames made in the budget forms.
pub fn collect_budget_code_renames(forms: &[BudgetFormState]) -> (r: Vec<BudgetCodeRename>)
    ensures
        r@.map_values(|x: BudgetCodeRename| (x.from@, x.to@)) == form_renames(forms@),
{
    let mut renames: Vec<BudgetCodeRename> = Vec::new();
    let mut i: usize = 0;
    while i < forms.len()
        invariant
            i <= forms.len(),
            renames@.map_values(|x: BudgetCodeRename| (x.from@, x.to@)) == form_renames(
                forms@.take(i as int),
            ),
        decreases forms.len() - i,
    {
        proof {
            let t = forms@.take(i as int + 1);
            assert(t.drop_last() == forms@.take(i as int));
        }
        if !forms[i].deleted {
            let from = trim_str(forms[i].original_code.as_str());
            let to = trim_str(forms[i].budget.code.as_str());
            if !from.as_str().is_empty() && !to.as_str().is_empty() && !crate::text::str_equal(
                from.as_str(),
                to.as_str(),
            ) {
                let ghost before = renames@;
                renames.push(BudgetCodeRename { from, to });
                assert(renames@.map_values(|x: BudgetCodeRename| (x.from@, x.to@)) == before.map_values(
                    |x: BudgetCodeRename| (x.from@, x.to@),
                ).push((from@, to@)));
            }
        }
        i += 1;
    }
    assert(forms@.take(forms.len() as int) == forms@);
    renames
}

/// Renames the budget codes in the rule forms; answers how many changed.
pub fn apply_budget_code_renames_to_rule_forms(forms: &mut Vec<RuleFormState>, renames: &[BudgetCodeRename]) -> (r:
    usize)
    ensures
        final(forms)@.len() == old(forms)@.len(),
        forall|i: int|
            0 <= i < old(forms)@.len() ==> {
                let f = old(forms)@[i];
                let g = #[trigger] final(forms)@[i];
                &&& g.deleted == f.deleted
                &&& g.visible == f.visible
                &&& if !f.deleted && renamed_code(f.rule.budget_code@, renames@) is Some {
                    g.rule == EditableRule {
                        budget_code: g.rule.budget_code,
                        ..f.rule
                    } && g.rule.budget_code@ == trim(renamed_code(f.rule.budget_code@, renames@)->0)
                } else {
                    g == f
                }
            },
        r == old(forms)@.filter(
            |f: RuleFormState| !f.deleted && renamed_code(f.rule.budget_code@, renames@) is Some,
        ).len(),
{
    let ghost original = forms@;
    let mut updated: usize = 0;
    let mut i: usize = 0;
    while i < forms.len()
        invariant
            i <= forms.len() == original.len(),
            forall|k: int|
                0 <= k < i ==> {
                    let f = original[k];
                    let g = #[trigger] forms@[k];
                    &&& g.deleted == f.deleted
                    &&& g.visible == f.visible
                    &&& if !f.deleted && renamed_code(f.rule.budget_code@, renames@) is Some {
                        g.rule == EditableRule {
                            budget_code: g.rule.budget_code,
                            ..f.rule
                        } && g.rule.budget_code@ == trim(
                            renamed_code(f.rule.budget_code@, renames@)->0,
                        )
                    } else {
                        g == f
                    }
                },
            forall|k: int| i <= k < forms@.len() ==> #[trigger] forms@[k] == original[k],
            updated == original.take(i as int).filter(
                |f: RuleFormState| !f.deleted && renamed_code(f.rule.budget_code@, renames@) is Some,
            ).len(),
            updated <= i,
        decreases forms.len() - i,
    {
        proof {
            let t = original.take(i as int + 1);
            assert(t.drop_last() == original.take(i as int));
            assert(t.last() == original[i as int]);
            reveal_with_fuel(Seq::filter, 1);
        }
        if !forms[i].deleted {
            let renamed = renamed_budget_code(forms[i].rule.budget_code.as_str(), renames);
            if let Some(to) = renamed {
                let current = trim_str(forms[i].rule.budget_code.as_str());
                let target = trim_str(to);
                if !crate::text::str_equal(current.as_str(), target.as_str()) {
                    let mut rule = forms[i].rule.duplicate();
                    rule.budget_code = target;
                    let deleted = forms[i].deleted;
                    let visible = forms[i].visible;
                    forms.set(i, RuleFormState { deleted, visible, rule });
                    updated += 1;
                }
            }
        }
        i += 1;
    }
    assert(original.take(original.len() as int) == original);
    updated
}


/// Whitespace around a code does not change its key.
proof fn lemma_key_ignores_surrounding_whitespace(s: Seq<char>)
    ensures
        s.filter(|c: char| key_char(c)) == trim_start(s).filter(|c: char| key_char(c)),
        s.filter(|c: char| key_char(c)) == trim_end(s).filter(|c: char| key_char(c)),
    decreases s.len(),
{
    let p = |c: char| key_char(c);
    if s.len() > 0 {
        if is_ws(s[0]) {
            lemma_key_ignores_surrounding_whitespace(s.drop_first());
            assert(s =~= seq![s[0]] + s.drop_first());
            s.drop_first().lemma_filter_prepend(s[0], p);
        }
        if is_ws(s.last()) {
            lemma_key_ignores_surrounding_whitespace(s.drop_last());
            reveal_with_fuel(Seq::filter, 1);
        }
    }
}

/// A code and its trimmed text have the same key.
pub proof fn lemma_key_of_trimmed_code(s: Seq<char>)
    ensures
        normalized_key(trim(s)) == normalized_key(s),
{
    lemma_key_ignores_surrounding_whitespace(s);
    lemma_key_ignores_surrounding_whitespace(trim_start(s));
}

/// The active keys are the non-empty keys of the codes of the budget forms
/// that are not deleted: each such key is there, and each key there is one.
proof fn lemma_active_keys_members(forms: Seq<BudgetFormState>)
    ensures
        forall|i: int|
            0 <= i < forms.len() && !forms[i].deleted && normalized_key(
                #[trigger] forms[i].budget.code@,
            ).len() > 0 ==> active_keys(forms).contains(normalized_key(forms[i].budget.code@)),
        forall|key: Seq<char>|
            #[trigger] active_keys(forms).contains(key) ==> key.len() > 0 && exists|i: int|
                0 <= i < forms.len() && !forms[i].deleted && normalized_key(
                    #[trigger] forms[i].budget.code@,
                ) == key,
    decreases forms.len(),
{
    if forms.len() > 0 {
        let init = forms.drop_last();
        lemma_active_keys_members(init);
        let rest = active_keys(init);
        let ks = active_keys(forms);
        let n = forms.len() - 1;
        assert forall|i: int|
            0 <= i < forms.len() && !forms[i].deleted && normalized_key(
                #[trigger] forms[i].budget.code@,
            ).len() > 0 implies ks.contains(normalized_key(forms[i].budget.code@)) by {
            if i < n {
                assert(forms[i] == init[i]);
                let k = normalized_key(init[i].budget.code@);
                assert(rest.contains(k));
                let j = choose|j: int| 0 <= j < rest.len() && rest[j] == k;
                assert(ks[j] == rest[j]);
            } else {
                assert(ks[rest.len() as int] == normalized_key(forms[n].budget.code@));
            }
        }
        assert forall|key: Seq<char>| #[trigger] ks.contains(key) implies key.len() > 0 && exists|i: int|
            0 <= i < forms.len() && !forms[i].deleted && normalized_key(
                #[trigger] forms[i].budget.code@,
            ) == key by {
            let j = choose|j: int| 0 <= j < ks.len() && ks[j] == key;
            if j < rest.len() {
                assert(rest[j] == key);
                assert(rest.contains(key));
                let i = choose|i: int|
                    0 <= i < init.len() && !init[i].deleted && normalized_key(
                        #[trigger] init[i].budget.code@,
                    ) == key;
                assert(forms[i] == init[i]);
            } else {
                assert(forms[n] == forms.last());
            }
        }
    }
}

/// A rule's budget code is orphaned exactly when it is not blank and no
/// budget form that is not deleted has its key (ignoring case, whitespace,
/// hyphens and underscores), a code whose key is empty counting as orphaned.
/// So a rule whose code is that of a live budget, or differs from it only in
/// those, is never cleaned out.
pub proof fn lemma_orphaned_means_no_live_budget_has_the_key(
    code: Seq<char>,
    forms: Seq<BudgetFormState>,
)
    ensures
        orphaned(code, active_keys(forms)) <==> trim(code).len() > 0 && (normalized_key(code).len()
            == 0 || forall|i: int|
            0 <= i < forms.len() && !forms[i].deleted ==> normalized_key(
                #[trigger] forms[i].budget.code@,
            ) != normalized_key(code)),
{
    lemma_key_of_trimmed_code(code);
    lemma_active_keys_members(forms);
    let key = normalized_key(code);
    if trim(code).len() > 0 && key.len() > 0 {
        if !active_keys(forms).contains(key) {
            assert forall|i: int|
                0 <= i < forms.len() && !forms[i].deleted implies normalized_key(
                    #[trigger] forms[i].budget.code@,
                ) != key by {
                if normalized_key(forms[i].budget.code@) == key {
                    assert(active_keys(forms).contains(normalized_key(forms[i].budget.code@)));
                }
            }
        }
    }
}

} // verus!
