//! What a page of the management window exports: the records its visible
//! forms hold, as a table and as plain text, and the name of the file.
use vstd::prelude::*;

use crate::forms::{AliasFormState, BudgetFormState, RuleFormState};
use crate::records::{EditableAlias, EditableBudget, EditableRule};
use crate::text::{chars_of, decimal, decimal_string, join, owned, push_char, push_str, trim, trim_str};

verus! {

/// The texts of some strings.
pub open spec fn texts(v: Seq<String>) -> Seq<Seq<char>> {
    v.map_values(|s: String| s@)
}

/// Owned copies of some string slices.
pub fn strings(values: &[&str]) -> (r: Vec<String>)
    ensures
        texts(r@) == values@.map_values(|s: &str| s@),
{
    let mut r: Vec<String> = Vec::new();
    let mut i: usize = 0;
    while i < values.len()
        invariant
            i <= values.len(),
            texts(r@) == values@.take(i as int).map_values(|s: &str| s@),
        decreases values.len() - i,
    {
        let ghost before = r@;
        r.push(owned(values[i]));
        assert(texts(r@) == texts(before).push(values@[i as int]@));
        assert(values@.take(i as int + 1) == values@.take(i as int).push(values@[i as int]));
        i += 1;
    }
    assert(values@.take(values.len() as int) == values@);
    r
}

/// A character of a cell: tabs and line breaks become spaces.
pub open spec fn compact_char(c: char) -> char {
    if c == '\t' || c == '\n' || c == '\r' {
        ' '
    } else {
        c
    }
}

/// A cell as one line: its tabs and line breaks replaced by spaces.
pub open spec fn compact_cell(value: Seq<char>) -> Seq<char> {
    value.map_values(|c: char| compact_char(c))
}

/// A cell as one line.
pub fn compact_management_cell(value: &str) -> (r: String)
    ensures
        r@ == compact_cell(value@),
{
    let cs = chars_of(value);
    let mut r = String::new();
    let mut i: usize = 0;
    while i < cs.len()
        invariant
            i <= cs.len(),
            cs@ == value@,
            r@ == compact_cell(cs@.take(i as int)),
        decreases cs.len() - i,
    {
        let c = cs[i];
        let d = if c == '\t' || c == '\n' || c == '\r' {
            ' '
        } else {
            c
        };
        push_char(&mut r, d);
        assert(cs@.take(i as int + 1) == cs@.take(i as int).push(c));
        assert(compact_cell(cs@.take(i as int + 1)) == compact_cell(cs@.take(i as int)).push(d));
        i += 1;
    }
    assert(cs@.take(cs.len() as int) == cs@);
    r
}

/// Joins texts with a separator.
fn join_strings(parts: &[String], sep: &str) -> (r: String)
    ensures
        r@ == join(texts(parts@), sep@),
{
    let mut r = String::new();
    let mut i: usize = 0;
    while i < parts.len()
        invariant
            i <= parts.len(),
            r@ == join(texts(parts@.take(i as int)), sep@),
        decreases parts.len() - i,
    {
        proof {
            assert(texts(parts@.take(i as int + 1)).drop_last() == texts(parts@.take(i as int)));
            assert(texts(parts@.take(i as int + 1)).last() == parts@[i as int]@);
        }
        if i > 0 {
            push_str(&mut r, sep);
        }
        push_str(&mut r, parts[i].as_str());
        proof {
            if i == 0 {
                assert(r@ == parts@[0]@);
            }
        }
        i += 1;
    }
    assert(parts@.take(parts.len() as int) == parts@);
    r
}

/// A row of cells as one line: the compacted cells joined by tabs.
pub open spec fn row_line(row: Seq<Seq<char>>) -> Seq<char> {
    join(row.map_values(|c: Seq<char>| compact_cell(c)), "\t"@)
}

/// The plain text of a page: its title, subtitle, a blank line, the column
/// names joined by tabs, and a line for each row, all joined by line breaks.
pub open spec fn page_text(
    title: Seq<char>,
    subtitle: Seq<char>,
    columns: Seq<Seq<char>>,
    rows: Seq<Seq<Seq<char>>>,
) -> Seq<char> {
    join(
        seq![title, subtitle, Seq::empty(), join(columns, "\t"@)] + rows.map_values(
            |row: Seq<Seq<char>>| row_line(row),
        ),
        "\n"@,
    )
}

/// The texts of rows of strings.
pub open spec fn row_texts(rows: Seq<Vec<String>>) -> Seq<Seq<Seq<char>>> {
    rows.map_values(|row: Vec<String>| texts(row@))
}

/// The line of one row.
fn row_line_string(row: &Vec<String>) -> (r: String)
    ensures
        r@ == row_line(texts(row@)),
{
    let mut cells: Vec<String> = Vec::new();
    let mut i: usize = 0;
    while i < row.len()
        invariant
            i <= row.len(),
            texts(cells@) == texts(row@).take(i as int).map_values(|c: Seq<char>| compact_cell(c)),
        decreases row.len() - i,
    {
        let ghost before = cells@;
        cells.push(compact_management_cell(row[i].as_str()));
        assert(texts(cells@) == texts(before).push(compact_cell(row@[i as int]@)));
        assert(texts(row@).take(i as int + 1) == texts(row@).take(i as int).push(row@[i as int]@));
        i += 1;
    }
    assert(texts(row@).take(row.len() as int) == texts(row@));
    join_strings(cells.as_slice(), "\t")
}

/// The plain text of a page.
pub fn management_page_text(
    title: &str,
    subtitle: &str,
    columns: &[String],
    rows: &[Vec<String>],
) -> (r: String)
    ensures
        r@ == page_text(title@, subtitle@, texts(columns@), row_texts(rows@)),
{
    let mut lines: Vec<String> = Vec::new();
    lines.push(owned(title));
    lines.push(owned(subtitle));
    lines.push(String::new());
    lines.push(join_strings(columns, "\t"));
    let ghost head = texts(lines@);
    assert(head == seq![title@, subtitle@, Seq::<char>::empty(), join(texts(columns@), "\t"@)]);
    let mut i: usize = 0;
    while i < rows.len()
        invariant
            i <= rows.len(),
            texts(lines@) == head + row_texts(rows@).take(i as int).map_values(
                |row: Seq<Seq<char>>| row_line(row),
            ),
        decreases rows.len() - i,
    {
        let ghost before = lines@;
        lines.push(row_line_string(&rows[i]));
        assert(texts(lines@) == texts(before).push(row_line(texts(rows@[i as int]@))));
        assert(row_texts(rows@).take(i as int + 1) == row_texts(rows@).take(i as int).push(
            texts(rows@[i as int]@),
        ));
        i += 1;
    }
    assert(row_texts(rows@).take(rows.len() as int) == row_texts(rows@));
    join_strings(lines.as_slice(), "\n")
}

/// What a page exports.
pub struct ManagementPageSnapshot {
    pub key: String,
    pub title: String,
    pub subtitle: String,
    pub columns: Vec<String>,
    pub rows: Vec<Vec<String>>,
    pub text: String,
    pub csv: String,
}

/// Whether a snapshot holds the given parts and the plain text made of them.
pub open spec fn is_snapshot(
    s: ManagementPageSnapshot,
    key: Seq<char>,
    title: Seq<char>,
    subtitle: Seq<char>,
    columns: Seq<Seq<char>>,
    rows: Seq<Seq<Seq<char>>>,
    csv: Seq<char>,
) -> bool {
    &&& s.key@ == key
    &&& s.title@ == title
    &&& s.subtitle@ == subtitle
    &&& texts(s.columns@) == columns
    &&& row_texts(s.rows@) == rows
    &&& s.text@ == page_text(title, subtitle, columns, rows)
    &&& s.csv@ == csv
}

/// A page's export from its parts.
pub fn management_page_snapshot(
    key: &str,
    title: &str,
    subtitle: &str,
    columns: Vec<String>,
    rows: Vec<Vec<String>>,
    csv: String,
) -> (r: ManagementPageSnapshot)
    ensures
        is_snapshot(r, key@, title@, subtitle@, texts(columns@), row_texts(rows@), csv@),
{
    let text = management_page_text(title, subtitle, columns.as_slice(), rows.as_slice());
    ManagementPageSnapshot {
        key: owned(key),
        title: owned(title),
        subtitle: owned(subtitle),
        columns,
        rows,
        text,
        csv,
    }
}

/// The rule a form saves: its values, with the search text, the amounts and
/// the notes trimmed.
pub open spec fn is_collected_rule(form_rule: EditableRule, r: EditableRule) -> bool {
    &&& r == EditableRule {
        search: r.search,
        amount_min: r.amount_min,
        amount_max: r.amount_max,
        notes: r.notes,
        ..form_rule
    }
    &&& r.search@ == trim(form_rule.search@)
    &&& r.amount_min@ == trim(form_rule.amount_min@)
    &&& r.amount_max@ == trim(form_rule.amount_max@)
    &&& r.notes@ == trim(form_rule.notes@)
}

/// Whether rules are the ones collected from the forms' values, one each,
/// in order.
pub open spec fn rules_collected_from(values: Seq<EditableRule>, rules: Seq<EditableRule>) -> bool {
    &&& rules.len() == values.len()
    &&& forall|i: int| 0 <= i < values.len() ==> is_collected_rule(values[i], #[trigger] rules[i])
}

/// The values of the rule forms that are not deleted, in order.
pub open spec fn live_rules(forms: Seq<RuleFormState>) -> Seq<EditableRule> {
    forms.filter(|f: RuleFormState| !f.deleted).map_values(|f: RuleFormState| f.rule)
}

/// The values of the rule forms that are neither deleted nor hidden, in
/// order.
pub open spec fn shown_rules(forms: Seq<RuleFormState>) -> Seq<EditableRule> {
    forms.filter(|f: RuleFormState| !f.deleted && f.visible).map_values(|f: RuleFormState| f.rule)
}

/// The field name a form saves: its field, and the bank's name trimmed.
pub open spec fn is_collected_alias(form_alias: EditableAlias, a: EditableAlias) -> bool {
    a.canonical == form_alias.canonical && a.alias@ == trim(form_alias.alias@)
}

/// Whether field names are the ones collected from the forms' values.
pub open spec fn aliases_collected_from(values: Seq<EditableAlias>, aliases: Seq<EditableAlias>) -> bool {
    &&& aliases.len() == values.len()
    &&& forall|i: int|
        0 <= i < values.len() ==> is_collected_alias(values[i], #[trigger] aliases[i])
}

/// The values of the field name forms that are not deleted, in order.
pub open spec fn live_aliases(forms: Seq<AliasFormState>) -> Seq<EditableAlias> {
    forms.filter(|f: AliasFormState| !f.deleted).map_values(|f: AliasFormState| f.alias)
}

/// The values of the field name forms that are neither deleted nor hidden.
pub open spec fn shown_aliases(forms: Seq<AliasFormState>) -> Seq<EditableAlias> {
    forms.filter(|f: AliasFormState| !f.deleted && f.visible).map_values(
        |f: AliasFormState| f.alias,
    )
}

/// The rule a form's values save.
fn collect_rule(rule: &EditableRule) -> (r: EditableRule)
    ensures
        is_collected_rule(*rule, r),
{
    EditableRule {
        priority: rule.priority,
        active: rule.active,
        field: rule.field.clone(),
        search: trim_str(rule.search.as_str()),
        is_regex: rule.is_regex,
        category: rule.category.clone(),
        budget_code: rule.budget_code.clone(),
        direction: rule.direction.clone(),
        amount_min: trim_str(rule.amount_min.as_str()),
        amount_max: trim_str(rule.amount_max.as_str()),
        notes: trim_str(rule.notes.as_str()),
    }
}

/// The field name a form's values save.
fn collect_alias(alias: &EditableAlias) -> (r: EditableAlias)
    ensures
        is_collected_alias(*alias, r),
{
    EditableAlias { canonical: alias.canonical.clone(), alias: trim_str(alias.alias.as_str()) }
}

/// Collects the rules of the forms that pass a test on being deleted and
/// shown.
fn collect_rules_where(forms: &[RuleFormState], only_shown: bool) -> (r: Vec<EditableRule>)
    ensures
        rules_collected_from(
            if only_shown {
                shown_rules(forms@)
            } else {
                live_rules(forms@)
            },
            r@,
        ),
{
    let ghost values = if only_shown {
        shown_rules(forms@)
    } else {
        live_rules(forms@)
    };
    let mut r: Vec<EditableRule> = Vec::new();
    let mut i: usize = 0;
    while i < forms.len()
        invariant
            i <= forms.len(),
            values == if only_shown {
                shown_rules(forms@)
            } else {
                live_rules(forms@)
            },
            rules_collected_from(
                if only_shown {
                    shown_rules(forms@.take(i as int))
                } else {
                    live_rules(forms@.take(i as int))
                },
                r@,
            ),
        decreases forms.len() - i,
    {
        let ghost before = r@;
        proof {
            let t = forms@.take(i as int + 1);
            assert(t.drop_last() == forms@.take(i as int));
            assert(t.last() == forms@[i as int]);
            reveal_with_fuel(Seq::filter, 1);
        }
        if !forms[i].deleted && (!only_shown || forms[i].visible) {
            r.push(collect_rule(&forms[i].rule));
            proof {
                let t = forms@.take(i as int + 1);
                let p = forms@.take(i as int);
                assert(shown_rules(t) == shown_rules(p).push(forms@[i as int].rule) || !only_shown);
                assert(live_rules(t) == live_rules(p).push(forms@[i as int].rule) || only_shown);
            }
        }
        i += 1;
    }
    assert(forms@.take(forms.len() as int) == forms@);
    r
}

/// Collects the field names of the forms that pass a test on being deleted
/// and shown.
fn collect_aliases_where(forms: &[AliasFormState], only_shown: bool) -> (r: Vec<EditableAlias>)
    ensures
        aliases_collected_from(
            if only_shown {
                shown_aliases(forms@)
            } else {
                live_aliases(forms@)
            },
            r@,
        ),
{
    let mut r: Vec<EditableAlias> = Vec::new();
    let mut i: usize = 0;
    while i < forms.len()
        invariant
            i <= forms.len(),
            aliases_collected_from(
                if only_shown {
                    shown_aliases(forms@.take(i as int))
                } else {
                    live_aliases(forms@.take(i as int))
                },
                r@,
            ),
        decreases forms.len() - i,
    {
        proof {
            let t = forms@.take(i as int + 1);
            assert(t.drop_last() == forms@.take(i as int));
            assert(t.last() == forms@[i as int]);
            reveal_with_fuel(Seq::filter, 1);
        }
        if !forms[i].deleted && (!only_shown || forms[i].visible) {
            r.push(collect_alias(&forms[i].alias));
            proof {
                let t = forms@.take(i as int + 1);
                let p = forms@.take(i as int);
                assert(shown_aliases(t) == shown_aliases(p).push(forms@[i as int].alias) || !only_shown);
                assert(live_aliases(t) == live_aliases(p).push(forms@[i as int].alias) || only_shown);
            }
        }
        i += 1;
    }
    assert(forms@.take(forms.len() as int) == forms@);
    r
}

/// The rules to save: those of the forms that are not deleted.
pub fn collect_rule_forms(forms: &[RuleFormState]) -> (r: Vec<EditableRule>)
    ensures
        rules_collected_from(live_rules(forms@), r@),
{
    collect_rules_where(forms, false)
}

/// The rules the rules page shows: those of the forms that are neither
/// deleted nor hidden.
pub fn visible_collected_rules(forms: &[RuleFormState]) -> (r: Vec<EditableRule>)
    ensures
        rules_collected_from(shown_rules(forms@), r@),
{
    collect_rules_where(forms, true)
}

/// The field names to save: those of the forms that are not deleted.
pub fn collect_alias_forms(forms: &[AliasFormState]) -> (r: Vec<EditableAlias>)
    ensures
        aliases_collected_from(live_aliases(forms@), r@),
{
    collect_aliases_where(forms, false)
}

/// The field names the aliases page shows.
pub fn visible_collected_aliases(forms: &[AliasFormState]) -> (r: Vec<EditableAlias>)
    ensures
        aliases_collected_from(shown_aliases(forms@), r@),
{
    collect_aliases_where(forms, true)
}

/// `true` or `false`, as `bool`'s `Display` writes it.
pub open spec fn bool_text(b: bool) -> Seq<char> {
    if b {
        "true"@
    } else {
        "false"@
    }
}

/// An integer as `Display` writes it: a minus sign before the digits of a
/// negative one.
pub open spec fn int_text(i: int) -> Seq<char> {
    if i < 0 {
        seq!['-'] + decimal((-i) as nat)
    } else {
        decimal(i as nat)
    }
}

fn bool_string(b: bool) -> (r: String)
    ensures
        r@ == bool_text(b),
{
    if b {
        owned("true")
    } else {
        owned("false")
    }
}

pub fn i32_text(i: i32) -> (r: String)
    ensures
        r@ == int_text(i as int),
{
    if i < 0 {
        let magnitude: u64 = (-(i as i64)) as u64;
        let mut r = owned("-");
        proof {
            reveal_strlit("-");
        }
        let digits = decimal_string(magnitude);
        push_str(&mut r, digits.as_str());
        r
    } else {
        decimal_string(i as u64)
    }
}

/// The column names of the rules page.
pub open spec fn rule_columns() -> Seq<Seq<char>> {
    seq![
        "Active"@,
        "Priority"@,
        "Field"@,
        "Search"@,
        "Regex"@,
        "Category"@,
        "Budget Code"@,
        "Direction"@,
        "Min"@,
        "Max"@,
        "Notes"@,
    ]
}

/// The cells of a rule's row.
pub open spec fn rule_row(r: EditableRule) -> Seq<Seq<char>> {
    seq![
        bool_text(r.active),
        int_text(r.priority as int),
        r.field@,
        r.search@,
        bool_text(r.is_regex),
        r.category@,
        r.budget_code@,
        r.direction@,
        r.amount_min@,
        r.amount_max@,
        r.notes@,
    ]
}

fn rule_cells(r: &EditableRule) -> (v: Vec<String>)
    ensures
        texts(v@) == rule_row(*r),
{
    let v = vec![
        bool_string(r.active),
        i32_text(r.priority),
        r.field.clone(),
        r.search.clone(),
        bool_string(r.is_regex),
        r.category.clone(),
        r.budget_code.clone(),
        r.direction.clone(),
        r.amount_min.clone(),
        r.amount_max.clone(),
        r.notes.clone(),
    ];
    assert(texts(v@) == rule_row(*r));
    v
}

/// The cells of the row of the rule a form's values save.
pub open spec fn collected_rule_row(r: EditableRule) -> Seq<Seq<char>> {
    seq![
        bool_text(r.active),
        int_text(r.priority as int),
        r.field@,
        trim(r.search@),
        bool_text(r.is_regex),
        r.category@,
        r.budget_code@,
        r.direction@,
        trim(r.amount_min@),
        trim(r.amount_max@),
        trim(r.notes@),
    ]
}

/// The column names of the budgets page.
pub open spec fn budget_columns() -> Seq<Seq<char>> {
    seq![
        "Code"@,
        "Category"@,
        "Monthly"@,
        "Yearly"@,
        "Direction"@,
        "Income basis"@,
        "Notes"@,
    ]
}

/// The cells of a budget's row.
pub open spec fn budget_row(b: EditableBudget) -> Seq<Seq<char>> {
    seq![
        b.code@,
        b.category@,
        b.monthly_budget@,
        b.yearly_budget@,
        b.direction@,
        b.income_basis@,
        b.notes@,
    ]
}

fn budget_cells(b: &EditableBudget) -> (v: Vec<String>)
    ensures
        texts(v@) == budget_row(*b),
{
    let v = vec![
        b.code.clone(),
        b.category.clone(),
        b.monthly_budget.clone(),
        b.yearly_budget.clone(),
        b.direction.clone(),
        b.income_basis.clone(),
        b.notes.clone(),
    ];
    assert(texts(v@) == budget_row(*b));
    v
}

/// The column names of the field names page.
pub open spec fn alias_columns() -> Seq<Seq<char>> {
    seq!["Canonical"@, "Alias"@]
}

/// The cells of a field name's row.
pub open spec fn alias_row(a: EditableAlias) -> Seq<Seq<char>> {
    seq![a.canonical@, a.alias@]
}

/// The cells of the row of the field name a form's values save.
pub open spec fn collected_alias_row(a: EditableAlias) -> Seq<Seq<char>> {
    seq![a.canonical@, trim(a.alias@)]
}

fn alias_cells(a: &EditableAlias) -> (v: Vec<String>)
    ensures
        texts(v@) == alias_row(*a),
{
    let v = vec![a.canonical.clone(), a.alias.clone()];
    assert(texts(v@) == alias_row(*a));
    v
}

/// The rules page's export: the visible rules, one row each.
pub fn rules_management_snapshot(forms: &[RuleFormState], csv: String) -> (r: ManagementPageSnapshot)
    ensures
        is_snapshot(
            r,
            "rules"@,
            "Rules"@,
            "Categorization rules visible in the management window."@,
            rule_columns(),
            shown_rules(forms@).map_values(|x: EditableRule| collected_rule_row(x)),
            csv@,
        ),
{
    let rules = visible_collected_rules(forms);
    let columns: Vec<String> = vec![
        owned("Active"),
        owned("Priority"),
        owned("Field"),
        owned("Search"),
        owned("Regex"),
        owned("Category"),
        owned("Budget Code"),
        owned("Direction"),
        owned("Min"),
        owned("Max"),
        owned("Notes"),
    ];
    assert(texts(columns@) == rule_columns());
    let ghost shown = shown_rules(forms@);
    let mut rows: Vec<Vec<String>> = Vec::new();
    let mut i: usize = 0;
    while i < rules.len()
        invariant
            i <= rules.len(),
            rules_collected_from(shown, rules@),
            row_texts(rows@) == shown.take(i as int).map_values(
                |x: EditableRule| collected_rule_row(x),
            ),
        decreases rules.len() - i,
    {
        let ghost before = rows@;
        rows.push(rule_cells(&rules[i]));
        assert(is_collected_rule(shown[i as int], rules@[i as int]));
        assert(rule_row(rules@[i as int]) == collected_rule_row(shown[i as int]));
        assert(row_texts(rows@) == row_texts(before).push(collected_rule_row(shown[i as int])));
        assert(shown.take(i as int + 1) == shown.take(i as int).push(shown[i as int]));
        i += 1;
    }
    assert(shown.take(shown.len() as int) == shown);
    management_page_snapshot(
        "rules",
        "Rules",
        "Categorization rules visible in the management window.",
        columns,
        rows,
        csv,
    )
}

/// The visibility of the budget forms that are not deleted, in order.
pub open spec fn live_visibility(forms: Seq<BudgetFormState>) -> Seq<bool> {
    forms.filter(|f: BudgetFormState| !f.deleted).map_values(|f: BudgetFormState| f.visible)
}

/// The items paired with visibility flags, in order, that are visible; an
/// item or a flag without a partner is left out.
pub open spec fn zipped_visible(flags: Seq<bool>, items: Seq<EditableBudget>) -> Seq<EditableBudget>
    decreases items.len(),
{
    let n = if flags.len() < items.len() {
        flags.len()
    } else {
        items.len()
    };
    if n == 0 {
        Seq::empty()
    } else {
        let rest = zipped_visible(flags.take(n - 1), items.take(n - 1));
        if flags[n - 1] {
            rest.push(items[n - 1])
        } else {
            rest
        }
    }
}

/// The budgets the budgets page shows: of the budgets collected from the
/// forms that are not deleted (in the same order), those whose form is
/// visible.
pub fn visible_collected_budgets(forms: &[BudgetFormState], collected: &[EditableBudget]) -> (r: Vec<
    EditableBudget,
>)
    ensures
        r@ == zipped_visible(live_visibility(forms@), collected@),
{
    let mut flags: Vec<bool> = Vec::new();
    let mut i: usize = 0;
    while i < forms.len()
        invariant
            i <= forms.len(),
            flags@ == live_visibility(forms@.take(i as int)),
        decreases forms.len() - i,
    {
        proof {
            let t = forms@.take(i as int + 1);
            assert(t.drop_last() == forms@.take(i as int));
            assert(t.last() == forms@[i as int]);
            reveal_with_fuel(Seq::filter, 1);
        }
        if !forms[i].deleted {
            flags.push(forms[i].visible);
        }
        i += 1;
    }
    assert(forms@.take(forms.len() as int) == forms@);
    let n = if flags.len() < collected.len() {
        flags.len()
    } else {
        collected.len()
    };
    let mut r: Vec<EditableBudget> = Vec::new();
    let mut k: usize = 0;
    while k < n
        invariant
            k <= n,
            n <= flags.len(),
            n <= collected.len(),
            n == flags.len() || n == collected.len(),
            r@ == zipped_visible(flags@.take(k as int), collected@.take(k as int)),
        decreases n - k,
    {
        proof {
            assert(flags@.take(k as int + 1).take(k as int) == flags@.take(k as int));
            assert(collected@.take(k as int + 1).take(k as int) == collected@.take(k as int));
        }
        if flags[k] {
            r.push(collected[k].duplicate());
        }
        k += 1;
    }
    proof {
        let fl = flags@;
        let co = collected@;
        if n > 0 {
            assert(fl.take(n as int).take(n - 1) == fl.take(n - 1));
            assert(co.take(n as int).take(n - 1) == co.take(n - 1));
            assert(zipped_visible(fl.take(n as int), co.take(n as int)) == zipped_visible(fl, co));
        }
    }
    r
}

/// The budgets page's export: the visible budgets, one row each.
pub fn budgets_management_snapshot(
    forms: &[BudgetFormState],
    collected: &[EditableBudget],
    csv: String,
) -> (r: ManagementPageSnapshot)
    ensures
        is_snapshot(
            r,
            "budgets"@,
            "Budgets"@,
            "Budgets visible in the management window."@,
            budget_columns(),
            zipped_visible(live_visibility(forms@), collected@).map_values(
                |x: EditableBudget| budget_row(x),
            ),
            csv@,
        ),
{
    let budgets = visible_collected_budgets(forms, collected);
    let columns: Vec<String> = vec![
        owned("Code"),
        owned("Category"),
        owned("Monthly"),
        owned("Yearly"),
        owned("Direction"),
        owned("Income basis"),
        owned("Notes"),
    ];
    assert(texts(columns@) == budget_columns());
    let mut rows: Vec<Vec<String>> = Vec::new();
    let mut i: usize = 0;
    while i < budgets.len()
        invariant
            i <= budgets.len(),
            row_texts(rows@) == budgets@.take(i as int).map_values(
                |x: EditableBudget| budget_row(x),
            ),
        decreases budgets.len() - i,
    {
        let ghost before = rows@;
        rows.push(budget_cells(&budgets[i]));
        assert(row_texts(rows@) == row_texts(before).push(budget_row(budgets@[i as int])));
        assert(budgets@.take(i as int + 1) == budgets@.take(i as int).push(budgets@[i as int]));
        i += 1;
    }
    assert(budgets@.take(budgets.len() as int) == budgets@);
    management_page_snapshot(
        "budgets",
        "Budgets",
        "Budgets visible in the management window.",
        columns,
        rows,
        csv,
    )
}

/// The field names page's export: the visible field names, one row each.
pub fn aliases_management_snapshot(forms: &[AliasFormState], csv: String) -> (r:
    ManagementPageSnapshot)
    ensures
        is_snapshot(
            r,
            "aliases"@,
            "Normalize"@,
            "Field names visible in the management window."@,
            alias_columns(),
            shown_aliases(forms@).map_values(|x: EditableAlias| collected_alias_row(x)),
            csv@,
        ),
{
    let aliases = visible_collected_aliases(forms);
    let columns: Vec<String> = vec![
        owned("Canonical"),
        owned("Alias"),
    ];
    assert(texts(columns@) == alias_columns());
    let ghost shown = shown_aliases(forms@);
    let mut rows: Vec<Vec<String>> = Vec::new();
    let mut i: usize = 0;
    while i < aliases.len()
        invariant
            i <= aliases.len(),
            aliases_collected_from(shown, aliases@),
            row_texts(rows@) == shown.take(i as int).map_values(
                |x: EditableAlias| collected_alias_row(x),
            ),
        decreases aliases.len() - i,
    {
        let ghost before = rows@;
        rows.push(alias_cells(&aliases[i]));
        assert(is_collected_alias(shown[i as int], aliases@[i as int]));
        assert(alias_row(aliases@[i as int]) == collected_alias_row(shown[i as int]));
        assert(row_texts(rows@) == row_texts(before).push(collected_alias_row(shown[i as int])));
        assert(shown.take(i as int + 1) == shown.take(i as int).push(shown[i as int]));
        i += 1;
    }
    assert(shown.take(shown.len() as int) == shown);
    management_page_snapshot(
        "aliases",
        "Normalize",
        "Field names visible in the management window.",
        columns,
        rows,
        csv,
    )
}

/// The name of a page's export file, for the page's key and a time stamp.
pub open spec fn export_file_name(key: Seq<char>, stamp: Seq<char>) -> Seq<char> {
    "bank_files_management_"@ + key + "_"@ + stamp + ".csv"@
}

/// The name of a page's export file.
pub fn export_file_name_with_stamp(key: &str, stamp: &str) -> (r: String)
    ensures
        r@ == export_file_name(key@, stamp@),
{
    let mut name = owned("bank_files_management_");
    push_str(&mut name, key);
    push_str(&mut name, "_");
    push_str(&mut name, stamp);
    push_str(&mut name, ".csv");
    name
}

/// The pattern of the time stamp in an export file's name.
pub open spec fn stamp_pattern() -> Seq<char> {
    "%Y%m%d-%H%M%S"@
}

/// Whether a character is an ASCII digit.
pub open spec fn is_ascii_digit(c: char) -> bool {
    '0' <= c && c <= '9'
}

/// The shape of a `%Y%m%d-%H%M%S` stamp: the year as at least four digits,
/// led by a sign only outside the years 0 to 9999; then two digits each of
/// month and day, a hyphen, and two digits each of hour, minute and second.
pub open spec fn stamp_shape(s: Seq<char>) -> bool {
    let n = s.len();
    &&& n >= 15
    &&& s[n - 7] == '-'
    &&& is_ascii_digit(s[0]) || s[0] == '+' || s[0] == '-'
    &&& forall|i: int| 0 < i < n && i != n - 7 ==> is_ascii_digit(#[trigger] s[i])
}

/// `chrono::Local::now`, written with `DateTime::format` in the given
/// pattern, which is the stamp pattern (a pattern that `chrono` rejects would
/// make the formatting panic). Claimed: the text has the shape of a stamp,
/// as the crate writes each field (`%Y` zero-padded to four digits, with a
/// sign outside the years 0 to 9999; the others two digits each). Which
/// digits they are depends on the clock and the machine's time zone, and is
/// not stated.
#[verifier::external_body]
fn local_now_text(pattern: &str) -> (r: String)
    requires
        pattern@ == stamp_pattern(),
    ensures
        stamp_shape(r@),
{
    chrono::Local::now().format(pattern).to_string()
}

/// The name of a page's export file, stamped with the local time as
/// `YYYYmmdd-HHMMSS`.
pub fn management_export_file_name(key: &str) -> (r: String)
    ensures
        exists|stamp: Seq<char>| r@ == export_file_name(key@, stamp) && stamp_shape(stamp),
{
    let stamp = local_now_text("%Y%m%d-%H%M%S");
    export_file_name_with_stamp(key, stamp.as_str())
}


/// Each cell of an exported rule sits under the column that names it, both
/// in the row of a rule and in the row of the rule a form saves: the
/// category under "Category", the budget code under "Budget Code", and so on
/// for every column.
pub proof fn lemma_rule_cells_sit_under_their_columns(r: EditableRule)
    ensures
        rule_columns().len() == rule_row(r).len(),
        rule_columns().len() == collected_rule_row(r).len(),
        forall|j: int|
            0 <= j < rule_columns().len() ==> {
                let name = #[trigger] rule_columns()[j];
                let cell = rule_row(r)[j];
                let saved = collected_rule_row(r)[j];
                &&& name == "Active"@ ==> cell == bool_text(r.active) && saved == cell
                &&& name == "Priority"@ ==> cell == int_text(r.priority as int) && saved == cell
                &&& name == "Field"@ ==> cell == r.field@ && saved == cell
                &&& name == "Search"@ ==> cell == r.search@ && saved == trim(r.search@)
                &&& name == "Regex"@ ==> cell == bool_text(r.is_regex) && saved == cell
                &&& name == "Category"@ ==> cell == r.category@ && saved == cell
                &&& name == "Budget Code"@ ==> cell == r.budget_code@ && saved == cell
                &&& name == "Direction"@ ==> cell == r.direction@ && saved == cell
                &&& name == "Min"@ ==> cell == r.amount_min@ && saved == trim(r.amount_min@)
                &&& name == "Max"@ ==> cell == r.amount_max@ && saved == trim(r.amount_max@)
                &&& name == "Notes"@ ==> cell == r.notes@ && saved == trim(r.notes@)
            },
{
    reveal_strlit("Active");
    reveal_strlit("Priority");
    reveal_strlit("Field");
    reveal_strlit("Search");
    reveal_strlit("Regex");
    reveal_strlit("Category");
    reveal_strlit("Budget Code");
    reveal_strlit("Direction");
    reveal_strlit("Min");
    reveal_strlit("Max");
    reveal_strlit("Notes");
    let names = rule_columns();
    assert forall|j: int, k: int| 0 <= j < names.len() && 0 <= k < names.len() && j != k implies #[trigger] names[j]
        != #[trigger] names[k] by {
        assert(names[j].len() != names[k].len() || names[j][0] != names[k][0] || names[j][1]
            != names[k][1]);
    }
}

/// Each cell of an exported budget sits under the column that names it.
pub proof fn lemma_budget_cells_sit_under_their_columns(b: EditableBudget)
    ensures
        budget_columns().len() == budget_row(b).len(),
        forall|j: int|
            0 <= j < budget_columns().len() ==> {
                let name = #[trigger] budget_columns()[j];
                let cell = budget_row(b)[j];
                &&& name == "Code"@ ==> cell == b.code@
                &&& name == "Category"@ ==> cell == b.category@
                &&& name == "Monthly"@ ==> cell == b.monthly_budget@
                &&& name == "Yearly"@ ==> cell == b.yearly_budget@
                &&& name == "Direction"@ ==> cell == b.direction@
                &&& name == "Income basis"@ ==> cell == b.income_basis@
                &&& name == "Notes"@ ==> cell == b.notes@
            },
{
    reveal_strlit("Code");
    reveal_strlit("Category");
    reveal_strlit("Monthly");
    reveal_strlit("Yearly");
    reveal_strlit("Direction");
    reveal_strlit("Income basis");
    reveal_strlit("Notes");
    let names = budget_columns();
    assert forall|j: int, k: int| 0 <= j < names.len() && 0 <= k < names.len() && j != k implies #[trigger] names[j]
        != #[trigger] names[k] by {
        assert(names[j].len() != names[k].len() || names[j][0] != names[k][0]);
    }
}


/// Each cell of an exported field name sits under the column that names it,
/// in the row of a field name and in the row of the one a form saves.
pub proof fn lemma_alias_cells_sit_under_their_columns(a: EditableAlias)
    ensures
        alias_columns().len() == alias_row(a).len(),
        alias_columns().len() == collected_alias_row(a).len(),
        forall|j: int|
            0 <= j < alias_columns().len() ==> {
                let name = #[trigger] alias_columns()[j];
                &&& name == "Canonical"@ ==> alias_row(a)[j] == a.canonical@
                    && collected_alias_row(a)[j] == a.canonical@
                &&& name == "Alias"@ ==> alias_row(a)[j] == a.alias@ && collected_alias_row(a)[j]
                    == trim(a.alias@)
            },
{
    reveal_strlit("Canonical");
    reveal_strlit("Alias");
    assert(alias_columns()[0] != alias_columns()[1]) by {
        assert(alias_columns()[0][0] != alias_columns()[1][0]);
    }
}

} // verus!
