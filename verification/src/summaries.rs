//! The title and subtitle each form's collapsed card shows.
use vstd::prelude::*;

use crate::budget_values::{fixed_amount_text, fixed_budget_amount_text, first_percent, percent_position};
use crate::forms::{budget_code_is_planned_income, is_planned_income_code};
use crate::snapshot::int_text;
use crate::text::{chars_of, owned, push_str, trim, trim_str};

verus! {

/// A value as a summary shows it: trimmed, or the fallback where it is
/// blank.
pub open spec fn summary_text(value: Seq<char>, fallback: Seq<char>) -> Seq<char> {
    if trim(value).len() == 0 {
        fallback
    } else {
        trim(value)
    }
}

/// A value as a summary shows it.
pub fn entry_summary_text(value: &str, fallback: &str) -> (r: String)
    ensures
        r@ == summary_text(value@, fallback@),
{
    let t = trim_str(value);
    if t.as_str().is_empty() {
        owned(fallback)
    } else {
        t
    }
}

/// The title of a rule's card: its category and budget code.
pub open spec fn rule_title(category: Seq<char>, budget_code: Seq<char>) -> Seq<char> {
    summary_text(category, "Uncategorized"@) + " · "@ + summary_text(budget_code, "No budget code"@)
}

/// The subtitle of a rule's card: what it matches, its direction, its state,
/// priority and kind of match, and its amount range where it has one.
pub open spec fn rule_subtitle(
    field_label: Seq<char>,
    search: Seq<char>,
    direction_label: Seq<char>,
    active: bool,
    priority: int,
    is_regex: bool,
    amount_min: Seq<char>,
    amount_max: Seq<char>,
) -> Seq<char> {
    let state = if active {
        "active"@
    } else {
        "inactive"@
    };
    let kind = if is_regex {
        "regex"@
    } else {
        "text"@
    };
    let base = field_label + ": "@ + search + " · "@ + direction_label + " · "@ + state
        + " · priority "@ + int_text(priority) + " · "@ + kind;
    if trim(amount_min).len() > 0 || trim(amount_max).len() > 0 {
        base + " · amount "@ + trim(amount_min) + ".."@ + trim(amount_max)
    } else {
        base
    }
}

/// The title and subtitle of a rule's card, from the texts its widgets show.
pub fn rule_summary(
    category: &str,
    budget_code: &str,
    field_label: &str,
    search: &str,
    direction_label: &str,
    active: bool,
    priority: i32,
    is_regex: bool,
    amount_min: &str,
    amount_max: &str,
) -> (r: (String, String))
    ensures
        r.0@ == rule_title(category@, budget_code@),
        r.1@ == rule_subtitle(
            field_label@,
            search@,
            direction_label@,
            active,
            priority as int,
            is_regex,
            amount_min@,
            amount_max@,
        ),
{
    let mut title = entry_summary_text(category, "Uncategorized");
    push_str(&mut title, " · ");
    let code = entry_summary_text(budget_code, "No budget code");
    push_str(&mut title, code.as_str());

    let mut subtitle = owned(field_label);
    push_str(&mut subtitle, ": ");
    push_str(&mut subtitle, search);
    push_str(&mut subtitle, " · ");
    push_str(&mut subtitle, direction_label);
    push_str(&mut subtitle, " · ");
    push_str(&mut subtitle, if active { "active" } else { "inactive" });
    push_str(&mut subtitle, " · priority ");
    let p = crate::snapshot::i32_text(priority);
    push_str(&mut subtitle, p.as_str());
    push_str(&mut subtitle, " · ");
    push_str(&mut subtitle, if is_regex { "regex" } else { "text" });
    let min = trim_str(amount_min);
    let max = trim_str(amount_max);
    if !min.as_str().is_empty() || !max.as_str().is_empty() {
        push_str(&mut subtitle, " · amount ");
        push_str(&mut subtitle, min.as_str());
        push_str(&mut subtitle, "..");
        push_str(&mut subtitle, max.as_str());
    }
    (title, subtitle)
}

/// Whether a budget's figures are a percentage of income: either text has a
/// `%`.
pub open spec fn values_use_percentage(monthly: Seq<char>, yearly: Seq<char>) -> bool {
    first_percent(trim(monthly)) is Some || first_percent(trim(yearly)) is Some
}

/// Whether a budget's figures are a percentage of income.
pub fn budget_values_use_percentage(monthly: &str, yearly: &str) -> (r: bool)
    ensures
        r == values_use_percentage(monthly@, yearly@),
{
    let m = trim_str(monthly);
    let mc = chars_of(m.as_str());
    let y = trim_str(yearly);
    let yc = chars_of(y.as_str());
    percent_position(mc.as_slice()).is_some() || percent_position(yc.as_slice()).is_some()
}

/// The title of a budget's card: its category, after its code where codes
/// are shown.
pub open spec fn budget_title(code: Seq<char>, category: Seq<char>, show_code: bool) -> Seq<char> {
    if show_code {
        summary_text(code, "No code"@) + " · "@ + summary_text(category, "Uncategorized"@)
    } else {
        summary_text(category, "Uncategorized"@)
    }
}

/// A figure as a budget's card shows it: the fixed amount for the planned
/// income budget, else the text; `-` where blank.
pub open spec fn figure_text(value: Seq<char>, planned_income: bool) -> Seq<char> {
    if planned_income {
        summary_text(fixed_amount_text(value), "-"@)
    } else {
        summary_text(value, "-"@)
    }
}

/// The subtitle of a budget's card: its direction, its figures, and its
/// income basis where a figure is a percentage.
pub open spec fn budget_subtitle(
    code: Seq<char>,
    monthly: Seq<char>,
    yearly: Seq<char>,
    direction_label: Seq<char>,
    income_basis_label: Seq<char>,
) -> Seq<char> {
    let planned = is_planned_income_code(code);
    let base = direction_label + " · monthly "@ + figure_text(monthly, planned) + " · yearly "@
        + figure_text(yearly, planned);
    if !planned && values_use_percentage(monthly, yearly) {
        base + " · "@ + income_basis_label
    } else {
        base
    }
}

fn figure_string(value: &str, planned_income: bool) -> (r: String)
    ensures
        r@ == figure_text(value@, planned_income),
{
    if planned_income {
        let fixed = fixed_budget_amount_text(value);
        entry_summary_text(fixed.as_str(), "-")
    } else {
        entry_summary_text(value, "-")
    }
}

/// The title and subtitle of a budget's card, from the texts its widgets
/// show.
pub fn budget_summary(
    code: &str,
    category: &str,
    monthly: &str,
    yearly: &str,
    direction_label: &str,
    income_basis_label: &str,
    show_code: bool,
) -> (r: (String, String))
    ensures
        r.0@ == budget_title(code@, category@, show_code),
        r.1@ == budget_subtitle(code@, monthly@, yearly@, direction_label@, income_basis_label@),
{
    let planned = budget_code_is_planned_income(code);
    let title = if show_code {
        let mut t = entry_summary_text(code, "No code");
        push_str(&mut t, " · ");
        let c = entry_summary_text(category, "Uncategorized");
        push_str(&mut t, c.as_str());
        t
    } else {
        entry_summary_text(category, "Uncategorized")
    };
    let mut subtitle = owned(direction_label);
    push_str(&mut subtitle, " · monthly ");
    let m = figure_string(monthly, planned);
    push_str(&mut subtitle, m.as_str());
    push_str(&mut subtitle, " · yearly ");
    let y = figure_string(yearly, planned);
    push_str(&mut subtitle, y.as_str());
    if !planned && budget_values_use_percentage(monthly, yearly) {
        push_str(&mut subtitle, " · ");
        push_str(&mut subtitle, income_basis_label);
    }
    (title, subtitle)
}

/// The title and subtitle of a field name's card: the bank's name and the
/// field it stands for.
pub open spec fn alias_titles(canonical_label: Seq<char>, alias: Seq<char>) -> (Seq<char>, Seq<char>) {
    let a = summary_text(alias, "No bank column"@);
    (a + " · "@ + canonical_label, a + " -> "@ + canonical_label)
}

/// The title and subtitle of a field name's card.
pub fn alias_summary(canonical_label: &str, alias: &str) -> (r: (String, String))
    ensures
        (r.0@, r.1@) == alias_titles(canonical_label@, alias@),
{
    let a = entry_summary_text(alias, "No bank column");
    let mut title = a.clone();
    push_str(&mut title, " · ");
    push_str(&mut title, canonical_label);
    let mut subtitle = a;
    push_str(&mut subtitle, " -> ");
    push_str(&mut subtitle, canonical_label);
    (title, subtitle)
}

} // verus!
