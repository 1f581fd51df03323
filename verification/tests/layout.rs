use std::collections::VecDeque;

use bank_files::layout::{
    alias_forms_queue, alias_sort_text, budget_forms_queue, effective_parent_dimension,
    management_dialog_content_dimension, management_dialog_content_dimensions,
    management_initial_tab, management_loaded_count, management_loaded_forms_summary,
    ordered_management_budgets, partition_planned_income_budget, ManagementLoadedForms,
    MANAGEMENT_DIALOG_FALLBACK_HEIGHT, MANAGEMENT_DIALOG_FALLBACK_WIDTH,
};
use bank_files::records::{EditableAlias, EditableBudget, EditableRule};

fn budget(code: &str) -> EditableBudget {
    EditableBudget {
        code: code.to_string(),
        parent_code: String::new(),
        special: String::new(),
        category: code.to_string(),
        monthly_budget: "0".to_string(),
        yearly_budget: String::new(),
        direction: "expense".to_string(),
        income_basis: "real".to_string(),
        notes: String::new(),
    }
}

fn special_budget(code: &str, special: &str) -> EditableBudget {
    EditableBudget {
        special: special.to_string(),
        monthly_budget: String::new(),
        ..budget(code)
    }
}

fn alias(canonical: &str, alias: &str) -> EditableAlias {
    EditableAlias {
        canonical: canonical.to_string(),
        alias: alias.to_string(),
    }
}

#[test]
fn planned_income_budget_is_only_split_when_configured() {
    let (planned, regular) = partition_planned_income_budget(vec![budget("FOOD")]);

    assert!(planned.is_none());
    assert_eq!(regular.len(), 1);
    assert_eq!(regular[0].code, "FOOD");
}

#[test]
fn configured_inc_budget_is_split_into_special_form_source() {
    let (planned, regular) = partition_planned_income_budget(vec![budget("FOOD"), budget("inc")]);

    assert_eq!(planned.map(|budget| budget.code), Some("inc".to_string()));
    assert_eq!(regular.len(), 1);
    assert_eq!(regular[0].code, "FOOD");
}

#[test]
fn layout_management_dialog_size_tracks_parent_with_inset() {
    assert_eq!(management_dialog_content_dimensions(1250, 900), (1202, 852));
}

#[test]
fn layout_management_dialog_size_uses_minimum_for_small_parent() {
    assert_eq!(management_dialog_content_dimensions(350, 380), (320, 360));
}

#[test]
fn layout_management_dialog_size_uses_fallback_before_parent_is_allocated() {
    assert_eq!(
        management_dialog_content_dimensions(0, 0),
        (MANAGEMENT_DIALOG_FALLBACK_WIDTH, MANAGEMENT_DIALOG_FALLBACK_HEIGHT)
    );
}

#[test]
fn sizing_management_dialog_size_tracks_parent_with_inset() {
    assert_eq!(management_dialog_content_dimensions(1250, 900), (1202, 852));
}

#[test]
fn sizing_management_dialog_size_uses_minimum_for_small_parent() {
    assert_eq!(management_dialog_content_dimensions(350, 380), (320, 360));
}

#[test]
fn sizing_management_dialog_size_uses_fallback_before_parent_is_allocated() {
    assert_eq!(
        management_dialog_content_dimensions(0, 0),
        (MANAGEMENT_DIALOG_FALLBACK_WIDTH, MANAGEMENT_DIALOG_FALLBACK_HEIGHT)
    );
}

#[test]
fn active_rules_initial_tab_opens_rules_with_active_filter() {
    assert_eq!(management_initial_tab("active-rules"), ("rules", Some("active")));
    assert_eq!(management_initial_tab("rules"), ("rules", None));
    assert_eq!(management_initial_tab("unknown"), ("budgets", None));
}

#[test]
fn budget_forms_queue_preserves_saved_order() {
    let queue = budget_forms_queue(vec![
        special_budget("FOOD", ""),
        special_budget("INC", "planned-income"),
        special_budget("OTHER", ""),
    ]);
    let codes = queue
        .iter()
        .map(|budget| budget.code.as_str())
        .collect::<Vec<_>>();

    assert_eq!(codes, vec!["FOOD", "INC", "OTHER"]);
}

#[test]
fn alias_forms_queue_sorts_by_bank_column_name() {
    let queue = alias_forms_queue(vec![
        alias("amount", "Bedrag"),
        alias("date", "Datum"),
        alias("description", "af bij"),
    ]);
    let aliases = queue
        .iter()
        .map(|alias| alias.alias.as_str())
        .collect::<Vec<_>>();

    assert_eq!(aliases, vec!["af bij", "Bedrag", "Datum"]);
}

#[test]
fn alias_queue_breaks_ties_by_field_then_name() {
    let queue = alias_forms_queue(vec![
        alias("date", "Date"),
        alias("amount", "date"),
        alias("amount", "DATE"),
        alias("amount", "a-b"),
    ]);
    let pairs = queue
        .iter()
        .map(|a| (a.canonical.as_str(), a.alias.as_str()))
        .collect::<Vec<_>>();
    assert_eq!(
        pairs,
        vec![("amount", "a-b"), ("amount", "DATE"), ("amount", "date"), ("date", "Date")]
    );
    assert_eq!(alias_sort_text(&alias("x", " Af_Bij-X ")), "afbijx");
}

#[test]
fn parent_dimension_falls_back_to_default() {
    assert_eq!(effective_parent_dimension(800, 1000), 800);
    assert_eq!(effective_parent_dimension(0, 1000), 1000);
    assert_eq!(effective_parent_dimension(-5, 1000), 1000);
    assert_eq!(management_dialog_content_dimension(49, 10, 99), 10);
    assert_eq!(management_dialog_content_dimension(i32::MIN, 10, 99), 99);
}

#[test]
fn planned_income_budget_is_ordered_first_and_later_copies_dropped() {
    let ordered = ordered_management_budgets(vec![
        budget("FOOD"),
        budget(" Inc "),
        budget("RENT"),
        budget("INC"),
    ]);
    let codes = ordered.iter().map(|b| b.code.as_str()).collect::<Vec<_>>();
    assert_eq!(codes, vec![" Inc ", "FOOD", "RENT"]);
    let plain = ordered_management_budgets(vec![budget("B"), budget("A")]);
    let codes = plain.iter().map(|b| b.code.as_str()).collect::<Vec<_>>();
    assert_eq!(codes, vec!["B", "A"]);
}

#[test]
fn loaded_forms_summary_counts_each_kind() {
    let loaded = ManagementLoadedForms {
        rules: Ok(VecDeque::from(vec![EditableRule::new_default(), EditableRule::new_default()])),
        budgets: Err("broken file".to_string()),
        aliases: Ok(VecDeque::new()),
    };
    assert_eq!(management_loaded_count(&loaded.budgets), "error");
    assert_eq!(management_loaded_forms_summary(&loaded), "rules=2; budgets=error; aliases=0");
}
