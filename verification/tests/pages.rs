use bank_files::chips::{
    add_search_chip, fallback_search_chip, normalize_search_chip, remove_search_chip,
    same_search_chip,
};
use bank_files::filters::{
    alias_form_search_text, apply_alias_form_filter, apply_budget_form_filter,
    apply_rule_form_filter, budget_form_search_text, management_filter_status,
    rule_filter_is_active_only, rule_form_search_text,
};
use bank_files::forms::{AliasFormState, BudgetFormState, RuleFormState};
use bank_files::records::{EditableAlias, EditableBudget, EditableRule};
use bank_files::snapshot::{
    aliases_management_snapshot, budgets_management_snapshot, collect_rule_forms,
    compact_management_cell, export_file_name_with_stamp, management_export_file_name,
    management_page_text, rules_management_snapshot, strings, visible_collected_budgets,
};
use bank_files::summaries::{alias_summary, budget_summary, entry_summary_text, rule_summary};

fn budget(code: &str) -> EditableBudget {
    EditableBudget {
        code: code.to_string(),
        parent_code: String::new(),
        special: String::new(),
        category: format!("{code} category"),
        monthly_budget: "10".to_string(),
        yearly_budget: String::new(),
        direction: "expense".to_string(),
        income_basis: "real".to_string(),
        notes: "a\tb".to_string(),
    }
}

fn budget_form(code: &str, deleted: bool, visible: bool) -> BudgetFormState {
    BudgetFormState { deleted, visible, original_code: code.to_string(), auto_code: false, budget: budget(code) }
}

#[test]
fn page_text_joins_lines_and_compacts_cells() {
    let columns = strings(&["A", "B"]);
    let rows = vec![
        vec!["x\ty".to_string(), "line\r\nbreak".to_string()],
        vec![String::new(), "z".to_string()],
    ];
    let text = management_page_text("Title", "Sub", &columns, &rows);
    assert_eq!(text, "Title\nSub\n\nA\tB\nx y\tline  break\n\tz");
    assert_eq!(compact_management_cell("a\tb\nc"), "a b c");
    assert_eq!(management_page_text("T", "S", &[], &[]), "T\nS\n\n");
}

#[test]
fn rules_snapshot_lists_visible_rules() {
    let forms = vec![
        RuleFormState {
            deleted: false,
            visible: true,
            rule: EditableRule { priority: -3, search: "coffee".to_string(), ..EditableRule::new_default() },
        },
        RuleFormState { deleted: false, visible: false, rule: EditableRule::new_default() },
        RuleFormState { deleted: true, visible: true, rule: EditableRule::new_default() },
    ];
    let snapshot = rules_management_snapshot(&forms, "csv".to_string());
    assert_eq!(snapshot.key, "rules");
    assert_eq!(snapshot.columns.len(), 11);
    assert_eq!(snapshot.rows.len(), 1);
    assert_eq!(snapshot.rows[0][0], "true");
    assert_eq!(snapshot.rows[0][1], "-3");
    assert_eq!(snapshot.rows[0][3], "coffee");
    assert_eq!(snapshot.csv, "csv");
    assert!(snapshot.text.starts_with("Rules\nCategorization rules visible in the management window.\n\nActive\tPriority"));
    assert_eq!(collect_rule_forms(&forms).len(), 2);
}

#[test]
fn budgets_snapshot_pairs_collected_budgets_with_visible_forms() {
    let forms = vec![
        budget_form("A", false, true),
        budget_form("B", true, true),
        budget_form("C", false, false),
        budget_form("D", false, true),
    ];
    let collected = vec![budget("A2"), budget("C2"), budget("D2")];
    let visible = visible_collected_budgets(&forms, &collected);
    assert_eq!(visible.iter().map(|b| b.code.as_str()).collect::<Vec<_>>(), vec!["A2", "D2"]);
    let short = visible_collected_budgets(&forms, &collected[..1]);
    assert_eq!(short.len(), 1);
    let snapshot = budgets_management_snapshot(&forms, &collected, String::new());
    assert_eq!(snapshot.rows.len(), 2);
    assert_eq!(snapshot.rows[1][1], "D2 category");
    assert!(snapshot.text.ends_with("D2\tD2 category\t10\t\texpense\treal\ta b"));
}

#[test]
fn aliases_snapshot_lists_visible_field_names() {
    let forms = vec![
        AliasFormState { deleted: false, visible: true, alias: EditableAlias { canonical: "date".to_string(), alias: "Datum".to_string() } },
        AliasFormState { deleted: false, visible: false, alias: EditableAlias::new_default() },
    ];
    let snapshot = aliases_management_snapshot(&forms, String::new());
    assert_eq!(snapshot.title, "Normalize");
    assert_eq!(snapshot.rows, vec![vec!["date".to_string(), "Datum".to_string()]]);
}

#[test]
fn export_file_names_carry_the_page_and_a_stamp() {
    assert_eq!(
        export_file_name_with_stamp("rules", "20240102-030405"),
        "bank_files_management_rules_20240102-030405.csv"
    );
    let name = management_export_file_name("budgets");
    assert!(name.starts_with("bank_files_management_budgets_"));
    assert!(name.ends_with(".csv"));
    assert_eq!(name.len(), "bank_files_management_budgets_".len() + 15 + 4);
    let stamp: Vec<char> = name["bank_files_management_budgets_".len()..name.len() - 4].chars().collect();
    assert_eq!(stamp[8], '-');
    for (i, c) in stamp.iter().enumerate() {
        if i != 8 {
            assert!(c.is_ascii_digit());
        }
    }
}

#[test]
fn search_chips_are_normalized_and_kept_distinct() {
    assert_eq!(fallback_search_chip("  "), Vec::<String>::new());
    assert_eq!(fallback_search_chip(" Coffee  Shop "), vec!["Coffee  Shop".to_string()]);
    assert_eq!(normalize_search_chip("  Coffee \t Shop\n"), "Coffee Shop");
    assert!(same_search_chip("CAFÉ", "café"));
    assert!(!same_search_chip("cafe", "café"));

    let mut chips = vec!["Coffee".to_string()];
    assert!(!add_search_chip(&mut chips, "  COFFEE "));
    assert!(!add_search_chip(&mut chips, " \t "));
    assert!(add_search_chip(&mut chips, " Tea   house "));
    assert_eq!(chips, vec!["Coffee".to_string(), "Tea house".to_string()]);
    assert!(!remove_search_chip(&mut chips, 2));
    assert!(remove_search_chip(&mut chips, 0));
    assert_eq!(chips, vec!["Tea house".to_string()]);
}

#[test]
fn card_summaries_show_fallbacks_for_blank_values() {
    assert_eq!(entry_summary_text("  ", "-"), "-");
    assert_eq!(entry_summary_text(" x ", "-"), "x");
    let (title, subtitle) = rule_summary(
        "", "FOOD", "Counterparty", "coffee", "Expense", true, 5, false, " 1 ", "",
    );
    assert_eq!(title, "Uncategorized · FOOD");
    assert_eq!(subtitle, "Counterparty: coffee · Expense · active · priority 5 · text · amount 1..");
    let (_, subtitle) = rule_summary("C", "", "Any", "x", "Income", false, -1, true, "", " ");
    assert_eq!(subtitle, "Any: x · Income · inactive · priority -1 · regex");

    let (title, subtitle) = budget_summary("FOOD", "Groceries", "10%", "", "Expense", "Real income", true);
    assert_eq!(title, "FOOD · Groceries");
    assert_eq!(subtitle, "Expense · monthly 10% · yearly - · Real income");
    let (title, subtitle) = budget_summary("inc", "", "5% of income", "12000", "Income", "Real income", false);
    assert_eq!(title, "Uncategorized");
    assert_eq!(subtitle, "Income · monthly 5 · yearly 12000");

    assert_eq!(
        alias_summary("Date", " "),
        ("No bank column · Date".to_string(), "No bank column -> Date".to_string())
    );
}

#[test]
fn forms_are_searched_in_their_values() {
    let rule_form = RuleFormState {
        deleted: true,
        visible: true,
        rule: EditableRule { priority: 7, search: "coffee".to_string(), ..EditableRule::new_default() },
    };
    assert_eq!(
        rule_form_search_text(&rule_form),
        "active 7 any coffee text   any    deleted"
    );
    let budget = budget_form("FOOD", false, true);
    assert_eq!(
        budget_form_search_text(&budget),
        "FOOD FOOD category 10  expense real a\tb "
    );
    let alias = AliasFormState { deleted: false, visible: true, alias: EditableAlias::new_default() };
    assert_eq!(alias_form_search_text(&alias), "date ");

    let mut rules = vec![rule_form, RuleFormState { deleted: false, visible: false, rule: EditableRule::new_default() }];
    assert_eq!(apply_rule_form_filter(&mut rules, "coffee", &[true, true]), 1);
    assert!(!rules[0].visible);
    assert!(rules[1].visible);
    let mut budgets = vec![budget_form("A", false, true), budget_form("B", false, true)];
    assert_eq!(apply_budget_form_filter(&mut budgets, &[false, true]), 1);
    assert!(!budgets[0].visible && budgets[1].visible);
    let mut aliases = vec![alias];
    assert_eq!(apply_alias_form_filter(&mut aliases, &[false]), 0);
    assert!(!aliases[0].visible);
}

#[test]
fn deleted_budgets_stay_visible_where_they_match() {
    let mut budgets = vec![budget_form("A", true, false), budget_form("B", true, true)];
    assert_eq!(apply_budget_form_filter(&mut budgets, &[true, false]), 1);
    assert!(budgets[0].visible);
    assert!(!budgets[1].visible);
}

#[test]
fn the_active_query_shows_active_rules_only() {
    assert!(rule_filter_is_active_only(" Active "));
    assert!(!rule_filter_is_active_only("inactive"));
    let inactive = EditableRule { active: false, ..EditableRule::new_default() };
    let mut rules = vec![
        RuleFormState { deleted: false, visible: true, rule: EditableRule::new_default() },
        RuleFormState { deleted: false, visible: true, rule: inactive },
        RuleFormState { deleted: true, visible: true, rule: EditableRule::new_default() },
    ];
    assert_eq!(apply_rule_form_filter(&mut rules, "ACTIVE", &[false, true, true]), 1);
    assert!(rules[0].visible);
    assert!(!rules[1].visible);
    assert!(!rules[2].visible);
    assert_eq!(apply_rule_form_filter(&mut rules, "", &[true, true, true]), 2);
    assert!(rules[1].visible);
}

#[test]
fn filter_status_counts_visible_forms() {
    assert_eq!(management_filter_status("  ", 1, 2, 3), "Changes are only applied after Save.");
    assert_eq!(
        management_filter_status("food", 1, 2, 0),
        "Filter active: 1 rule(s), 2 budget(s), 0 field name(s) visible."
    );
}

#[test]
fn ascii_chips_compare_ignoring_case() {
    assert!(same_search_chip("Coffee Shop", "COFFEE shop"));
    assert!(!same_search_chip("Coffee", "Tea"));
}
