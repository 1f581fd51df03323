use bank_files::budget_move::{
    budget_move_changes_direction, budget_move_code_is_eligible, move_budget_code_between_forms,
    move_budget_status_message, BudgetMoveTarget,
};
use bank_files::forms::{
    apply_budget_code_renames_to_rules, budget_code_is_orphaned, budget_code_is_planned_income,
    collect_budget_code_renames, mark_orphaned_rule_forms_deleted, normalize_key, AliasFormState,
    BudgetFormState, RuleFormState,
};
use bank_files::records::{BudgetCodeRename, EditableAlias, EditableBudget, EditableRule};
use bank_files::save::{
    apply_budget_code_renames_to_budget_parent_forms, mark_budget_forms_saved,
    prepare_management_save, save_status_message, SaveOutcome,
};
use bank_files::snapshot::{collect_alias_forms, collect_rule_forms};

fn rule(code: &str) -> EditableRule {
    EditableRule {
        priority: 0,
        active: true,
        field: "any".to_string(),
        search: "test".to_string(),
        is_regex: false,
        category: "Category".to_string(),
        budget_code: code.to_string(),
        direction: "expense".to_string(),
        amount_min: String::new(),
        amount_max: String::new(),
        notes: String::new(),
    }
}

fn move_options() -> Vec<BudgetMoveTarget> {
    vec![
        BudgetMoveTarget {
            code: "FOOD".to_string(),
            category: "Groceries".to_string(),
            direction: "expense".to_string(),
        },
        BudgetMoveTarget {
            code: "OTHER".to_string(),
            category: "Other".to_string(),
            direction: "expense".to_string(),
        },
        BudgetMoveTarget {
            code: "SALARY".to_string(),
            category: "Salary".to_string(),
            direction: "income".to_string(),
        },
    ]
}

fn budget_form(original: &str, code: &str, parent: &str, deleted: bool) -> BudgetFormState {
    BudgetFormState {
        deleted,
        visible: true,
        original_code: original.to_string(),
        auto_code: false,
        budget: EditableBudget {
            code: code.to_string(),
            parent_code: parent.to_string(),
            special: String::new(),
            category: code.to_string(),
            monthly_budget: String::new(),
            yearly_budget: String::new(),
            direction: "expense".to_string(),
            income_basis: "real".to_string(),
            notes: String::new(),
        },
    }
}

fn rule_form(code: &str, deleted: bool) -> RuleFormState {
    RuleFormState { deleted, visible: true, rule: rule(code) }
}

#[test]
fn orphan_detection_ignores_empty_and_known_budget_codes() {
    let budget_codes = vec![normalize_key("Food"), normalize_key("INC-OTHER")];

    assert!(!budget_code_is_orphaned("", &budget_codes));
    assert!(!budget_code_is_orphaned(" food ", &budget_codes));
    assert!(!budget_code_is_orphaned("inc other", &budget_codes));
    assert!(budget_code_is_orphaned("ghost", &budget_codes));
}

#[test]
fn planned_income_budget_code_is_reserved() {
    assert!(budget_code_is_planned_income("inc"));
    assert!(budget_code_is_planned_income(" INC "));
    assert!(!budget_code_is_planned_income("INC-OTHER"));
}

#[test]
fn budget_code_renames_update_rule_codes_case_insensitively() {
    let renames = vec![BudgetCodeRename {
        from: "FOOD".to_string(),
        to: "GROCERY".to_string(),
    }];
    let mut rules = vec![rule("food"), rule("RENT"), rule("")];

    let updated = apply_budget_code_renames_to_rules(&mut rules, &renames);

    assert_eq!(updated, 1);
    assert_eq!(rules[0].budget_code, "GROCERY");
    assert_eq!(rules[1].budget_code, "RENT");
    assert_eq!(rules[2].budget_code, "");
}

#[test]
fn budget_code_renames_apply_direct_mapping_without_chaining() {
    let renames = vec![
        BudgetCodeRename {
            from: "A".to_string(),
            to: "B".to_string(),
        },
        BudgetCodeRename {
            from: "B".to_string(),
            to: "C".to_string(),
        },
    ];
    let mut rules = vec![rule("A"), rule("B")];

    let updated = apply_budget_code_renames_to_rules(&mut rules, &renames);

    assert_eq!(updated, 2);
    assert_eq!(rules[0].budget_code, "B");
    assert_eq!(rules[1].budget_code, "C");
}

#[test]
fn actions_simple_budget_move_detects_direction_changes() {
    let options = move_options();
    assert!(!budget_move_changes_direction(&options, "FOOD", "OTHER"));
    assert!(budget_move_changes_direction(&options, "FOOD", "SALARY"));
}

#[test]
fn tests_simple_budget_move_detects_direction_changes() {
    let options = move_options();
    assert!(!budget_move_changes_direction(&options, "FOOD", "OTHER"));
    assert!(budget_move_changes_direction(&options, "FOOD", "SALARY"));
}

#[test]
fn budget_move_keeps_planned_income_available() {
    assert!(budget_move_code_is_eligible("INC", &[]));
    assert!(!budget_move_code_is_eligible(
        "INC",
        &[BudgetMoveTarget {
            code: "inc".to_string(),
            category: "Income".to_string(),
            direction: "income".to_string(),
        }]
    ));
}

#[test]
fn moving_a_budget_code_renames_its_rules_and_removes_the_source() {
    let mut rules = vec![rule_form("FOOD", false), rule_form("RENT", false), rule_form("food", true)];
    let mut budgets = vec![budget_form("FOOD", "FOOD", "", false), budget_form("MEALS", "MEALS", "", false)];
    let result = move_budget_code_between_forms(&mut rules, &mut budgets, "FOOD", "MEALS", true);
    assert_eq!(result.source_budget_count, 1);
    assert_eq!(result.budgets_removed, 1);
    assert_eq!(rules[0].rule.budget_code, "MEALS");
    assert_eq!(rules[1].rule.budget_code, "RENT");
    assert!(budgets[0].deleted);
    assert!(!budgets[1].deleted);
    let message = move_budget_status_message("FOOD", "MEALS", result);
    assert!(message.contains("FOOD"));
    assert!(message.contains("MEALS"));
}

#[test]
fn orphaned_rules_are_deleted_and_counted() {
    let budgets = vec![budget_form("FOOD", "FOOD", "", false), budget_form("OLD", "OLD", "", true)];
    let mut rules = vec![rule_form(" food ", false), rule_form("OLD", false), rule_form("", false), rule_form("X", true)];
    assert_eq!(mark_orphaned_rule_forms_deleted(&mut rules, &budgets), 1);
    assert!(!rules[0].deleted);
    assert!(rules[1].deleted);
    assert!(!rules[1].visible);
    assert!(!rules[2].deleted);
}

#[test]
fn parent_codes_follow_renames_and_deletions() {
    let mut forms = vec![
        budget_form("FOOD", "GROCERY", "", false),
        budget_form("OLD", "OLD", "", true),
        budget_form("LUNCH", "LUNCH", "food", false),
        budget_form("SNACK", "SNACK", " old ", false),
        budget_form("TAXI", "TAXI", "CAR", false),
        budget_form("GONE", "GONE", "FOOD", true),
    ];
    let renames = vec![BudgetCodeRename { from: "FOOD".to_string(), to: " GROCERY ".to_string() }];
    assert_eq!(apply_budget_code_renames_to_budget_parent_forms(&mut forms, &renames), 2);
    assert_eq!(forms[2].budget.parent_code, "GROCERY");
    assert_eq!(forms[3].budget.parent_code, "");
    assert_eq!(forms[4].budget.parent_code, "CAR");
    assert_eq!(forms[5].budget.parent_code, "FOOD");
}

#[test]
fn a_save_carries_renames_over_to_rules() {
    let mut rule_forms = vec![rule_form("food", false), rule_form("FOOD", true), rule_form("RENT", false)];
    let budget_forms = vec![budget_form(" FOOD", "GROCERY ", "", false), budget_form("RENT", "RENT", "", false)];
    let plan = prepare_management_save(&mut rule_forms, &budget_forms, &[]);
    assert_eq!(plan.renames.len(), 1);
    assert_eq!(plan.renames[0].from, "FOOD");
    assert_eq!(plan.renames[0].to, "GROCERY");
    assert_eq!(plan.renamed_rule_count, 1);
    assert_eq!(plan.rules.len(), 2);
    assert_eq!(plan.rules[0].budget_code, "GROCERY");
    assert_eq!(plan.rules[1].budget_code, "RENT");
    assert_eq!(rule_forms[1].rule.budget_code, "FOOD");
    assert!(plan.aliases.is_empty());
    assert_eq!(
        save_status_message(plan.renamed_rule_count, &SaveOutcome::Saved),
        "Changes saved. 1 rule(s) updated for renamed budget codes."
    );
}

#[test]
fn save_messages_report_each_outcome() {
    assert_eq!(save_status_message(0, &SaveOutcome::Saved), "Changes saved.");
    assert_eq!(
        save_status_message(2, &SaveOutcome::Failed("disk full".to_string())),
        "Save failed: disk full"
    );
    assert_eq!(
        save_status_message(0, &SaveOutcome::Canceled),
        "Save canceled: the background task stopped unexpectedly."
    );
}

#[test]
fn saved_forms_remember_their_codes() {
    let mut forms = vec![
        budget_form("FOOD", " GROCERY ", "", false),
        budget_form("OLD", "NEW", "", true),
    ];
    forms[0].auto_code = true;
    assert_eq!(collect_budget_code_renames(&forms).len(), 1);
    mark_budget_forms_saved(&mut forms);
    assert_eq!(forms[0].original_code, "GROCERY");
    assert!(!forms[0].auto_code);
    assert_eq!(forms[1].original_code, "OLD");
    assert!(collect_budget_code_renames(&forms).is_empty());
}

#[test]
fn collected_rules_and_aliases_are_trimmed() {
    let mut raw = rule(" FOOD ");
    raw.search = " coffee\n".to_string();
    raw.amount_min = " 5 ".to_string();
    raw.notes = " note ".to_string();
    let rules = collect_rule_forms(&[RuleFormState { deleted: false, visible: false, rule: raw }]);
    assert_eq!(rules[0].search, "coffee");
    assert_eq!(rules[0].amount_min, "5");
    assert_eq!(rules[0].notes, "note");
    assert_eq!(rules[0].budget_code, " FOOD ");
    let aliases = collect_alias_forms(&[AliasFormState {
        deleted: false,
        visible: true,
        alias: EditableAlias { canonical: "date".to_string(), alias: " Datum ".to_string() },
    }]);
    assert_eq!(aliases[0].alias, "Datum");
}
