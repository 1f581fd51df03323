use bank_files::budget_values::{
    converted_budget_amount, BudgetAmount, BudgetAmountConversion,
};
use bank_files::decimal::DecimalValue;
use bank_files::new_records::{
    new_alias_problem, new_budget_problem, new_record_added_message, new_rule_problem,
    NewRecordKind, NewRecordProblem,
};
use bank_files::progress::{
    annual_budget_previous_state, annual_budget_progress_detail, budget_progress_detail,
    progress_detail_message, BudgetProgress, ProgressKind, ProgressState,
};

fn d(mantissa: i128, scale: u32) -> DecimalValue {
    DecimalValue { mantissa, scale }
}

#[test]
fn parsed_amounts_convert_without_reparsing() {
    assert_eq!(
        converted_budget_amount(BudgetAmount::Fixed(d(125, 1)), BudgetAmountConversion::MonthlyToYearly),
        Some(BudgetAmount::Fixed(d(1500, 1)))
    );
    assert_eq!(
        converted_budget_amount(BudgetAmount::Fixed(d(24, 0)), BudgetAmountConversion::YearlyToMonthly),
        Some(BudgetAmount::Fixed(d(2, 0)))
    );
    assert_eq!(
        converted_budget_amount(BudgetAmount::IncomePercent(d(5, 0)), BudgetAmountConversion::MonthlyToYearly),
        Some(BudgetAmount::IncomePercent(d(5, 0)))
    );
    assert_eq!(
        converted_budget_amount(
            BudgetAmount::Fixed(d(79228162514264337593543950335, 0)),
            BudgetAmountConversion::MonthlyToYearly
        ),
        None
    );
}

#[test]
fn new_record_dialogs_check_required_fields() {
    assert_eq!(new_rule_problem("", ""), Some(NewRecordProblem::MissingSearch));
    assert_eq!(new_rule_problem("coffee", ""), Some(NewRecordProblem::MissingCategory));
    assert_eq!(new_rule_problem("coffee", "Food"), None);
    assert_eq!(new_budget_problem("", "FOOD", true), Some(NewRecordProblem::MissingCategory));
    assert_eq!(new_budget_problem("Food", "", true), Some(NewRecordProblem::MissingBudgetCode));
    assert_eq!(new_budget_problem("Food", "", false), None);
    assert_eq!(new_alias_problem("  "), Some(NewRecordProblem::MissingBankColumn));
    assert_eq!(new_alias_problem(" Datum "), None);
    assert_eq!(NewRecordProblem::MissingCategory.message(), "Enter a category first.");
    assert_eq!(NewRecordProblem::MissingBudgetCode.message(), "Enter a budget code first.");
    assert_eq!(
        new_record_added_message(NewRecordKind::Budget, false),
        "New category added. Press Save to keep it."
    );
    assert_eq!(
        new_record_added_message(NewRecordKind::Budget, true),
        "New budget added. Press Save to keep it."
    );
}

#[test]
fn progress_details_name_what_is_left_or_overspent() {
    assert_eq!(
        budget_progress_detail(d(0, 0), d(1250, 2), d(-1250, 2)),
        BudgetProgress { kind: ProgressKind::WithoutBudget, amount: d(1250, 2), state: ProgressState::Error }
    );
    assert_eq!(
        budget_progress_detail(d(100, 0), d(1205, 1), d(-205, 1)),
        BudgetProgress { kind: ProgressKind::OverBudget, amount: d(205, 1), state: ProgressState::Error }
    );
    assert_eq!(
        annual_budget_progress_detail(d(100, 0), d(40, 0), d(60, 0)),
        BudgetProgress { kind: ProgressKind::Available, amount: d(60, 0), state: ProgressState::Normal }
    );
    assert_eq!(
        budget_progress_detail(d(-5, 0), d(0, 0), d(0, 3)).kind,
        ProgressKind::Available
    );
    assert_eq!(progress_detail_message(ProgressKind::OverBudget, false, "€ 2"), "€ 2 over budget");
    assert_eq!(
        progress_detail_message(ProgressKind::WithoutBudget, true, "€ 2"),
        "€ 2 spent without an annual budget"
    );
    assert_eq!(progress_detail_message(ProgressKind::Available, true, "€ 2"), "€ 2 available");
}

#[test]
fn previous_year_warns_when_it_overspent() {
    assert_eq!(annual_budget_previous_state(d(100, 0), None), ProgressState::Normal);
    assert_eq!(annual_budget_previous_state(d(0, 0), Some(d(1, 2))), ProgressState::Error);
    assert_eq!(annual_budget_previous_state(d(10000, 2), Some(d(1001, 1))), ProgressState::Error);
    assert_eq!(annual_budget_previous_state(d(10000, 2), Some(d(1000, 1))), ProgressState::Normal);
    assert_eq!(annual_budget_previous_state(d(0, 0), Some(d(0, 0))), ProgressState::Normal);
}
