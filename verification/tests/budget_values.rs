use bank_files::budget_values::{
    budget_amount_text_for_save, budget_bulk_status_message, budget_conversion_overflows,
    budget_direction_for_save, budget_period_overflows, budget_values_for_period,
    budget_values_for_period_checked, convert_budget_amount_text, converted_budget_amount,
    fixed_budget_amount_text,
    format_budget_amount, monthly_value_from, parse_budget_amount, set_budget_forms_income_basis,
    set_budget_forms_value_period, try_set_budget_forms_value_period, yearly_value_from,
    BudgetAmount, BudgetAmountConversion, BudgetBulkResult, BudgetValuePeriod, BudgetValueUpdate,
};
use bank_files::decimal::DecimalValue;
use bank_files::forms::BudgetFormState;
use bank_files::records::EditableBudget;

fn changed(monthly: &str, yearly: &str) -> BudgetValueUpdate {
    BudgetValueUpdate::Changed {
        monthly: monthly.to_string(),
        yearly: yearly.to_string(),
    }
}

#[test]
fn dialogs_new_budget_direction_uses_selected_value() {
    assert_eq!(budget_direction_for_save("income"), "income");
    assert_eq!(budget_direction_for_save("transfer"), "transfer");
    assert_eq!(budget_direction_for_save("expense"), "expense");
}

#[test]
fn dialogs_new_budget_direction_falls_back_to_expense() {
    assert_eq!(budget_direction_for_save("unknown"), "expense");
}

#[test]
fn budget_new_budget_direction_uses_selected_value() {
    assert_eq!(budget_direction_for_save("income"), "income");
    assert_eq!(budget_direction_for_save("transfer"), "transfer");
    assert_eq!(budget_direction_for_save("expense"), "expense");
}

#[test]
fn budget_new_budget_direction_falls_back_to_expense() {
    assert_eq!(budget_direction_for_save("unknown"), "expense");
}

#[test]
fn actions_budget_values_convert_monthly_fixed_values_to_yearly() {
    assert_eq!(
        budget_values_for_period("100", "", BudgetValuePeriod::Yearly),
        changed("", "1200")
    );
}

#[test]
fn actions_budget_values_convert_yearly_fixed_values_to_monthly() {
    assert_eq!(
        budget_values_for_period("", "1200", BudgetValuePeriod::Monthly),
        changed("100", "")
    );
}

#[test]
fn actions_budget_values_keep_percentages_when_switching_period() {
    assert_eq!(
        budget_values_for_period("10%", "", BudgetValuePeriod::Yearly),
        changed("", "10%")
    );
}

#[test]
fn actions_budget_values_skip_invalid_conversion_sources() {
    assert_eq!(
        budget_values_for_period("", "not money", BudgetValuePeriod::Monthly),
        BudgetValueUpdate::Skipped
    );
}

#[test]
fn tests_budget_values_convert_monthly_fixed_values_to_yearly() {
    assert_eq!(
        budget_values_for_period("100", "", BudgetValuePeriod::Yearly),
        changed("", "1200")
    );
}

#[test]
fn tests_budget_values_convert_yearly_fixed_values_to_monthly() {
    assert_eq!(
        budget_values_for_period("", "1200", BudgetValuePeriod::Monthly),
        changed("100", "")
    );
}

#[test]
fn tests_budget_values_keep_percentages_when_switching_period() {
    assert_eq!(
        budget_values_for_period("10%", "", BudgetValuePeriod::Yearly),
        changed("", "10%")
    );
}

#[test]
fn tests_budget_values_skip_invalid_conversion_sources() {
    assert_eq!(
        budget_values_for_period("", "not money", BudgetValuePeriod::Monthly),
        BudgetValueUpdate::Skipped
    );
}

#[test]
fn planned_income_budget_amounts_save_as_fixed_values() {
    assert_eq!(budget_amount_text_for_save("10% of income", true), "10");
    assert_eq!(budget_amount_text_for_save("20000", true), "20000");
    assert_eq!(
        budget_amount_text_for_save("10% of income", false),
        "10% of income"
    );
}

#[test]
fn amounts_are_read_as_fixed_sums_or_percentages() {
    assert_eq!(
        parse_budget_amount(" 12.50 "),
        Some(BudgetAmount::Fixed(DecimalValue { mantissa: 1250, scale: 2 }))
    );
    assert_eq!(
        parse_budget_amount("10% of income"),
        Some(BudgetAmount::IncomePercent(DecimalValue { mantissa: 10, scale: 0 }))
    );
    assert_eq!(
        parse_budget_amount("-3"),
        Some(BudgetAmount::Fixed(DecimalValue { mantissa: -3, scale: 0 }))
    );
    assert_eq!(parse_budget_amount("   "), None);
    assert_eq!(parse_budget_amount("abc%"), None);
    assert_eq!(parse_budget_amount("twelve"), None);
}

#[test]
fn amounts_are_written_without_trailing_zeros() {
    let fixed = |m: i128, s: u32| BudgetAmount::Fixed(DecimalValue { mantissa: m, scale: s });
    assert_eq!(format_budget_amount(fixed(1200, 0)), "1200");
    assert_eq!(format_budget_amount(fixed(12500, 3)), "12.5");
    assert_eq!(format_budget_amount(fixed(5, 2)), "0.05");
    assert_eq!(format_budget_amount(fixed(-5, 1)), "-0.5");
    assert_eq!(format_budget_amount(fixed(0, 4)), "0");
    assert_eq!(format_budget_amount(fixed(-1200, 2)), "-12");
    assert_eq!(
        format_budget_amount(BudgetAmount::IncomePercent(DecimalValue { mantissa: 150, scale: 1 })),
        "15%"
    );
}

#[test]
fn conversions_multiply_and_divide_by_twelve() {
    let m2y = BudgetAmountConversion::MonthlyToYearly;
    let y2m = BudgetAmountConversion::YearlyToMonthly;
    assert_eq!(convert_budget_amount_text("12.5", m2y), Some("150".to_string()));
    assert_eq!(convert_budget_amount_text("100", y2m), Some("8.333333333333333333333333333".to_string()));
    assert_eq!(convert_budget_amount_text("-24", y2m), Some("-2".to_string()));
    assert_eq!(convert_budget_amount_text("7.5%", m2y), Some("7.5%".to_string()));
    assert_eq!(convert_budget_amount_text("money", m2y), None);
    assert_eq!(convert_budget_amount_text("", m2y), None);
}

#[test]
fn conversion_overflow_is_detected_before_converting() {
    let huge = "79228162514264337593543950335";
    assert!(budget_conversion_overflows(huge, BudgetAmountConversion::MonthlyToYearly));
    assert!(!budget_conversion_overflows(huge, BudgetAmountConversion::YearlyToMonthly));
    assert!(!budget_conversion_overflows("100", BudgetAmountConversion::MonthlyToYearly));
    assert!(budget_period_overflows(huge, "", BudgetValuePeriod::Yearly));
    assert!(!budget_period_overflows(huge, "1", BudgetValuePeriod::Yearly));
    assert_eq!(budget_values_for_period_checked(huge, "", BudgetValuePeriod::Yearly), None);
    assert_eq!(
        budget_values_for_period_checked("100", "", BudgetValuePeriod::Yearly),
        Some(changed("", "1200"))
    );
}

#[test]
fn value_helpers_keep_or_convert_the_other_figure() {
    assert_eq!(monthly_value_from("50", "999"), Some("50".to_string()));
    assert_eq!(monthly_value_from("", "24"), Some("2".to_string()));
    assert_eq!(monthly_value_from("", ""), Some(String::new()));
    assert_eq!(monthly_value_from("", "x"), None);
    assert_eq!(yearly_value_from("2", ""), Some("24".to_string()));
    assert_eq!(yearly_value_from("2", "30"), Some("30".to_string()));
}

#[test]
fn keeping_a_figure_reports_unchanged_texts() {
    assert_eq!(
        budget_values_for_period(" 100 ", "", BudgetValuePeriod::Monthly),
        BudgetValueUpdate::Unchanged
    );
    assert_eq!(
        budget_values_for_period("", "", BudgetValuePeriod::Yearly),
        BudgetValueUpdate::Unchanged
    );
    assert_eq!(
        budget_values_for_period("100", "1000", BudgetValuePeriod::Monthly),
        changed("100", "")
    );
}

#[test]
fn keeping_a_figure_twice_changes_nothing() {
    let first = budget_values_for_period("", "1000", BudgetValuePeriod::Monthly);
    let BudgetValueUpdate::Changed { monthly, yearly } = first else {
        panic!("expected a change");
    };
    assert_eq!(
        budget_values_for_period(&monthly, &yearly, BudgetValuePeriod::Monthly),
        BudgetValueUpdate::Unchanged
    );
}

fn budget_form(code: &str, monthly: &str, yearly: &str, basis: &str, deleted: bool) -> BudgetFormState {
    BudgetFormState {
        deleted,
        visible: true,
        original_code: code.to_string(),
        auto_code: false,
        budget: EditableBudget {
            code: code.to_string(),
            parent_code: String::new(),
            special: String::new(),
            category: code.to_string(),
            monthly_budget: monthly.to_string(),
            yearly_budget: yearly.to_string(),
            direction: "expense".to_string(),
            income_basis: basis.to_string(),
            notes: String::new(),
        },
    }
}

#[test]
fn bulk_period_edit_counts_changed_and_skipped_forms() {
    let mut forms = vec![
        budget_form("FOOD", "100", "", "real", false),
        budget_form("RENT", "", "bad", "real", false),
        budget_form("GONE", "5", "", "real", true),
        budget_form("CAR", "", "120", "real", false),
        budget_form("KEEP", "", "7", "real", false),
    ];
    let result = set_budget_forms_value_period(&mut forms, BudgetValuePeriod::Yearly);
    assert_eq!(result, BudgetBulkResult { changed: 1, skipped: 0 });
    assert_eq!(forms[0].budget.monthly_budget, "");
    assert_eq!(forms[0].budget.yearly_budget, "1200");
    assert_eq!(forms[1].budget.yearly_budget, "bad");
    assert_eq!(forms[2].budget.monthly_budget, "5");

    let result = set_budget_forms_value_period(&mut forms, BudgetValuePeriod::Monthly);
    assert_eq!(result, BudgetBulkResult { changed: 3, skipped: 1 });
    assert_eq!(forms[0].budget.monthly_budget, "100");
    assert_eq!(forms[3].budget.monthly_budget, "10");
    assert_eq!(forms[1].budget.yearly_budget, "bad");
}

#[test]
fn bulk_period_edit_refuses_overflowing_forms() {
    let mut forms = vec![
        budget_form("FOOD", "100", "", "real", false),
        budget_form("HUGE", "79228162514264337593543950335", "", "real", false),
    ];
    assert_eq!(try_set_budget_forms_value_period(&mut forms, BudgetValuePeriod::Yearly), None);
    assert_eq!(forms[0].budget.monthly_budget, "100");
    assert_eq!(
        try_set_budget_forms_value_period(&mut forms, BudgetValuePeriod::Monthly),
        Some(BudgetBulkResult { changed: 0, skipped: 0 })
    );
}

#[test]
fn bulk_income_basis_skips_planned_income_and_deleted_forms() {
    let mut forms = vec![
        budget_form("FOOD", "10%", "", "real", false),
        budget_form("INC", "1000", "", "real", false),
        budget_form("OLD", "10%", "", "real", true),
        budget_form("CAR", "5%", "", "planned", false),
    ];
    assert_eq!(set_budget_forms_income_basis(&mut forms, "planned"), 1);
    assert_eq!(forms[0].budget.income_basis, "planned");
    assert_eq!(forms[1].budget.income_basis, "real");
    assert_eq!(forms[2].budget.income_basis, "real");
    assert_eq!(forms[3].budget.income_basis, "planned");
    assert_eq!(set_budget_forms_income_basis(&mut forms, "bogus"), 2);
    assert_eq!(forms[0].budget.income_basis, "real");
}

#[test]
fn bulk_status_messages_count_changes_and_skips() {
    assert_eq!(budget_bulk_status_message(0, 0, "figures"), "No budget rows changed.");
    assert_eq!(
        budget_bulk_status_message(3, 0, "yearly values"),
        "Updated 3 yearly values. Review, then Save."
    );
    assert_eq!(
        budget_bulk_status_message(2, 1, "monthly values"),
        "Updated 2 monthly values; skipped 1 invalid value(s). Review, then Save."
    );
    assert_eq!(
        budget_bulk_status_message(0, 4, "monthly values"),
        "Updated 0 monthly values; skipped 4 invalid value(s). Review, then Save."
    );
}

#[test]
fn fixed_amount_text_takes_the_number_before_the_percent_sign() {
    assert_eq!(fixed_budget_amount_text(" 12 % of yearly income"), "12");
    assert_eq!(fixed_budget_amount_text(" 500 "), "500");
    assert_eq!(fixed_budget_amount_text(""), "");
}

#[test]
fn direction_for_save_ignores_case_and_spaces() {
    assert_eq!(budget_direction_for_save(" Income "), "income");
    assert_eq!(budget_direction_for_save("TRANSFER"), "transfer");
    assert_eq!(budget_direction_for_save(""), "expense");
}

#[test]
fn monthly_to_yearly_and_back_gives_the_monthly_sum() {
    let m2y = BudgetAmountConversion::MonthlyToYearly;
    let y2m = BudgetAmountConversion::YearlyToMonthly;
    let yearly = convert_budget_amount_text("100", m2y).unwrap();
    assert_eq!(yearly, "1200");
    assert_eq!(convert_budget_amount_text(&yearly, y2m), Some("100".to_string()));
    let fixed = |m: i128, s: u32| BudgetAmount::Fixed(DecimalValue { mantissa: m, scale: s });
    let up = converted_budget_amount(fixed(1234, 2), m2y).unwrap();
    assert_eq!(up, fixed(14808, 2));
    assert_eq!(converted_budget_amount(up, y2m), Some(fixed(1234, 2)));
    assert_eq!(converted_budget_amount(fixed(0, 3), y2m), Some(fixed(0, 0)));
}

#[test]
fn dividing_by_twelve_never_overflows() {
    let huge = "-79228162514264337593543950335";
    assert!(!budget_conversion_overflows(huge, BudgetAmountConversion::YearlyToMonthly));
    assert!(!budget_period_overflows("", huge, BudgetValuePeriod::Monthly));
    assert_eq!(
        convert_budget_amount_text(huge, BudgetAmountConversion::YearlyToMonthly),
        Some("-6602346876188694799461995861.2".to_string())
    );
    assert_eq!(monthly_value_from("", "1200"), Some("100".to_string()));
    assert_eq!(monthly_value_from("50", "1200"), Some("50".to_string()));
    assert_eq!(monthly_value_from("", "not money"), None);
}
