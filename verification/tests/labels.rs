use bank_files::decimal::DecimalValue;
use bank_files::labels::{
    budget_basis_label, budget_display_title, category_transaction_detail, financial_metric_order,
    format_size, planned_budget_label, FinancialMetric,
};
use bank_files::reorder::move_item_to_boundary;
use bank_files::special::{BudgetSpecialKind, SpecialBudgetAdd};

#[test]
fn move_item_to_boundary_moves_before_target() {
    let mut items = vec!["a", "b", "c"];

    assert!(move_item_to_boundary(&mut items, 0, 2));

    assert_eq!(items, vec!["b", "a", "c"]);
}

#[test]
fn move_item_to_boundary_moves_after_target() {
    let mut items = vec!["a", "b", "c"];

    assert!(move_item_to_boundary(&mut items, 0, 3));

    assert_eq!(items, vec!["b", "c", "a"]);
}

#[test]
fn move_item_to_boundary_ignores_noop_and_invalid_moves() {
    let mut items = vec!["a", "b", "c"];

    assert!(!move_item_to_boundary(&mut items, 1, 1));
    assert!(!move_item_to_boundary(&mut items, 1, 2));
    assert!(!move_item_to_boundary(&mut items, 3, 1));
    assert!(!move_item_to_boundary(&mut items, 1, 4));

    assert_eq!(items, vec!["a", "b", "c"]);
}

#[test]
fn moving_an_item_back_restores_the_list() {
    let mut items = vec!["a", "b", "c", "d"];
    assert!(move_item_to_boundary(&mut items, 3, 1));
    assert_eq!(items, vec!["a", "d", "b", "c"]);
    assert!(move_item_to_boundary(&mut items, 1, 4));
    assert_eq!(items, vec!["a", "b", "c", "d"]);
}

#[test]
fn financial_metrics_keep_balance_last() {
    assert_eq!(
        financial_metric_order(),
        [FinancialMetric::Income, FinancialMetric::Expenses, FinancialMetric::Balance]
    );
}

#[test]
fn budget_titles_show_code_only_with_advanced_features() {
    assert_eq!(budget_display_title(" FOOD ", " Groceries ", true), "FOOD · Groceries");
    assert_eq!(budget_display_title("FOOD", "Groceries", false), "Groceries");
    assert_eq!(budget_display_title("  ", "Groceries", true), "Groceries");
    assert_eq!(budget_display_title("FOOD", " ", true), "FOOD");
}

#[test]
fn category_details_count_transactions() {
    assert_eq!(category_transaction_detail(3, "FOOD", false), "3 transactions");
    assert_eq!(
        category_transaction_detail(12, "FOOD", true),
        "12 transactions · budget code FOOD"
    );
}

#[test]
fn basis_labels_tidy_percentages_and_context() {
    assert_eq!(budget_basis_label(" 10 % of real income"), "10% of real income");
    assert_eq!(budget_basis_label("5% of planned income"), "5% of planned income");
    assert_eq!(budget_basis_label("7 % of income"), "7% of income");
    assert_eq!(budget_basis_label(" fixed budget (yearly) "), "fixed budget - yearly");
    assert_eq!(budget_basis_label("fixed budget (yearly"), "fixed budget (yearly");
    assert_eq!(budget_basis_label("fixed budget"), "fixed budget");
}

#[test]
fn planned_budget_labels() {
    let positive = DecimalValue { mantissa: 500, scale: 0 };
    let zero = DecimalValue { mantissa: 0, scale: 2 };
    assert_eq!(planned_budget_label(zero, "€ 0,00", "fixed budget"), "no budget");
    assert_eq!(planned_budget_label(positive, "€ 500,00", "fixed budget"), "€ 500,00");
    assert_eq!(planned_budget_label(positive, "€ 500,00", "unconfigured budget"), "€ 500,00");
    assert_eq!(
        planned_budget_label(positive, "€ 500,00", "10 % of income"),
        "€ 500,00 (10% of income)"
    );
}

#[test]
fn sizes_are_written_in_bytes_kilobytes_or_megabytes() {
    assert_eq!(format_size(0), "0 bytes");
    assert_eq!(format_size(1023), "1023 bytes");
    assert_eq!(format_size(1024), "1.0 KB");
    assert_eq!(format_size(1536), "1.5 KB");
    assert_eq!(format_size(1_048_576), "1.0 MB");
    assert_eq!(format_size(5 * 1_048_576 + 524_288), "5.5 MB");
}

#[test]
fn sizes_match_one_decimal_float_formatting() {
    let mut sizes: Vec<u64> = (1024..20_000).collect();
    sizes.extend((0..2000u64).map(|k| 1_048_576 + k * 52_429));
    sizes.extend([1280, 3328, 1_048_576 * 3 + 52_428, u32::MAX as u64, 1u64 << 52]);
    for size in sizes {
        let expected = if size >= 1_048_576 {
            format!("{:.1} MB", size as f64 / 1_048_576.0)
        } else {
            format!("{:.1} KB", size as f64 / 1024.0)
        };
        assert_eq!(format_size(size), expected, "size {size}");
    }
}

#[test]
fn special_budgets_have_names_and_messages() {
    assert_eq!(SpecialBudgetAdd::Transfer.kind(), BudgetSpecialKind::Transfer);
    assert_eq!(SpecialBudgetAdd::PlannedIncome.display_name(), "Planned income");
    assert_eq!(SpecialBudgetAdd::Refunding.display_name(), "Outgoing refunds");
    assert_eq!(
        SpecialBudgetAdd::Refunded.already_exists_message(),
        "Incoming refunds already exists. Review the existing budget, then Save."
    );
    assert_eq!(
        SpecialBudgetAdd::Transfer.added_message(),
        "Transfers added. Press Save to keep it."
    );
}
