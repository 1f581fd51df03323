use bank_files::rule_bulk::{
    clean_orphaned_status_message, combine_status_message, group_status_message,
};

#[test]
fn grouping_reports_nothing_to_group_already_grouped_or_the_groups() {
    assert_eq!(group_status_message(0, false), "No compatible rules to group.");
    assert_eq!(group_status_message(0, true), "No compatible rules to group.");
    assert_eq!(
        group_status_message(2, false),
        "Compatible rules are already grouped. Use Combine."
    );
    assert_eq!(
        group_status_message(3, true),
        "Grouped compatible rules into 3 group(s). Review order, then Combine or Save."
    );
}

#[test]
fn combining_reports_nothing_to_combine_or_the_counts() {
    assert_eq!(
        combine_status_message(4, 4, 0),
        "No adjacent compatible rules to combine. Use Group first if compatible rules are spread out."
    );
    assert_eq!(
        combine_status_message(5, 2, 2),
        "Combined 5 rules into 2 rules across 2 group(s). Review, then Save."
    );
}

#[test]
fn cleaning_reports_nothing_to_clean_or_the_count() {
    assert_eq!(clean_orphaned_status_message(0), "No orphaned rules to clean.");
    assert_eq!(
        clean_orphaned_status_message(4),
        "Cleaned 4 orphaned rule(s). Review, then Save."
    );
}
