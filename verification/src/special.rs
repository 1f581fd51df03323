//! The special budgets the budgets page can add: planned income, transfers,
//! and outgoing and incoming refunds.
use vstd::prelude::*;

use crate::text::{owned, push_str, str_equal};

verus! {

/// The kind of a special budget.
#[derive(Debug, Clone, Copy, PartialEq, Eq)]
pub enum BudgetSpecialKind {
    PlannedIncome,
    Transfer,
    Refunding,
    Refunded,
}

/// A request to add a special budget.
#[derive(Debug, Clone, Copy, PartialEq, Eq)]
pub enum SpecialBudgetAdd {
    PlannedIncome,
    Transfer,
    Refunding,
    Refunded,
}

/// The name a special budget is shown with.
pub open spec fn special_name(special: SpecialBudgetAdd) -> Seq<char> {
    match special {
        SpecialBudgetAdd::PlannedIncome => "Planned income"@,
        SpecialBudgetAdd::Transfer => "Transfers"@,
        SpecialBudgetAdd::Refunding => "Outgoing refunds"@,
        SpecialBudgetAdd::Refunded => "Incoming refunds"@,
    }
}

impl SpecialBudgetAdd {
    /// The kind of budget the request adds.
    pub fn kind(self) -> (r: BudgetSpecialKind)
        ensures
            r == match self {
                SpecialBudgetAdd::PlannedIncome => BudgetSpecialKind::PlannedIncome,
                SpecialBudgetAdd::Transfer => BudgetSpecialKind::Transfer,
                SpecialBudgetAdd::Refunding => BudgetSpecialKind::Refunding,
                SpecialBudgetAdd::Refunded => BudgetSpecialKind::Refunded,
            },
    {
        match self {
            SpecialBudgetAdd::PlannedIncome => BudgetSpecialKind::PlannedIncome,
            SpecialBudgetAdd::Transfer => BudgetSpecialKind::Transfer,
            SpecialBudgetAdd::Refunding => BudgetSpecialKind::Refunding,
            SpecialBudgetAdd::Refunded => BudgetSpecialKind::Refunded,
        }
    }

    /// The name the budget is shown with.
    pub fn display_name(self) -> (r: String)
        ensures
            r@ == special_name(self),
    {
        match self {
            SpecialBudgetAdd::PlannedIncome => owned("Planned income"),
            SpecialBudgetAdd::Transfer => owned("Transfers"),
            SpecialBudgetAdd::Refunding => owned("Outgoing refunds"),
            SpecialBudgetAdd::Refunded => owned("Incoming refunds"),
        }
    }

    /// The message shown where the budget already exists.
    pub fn already_exists_message(self) -> (r: String)
        ensures
            r@ == special_name(self) + " already exists. Review the existing budget, then Save."@,
    {
        let mut message = self.display_name();
        push_str(&mut message, " already exists. Review the existing budget, then Save.");
        message
    }

    /// The message shown once the budget is added.
    pub fn added_message(self) -> (r: String)
        ensures
            r@ == special_name(self) + " added. Press Save to keep it."@,
    {
        let mut message = self.display_name();
        push_str(&mut message, " added. Press Save to keep it.");
        message
    }
}

/// The kind of special budget an add action adds, by the action's name.
pub open spec fn action_kind(name: Seq<char>) -> Option<BudgetSpecialKind> {
    if name == "add-planned-income-budget"@ {
        Some(BudgetSpecialKind::PlannedIncome)
    } else if name == "add-transfer-budget"@ {
        Some(BudgetSpecialKind::Transfer)
    } else if name == "add-refunding-budget"@ {
        Some(BudgetSpecialKind::Refunding)
    } else if name == "add-refunded-budget"@ {
        Some(BudgetSpecialKind::Refunded)
    } else {
        None
    }
}

/// The kind of special budget an add action adds.
pub fn special_budget_kind_for_action(name: &str) -> (r: Option<BudgetSpecialKind>)
    ensures
        r == action_kind(name@),
{
    if str_equal(name, "add-planned-income-budget") {
        Some(BudgetSpecialKind::PlannedIncome)
    } else if str_equal(name, "add-transfer-budget") {
        Some(BudgetSpecialKind::Transfer)
    } else if str_equal(name, "add-refunding-budget") {
        Some(BudgetSpecialKind::Refunding)
    } else if str_equal(name, "add-refunded-budget") {
        Some(BudgetSpecialKind::Refunded)
    } else {
        None
    }
}

} // verus!
