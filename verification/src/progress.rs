//! How a budget's progress bar describes the money left or overspent, and
//! whether it warns.
use vstd::prelude::*;

use crate::decimal::{decimal_gt, value_greater, DecimalValue};
use crate::text::{owned, push_str};

verus! {

/// Whether a progress bar warns.
#[derive(Clone, Copy, Debug, PartialEq, Eq)]
pub enum ProgressState {
    Normal,
    Error,
}

/// What the line under a progress bar says.
#[derive(Clone, Copy, Debug, PartialEq, Eq)]
pub enum ProgressKind {
    /// Money was spent where there is no budget.
    WithoutBudget,
    /// More was spent than the budget.
    OverBudget,
    /// Money is left.
    Available,
}

/// The line under a progress bar: what it says, the amount it names, and
/// whether the bar warns.
#[derive(Clone, Copy, Debug, PartialEq, Eq)]
pub struct BudgetProgress {
    pub kind: ProgressKind,
    pub amount: DecimalValue,
    pub state: ProgressState,
}

/// The zero decimal.
pub open spec fn zero() -> DecimalValue {
    DecimalValue { mantissa: 0, scale: 0 }
}

/// The progress of a budget: spending without a (positive) budget is named
/// and warned of; else an overspent budget names the excess and warns; else
/// the money left is named.
pub open spec fn progress_of(budget: DecimalValue, actual: DecimalValue, remaining: DecimalValue) -> BudgetProgress {
    if !value_greater(budget, zero()) && value_greater(actual, zero()) {
        BudgetProgress { kind: ProgressKind::WithoutBudget, amount: actual, state: ProgressState::Error }
    } else if value_greater(zero(), remaining) {
        BudgetProgress {
            kind: ProgressKind::OverBudget,
            amount: DecimalValue { mantissa: (-remaining.mantissa) as i128, scale: remaining.scale },
            state: ProgressState::Error,
        }
    } else {
        BudgetProgress { kind: ProgressKind::Available, amount: remaining, state: ProgressState::Normal }
    }
}

/// The progress of a budget. The excess is the remaining amount negated
/// (`Decimal`'s `-`, which flips the sign).
pub fn budget_progress_detail(budget: DecimalValue, actual: DecimalValue, remaining: DecimalValue) -> (r:
    BudgetProgress)
    requires
        budget.valid(),
        actual.valid(),
        remaining.valid(),
    ensures
        r == progress_of(budget, actual, remaining),
{
    let zero = DecimalValue { mantissa: 0, scale: 0 };
    if !decimal_gt(budget, zero) && decimal_gt(actual, zero) {
        BudgetProgress { kind: ProgressKind::WithoutBudget, amount: actual, state: ProgressState::Error }
    } else if decimal_gt(zero, remaining) {
        BudgetProgress {
            kind: ProgressKind::OverBudget,
            amount: DecimalValue { mantissa: -remaining.mantissa, scale: remaining.scale },
            state: ProgressState::Error,
        }
    } else {
        BudgetProgress { kind: ProgressKind::Available, amount: remaining, state: ProgressState::Normal }
    }
}

/// The progress of an annual budget: decided as for a budget.
pub fn annual_budget_progress_detail(
    budget: DecimalValue,
    actual: DecimalValue,
    remaining: DecimalValue,
) -> (r: BudgetProgress)
    requires
        budget.valid(),
        actual.valid(),
        remaining.valid(),
    ensures
        r == progress_of(budget, actual, remaining),
{
    budget_progress_detail(budget, actual, remaining)
}

/// The line under a progress bar, with the amount written in the app's money
/// format.
pub open spec fn progress_text(kind: ProgressKind, annual: bool, amount_text: Seq<char>) -> Seq<char> {
    match kind {
        ProgressKind::WithoutBudget => if annual {
            amount_text + " spent without an annual budget"@
        } else {
            amount_text + " without a budget"@
        },
        ProgressKind::OverBudget => if annual {
            amount_text + " over annual budget"@
        } else {
            amount_text + " over budget"@
        },
        ProgressKind::Available => amount_text + " available"@,
    }
}

/// The line under a progress bar.
pub fn progress_detail_message(kind: ProgressKind, annual: bool, amount_text: &str) -> (r: String)
    ensures
        r@ == progress_text(kind, annual, amount_text@),
{
    let mut text = owned(amount_text);
    match kind {
        ProgressKind::WithoutBudget => if annual {
            push_str(&mut text, " spent without an annual budget");
        } else {
            push_str(&mut text, " without a budget");
        },
        ProgressKind::OverBudget => if annual {
            push_str(&mut text, " over annual budget");
        } else {
            push_str(&mut text, " over budget");
        },
        ProgressKind::Available => push_str(&mut text, " available"),
    }
    text
}

/// Whether last year's spending on an annual budget warns: none recorded
/// does not; spending without a (positive) budget does; spending above the
/// budget does.
pub open spec fn previous_state(budget: DecimalValue, previous_actual: Option<DecimalValue>) -> ProgressState {
    match previous_actual {
        None => ProgressState::Normal,
        Some(p) => if !value_greater(budget, zero()) && value_greater(p, zero()) {
            ProgressState::Error
        } else if value_greater(budget, zero()) && value_greater(p, budget) {
            ProgressState::Error
        } else {
            ProgressState::Normal
        },
    }
}

/// Whether last year's spending on an annual budget warns.
pub fn annual_budget_previous_state(budget: DecimalValue, previous_actual: Option<DecimalValue>) -> (r:
    ProgressState)
    requires
        budget.valid(),
        previous_actual matches Some(p) ==> p.valid(),
    ensures
        r == previous_state(budget, previous_actual),
{
    let zero = DecimalValue { mantissa: 0, scale: 0 };
    match previous_actual {
        None => ProgressState::Normal,
        Some(p) => {
            let budget_positive = decimal_gt(budget, zero);
            if !budget_positive && decimal_gt(p, zero) {
                ProgressState::Error
            } else if budget_positive && decimal_gt(p, budget) {
                ProgressState::Error
            } else {
                ProgressState::Normal
            }
        },
    }
}

} // verus!
