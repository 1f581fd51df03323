//! The checks the "new rule", "new budget" and "new field name" dialogs make
//! before they add a form, and the messages they show.
use vstd::prelude::*;

use crate::text::{owned, trim, trim_str};

verus! {

/// Why a dialog does not add its record yet.
#[derive(Clone, Copy, Debug, PartialEq, Eq)]
pub enum NewRecordProblem {
    MissingSearch,
    MissingCategory,
    MissingBudgetCode,
    MissingBankColumn,
}

/// The message a dialog shows for a problem.
pub open spec fn problem_text(p: NewRecordProblem) -> Seq<char> {
    match p {
        NewRecordProblem::MissingSearch => "Enter search text first."@,
        NewRecordProblem::MissingCategory => "Enter a category first."@,
        NewRecordProblem::MissingBudgetCode => "Enter a budget code first."@,
        NewRecordProblem::MissingBankColumn => "Enter the bank column first."@,
    }
}

impl NewRecordProblem {
    /// The message the dialog shows.
    pub fn message(self) -> (r: String)
        ensures
            r@ == problem_text(self),
    {
        match self {
            NewRecordProblem::MissingSearch => owned("Enter search text first."),
            NewRecordProblem::MissingCategory => owned("Enter a category first."),
            NewRecordProblem::MissingBudgetCode => owned("Enter a budget code first."),
            NewRecordProblem::MissingBankColumn => owned("Enter the bank column first."),
        }
    }
}

/// What keeps a new rule from being added: its search text, then its
/// category, must not be empty.
pub fn new_rule_problem(search: &str, category: &str) -> (r: Option<NewRecordProblem>)
    ensures
        r == if search@.len() == 0 {
            Some(NewRecordProblem::MissingSearch)
        } else if category@.len() == 0 {
            Some(NewRecordProblem::MissingCategory)
        } else {
            None
        },
{
    if search.is_empty() {
        Some(NewRecordProblem::MissingSearch)
    } else if category.is_empty() {
        Some(NewRecordProblem::MissingCategory)
    } else {
        None
    }
}

/// What keeps a new budget from being added: its category must not be
/// empty, nor, with advanced features (where the code is typed), its code.
pub fn new_budget_problem(category: &str, code: &str, advanced_features: bool) -> (r: Option<
    NewRecordProblem,
>)
    ensures
        r == if category@.len() == 0 {
            Some(NewRecordProblem::MissingCategory)
        } else if advanced_features && code@.len() == 0 {
            Some(NewRecordProblem::MissingBudgetCode)
        } else {
            None
        },
{
    if category.is_empty() {
        Some(NewRecordProblem::MissingCategory)
    } else if advanced_features && code.is_empty() {
        Some(NewRecordProblem::MissingBudgetCode)
    } else {
        None
    }
}

/// What keeps a new field name from being added: the bank's column name
/// must not be blank.
pub fn new_alias_problem(alias: &str) -> (r: Option<NewRecordProblem>)
    ensures
        r == if trim(alias@).len() == 0 {
            Some(NewRecordProblem::MissingBankColumn)
        } else {
            None
        },
{
    let t = trim_str(alias);
    if t.as_str().is_empty() {
        Some(NewRecordProblem::MissingBankColumn)
    } else {
        None
    }
}

/// The kind of record a dialog adds.
#[derive(Clone, Copy, Debug, PartialEq, Eq)]
pub enum NewRecordKind {
    Rule,
    Budget,
    Alias,
}

/// The message shown once a dialog added its record: a budget is called a
/// category without advanced features.
pub open spec fn added_text(kind: NewRecordKind, advanced_features: bool) -> Seq<char> {
    match kind {
        NewRecordKind::Rule => "New rule added. Press Save to keep it."@,
        NewRecordKind::Budget => if advanced_features {
            "New budget added. Press Save to keep it."@
        } else {
            "New category added. Press Save to keep it."@
        },
        NewRecordKind::Alias => "New field name added. Press Save to keep it."@,
    }
}

/// The message shown once a dialog added its record.
pub fn new_record_added_message(kind: NewRecordKind, advanced_features: bool) -> (r: String)
    ensures
        r@ == added_text(kind, advanced_features),
{
    match kind {
        NewRecordKind::Rule => owned("New rule added. Press Save to keep it."),
        NewRecordKind::Budget => if advanced_features {
            owned("New budget added. Press Save to keep it.")
        } else {
            owned("New category added. Press Save to keep it.")
        },
        NewRecordKind::Alias => owned("New field name added. Press Save to keep it."),
    }
}

} // verus!
