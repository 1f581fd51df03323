//! The editable configuration records: categorization rules, budgets and
//! field names, as the management window reads and writes them.
use vstd::prelude::*;

use crate::text::owned;

verus! {

/// A categorization rule as the user edits it.
pub struct EditableRule {
    pub priority: i32,
    pub active: bool,
    pub field: String,
    pub search: String,
    pub is_regex: bool,
    pub category: String,
    pub budget_code: String,
    pub direction: String,
    pub amount_min: String,
    pub amount_max: String,
    pub notes: String,
}

/// A budget (or category) as the user edits it.
pub struct EditableBudget {
    pub code: String,
    pub parent_code: String,
    pub special: String,
    pub category: String,
    pub monthly_budget: String,
    pub yearly_budget: String,
    pub direction: String,
    pub income_basis: String,
    pub notes: String,
}

/// A mapping from a bank's column name to a fixed field.
pub struct EditableAlias {
    pub canonical: String,
    pub alias: String,
}

/// A budget code that was renamed in the management window.
pub struct BudgetCodeRename {
    pub from: String,
    pub to: String,
}

impl EditableRule {
    /// Two rules hold the same values, field by field.
    pub open spec fn same_as(&self, other: &EditableRule) -> bool {
        &&& self.priority == other.priority
        &&& self.active == other.active
        &&& self.field@ == other.field@
        &&& self.search@ == other.search@
        &&& self.is_regex == other.is_regex
        &&& self.category@ == other.category@
        &&& self.budget_code@ == other.budget_code@
        &&& self.direction@ == other.direction@
        &&& self.amount_min@ == other.amount_min@
        &&& self.amount_max@ == other.amount_max@
        &&& self.notes@ == other.notes@
    }

    /// The values a new rule starts from.
    pub fn new_default() -> (r: EditableRule)
        ensures
            r.priority == 0,
            r.active,
            r.field@ == "any"@,
            r.search@.len() == 0,
            !r.is_regex,
            r.category@.len() == 0,
            r.budget_code@.len() == 0,
            r.direction@ == "any"@,
            r.amount_min@.len() == 0,
            r.amount_max@.len() == 0,
            r.notes@.len() == 0,
    {
        EditableRule {
            priority: 0,
            active: true,
            field: owned("any"),
            search: String::new(),
            is_regex: false,
            category: String::new(),
            budget_code: String::new(),
            direction: owned("any"),
            amount_min: String::new(),
            amount_max: String::new(),
            notes: String::new(),
        }
    }

    /// Whether two rules hold the same values (`==` on the original record).
    pub fn equals(&self, other: &EditableRule) -> (r: bool)
        ensures
            r == self.same_as(other),
    {
        self.priority == other.priority && self.active == other.active && self.field
            == other.field && self.search == other.search && self.is_regex == other.is_regex
            && self.category == other.category && self.budget_code == other.budget_code
            && self.direction == other.direction && self.amount_min == other.amount_min
            && self.amount_max == other.amount_max && self.notes == other.notes
    }

    /// A copy of the rule.
    pub fn duplicate(&self) -> (r: EditableRule)
        ensures
            r == *self,
    {
        EditableRule {
            priority: self.priority,
            active: self.active,
            field: self.field.clone(),
            search: self.search.clone(),
            is_regex: self.is_regex,
            category: self.category.clone(),
            budget_code: self.budget_code.clone(),
            direction: self.direction.clone(),
            amount_min: self.amount_min.clone(),
            amount_max: self.amount_max.clone(),
            notes: self.notes.clone(),
        }
    }
}

impl EditableBudget {
    /// The values a new budget starts from.
    pub fn new_default() -> (r: EditableBudget)
        ensures
            r.code@.len() == 0,
            r.parent_code@.len() == 0,
            r.special@.len() == 0,
            r.category@.len() == 0,
            r.monthly_budget@.len() == 0,
            r.yearly_budget@.len() == 0,
            r.direction@ == "expense"@,
            r.income_basis@ == "real"@,
            r.notes@.len() == 0,
    {
        EditableBudget {
            code: String::new(),
            parent_code: String::new(),
            special: String::new(),
            category: String::new(),
            monthly_budget: String::new(),
            yearly_budget: String::new(),
            direction: owned("expense"),
            income_basis: owned("real"),
            notes: String::new(),
        }
    }

    /// A copy of the budget.
    pub fn duplicate(&self) -> (r: EditableBudget)
        ensures
            r == *self,
    {
        EditableBudget {
            code: self.code.clone(),
            parent_code: self.parent_code.clone(),
            special: self.special.clone(),
            category: self.category.clone(),
            monthly_budget: self.monthly_budget.clone(),
            yearly_budget: self.yearly_budget.clone(),
            direction: self.direction.clone(),
            income_basis: self.income_basis.clone(),
            notes: self.notes.clone(),
        }
    }
}

impl EditableAlias {
    /// The values a new field name starts from.
    pub fn new_default() -> (r: EditableAlias)
        ensures
            r.canonical@ == "date"@,
            r.alias@.len() == 0,
    {
        EditableAlias { canonical: owned("date"), alias: String::new() }
    }

    /// A copy of the field name.
    pub fn duplicate(&self) -> (r: EditableAlias)
        ensures
            r == *self,
    {
        EditableAlias { canonical: self.canonical.clone(), alias: self.alias.clone() }
    }
}

} // verus!
