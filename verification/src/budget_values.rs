//! Budget amounts: a fixed sum or a share of income, read from the text of a
//! budget's monthly or yearly field; the conversion between monthly and
//! yearly figures; and the bulk edits of the budget forms that use them.
//!
//! An amount's text is a decimal number (`500`), or a decimal number followed
//! by `%` and any description (`10% of income`). Blank text is no amount.
use vstd::prelude::*;

use crate::decimal::{
    checked_div, checked_mul, decimal_product, decimal_quotient, decimal_text, display, magnitude,
    max_mantissa, max_scale, normalize, normalized, parse_decimal, parsed_decimal, unsigned_decimal_text, zero_padded,
    DecimalValue,
};
use crate::forms::{is_planned_income_budget, planned_income_budget, BudgetFormState};
use crate::records::EditableBudget;
use crate::text::{
    chars_of, decimal, decimal_string, digit_char, eq_ignore_ascii_case, is_ws,
    lemma_trim_idempotent, owned, push_str, str_eq_ignore_ascii_case, str_equal, string_of_range,
    trim, trim_start, trim_str,
};

verus! {

/// An amount of a budget.
#[derive(Clone, Copy, Debug, PartialEq, Eq)]
pub enum BudgetAmount {
    /// A fixed sum.
    Fixed(DecimalValue),
    /// A percentage of income.
    IncomePercent(DecimalValue),
}

impl BudgetAmount {
    pub open spec fn valid(self) -> bool {
        match self {
            BudgetAmount::Fixed(d) => d.valid(),
            BudgetAmount::IncomePercent(d) => d.valid(),
        }
    }
}

/// Whether `i` is the position of the first `%` in `s`.
pub open spec fn is_first_percent(s: Seq<char>, i: int) -> bool {
    &&& 0 <= i < s.len()
    &&& s[i] == '%'
    &&& forall|j: int| 0 <= j < i ==> s[j] != '%'
}

/// The position of the first `%` in `s`, if it has one.
pub open spec fn first_percent(s: Seq<char>) -> Option<int> {
    if exists|i: int| is_first_percent(s, i) {
        Some(choose|i: int| is_first_percent(s, i))
    } else {
        None
    }
}

/// A decimal from its parts.
pub open spec fn decimal_of(p: (i128, u32)) -> DecimalValue {
    DecimalValue { mantissa: p.0, scale: p.1 }
}

/// The amount a text holds: blank text holds none; text with a `%` holds the
/// percentage written before the first `%`; other text holds the fixed sum
/// it spells. Text that is no decimal number there holds none.
pub open spec fn amount_of(text: Seq<char>) -> Option<BudgetAmount> {
    let t = trim(text);
    if t.len() == 0 {
        None
    } else {
        match first_percent(t) {
            Some(i) => match parsed_decimal(trim(t.take(i))) {
                Some(p) => Some(BudgetAmount::IncomePercent(decimal_of(p))),
                None => None,
            },
            None => match parsed_decimal(t) {
                Some(p) => Some(BudgetAmount::Fixed(decimal_of(p))),
                None => None,
            },
        }
    }
}

/// The text an amount is written as: the number without trailing fractional
/// zeros, followed by `%` for a percentage.
pub open spec fn amount_text(amount: BudgetAmount) -> Seq<char> {
    match amount {
        BudgetAmount::Fixed(d) => {
            let n = normalized(d.mantissa as int, d.scale as nat);
            decimal_text(n.0, n.1)
        },
        BudgetAmount::IncomePercent(d) => {
            let n = normalized(d.mantissa as int, d.scale as nat);
            decimal_text(n.0, n.1) + seq!['%']
        },
    }
}

/// The position of the first `%`.
pub(crate) fn percent_position(cs: &[char]) -> (r: Option<usize>)
    ensures
        r matches Some(i) ==> first_percent(cs@) == Some(i as int),
        r is None ==> first_percent(cs@) is None,
{
    let mut i: usize = 0;
    while i < cs.len()
        invariant
            i <= cs.len(),
            forall|j: int| 0 <= j < i ==> cs@[j] != '%',
        decreases cs.len() - i,
    {
        if cs[i] == '%' {
            proof {
                assert(is_first_percent(cs@, i as int));
                let k = choose|k: int| is_first_percent(cs@, k);
                assert(k == i as int) by {
                    if k < i as int {
                        assert(cs@[k] != '%');
                    } else if k > i as int {
                        assert(cs@[i as int] != '%');
                    }
                }
            }
            return Some(i);
        }
        i += 1;
    }
    None
}

/// Reads the amount a text holds.
pub fn parse_budget_amount(text: &str) -> (r: Option<BudgetAmount>)
    ensures
        r == amount_of(text@),
        r matches Some(a) ==> a.valid(),
{
    let t = trim_str(text);
    let cs = chars_of(t.as_str());
    if cs.len() == 0 {
        return None;
    }
    match percent_position(cs.as_slice()) {
        Some(i) => {
            let before = string_of_range(cs.as_slice(), 0, i);
            assert(before@ == t@.take(i as int));
            let number = trim_str(before.as_str());
            match parse_decimal(number.as_str()) {
                Some(d) => Some(BudgetAmount::IncomePercent(d)),
                None => None,
            }
        },
        None => match parse_decimal(t.as_str()) {
            Some(d) => Some(BudgetAmount::Fixed(d)),
            None => None,
        },
    }
}

/// The text of an amount.
pub fn format_budget_amount(amount: BudgetAmount) -> (r: String)
    requires
        amount.valid(),
    ensures
        r@ == amount_text(amount),
{
    match amount {
        BudgetAmount::Fixed(d) => display(normalize(d)),
        BudgetAmount::IncomePercent(d) => {
            let mut s = display(normalize(d));
            push_str(&mut s, "%");
            proof {
                reveal_strlit("%");
            }
            s
        },
    }
}

/// Which way an amount is converted.
#[derive(Clone, Copy, Debug, PartialEq, Eq)]
pub enum BudgetAmountConversion {
    MonthlyToYearly,
    YearlyToMonthly,
}

/// The decimal twelve.
pub open spec fn twelve() -> DecimalValue {
    DecimalValue { mantissa: 12, scale: 0 }
}

/// Zero, as the decimal arithmetic gives it: mantissa 0, scale 0.
pub open spec fn zero_decimal() -> DecimalValue {
    DecimalValue { mantissa: 0, scale: 0 }
}

/// A fixed sum multiplied by twelve: zero for zero; the exact product at
/// the same scale where it fits the decimal range; else what the decimal
/// arithmetic gives, `None` where it overflows.
pub open spec fn times_twelve(d: DecimalValue) -> Option<DecimalValue> {
    if d.mantissa == 0 {
        Some(zero_decimal())
    } else if d.scale <= max_scale() && -max_mantissa() <= d.mantissa * 12 <= max_mantissa() {
        Some(DecimalValue { mantissa: (d.mantissa * 12) as i128, scale: d.scale })
    } else {
        match decimal_product(d.mantissa, d.scale, 12, 0) {
            Some(p) => Some(decimal_of(p)),
            None => None,
        }
    }
}

/// A fixed sum divided by twelve: zero for zero; the exact quotient at the
/// same scale where twelve divides the mantissa; else the rounded quotient
/// the decimal arithmetic gives.
pub open spec fn over_twelve(d: DecimalValue) -> Option<DecimalValue> {
    if d.mantissa == 0 {
        Some(zero_decimal())
    } else if d.mantissa % 12 == 0 {
        Some(DecimalValue { mantissa: (d.mantissa / 12) as i128, scale: d.scale })
    } else {
        match decimal_quotient(d.mantissa, d.scale, 12, 0) {
            Some(p) => Some(decimal_of(p)),
            None => None,
        }
    }
}

/// An amount converted: a fixed sum multiplied or divided by twelve, a
/// percentage unchanged; `None` where the arithmetic overflows.
pub open spec fn converted_amount(amount: BudgetAmount, conversion: BudgetAmountConversion) -> Option<
    BudgetAmount,
> {
    match amount {
        BudgetAmount::Fixed(d) => {
            let c = match conversion {
                BudgetAmountConversion::MonthlyToYearly => times_twelve(d),
                BudgetAmountConversion::YearlyToMonthly => over_twelve(d),
            };
            match c {
                Some(v) => Some(BudgetAmount::Fixed(v)),
                None => None,
            }
        },
        BudgetAmount::IncomePercent(p) => Some(BudgetAmount::IncomePercent(p)),
    }
}

/// Whether converting the amount a text holds overflows the decimal range:
/// only multiplying a fixed sum by twelve can, since dividing by twelve
/// never does.
pub open spec fn conversion_overflows(input: Seq<char>, conversion: BudgetAmountConversion) -> bool {
    match amount_of(input) {
        Some(a) => conversion is MonthlyToYearly && converted_amount(a, conversion) is None,
        None => false,
    }
}

/// The text of the converted amount; `None` where the text holds no amount.
pub open spec fn converted_text(input: Seq<char>, conversion: BudgetAmountConversion) -> Option<
    Seq<char>,
> {
    match amount_of(input) {
        Some(a) => match converted_amount(a, conversion) {
            Some(b) => Some(amount_text(b)),
            None => None,
        },
        None => None,
    }
}

/// The text of an optional string.
pub open spec fn opt_text(s: Option<String>) -> Option<Seq<char>> {
    match s {
        Some(t) => Some(t@),
        None => None,
    }
}

/// Converts an amount between a monthly and a yearly figure: a fixed sum is
/// multiplied or divided by twelve, a percentage is kept; `None` where the
/// arithmetic overflows, which dividing never does.
pub fn converted_budget_amount(amount: BudgetAmount, conversion: BudgetAmountConversion) -> (r:
    Option<BudgetAmount>)
    requires
        amount.valid(),
    ensures
        r == converted_amount(amount, conversion),
        r matches Some(b) ==> b.valid(),
        conversion is YearlyToMonthly ==> r is Some,
{
    let twelve = DecimalValue { mantissa: 12, scale: 0 };
    match amount {
        BudgetAmount::Fixed(d) => {
            let converted = match conversion {
                BudgetAmountConversion::MonthlyToYearly => checked_mul(d, twelve),
                BudgetAmountConversion::YearlyToMonthly => checked_div(d, twelve),
            };
            match converted {
                Some(c) => Some(BudgetAmount::Fixed(c)),
                None => None,
            }
        },
        BudgetAmount::IncomePercent(p) => Some(BudgetAmount::IncomePercent(p)),
    }
}

/// Converting a fixed monthly sum to a yearly one and back gives the sum
/// again, wherever the yearly sum fits the decimal range: the same decimal
/// for a non-zero sum, and for zero a zero that is written the same.
pub proof fn lemma_monthly_yearly_round_trip(d: DecimalValue)
    requires
        d.valid(),
        -max_mantissa() <= d.mantissa * 12 <= max_mantissa(),
    ensures
        converted_amount(BudgetAmount::Fixed(d), BudgetAmountConversion::MonthlyToYearly) is Some,
        ({
            let y = converted_amount(
                BudgetAmount::Fixed(d),
                BudgetAmountConversion::MonthlyToYearly,
            )->0;
            let back = converted_amount(y, BudgetAmountConversion::YearlyToMonthly);
            &&& back is Some
            &&& amount_text(back->0) == amount_text(BudgetAmount::Fixed(d))
            &&& d.mantissa != 0 ==> back == Some(BudgetAmount::Fixed(d))
        }),
{
    if d.mantissa != 0 {
        let m = d.mantissa as int;
        assert((m * 12) % 12 == 0 && (m * 12) / 12 == m && m * 12 != 0) by (nonlinear_arith)
            requires
                m != 0,
        ;
    }
}

/// Whether converting the amount a text holds would overflow.
pub fn budget_conversion_overflows(input: &str, conversion: BudgetAmountConversion) -> (r: bool)
    ensures
        r == conversion_overflows(input@, conversion),
{
    let twelve = DecimalValue { mantissa: 12, scale: 0 };
    match parse_budget_amount(input) {
        Some(BudgetAmount::Fixed(d)) => match conversion {
            BudgetAmountConversion::MonthlyToYearly => checked_mul(d, twelve).is_none(),
            BudgetAmountConversion::YearlyToMonthly => false,
        },
        Some(BudgetAmount::IncomePercent(_)) => false,
        None => false,
    }
}

/// Converts the amount a text holds between a monthly and a yearly figure:
/// a fixed sum is multiplied or divided by twelve, a percentage is kept; the
/// result is written without trailing fractional zeros. `None` where the text
/// holds no amount.
pub fn convert_budget_amount_text(input: &str, conversion: BudgetAmountConversion) -> (r: Option<
    String,
>)
    requires
        !conversion_overflows(input@, conversion),
    ensures
        opt_text(r) == converted_text(input@, conversion),
        r is Some <==> amount_of(input@) is Some,
{
    let amount = match parse_budget_amount(input) {
        Some(a) => a,
        None => {
            return None;
        },
    };
    match converted_budget_amount(amount, conversion) {
        Some(c) => Some(format_budget_amount(c)),
        None => None,
    }
}

/// The monthly figure of a budget from its (trimmed) monthly and yearly
/// texts: the monthly text where there is one, else the yearly amount
/// divided by twelve, else nothing.
pub open spec fn monthly_value(monthly: Seq<char>, yearly: Seq<char>) -> Option<Seq<char>> {
    if monthly.len() > 0 {
        Some(monthly)
    } else if yearly.len() > 0 {
        converted_text(yearly, BudgetAmountConversion::YearlyToMonthly)
    } else {
        Some(Seq::empty())
    }
}

/// The yearly figure of a budget from its (trimmed) monthly and yearly
/// texts: the yearly text where there is one, else the monthly amount
/// multiplied by twelve, else nothing.
pub open spec fn yearly_value(monthly: Seq<char>, yearly: Seq<char>) -> Option<Seq<char>> {
    if yearly.len() > 0 {
        Some(yearly)
    } else if monthly.len() > 0 {
        converted_text(monthly, BudgetAmountConversion::MonthlyToYearly)
    } else {
        Some(Seq::empty())
    }
}

/// The monthly figure of a budget from its monthly and yearly texts.
pub fn monthly_value_from(monthly: &str, yearly: &str) -> (r: Option<String>)
    ensures
        opt_text(r) == monthly_value(monthly@, yearly@),
{
    if !monthly.is_empty() {
        Some(owned(monthly))
    } else if !yearly.is_empty() {
        convert_budget_amount_text(yearly, BudgetAmountConversion::YearlyToMonthly)
    } else {
        Some(String::new())
    }
}

/// The yearly figure of a budget from its monthly and yearly texts.
pub fn yearly_value_from(monthly: &str, yearly: &str) -> (r: Option<String>)
    requires
        yearly@.len() == 0 && monthly@.len() > 0 ==> !conversion_overflows(
            monthly@,
            BudgetAmountConversion::MonthlyToYearly,
        ),
    ensures
        opt_text(r) == yearly_value(monthly@, yearly@),
{
    if !yearly.is_empty() {
        Some(owned(yearly))
    } else if !monthly.is_empty() {
        convert_budget_amount_text(monthly, BudgetAmountConversion::MonthlyToYearly)
    } else {
        Some(String::new())
    }
}

/// The figure a budget keeps.
#[derive(Clone, Copy, Debug, PartialEq, Eq)]
pub enum BudgetValuePeriod {
    Monthly,
    Yearly,
}

/// What setting a budget to one figure does to its texts.
#[derive(Clone, Debug, PartialEq, Eq)]
pub enum BudgetValueUpdate {
    /// The texts become these.
    Changed { monthly: String, yearly: String },
    /// The texts already are the result.
    Unchanged,
    /// The text to convert holds no amount.
    Skipped,
}

/// The monthly and yearly texts after keeping one figure, from the trimmed
/// texts: the kept figure, and the other one blank; `None` where the kept
/// figure has to be converted from text that holds no amount.
pub open spec fn period_values(monthly: Seq<char>, yearly: Seq<char>, period: BudgetValuePeriod) -> Option<
    (Seq<char>, Seq<char>),
> {
    match period {
        BudgetValuePeriod::Monthly => match monthly_value(monthly, yearly) {
            Some(m) => Some((m, Seq::empty())),
            None => None,
        },
        BudgetValuePeriod::Yearly => match yearly_value(monthly, yearly) {
            Some(y) => Some((Seq::empty(), y)),
            None => None,
        },
    }
}

/// Whether keeping one figure has to convert an amount whose conversion
/// overflows the decimal range: only keeping the yearly figure, which
/// multiplies a monthly sum by twelve, can.
pub open spec fn period_overflows(monthly: Seq<char>, yearly: Seq<char>, period: BudgetValuePeriod) -> bool {
    let m = trim(monthly);
    let y = trim(yearly);
    match period {
        BudgetValuePeriod::Monthly => false,
        BudgetValuePeriod::Yearly => y.len() == 0 && m.len() > 0 && conversion_overflows(
            m,
            BudgetAmountConversion::MonthlyToYearly,
        ),
    }
}

/// Whether an update is the one keeping a figure makes of the two texts.
pub open spec fn is_period_update(
    u: BudgetValueUpdate,
    monthly: Seq<char>,
    yearly: Seq<char>,
    period: BudgetValuePeriod,
) -> bool {
    let m = trim(monthly);
    let y = trim(yearly);
    match u {
        BudgetValueUpdate::Changed { monthly: nm, yearly: ny } => period_values(m, y, period) == Some(
            (nm@, ny@),
        ) && !(nm@ == m && ny@ == y),
        BudgetValueUpdate::Unchanged => period_values(m, y, period) == Some((m, y)),
        BudgetValueUpdate::Skipped => period_values(m, y, period) is None,
    }
}

/// Keeps one figure of a budget: the monthly or the yearly amount, converted
/// from the other where it is blank, and the other figure cleared.
pub fn budget_values_for_period(monthly: &str, yearly: &str, period: BudgetValuePeriod) -> (r:
    BudgetValueUpdate)
    requires
        !period_overflows(monthly@, yearly@, period),
    ensures
        is_period_update(r, monthly@, yearly@, period),
{
    let monthly = trim_str(monthly);
    let yearly = trim_str(yearly);
    let values = match period {
        BudgetValuePeriod::Monthly => match monthly_value_from(monthly.as_str(), yearly.as_str()) {
            Some(m) => Some((m, String::new())),
            None => None,
        },
        BudgetValuePeriod::Yearly => match yearly_value_from(monthly.as_str(), yearly.as_str()) {
            Some(y) => Some((String::new(), y)),
            None => None,
        },
    };
    match values {
        None => BudgetValueUpdate::Skipped,
        Some((new_monthly, new_yearly)) => {
            if str_equal(new_monthly.as_str(), monthly.as_str()) && str_equal(
                new_yearly.as_str(),
                yearly.as_str(),
            ) {
                BudgetValueUpdate::Unchanged
            } else {
                BudgetValueUpdate::Changed { monthly: new_monthly, yearly: new_yearly }
            }
        },
    }
}

/// Keeps one figure of a budget where that needs no conversion that
/// overflows; `None` where it does.
pub fn budget_values_for_period_checked(
    monthly: &str,
    yearly: &str,
    period: BudgetValuePeriod,
) -> (r: Option<BudgetValueUpdate>)
    ensures
        r is None <==> period_overflows(monthly@, yearly@, period),
        r matches Some(u) ==> is_period_update(u, monthly@, yearly@, period),
{
    if budget_period_overflows(monthly, yearly, period) {
        None
    } else {
        Some(budget_values_for_period(monthly, yearly, period))
    }
}

/// Whether keeping one figure has to make a conversion that overflows.
pub fn budget_period_overflows(monthly: &str, yearly: &str, period: BudgetValuePeriod) -> (r: bool)
    ensures
        r == period_overflows(monthly@, yearly@, period),
{
    let m = trim_str(monthly);
    let y = trim_str(yearly);
    match period {
        BudgetValuePeriod::Monthly => false,
        BudgetValuePeriod::Yearly => y.as_str().is_empty() && !m.as_str().is_empty()
            && budget_conversion_overflows(m.as_str(), BudgetAmountConversion::MonthlyToYearly),
    }
}

/// The counts of a bulk edit of the budget forms.
#[derive(Clone, Copy, Debug, PartialEq, Eq)]
pub struct BudgetBulkResult {
    pub changed: usize,
    pub skipped: usize,
}

/// Whether two budget forms differ at most in their monthly and yearly texts.
pub open spec fn same_but_amounts(a: BudgetFormState, b: BudgetFormState) -> bool {
    &&& a.deleted == b.deleted
    &&& a.visible == b.visible
    &&& a.original_code == b.original_code
    &&& a.auto_code == b.auto_code
    &&& a.budget.code == b.budget.code
    &&& a.budget.parent_code == b.budget.parent_code
    &&& a.budget.special == b.budget.special
    &&& a.budget.category == b.budget.category
    &&& a.budget.direction == b.budget.direction
    &&& a.budget.income_basis == b.budget.income_basis
    &&& a.budget.notes == b.budget.notes
}

/// Whether two budget forms differ at most in their income basis.
pub open spec fn same_but_income_basis(a: BudgetFormState, b: BudgetFormState) -> bool {
    &&& a.deleted == b.deleted
    &&& a.visible == b.visible
    &&& a.original_code == b.original_code
    &&& a.auto_code == b.auto_code
    &&& a.budget.code == b.budget.code
    &&& a.budget.parent_code == b.budget.parent_code
    &&& a.budget.special == b.budget.special
    &&& a.budget.category == b.budget.category
    &&& a.budget.monthly_budget == b.budget.monthly_budget
    &&& a.budget.yearly_budget == b.budget.yearly_budget
    &&& a.budget.direction == b.budget.direction
    &&& a.budget.notes == b.budget.notes
}

/// The texts a form's figures become when one figure is kept.
pub open spec fn form_period_values(f: BudgetFormState, period: BudgetValuePeriod) -> Option<
    (Seq<char>, Seq<char>),
> {
    period_values(trim(f.budget.monthly_budget@), trim(f.budget.yearly_budget@), period)
}

/// Whether keeping one figure changes the texts of a form that is not
/// deleted.
pub open spec fn period_changes(f: BudgetFormState, period: BudgetValuePeriod) -> bool {
    !f.deleted && match form_period_values(f, period) {
        Some(v) => !(v.0 == trim(f.budget.monthly_budget@) && v.1 == trim(
            f.budget.yearly_budget@,
        )),
        None => false,
    }
}

/// Whether keeping one figure skips a form that is not deleted, because its
/// other figure holds no amount.
pub open spec fn period_skips(f: BudgetFormState, period: BudgetValuePeriod) -> bool {
    !f.deleted && form_period_values(f, period) is None
}

/// Whether keeping one figure of a form that is not deleted would make a
/// conversion that overflows.
pub open spec fn form_period_overflows(f: BudgetFormState, period: BudgetValuePeriod) -> bool {
    !f.deleted && period_overflows(f.budget.monthly_budget@, f.budget.yearly_budget@, period)
}

/// A copy of a budget form with other monthly and yearly texts.
fn with_amounts(f: &BudgetFormState, monthly: String, yearly: String) -> (g: BudgetFormState)
    ensures
        same_but_amounts(*f, g),
        g.budget.monthly_budget == monthly,
        g.budget.yearly_budget == yearly,
{
    BudgetFormState {
        deleted: f.deleted,
        visible: f.visible,
        original_code: f.original_code.clone(),
        auto_code: f.auto_code,
        budget: EditableBudget {
            code: f.budget.code.clone(),
            parent_code: f.budget.parent_code.clone(),
            special: f.budget.special.clone(),
            category: f.budget.category.clone(),
            monthly_budget: monthly,
            yearly_budget: yearly,
            direction: f.budget.direction.clone(),
            income_basis: f.budget.income_basis.clone(),
            notes: f.budget.notes.clone(),
        },
    }
}

/// Keeps one figure in every budget form that is not deleted, and answers
/// how many forms changed and how many were skipped.
pub fn set_budget_forms_value_period(forms: &mut Vec<BudgetFormState>, period: BudgetValuePeriod) -> (r:
    BudgetBulkResult)
    requires
        forall|i: int|
            0 <= i < old(forms)@.len() ==> !form_period_overflows(#[trigger] old(forms)@[i], period),
    ensures
        final(forms)@.len() == old(forms)@.len(),
        forall|i: int|
            0 <= i < old(forms)@.len() ==> {
                let f = #[trigger] old(forms)@[i];
                let g = final(forms)@[i];
                if period_changes(f, period) {
                    &&& same_but_amounts(f, g)
                    &&& form_period_values(f, period) == Some(
                        (g.budget.monthly_budget@, g.budget.yearly_budget@),
                    )
                } else {
                    g == f
                }
            },
        r.changed == old(forms)@.filter(|f: BudgetFormState| period_changes(f, period)).len(),
        r.skipped == old(forms)@.filter(|f: BudgetFormState| period_skips(f, period)).len(),
{
    let ghost original = forms@;
    let mut changed: usize = 0;
    let mut skipped: usize = 0;
    let mut i: usize = 0;
    while i < forms.len()
        invariant
            i <= forms.len() == original.len(),
            forall|k: int|
                0 <= k < original.len() ==> !form_period_overflows(#[trigger] original[k], period),
            forall|k: int|
                0 <= k < i ==> {
                    let f = #[trigger] original[k];
                    let g = forms@[k];
                    if period_changes(f, period) {
                        &&& same_but_amounts(f, g)
                        &&& form_period_values(f, period) == Some(
                            (g.budget.monthly_budget@, g.budget.yearly_budget@),
                        )
                    } else {
                        g == f
                    }
                },
            forall|k: int| i <= k < forms@.len() ==> #[trigger] forms@[k] == original[k],
            changed == original.take(i as int).filter(
                |f: BudgetFormState| period_changes(f, period),
            ).len(),
            skipped == original.take(i as int).filter(
                |f: BudgetFormState| period_skips(f, period),
            ).len(),
            changed <= i,
            skipped <= i,
        decreases forms.len() - i,
    {
        proof {
            let t = original.take(i as int + 1);
            assert(t.drop_last() == original.take(i as int));
            assert(t.last() == original[i as int]);
            reveal_with_fuel(Seq::filter, 1);
        }
        assert(!form_period_overflows(original[i as int], period));
        if !forms[i].deleted {
            let update = budget_values_for_period(
                forms[i].budget.monthly_budget.as_str(),
                forms[i].budget.yearly_budget.as_str(),
                period,
            );
            match update {
                BudgetValueUpdate::Changed { monthly, yearly } => {
                    let g = with_amounts(&forms[i], monthly, yearly);
                    forms.set(i, g);
                    changed += 1;
                },
                BudgetValueUpdate::Unchanged => {},
                BudgetValueUpdate::Skipped => {
                    skipped += 1;
                },
            }
        }
        i += 1;
    }
    assert(original.take(original.len() as int) == original);
    BudgetBulkResult { changed, skipped }
}

/// Keeps one figure in every budget form that is not deleted, where no form
/// needs a conversion that overflows; else changes nothing and answers
/// `None`.
pub fn try_set_budget_forms_value_period(
    forms: &mut Vec<BudgetFormState>,
    period: BudgetValuePeriod,
) -> (r: Option<BudgetBulkResult>)
    ensures
        r is None <==> exists|i: int|
            0 <= i < old(forms)@.len() && form_period_overflows(#[trigger] old(forms)@[i], period),
        r is None ==> final(forms)@ == old(forms)@,
        r matches Some(counts) ==> {
            &&& final(forms)@.len() == old(forms)@.len()
            &&& forall|i: int|
                0 <= i < old(forms)@.len() ==> {
                    let f = #[trigger] old(forms)@[i];
                    let g = final(forms)@[i];
                    if period_changes(f, period) {
                        &&& same_but_amounts(f, g)
                        &&& form_period_values(f, period) == Some(
                            (g.budget.monthly_budget@, g.budget.yearly_budget@),
                        )
                    } else {
                        g == f
                    }
                }
            &&& counts.changed == old(forms)@.filter(
                |f: BudgetFormState| period_changes(f, period),
            ).len()
            &&& counts.skipped == old(forms)@.filter(
                |f: BudgetFormState| period_skips(f, period),
            ).len()
        },
{
    let mut i: usize = 0;
    while i < forms.len()
        invariant
            i <= forms.len(),
            forall|k: int| 0 <= k < i ==> !form_period_overflows(#[trigger] forms@[k], period),
        decreases forms.len() - i,
    {
        if !forms[i].deleted && budget_period_overflows(
            forms[i].budget.monthly_budget.as_str(),
            forms[i].budget.yearly_budget.as_str(),
            period,
        ) {
            assert(form_period_overflows(forms@[i as int], period));
            return None;
        }
        i += 1;
    }
    Some(set_budget_forms_value_period(forms, period))
}

/// The income basis a bulk edit sets: the one asked for where it is one of
/// `real` and `planned`, else `real`.
pub open spec fn basis_choice(basis: Seq<char>) -> Seq<char> {
    if basis == "real"@ || basis == "planned"@ {
        basis
    } else {
        "real"@
    }
}

/// Whether a bulk edit of the income basis applies to a form: one that is
/// not deleted and not the planned income budget.
pub open spec fn basis_applies(f: BudgetFormState) -> bool {
    !f.deleted && !planned_income_budget(f.budget.special@, f.budget.code@)
}

/// Whether setting the income basis changes a form.
pub open spec fn basis_changes(f: BudgetFormState, basis: Seq<char>) -> bool {
    basis_applies(f) && f.budget.income_basis@ != basis_choice(basis)
}

/// A copy of a budget form with another income basis.
fn with_income_basis(f: &BudgetFormState, basis: String) -> (g: BudgetFormState)
    ensures
        same_but_income_basis(*f, g),
        g.budget.income_basis == basis,
{
    BudgetFormState {
        deleted: f.deleted,
        visible: f.visible,
        original_code: f.original_code.clone(),
        auto_code: f.auto_code,
        budget: EditableBudget {
            code: f.budget.code.clone(),
            parent_code: f.budget.parent_code.clone(),
            special: f.budget.special.clone(),
            category: f.budget.category.clone(),
            monthly_budget: f.budget.monthly_budget.clone(),
            yearly_budget: f.budget.yearly_budget.clone(),
            direction: f.budget.direction.clone(),
            income_basis: basis,
            notes: f.budget.notes.clone(),
        },
    }
}

/// Sets the income basis of every budget form that is not deleted and not
/// the planned income budget, and answers how many forms changed.
pub fn set_budget_forms_income_basis(forms: &mut Vec<BudgetFormState>, basis: &str) -> (r: usize)
    ensures
        final(forms)@.len() == old(forms)@.len(),
        forall|i: int|
            0 <= i < old(forms)@.len() ==> {
                let f = #[trigger] old(forms)@[i];
                let g = final(forms)@[i];
                if basis_applies(f) {
                    same_but_income_basis(f, g) && g.budget.income_basis@ == basis_choice(basis@)
                } else {
                    g == f
                }
            },
        r == old(forms)@.filter(|f: BudgetFormState| basis_changes(f, basis@)).len(),
{
    proof {
        reveal_strlit("real");
        reveal_strlit("planned");
    }
    let chosen = if str_equal(basis, "real") || str_equal(basis, "planned") {
        owned(basis)
    } else {
        owned("real")
    };
    let ghost original = forms@;
    let mut changed: usize = 0;
    let mut i: usize = 0;
    while i < forms.len()
        invariant
            i <= forms.len() == original.len(),
            chosen@ == basis_choice(basis@),
            forall|k: int|
                0 <= k < i ==> {
                    let f = #[trigger] original[k];
                    let g = forms@[k];
                    if basis_applies(f) {
                        same_but_income_basis(f, g) && g.budget.income_basis@ == basis_choice(
                            basis@,
                        )
                    } else {
                        g == f
                    }
                },
            forall|k: int| i <= k < forms@.len() ==> #[trigger] forms@[k] == original[k],
            changed == original.take(i as int).filter(
                |f: BudgetFormState| basis_changes(f, basis@),
            ).len(),
            changed <= i,
        decreases forms.len() - i,
    {
        proof {
            let t = original.take(i as int + 1);
            assert(t.drop_last() == original.take(i as int));
            assert(t.last() == original[i as int]);
            reveal_with_fuel(Seq::filter, 1);
        }
        if !forms[i].deleted && !is_planned_income_budget(
            forms[i].budget.special.as_str(),
            forms[i].budget.code.as_str(),
        ) {
            let differs = !str_equal(forms[i].budget.income_basis.as_str(), chosen.as_str());
            let g = with_income_basis(&forms[i], chosen.clone());
            forms.set(i, g);
            if differs {
                changed += 1;
            }
        }
        i += 1;
    }
    assert(original.take(original.len() as int) == original);
    changed
}

/// The message a bulk edit of the budget forms shows, for the number of
/// forms changed and skipped and the name of what was set.
pub open spec fn bulk_status_text(changed: nat, skipped: nat, action: Seq<char>) -> Seq<char> {
    if changed == 0 && skipped == 0 {
        "No budget rows changed."@
    } else if skipped == 0 {
        "Updated "@ + decimal(changed) + " "@ + action + ". Review, then Save."@
    } else {
        "Updated "@ + decimal(changed) + " "@ + action + "; skipped "@ + decimal(skipped)
            + " invalid value(s). Review, then Save."@
    }
}

/// The message a bulk edit of the budget forms shows.
pub fn budget_bulk_status_message(changed: usize, skipped: usize, action: &str) -> (r: String)
    ensures
        r@ == bulk_status_text(changed as nat, skipped as nat, action@),
{
    if changed == 0 && skipped == 0 {
        return owned("No budget rows changed.");
    }
    let mut message = owned("Updated ");
    let count = decimal_string(changed as u64);
    push_str(&mut message, count.as_str());
    push_str(&mut message, " ");
    push_str(&mut message, action);
    if skipped == 0 {
        push_str(&mut message, ". Review, then Save.");
    } else {
        push_str(&mut message, "; skipped ");
        let skipped_text = decimal_string(skipped as u64);
        push_str(&mut message, skipped_text.as_str());
        push_str(&mut message, " invalid value(s). Review, then Save.");
    }
    message
}

/// The fixed amount a text is saved as where only a fixed sum is allowed:
/// the number written before the first `%`, or the whole trimmed text.
pub open spec fn fixed_amount_text(text: Seq<char>) -> Seq<char> {
    let t = trim(text);
    match first_percent(t) {
        Some(i) => trim(t.take(i)),
        None => t,
    }
}

/// The fixed amount a text is saved as where only a fixed sum is allowed.
pub fn fixed_budget_amount_text(input: &str) -> (r: String)
    ensures
        r@ == fixed_amount_text(input@),
{
    let t = trim_str(input);
    let cs = chars_of(t.as_str());
    match percent_position(cs.as_slice()) {
        Some(i) => {
            let before = string_of_range(cs.as_slice(), 0, i);
            assert(before@ == t@.take(i as int));
            trim_str(before.as_str())
        },
        None => t,
    }
}

/// The text a budget amount is saved as: the fixed amount where only a
/// fixed sum is allowed (the planned income budget), else the trimmed text.
pub fn budget_amount_text_for_save(input: &str, fixed_only: bool) -> (r: String)
    ensures
        r@ == if fixed_only {
            fixed_amount_text(input@)
        } else {
            trim(input@)
        },
{
    if fixed_only {
        fixed_budget_amount_text(input)
    } else {
        trim_str(input)
    }
}

/// The direction a new budget is saved with: `income` or `transfer` where
/// that is chosen (ignoring case and surrounding whitespace), else
/// `expense`.
pub open spec fn direction_for_save(selected: Seq<char>) -> Seq<char> {
    if eq_ignore_ascii_case(trim(selected), "income"@) {
        "income"@
    } else if eq_ignore_ascii_case(trim(selected), "transfer"@) {
        "transfer"@
    } else {
        "expense"@
    }
}

/// The direction a new budget is saved with.
pub fn budget_direction_for_save(selected_direction: &str) -> (r: String)
    ensures
        r@ == direction_for_save(selected_direction@),
{
    let t = trim_str(selected_direction);
    if str_eq_ignore_ascii_case(t.as_str(), "income") {
        owned("income")
    } else if str_eq_ignore_ascii_case(t.as_str(), "transfer") {
        owned("transfer")
    } else {
        owned("expense")
    }
}

/// Whether a text has no whitespace character.
pub open spec fn no_whitespace(s: Seq<char>) -> bool {
    forall|i: int| 0 <= i < s.len() ==> !is_ws(#[trigger] s[i])
}

proof fn lemma_no_whitespace_concat(a: Seq<char>, b: Seq<char>)
    requires
        no_whitespace(a),
        no_whitespace(b),
    ensures
        no_whitespace(a + b),
{
    assert forall|i: int| 0 <= i < (a + b).len() implies !is_ws(#[trigger] (a + b)[i]) by {
        if i < a.len() {
            assert((a + b)[i] == a[i]);
        } else {
            assert((a + b)[i] == b[i - a.len()]);
        }
    }
}

proof fn lemma_decimal_no_whitespace(n: nat)
    ensures
        no_whitespace(decimal(n)),
        decimal(n).len() > 0,
    decreases n,
{
    if n >= 10 {
        lemma_decimal_no_whitespace(n / 10);
        let d = digit_char(n % 10);
        assert(!is_ws(d));
        lemma_no_whitespace_concat(decimal(n / 10), seq![d]);
        assert(decimal(n / 10).push(d) == decimal(n / 10) + seq![d]);
    } else {
        assert(!is_ws(digit_char(n)));
    }
}

proof fn lemma_amount_text_unpadded(amount: BudgetAmount)
    ensures
        no_whitespace(amount_text(amount)),
        amount_text(amount).len() > 0,
{
    let d = match amount {
        BudgetAmount::Fixed(d) => d,
        BudgetAmount::IncomePercent(d) => d,
    };
    let n = normalized(d.mantissa as int, d.scale as nat);
    let mag = magnitude(n.0);
    lemma_decimal_no_whitespace(mag);
    let u = unsigned_decimal_text(mag, n.1);
    if n.1 > 0 {
        let digits = zero_padded(decimal(mag), n.1);
        if decimal(mag).len() < n.1 {
            let pad = Seq::new((n.1 - decimal(mag).len()) as nat, |i: int| '0');
            assert(no_whitespace(pad)) by {
                assert forall|i: int| 0 <= i < pad.len() implies !is_ws(#[trigger] pad[i]) by {
                    assert(pad[i] == '0');
                }
            }
            lemma_no_whitespace_concat(pad, decimal(mag));
        }
        assert(no_whitespace(digits));
        let whole = digits.take(digits.len() - n.1);
        let head = if whole.len() == 0 {
            seq!['0']
        } else {
            whole
        };
        assert(no_whitespace(head));
        assert(no_whitespace(seq!['.']));
        lemma_no_whitespace_concat(head, seq!['.']);
        assert(no_whitespace(digits.skip(digits.len() - n.1)));
        lemma_no_whitespace_concat(head + seq!['.'], digits.skip(digits.len() - n.1));
    }
    assert(no_whitespace(u));
    let sign: Seq<char> = if n.0 < 0 {
        seq!['-']
    } else {
        Seq::empty()
    };
    assert(no_whitespace(sign));
    lemma_no_whitespace_concat(sign, u);
    if amount is IncomePercent {
        assert(no_whitespace(seq!['%']));
        lemma_no_whitespace_concat(decimal_text(n.0, n.1), seq!['%']);
    }
}

proof fn lemma_trim_unpadded(s: Seq<char>)
    requires
        no_whitespace(s),
    ensures
        trim(s) == s,
{
    if s.len() > 0 {
        assert(!is_ws(s[0]));
        assert(trim_start(s) == s);
        assert(!is_ws(s.last()));
    }
}

/// Keeping the same figure a second time changes nothing: the texts the
/// first time leaves are trimmed, need no conversion, and are what keeping
/// the figure makes of them; and only the kept figure has a text.
pub proof fn lemma_keeping_a_figure_twice_changes_nothing(
    monthly: Seq<char>,
    yearly: Seq<char>,
    period: BudgetValuePeriod,
)
    requires
        !period_overflows(monthly, yearly, period),
        period_values(trim(monthly), trim(yearly), period) is Some,
    ensures
        ({
            let v = period_values(trim(monthly), trim(yearly), period)->0;
            &&& !period_overflows(v.0, v.1, period)
            &&& is_period_update(BudgetValueUpdate::Unchanged, v.0, v.1, period)
            &&& period is Monthly ==> v.1.len() == 0
            &&& period is Yearly ==> v.0.len() == 0
        }),
{
    let m = trim(monthly);
    let y = trim(yearly);
    let v = period_values(m, y, period)->0;
    lemma_trim_idempotent(monthly);
    lemma_trim_idempotent(yearly);
    let empty = Seq::<char>::empty();
    assert(trim(empty) == empty) by {
        lemma_trim_unpadded(empty);
    }
    match period {
        BudgetValuePeriod::Monthly => {
            if m.len() == 0 && y.len() > 0 {
                let a = amount_of(y)->0;
                let b = converted_amount(a, BudgetAmountConversion::YearlyToMonthly)->0;
                lemma_amount_text_unpadded(b);
                lemma_trim_unpadded(amount_text(b));
            }
            assert(trim(v.0) == v.0);
            assert(trim(v.1) == v.1);
        },
        BudgetValuePeriod::Yearly => {
            if y.len() == 0 && m.len() > 0 {
                let a = amount_of(m)->0;
                let b = converted_amount(a, BudgetAmountConversion::MonthlyToYearly)->0;
                lemma_amount_text_unpadded(b);
                lemma_trim_unpadded(amount_text(b));
            }
            assert(trim(v.0) == v.0);
            assert(trim(v.1) == v.1);
        },
    }
}

} // verus!
