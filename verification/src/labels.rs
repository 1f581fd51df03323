//! The short texts the window shows about budgets, categories and files,
//! and the order of the financial metrics.
use vstd::prelude::*;

use crate::decimal::DecimalValue;
use crate::text::{chars_of, decimal, decimal_string, owned, push_str, str_equal, string_of_range, trim, trim_str};

verus! {

/// The title of a budget: its category; with advanced features, its code and
/// category joined by ` · `, or whichever of them is not blank.
pub open spec fn display_title(code: Seq<char>, category: Seq<char>, advanced_features: bool) -> Seq<
    char,
> {
    let c = trim(category);
    let k = trim(code);
    if !advanced_features {
        c
    } else if k.len() == 0 {
        c
    } else if c.len() == 0 {
        k
    } else {
        k + " · "@ + c
    }
}

/// The title of a budget.
pub fn budget_display_title(code: &str, category: &str, advanced_features: bool) -> (r: String)
    ensures
        r@ == display_title(code@, category@, advanced_features),
{
    let category = trim_str(category);
    if advanced_features {
        let code = trim_str(code);
        if code.as_str().is_empty() {
            category
        } else if category.as_str().is_empty() {
            code
        } else {
            let mut title = code;
            push_str(&mut title, " · ");
            push_str(&mut title, category.as_str());
            title
        }
    } else {
        category
    }
}

/// The line under a category: its number of transactions; with advanced
/// features, also its budget code.
pub open spec fn transaction_detail(count: nat, budget_code: Seq<char>, advanced_features: bool) -> Seq<
    char,
> {
    if advanced_features {
        decimal(count) + " transactions · budget code "@ + budget_code
    } else {
        decimal(count) + " transactions"@
    }
}

/// The line under a category.
pub fn category_transaction_detail(count: u64, budget_code: &str, advanced_features: bool) -> (r:
    String)
    ensures
        r@ == transaction_detail(count as nat, budget_code@, advanced_features),
{
    let mut text = decimal_string(count);
    if advanced_features {
        push_str(&mut text, " transactions · budget code ");
        push_str(&mut text, budget_code);
    } else {
        push_str(&mut text, " transactions");
    }
    text
}

/// Whether `s` ends with `suffix`.
pub open spec fn ends_with(s: Seq<char>, suffix: Seq<char>) -> bool {
    suffix.len() <= s.len() && s.skip(s.len() - suffix.len()) == suffix
}

/// Whether ` (` starts at position `i` of `s`.
pub open spec fn group_open_at(s: Seq<char>, i: int) -> bool {
    s[i] == ' ' && s[i + 1] == '('
}

/// Whether `i` is the first position of ` (` in `s`.
pub open spec fn is_first_group_open(s: Seq<char>, i: int) -> bool {
    &&& 0 <= i
    &&& i + 1 < s.len()
    &&& group_open_at(s, i)
    &&& forall|j: int| 0 <= j < i ==> !#[trigger] group_open_at(s, j)
}

/// The first position of ` (` in `s`, if it has one.
pub open spec fn first_group_open(s: Seq<char>) -> Option<int> {
    if exists|i: int| is_first_group_open(s, i) {
        Some(choose|i: int| is_first_group_open(s, i))
    } else {
        None
    }
}

/// A percentage basis written again: the trimmed percentage and its suffix.
pub open spec fn percent_basis(basis: Seq<char>, suffix: Seq<char>) -> Seq<char> {
    trim(basis.take(basis.len() - suffix.len())) + suffix
}

/// The label of a budget's basis: a percentage of (real, planned) income
/// written with its percentage trimmed; `basis (context)` written as
/// `basis - context`; any other basis as it is.
pub open spec fn basis_label(basis: Seq<char>) -> Seq<char> {
    if ends_with(basis, "% of real income"@) {
        percent_basis(basis, "% of real income"@)
    } else if ends_with(basis, "% of planned income"@) {
        percent_basis(basis, "% of planned income"@)
    } else if ends_with(basis, "% of income"@) {
        percent_basis(basis, "% of income"@)
    } else {
        let t = trim(basis);
        match first_group_open(t) {
            Some(i) => {
                let context = t.skip(i + 2);
                if context.len() > 0 && context.last() == ')' {
                    trim(t.take(i)) + " - "@ + trim(context.drop_last())
                } else {
                    basis
                }
            },
            None => basis,
        }
    }
}

/// Whether a text ends with a suffix.
fn chars_end_with(cs: &[char], suffix: &[char]) -> (r: bool)
    ensures
        r == ends_with(cs@, suffix@),
{
    if suffix.len() > cs.len() {
        return false;
    }
    let start = cs.len() - suffix.len();
    let mut i: usize = 0;
    while i < suffix.len()
        invariant
            start + suffix.len() == cs.len(),
            i <= suffix.len(),
            forall|j: int| 0 <= j < i ==> cs@[start + j] == suffix@[j],
        decreases suffix.len() - i,
    {
        if cs[start + i] != suffix[i] {
            assert(cs@.skip(start as int)[i as int] != suffix@[i as int]);
            return false;
        }
        i += 1;
    }
    assert(cs@.skip(start as int) =~= suffix@);
    true
}

/// The percentage basis written again, where the basis ends with the suffix.
fn percent_basis_label(cs: &[char], suffix: &str) -> (r: Option<String>)
    ensures
        r matches Some(s) ==> ends_with(cs@, suffix@) && s@ == percent_basis(cs@, suffix@),
        r is None ==> !ends_with(cs@, suffix@),
{
    let sc = chars_of(suffix);
    if chars_end_with(cs, sc.as_slice()) {
        let head = string_of_range(cs, 0, cs.len() - sc.len());
        let mut label = trim_str(head.as_str());
        push_str(&mut label, suffix);
        Some(label)
    } else {
        None
    }
}

/// The first position of ` (`.
fn group_open_position(cs: &[char]) -> (r: Option<usize>)
    ensures
        r matches Some(i) ==> first_group_open(cs@) == Some(i as int),
        r is None ==> first_group_open(cs@) is None,
{
    let mut i: usize = 0;
    while i < cs.len() && i + 1 < cs.len()
        invariant
            i <= cs.len(),
            forall|j: int| 0 <= j < i && j + 1 < cs@.len() ==> !#[trigger] group_open_at(cs@, j),
        decreases cs.len() - i,
    {
        if cs[i] == ' ' && cs[i + 1] == '(' {
            proof {
                assert(is_first_group_open(cs@, i as int));
                let k = choose|k: int| is_first_group_open(cs@, k);
                assert(k == i as int) by {
                    if k < i as int {
                        assert(!group_open_at(cs@, k));
                    } else if k > i as int {
                        assert(!group_open_at(cs@, i as int));
                    }
                }
            }
            return Some(i);
        }
        i += 1;
    }
    proof {
        assert forall|k: int| !is_first_group_open(cs@, k) by {
            if is_first_group_open(cs@, k) {
                assert(!group_open_at(cs@, k));
            }
        }
    }
    None
}

/// The label of a budget's basis.
pub fn budget_basis_label(basis: &str) -> (r: String)
    ensures
        r@ == basis_label(basis@),
{
    let cs = chars_of(basis);
    match percent_basis_label(cs.as_slice(), "% of real income") {
        Some(label) => {
            return label;
        },
        None => {},
    }
    match percent_basis_label(cs.as_slice(), "% of planned income") {
        Some(label) => {
            return label;
        },
        None => {},
    }
    match percent_basis_label(cs.as_slice(), "% of income") {
        Some(label) => {
            return label;
        },
        None => {},
    }
    let t = trim_str(basis);
    let tc = chars_of(t.as_str());
    match group_open_position(tc.as_slice()) {
        Some(i) => {
            let n = tc.len();
            if i + 2 < n && tc[n - 1] == ')' {
                let head = string_of_range(tc.as_slice(), 0, i);
                let context = string_of_range(tc.as_slice(), i + 2, n - 1);
                proof {
                    let ctx = t@.skip(i as int + 2);
                    assert(head@ == t@.take(i as int));
                    assert(context@ == ctx.drop_last());
                    assert(ctx.last() == tc@[n - 1]);
                }
                let mut label = trim_str(head.as_str());
                push_str(&mut label, " - ");
                let context = trim_str(context.as_str());
                push_str(&mut label, context.as_str());
                label
            } else {
                proof {
                    let ctx = t@.skip(i as int + 2);
                    if ctx.len() > 0 {
                        assert(ctx.last() == tc@[n - 1]);
                    }
                }
                owned(basis)
            }
        },
        None => owned(basis),
    }
}

/// The label of a planned budget: `no budget` where its amount is not
/// positive; the amount alone for a fixed or unconfigured budget; else the
/// amount followed by the label of its basis in brackets. The amount is the
/// text the app's money format gives the budget.
pub open spec fn planned_label(budget: DecimalValue, amount_text: Seq<char>, basis: Seq<char>) -> Seq<
    char,
> {
    if budget.mantissa <= 0 {
        "no budget"@
    } else if basis == "fixed budget"@ || basis == "unconfigured budget"@ {
        amount_text
    } else {
        amount_text + " ("@ + basis_label(basis) + ")"@
    }
}

/// The label of a planned budget.
pub fn planned_budget_label(budget: DecimalValue, amount_text: &str, basis: &str) -> (r: String)
    ensures
        r@ == planned_label(budget, amount_text@, basis@),
{
    if budget.mantissa <= 0 {
        owned("no budget")
    } else if str_equal(basis, "fixed budget") || str_equal(basis, "unconfigured budget") {
        owned(amount_text)
    } else {
        let mut label = owned(amount_text);
        push_str(&mut label, " (");
        let basis_text = budget_basis_label(basis);
        push_str(&mut label, basis_text.as_str());
        push_str(&mut label, ")");
        label
    }
}

/// `n / d` rounded to one decimal, in tenths, a tie going to the even
/// number of tenths.
pub open spec fn rounded_tenths(n: nat, d: nat) -> nat
    recommends
        d > 0,
{
    let q = (n * 10) / d;
    let r = (n * 10) % d;
    if 2 * r > d || (2 * r == d && q % 2 == 1) {
        q + 1
    } else {
        q
    }
}

/// A number of tenths written with one decimal.
pub open spec fn tenths_text(t: nat) -> Seq<char> {
    decimal(t / 10) + "."@ + decimal(t % 10)
}

/// The size of a file: in megabytes or kilobytes with one decimal from a
/// kilobyte on, else in bytes.
pub open spec fn size_text(size: nat) -> Seq<char> {
    if size >= 1_048_576 {
        tenths_text(rounded_tenths(size, 1_048_576)) + " MB"@
    } else if size >= 1024 {
        tenths_text(rounded_tenths(size, 1024)) + " KB"@
    } else {
        decimal(size) + " bytes"@
    }
}

/// Writes a size rounded to one decimal of a unit.
fn tenths_of_unit(size: u64, unit: u64) -> (r: String)
    requires
        unit > 0,
    ensures
        r@ == tenths_text(rounded_tenths(size as nat, unit as nat)),
{
    let scaled: u128 = (size as u128) * 10;
    let q: u128 = scaled / (unit as u128);
    let rest: u128 = scaled % (unit as u128);
    let t: u128 = if 2 * rest > unit as u128 || (2 * rest == unit as u128 && q % 2 == 1) {
        q + 1
    } else {
        q
    };
    assert(q <= scaled) by (nonlinear_arith)
        requires
            q == scaled / (unit as u128),
            unit > 0,
    ;
    let whole = decimal_string((t / 10) as u64);
    let fraction = decimal_string((t % 10) as u64);
    let mut text = whole;
    push_str(&mut text, ".");
    push_str(&mut text, fraction.as_str());
    text
}

/// The size of a file. The number is the exact quotient rounded, which is
/// what formatting it as an `f64` gives for every size below 2^53 bytes.
pub fn format_size(size: u64) -> (r: String)
    ensures
        r@ == size_text(size as nat),
{
    if size >= 1_048_576 {
        let mut text = tenths_of_unit(size, 1_048_576);
        push_str(&mut text, " MB");
        text
    } else if size >= 1024 {
        let mut text = tenths_of_unit(size, 1024);
        push_str(&mut text, " KB");
        text
    } else {
        let mut text = decimal_string(size);
        push_str(&mut text, " bytes");
        text
    }
}

/// A financial metric the overview shows.
#[derive(Clone, Copy, Debug, PartialEq, Eq)]
pub enum FinancialMetric {
    Income,
    Expenses,
    Balance,
}

/// The order in which the financial metrics are shown: the balance last.
pub fn financial_metric_order() -> (r: [FinancialMetric; 3])
    ensures
        r@ == seq![FinancialMetric::Income, FinancialMetric::Expenses, FinancialMetric::Balance],
{
    let r = [FinancialMetric::Income, FinancialMetric::Expenses, FinancialMetric::Balance];
    assert(r@ == seq![FinancialMetric::Income, FinancialMetric::Expenses, FinancialMetric::Balance]);
    r
}

} // verus!
