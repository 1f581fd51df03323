//! How the management window is laid out and filled: its size from its
//! parent's, the tab it opens on, and the order in which loaded budgets and
//! field names are shown.
use vstd::prelude::*;

use std::collections::VecDeque;

use crate::forms::{budget_code_is_planned_income, is_planned_income_code, normalize_key, normalized_key};
use crate::order::{compare_text, lemma_text_lt_irreflexive, lemma_text_lt_transitive, text_lt};
use crate::records::{EditableAlias, EditableBudget, EditableRule};
use crate::text::{chars_of, decimal, decimal_string, owned, push_str, str_equal};

verus! {

/// How much smaller than its parent the window is, in each dimension.
pub const MANAGEMENT_DIALOG_PARENT_INSET: i32 = 48;

/// The smallest width of the window.
pub const MANAGEMENT_DIALOG_MIN_WIDTH: i32 = 320;

/// The smallest height of the window.
pub const MANAGEMENT_DIALOG_MIN_HEIGHT: i32 = 360;

/// The width of the window before its parent has a size.
pub const MANAGEMENT_DIALOG_FALLBACK_WIDTH: i32 = 1040;

/// The height of the window before its parent has a size.
pub const MANAGEMENT_DIALOG_FALLBACK_HEIGHT: i32 = 760;

/// A parent's size in one dimension: its current size once it has one, else
/// its default size.
pub fn effective_parent_dimension(current: i32, default: i32) -> (r: i32)
    ensures
        r == if current > 0 {
            current
        } else {
            default
        },
{
    if current > 0 {
        current
    } else {
        default
    }
}

/// The window's size in one dimension: the parent's less the inset, but no
/// less than the minimum, once the parent has a size; else the fallback.
pub open spec fn content_dimension(parent: int, minimum: int, fallback: int) -> int {
    if parent > 0 {
        if parent - MANAGEMENT_DIALOG_PARENT_INSET >= minimum {
            parent - MANAGEMENT_DIALOG_PARENT_INSET
        } else {
            minimum
        }
    } else {
        fallback
    }
}

/// The window's size in one dimension.
pub fn management_dialog_content_dimension(parent: i32, minimum: i32, fallback: i32) -> (r: i32)
    ensures
        r == content_dimension(parent as int, minimum as int, fallback as int),
{
    if parent > 0 {
        let inset = parent - MANAGEMENT_DIALOG_PARENT_INSET;
        if inset >= minimum {
            inset
        } else {
            minimum
        }
    } else {
        fallback
    }
}

/// The window's width and height for its parent's.
pub fn management_dialog_content_dimensions(parent_width: i32, parent_height: i32) -> (r: (i32, i32))
    ensures
        r.0 == content_dimension(
            parent_width as int,
            MANAGEMENT_DIALOG_MIN_WIDTH as int,
            MANAGEMENT_DIALOG_FALLBACK_WIDTH as int,
        ),
        r.1 == content_dimension(
            parent_height as int,
            MANAGEMENT_DIALOG_MIN_HEIGHT as int,
            MANAGEMENT_DIALOG_FALLBACK_HEIGHT as int,
        ),
{
    (
        management_dialog_content_dimension(
            parent_width,
            MANAGEMENT_DIALOG_MIN_WIDTH,
            MANAGEMENT_DIALOG_FALLBACK_WIDTH,
        ),
        management_dialog_content_dimension(
            parent_height,
            MANAGEMENT_DIALOG_MIN_HEIGHT,
            MANAGEMENT_DIALOG_FALLBACK_HEIGHT,
        ),
    )
}

/// The window is never smaller than its minimum size, and follows its
/// parent's size less the inset wherever that is larger.
pub proof fn lemma_content_dimensions_bounded(parent: int, minimum: int, fallback: int)
    requires
        fallback >= minimum,
    ensures
        content_dimension(parent, minimum, fallback) >= minimum,
        parent > 0 ==> content_dimension(parent, minimum, fallback) >= parent
            - MANAGEMENT_DIALOG_PARENT_INSET,
{
}

/// The tab the window opens on, and the filter it starts with, for the
/// requested tab name.
pub open spec fn initial_tab(name: Seq<char>) -> (Seq<char>, Option<Seq<char>>) {
    if name == "active-rules"@ {
        ("rules"@, Some("active"@))
    } else if name == "rules"@ {
        ("rules"@, None)
    } else if name == "budgets"@ {
        ("budgets"@, None)
    } else if name == "aliases"@ {
        ("aliases"@, None)
    } else {
        ("budgets"@, None)
    }
}

/// The tab the window opens on, and the filter it starts with.
pub fn management_initial_tab(initial_tab_name: &str) -> (r: (&'static str, Option<&'static str>))
    ensures
        r.0@ == initial_tab(initial_tab_name@).0,
        r.1 matches Some(f) ==> initial_tab(initial_tab_name@).1 == Some(f@),
        r.1 is None ==> initial_tab(initial_tab_name@).1 is None,
{
    if str_equal(initial_tab_name, "active-rules") {
        ("rules", Some("active"))
    } else if str_equal(initial_tab_name, "rules") {
        ("rules", None)
    } else if str_equal(initial_tab_name, "budgets") {
        ("budgets", None)
    } else if str_equal(initial_tab_name, "aliases") {
        ("aliases", None)
    } else {
        ("budgets", None)
    }
}

/// The first budget whose code is the planned income code.
pub open spec fn first_planned_income(budgets: Seq<EditableBudget>) -> Option<EditableBudget>
    decreases budgets.len(),
{
    if budgets.len() == 0 {
        None
    } else {
        match first_planned_income(budgets.drop_last()) {
            Some(b) => Some(b),
            None => if is_planned_income_code(budgets.last().code@) {
                Some(budgets.last())
            } else {
                None
            },
        }
    }
}

/// The budgets whose code is not the planned income code, in order.
pub open spec fn regular_budgets(budgets: Seq<EditableBudget>) -> Seq<EditableBudget> {
    budgets.filter(|b: EditableBudget| !is_planned_income_code(b.code@))
}

/// Splits the loaded budgets into the planned income budget (the first with
/// its code; later ones are dropped) and the others, in order.
pub fn partition_planned_income_budget(budgets: Vec<EditableBudget>) -> (r: (
    Option<EditableBudget>,
    Vec<EditableBudget>,
))
    ensures
        r.0 == first_planned_income(budgets@),
        r.1@ == regular_budgets(budgets@),
{
    let mut planned: Option<EditableBudget> = None;
    let mut regular: Vec<EditableBudget> = Vec::new();
    let mut i: usize = 0;
    while i < budgets.len()
        invariant
            i <= budgets.len(),
            planned == first_planned_income(budgets@.take(i as int)),
            regular@ == regular_budgets(budgets@.take(i as int)),
        decreases budgets.len() - i,
    {
        proof {
            let t = budgets@.take(i as int + 1);
            assert(t.drop_last() == budgets@.take(i as int));
            assert(t.last() == budgets@[i as int]);
            reveal_with_fuel(Seq::filter, 1);
        }
        if budget_code_is_planned_income(budgets[i].code.as_str()) {
            if planned.is_none() {
                planned = Some(budgets[i].duplicate());
            }
        } else {
            regular.push(budgets[i].duplicate());
        }
        i += 1;
    }
    assert(budgets@.take(budgets.len() as int) == budgets@);
    (planned, regular)
}

/// The budgets in the order the window shows them: the planned income budget
/// first, then the others in their saved order.
pub open spec fn ordered_budgets(budgets: Seq<EditableBudget>) -> Seq<EditableBudget> {
    match first_planned_income(budgets) {
        Some(b) => seq![b] + regular_budgets(budgets),
        None => regular_budgets(budgets),
    }
}

/// Orders the loaded budgets: the planned income budget first.
pub fn ordered_management_budgets(budgets: Vec<EditableBudget>) -> (r: Vec<EditableBudget>)
    ensures
        r@ == ordered_budgets(budgets@),
{
    let (planned, mut regular) = partition_planned_income_budget(budgets);
    let mut ordered: Vec<EditableBudget> = Vec::new();
    match planned {
        Some(b) => {
            ordered.push(b);
        },
        None => {},
    }
    ordered.append(&mut regular);
    ordered
}

/// The queue of budgets to show, in their saved order.
pub fn budget_forms_queue(budgets: Vec<EditableBudget>) -> (r: VecDeque<EditableBudget>)
    ensures
        r@ == budgets@,
{
    let mut queue: VecDeque<EditableBudget> = VecDeque::new();
    let mut i: usize = 0;
    while i < budgets.len()
        invariant
            i <= budgets.len(),
            queue@ == budgets@.take(i as int),
        decreases budgets.len() - i,
    {
        queue.push_back(budgets[i].duplicate());
        assert(budgets@.take(i as int + 1) == budgets@.take(i as int).push(budgets@[i as int]));
        i += 1;
    }
    assert(budgets@.take(budgets.len() as int) == budgets@);
    queue
}

/// The key by which field names are sorted: the normalized key of the name
/// the bank's file uses.
pub fn alias_sort_text(alias: &EditableAlias) -> (r: String)
    ensures
        r@ == normalized_key(alias.alias@),
{
    normalize_key(alias.alias.as_str())
}

/// Whether one field name comes before another: by the normalized key of the
/// bank's name, then by the field it stands for, then by the bank's name.
pub open spec fn alias_lt(x: EditableAlias, y: EditableAlias) -> bool {
    let kx = normalized_key(x.alias@);
    let ky = normalized_key(y.alias@);
    ||| text_lt(kx, ky)
    ||| kx == ky && text_lt(x.canonical@, y.canonical@)
    ||| kx == ky && x.canonical@ == y.canonical@ && text_lt(x.alias@, y.alias@)
}

/// Whether field names are in order.
pub open spec fn aliases_sorted(s: Seq<EditableAlias>) -> bool {
    forall|i: int, j: int| 0 <= i < j < s.len() ==> !alias_lt(#[trigger] s[j], #[trigger] s[i])
}

/// The order of field names is transitive.
pub proof fn lemma_alias_lt_transitive(x: EditableAlias, y: EditableAlias, z: EditableAlias)
    requires
        alias_lt(x, y),
        alias_lt(y, z),
    ensures
        alias_lt(x, z),
{
    let kx = normalized_key(x.alias@);
    let ky = normalized_key(y.alias@);
    let kz = normalized_key(z.alias@);
    if text_lt(kx, ky) && text_lt(ky, kz) {
        lemma_text_lt_transitive(kx, ky, kz);
    }
    if kx == ky && ky == kz {
        if text_lt(x.canonical@, y.canonical@) && text_lt(y.canonical@, z.canonical@) {
            lemma_text_lt_transitive(x.canonical@, y.canonical@, z.canonical@);
        }
        if x.canonical@ == y.canonical@ && y.canonical@ == z.canonical@ && text_lt(
            x.alias@,
            y.alias@,
        ) && text_lt(y.alias@, z.alias@) {
            lemma_text_lt_transitive(x.alias@, y.alias@, z.alias@);
        }
    }
}

/// No field name comes both before and after another.
pub proof fn lemma_alias_lt_asymmetric(x: EditableAlias, y: EditableAlias)
    requires
        alias_lt(x, y),
    ensures
        !alias_lt(y, x),
{
    if alias_lt(y, x) {
        lemma_alias_lt_transitive(x, y, x);
        lemma_text_lt_irreflexive(normalized_key(x.alias@));
        lemma_text_lt_irreflexive(x.canonical@);
        lemma_text_lt_irreflexive(x.alias@);
    }
}

/// Whether one field name comes before another.
fn alias_before(x: &EditableAlias, x_key: &[char], y: &EditableAlias, y_key: &[char]) -> (r: bool)
    requires
        x_key@ == normalized_key(x.alias@),
        y_key@ == normalized_key(y.alias@),
    ensures
        r == alias_lt(*x, *y),
{
    let by_key = compare_text(x_key, y_key);
    if by_key != 0 {
        return by_key < 0;
    }
    let xc = chars_of(x.canonical.as_str());
    let yc = chars_of(y.canonical.as_str());
    let by_canonical = compare_text(xc.as_slice(), yc.as_slice());
    if by_canonical != 0 {
        return by_canonical < 0;
    }
    let xa = chars_of(x.alias.as_str());
    let ya = chars_of(y.alias.as_str());
    compare_text(xa.as_slice(), ya.as_slice()) < 0
}

/// The queue of field names to show, sorted by the bank's name.
pub fn alias_forms_queue(aliases: Vec<EditableAlias>) -> (r: VecDeque<EditableAlias>)
    ensures
        r@.to_multiset() == aliases@.to_multiset(),
        aliases_sorted(r@),
{
    broadcast use vstd::seq_lib::group_to_multiset_ensures;

    let mut sorted: Vec<EditableAlias> = Vec::new();
    let mut keys: Vec<Vec<char>> = Vec::new();
    let mut i: usize = 0;
    while i < aliases.len()
        invariant
            i <= aliases.len(),
            sorted@.to_multiset() == aliases@.take(i as int).to_multiset(),
            aliases_sorted(sorted@),
            keys@.len() == sorted@.len(),
            forall|k: int|
                0 <= k < sorted@.len() ==> #[trigger] keys@[k]@ == normalized_key(sorted@[k].alias@),
        decreases aliases.len() - i,
    {
        let x = aliases[i].duplicate();
        let x_key = chars_of(alias_sort_text(&x).as_str());
        let mut p: usize = 0;
        while p < sorted.len() && !alias_before(&x, x_key.as_slice(), &sorted[p], keys[p].as_slice())
            invariant
                p <= sorted.len(),
                keys@.len() == sorted@.len(),
                x_key@ == normalized_key(x.alias@),
                forall|k: int|
                    0 <= k < sorted@.len() ==> #[trigger] keys@[k]@ == normalized_key(
                        sorted@[k].alias@,
                    ),
                forall|k: int| 0 <= k < p ==> !alias_lt(x, #[trigger] sorted@[k]),
            decreases sorted.len() - p,
        {
            p += 1;
        }
        let ghost before = sorted@;
        proof {
            assert forall|a: int, b: int|
                0 <= a < b < before.len() + 1 implies !alias_lt(
                #[trigger] before.insert(p as int, x)[b],
                #[trigger] before.insert(p as int, x)[a],
            ) by {
                let s = before.insert(p as int, x);
                if a < p && b == p {
                } else if a == p && b > p {
                    let m = b - 1;
                    if alias_lt(before[m], x) {
                        if m > p {
                            lemma_alias_lt_transitive(before[m], x, before[p as int]);
                        } else {
                            lemma_alias_lt_asymmetric(before[m], x);
                        }
                    }
                } else if a < p && b < p {
                    assert(s[a] == before[a] && s[b] == before[b]);
                } else if a < p && b > p {
                    assert(s[a] == before[a] && s[b] == before[b - 1]);
                } else {
                    assert(s[a] == before[a - 1] && s[b] == before[b - 1]);
                }
            }
        }
        sorted.insert(p, x);
        keys.insert(p, x_key);
        proof {
            assert(aliases@.take(i as int + 1) == aliases@.take(i as int).push(aliases@[i as int]));
            vstd::seq_lib::to_multiset_insert(before, p as int, x);
            vstd::seq_lib::to_multiset_build(aliases@.take(i as int), aliases@[i as int]);
            assert forall|k: int| 0 <= k < sorted@.len() implies #[trigger] keys@[k]@
                == normalized_key(sorted@[k].alias@) by {
                if k < p {
                } else if k == p {
                } else {
                    assert(sorted@[k] == before[k - 1]);
                }
            }
        }
        i += 1;
    }
    assert(aliases@.take(aliases.len() as int) == aliases@);
    let mut queue: VecDeque<EditableAlias> = VecDeque::new();
    let mut j: usize = 0;
    while j < sorted.len()
        invariant
            j <= sorted.len(),
            queue@ == sorted@.take(j as int),
        decreases sorted.len() - j,
    {
        queue.push_back(sorted[j].duplicate());
        assert(sorted@.take(j as int + 1) == sorted@.take(j as int).push(sorted@[j as int]));
        j += 1;
    }
    assert(sorted@.take(sorted.len() as int) == sorted@);
    queue
}

/// What loading the management data gave: for each kind of record, the
/// records to show or the message of the error that stopped the load.
pub struct ManagementLoadedForms {
    pub rules: Result<VecDeque<EditableRule>, String>,
    pub budgets: Result<VecDeque<EditableBudget>, String>,
    pub aliases: Result<VecDeque<EditableAlias>, String>,
}

/// The count a load result is reported with: the number of records, or
/// `error`.
pub open spec fn loaded_count_text<T>(result: Result<VecDeque<T>, String>) -> Seq<char> {
    match result {
        Ok(items) => decimal(items@.len()),
        Err(_) => "error"@,
    }
}

/// The count a load result is reported with.
pub fn management_loaded_count<T>(result: &Result<VecDeque<T>, String>) -> (r: String)
    ensures
        r@ == loaded_count_text(*result),
{
    match result {
        Ok(items) => decimal_string(items.len() as u64),
        Err(_) => owned("error"),
    }
}

/// The summary of a load: the count of each kind of record.
pub open spec fn loaded_summary_text(loaded: ManagementLoadedForms) -> Seq<char> {
    "rules="@ + loaded_count_text(loaded.rules) + "; budgets="@ + loaded_count_text(loaded.budgets)
        + "; aliases="@ + loaded_count_text(loaded.aliases)
}

/// The summary of a load.
pub fn management_loaded_forms_summary(loaded: &ManagementLoadedForms) -> (r: String)
    ensures
        r@ == loaded_summary_text(*loaded),
{
    let mut s = owned("rules=");
    let rules = management_loaded_count(&loaded.rules);
    push_str(&mut s, rules.as_str());
    push_str(&mut s, "; budgets=");
    let budgets = management_loaded_count(&loaded.budgets);
    push_str(&mut s, budgets.as_str());
    push_str(&mut s, "; aliases=");
    let aliases = management_loaded_count(&loaded.aliases);
    push_str(&mut s, aliases.as_str());
    s
}

/// The menu the header offers beside the add button.
#[derive(Clone, Copy, Debug, PartialEq, Eq)]
pub enum HeaderMenu {
    /// The rule actions, in the rules menu button.
    RuleActions,
    /// The budget actions, in the budgets menu button.
    BudgetActions,
    /// The configuration actions, in the budgets menu button.
    ConfigurationActions,
}

/// What the header shows for a page: the add button's tooltip, the menu
/// beside it and that menu's tooltip.
pub struct HeaderActionState {
    pub add_tooltip: String,
    pub menu: HeaderMenu,
    pub menu_tooltip: String,
}

/// The header for a page: rules offer rule actions; field names offer the
/// configuration actions; budgets (any other page) offer budget actions with
/// advanced features, else the configuration actions.
pub open spec fn header_for(page: Seq<char>, advanced_features: bool) -> (Seq<char>, HeaderMenu, Seq<
    char,
>) {
    if page == "rules"@ {
        ("Create a new rule"@, HeaderMenu::RuleActions, "Rule actions"@)
    } else if page == "aliases"@ {
        ("Create a new field name"@, HeaderMenu::ConfigurationActions, "Configuration actions"@)
    } else if advanced_features {
        ("Create a new budget"@, HeaderMenu::BudgetActions, "Budget actions"@)
    } else {
        (
            "Create a new category with monthly or yearly amounts"@,
            HeaderMenu::ConfigurationActions,
            "Configuration actions"@,
        )
    }
}

/// What the header shows for the visible page.
pub fn header_action_state(page: &str, advanced_features: bool) -> (r: HeaderActionState)
    ensures
        (r.add_tooltip@, r.menu, r.menu_tooltip@) == header_for(page@, advanced_features),
{
    if str_equal(page, "rules") {
        HeaderActionState {
            add_tooltip: owned("Create a new rule"),
            menu: HeaderMenu::RuleActions,
            menu_tooltip: owned("Rule actions"),
        }
    } else if str_equal(page, "aliases") {
        HeaderActionState {
            add_tooltip: owned("Create a new field name"),
            menu: HeaderMenu::ConfigurationActions,
            menu_tooltip: owned("Configuration actions"),
        }
    } else if advanced_features {
        HeaderActionState {
            add_tooltip: owned("Create a new budget"),
            menu: HeaderMenu::BudgetActions,
            menu_tooltip: owned("Budget actions"),
        }
    } else {
        HeaderActionState {
            add_tooltip: owned("Create a new category with monthly or yearly amounts"),
            menu: HeaderMenu::ConfigurationActions,
            menu_tooltip: owned("Configuration actions"),
        }
    }
}

} // verus!
