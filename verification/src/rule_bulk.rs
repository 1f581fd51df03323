//! The messages the bulk edits of the rules show: grouping compatible rules
//! next to each other, combining adjacent compatible rules, and cleaning out
//! rules whose budget is gone.
use vstd::prelude::*;

use crate::text::{decimal, decimal_string, owned, push_str};

verus! {

/// The message grouping the rules shows, for the number of groups of
/// compatible rules and whether the order changed.
pub open spec fn group_status_text(grouped_groups: nat, changed: bool) -> Seq<char> {
    if grouped_groups == 0 {
        "No compatible rules to group."@
    } else if !changed {
        "Compatible rules are already grouped. Use Combine."@
    } else {
        "Grouped compatible rules into "@ + decimal(grouped_groups)
            + " group(s). Review order, then Combine or Save."@
    }
}

/// The message grouping the rules shows.
pub fn group_status_message(grouped_groups: usize, changed: bool) -> (r: String)
    ensures
        r@ == group_status_text(grouped_groups as nat, changed),
{
    if grouped_groups == 0 {
        return owned("No compatible rules to group.");
    }
    if !changed {
        return owned("Compatible rules are already grouped. Use Combine.");
    }
    let mut message = owned("Grouped compatible rules into ");
    let count = decimal_string(grouped_groups as u64);
    push_str(&mut message, count.as_str());
    push_str(&mut message, " group(s). Review order, then Combine or Save.");
    message
}

/// The message combining the rules shows, for the number of rules before
/// and after and the number of groups combined.
pub open spec fn combine_status_text(before: nat, after: nat, groups: nat) -> Seq<char> {
    if before == after {
        "No adjacent compatible rules to combine. Use Group first if compatible rules are spread out."@
    } else {
        "Combined "@ + decimal(before) + " rules into "@ + decimal(after) + " rules across "@
            + decimal(groups) + " group(s). Review, then Save."@
    }
}

/// The message combining the rules shows.
pub fn combine_status_message(before: usize, after: usize, groups: usize) -> (r: String)
    ensures
        r@ == combine_status_text(before as nat, after as nat, groups as nat),
{
    if before == after {
        return owned(
            "No adjacent compatible rules to combine. Use Group first if compatible rules are spread out.",
        );
    }
    let mut message = owned("Combined ");
    let before_text = decimal_string(before as u64);
    push_str(&mut message, before_text.as_str());
    push_str(&mut message, " rules into ");
    let after_text = decimal_string(after as u64);
    push_str(&mut message, after_text.as_str());
    push_str(&mut message, " rules across ");
    let groups_text = decimal_string(groups as u64);
    push_str(&mut message, groups_text.as_str());
    push_str(&mut message, " group(s). Review, then Save.");
    message
}

/// The message cleaning out orphaned rules shows, for the number removed.
pub open spec fn clean_orphaned_status_text(removed: nat) -> Seq<char> {
    if removed == 0 {
        "No orphaned rules to clean."@
    } else {
        "Cleaned "@ + decimal(removed) + " orphaned rule(s). Review, then Save."@
    }
}

/// The message cleaning out orphaned rules shows.
pub fn clean_orphaned_status_message(removed: usize) -> (r: String)
    ensures
        r@ == clean_orphaned_status_text(removed as nat),
{
    if removed == 0 {
        return owned("No orphaned rules to clean.");
    }
    let mut message = owned("Cleaned ");
    let count = decimal_string(removed as u64);
    push_str(&mut message, count.as_str());
    push_str(&mut message, " orphaned rule(s). Review, then Save.");
    message
}

} // verus!
