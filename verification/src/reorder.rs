//! Moving a form to another place in its list, as dragging it does.
use vstd::prelude::*;

verus! {

/// Whether moving the item at `source` to the boundary `target` (the gap
/// before the item at `target`, or the end) changes anything: the source is
/// an item, the boundary is within the list, and it is not one of the two
/// gaps next to the item.
pub open spec fn move_applies(len: nat, source: nat, target: nat) -> bool {
    source < len && target <= len && target != source && target != source + 1
}

/// Where the moved item lands once it is taken out of the list.
pub open spec fn landing_index(source: nat, target: nat) -> nat {
    if source < target {
        (target - 1) as nat
    } else {
        target
    }
}

/// The list after moving the item at `source` to the boundary `target`; the
/// list unchanged where the move does not apply.
pub open spec fn moved<T>(items: Seq<T>, source: nat, target: nat) -> Seq<T> {
    if move_applies(items.len(), source, target) {
        items.remove(source as int).insert(landing_index(source, target) as int, items[source as int])
    } else {
        items
    }
}

/// Moves the item at `source` to the boundary `target`, and answers whether
/// anything moved.
pub fn move_item_to_boundary<T>(items: &mut Vec<T>, source_index: usize, target_boundary: usize) -> (r:
    bool)
    ensures
        r == move_applies(old(items)@.len(), source_index as nat, target_boundary as nat),
        final(items)@ == moved(old(items)@, source_index as nat, target_boundary as nat),
{
    if source_index >= items.len() || target_boundary > items.len() || target_boundary
        == source_index || target_boundary == source_index + 1 {
        return false;
    }
    let item = items.remove(source_index);
    let insert_index = if source_index < target_boundary {
        target_boundary - 1
    } else {
        target_boundary
    };
    items.insert(insert_index, item);
    true
}

/// A move keeps every item: the list after it holds the same items, as
/// many times each.
pub proof fn lemma_move_keeps_items<T>(items: Seq<T>, source: nat, target: nat)
    ensures
        moved(items, source, target).to_multiset() == items.to_multiset(),
{
    if move_applies(items.len(), source, target) {
        let x = items[source as int];
        let rest = items.remove(source as int);
        vstd::seq_lib::to_multiset_remove(items, source as int);
        vstd::seq_lib::to_multiset_insert(rest, landing_index(source, target) as int, x);
        broadcast use vstd::multiset::group_multiset_axioms;

        assert(items.to_multiset().remove(x).insert(x) =~= items.to_multiset()) by {
            vstd::seq_lib::to_multiset_contains(items, x);
        }
    }
}

/// A move puts the item where the boundary was, once it is taken out, and
/// keeps the others in order.
pub proof fn lemma_move_places_item<T>(items: Seq<T>, source: nat, target: nat)
    requires
        move_applies(items.len(), source, target),
    ensures
        moved(items, source, target).len() == items.len(),
        moved(items, source, target)[landing_index(source, target) as int] == items[source as int],
{
}

/// Moving the item back to the boundary it came from undoes a move.
pub proof fn lemma_move_back_undoes<T>(items: Seq<T>, source: nat, target: nat)
    requires
        move_applies(items.len(), source, target),
    ensures
        moved(
            moved(items, source, target),
            landing_index(source, target),
            if source < target {
                source
            } else {
                source + 1
            },
        ) == items,
{
    let once = moved(items, source, target);
    let p = landing_index(source, target);
    let back: nat = if source < target {
        source
    } else {
        source + 1
    };
    assert(move_applies(once.len(), p, back));
    assert(landing_index(p, back) == source);
    assert(once[p as int] == items[source as int]);
    assert(once.remove(p as int) =~= items.remove(source as int));
    assert(items.remove(source as int).insert(source as int, items[source as int]) =~= items);
}

} // verus!
