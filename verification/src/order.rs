//! The order of texts that `String`'s `Ord` gives: lexicographic by
//! character (which is the order of their UTF-8 bytes), and its laws.
use vstd::prelude::*;

verus! {

/// Whether `a` comes strictly before `b`: at the first position where they
/// differ, `a` has the smaller character, or `a` is a proper prefix of `b`.
pub open spec fn text_lt(a: Seq<char>, b: Seq<char>) -> bool
    decreases a.len(),
{
    if a.len() == 0 {
        b.len() > 0
    } else if b.len() == 0 {
        false
    } else if a[0] != b[0] {
        (a[0] as int) < (b[0] as int)
    } else {
        text_lt(a.drop_first(), b.drop_first())
    }
}

/// No text comes before itself.
pub proof fn lemma_text_lt_irreflexive(a: Seq<char>)
    ensures
        !text_lt(a, a),
    decreases a.len(),
{
    if a.len() > 0 {
        lemma_text_lt_irreflexive(a.drop_first());
    }
}

/// The order is transitive.
pub proof fn lemma_text_lt_transitive(a: Seq<char>, b: Seq<char>, c: Seq<char>)
    requires
        text_lt(a, b),
        text_lt(b, c),
    ensures
        text_lt(a, c),
    decreases a.len(),
{
    if a.len() > 0 && b.len() > 0 && c.len() > 0 && a[0] == b[0] && b[0] == c[0] {
        lemma_text_lt_transitive(a.drop_first(), b.drop_first(), c.drop_first());
    }
}

/// Of two different texts, one comes before the other.
pub proof fn lemma_text_lt_total(a: Seq<char>, b: Seq<char>)
    requires
        a != b,
    ensures
        text_lt(a, b) || text_lt(b, a),
    decreases a.len(),
{
    if a.len() > 0 && b.len() > 0 && a[0] == b[0] {
        assert(a.drop_first() != b.drop_first()) by {
            if a.drop_first() == b.drop_first() {
                assert(a =~= seq![a[0]] + a.drop_first());
                assert(b =~= seq![b[0]] + b.drop_first());
            }
        }
        lemma_text_lt_total(a.drop_first(), b.drop_first());
    } else if a.len() > 0 && b.len() > 0 {
        assert((a[0] as int) != (b[0] as int));
    } else if a.len() == 0 && b.len() == 0 {
        assert(a =~= b);
    }
}

/// A text never comes both before and after another.
pub proof fn lemma_text_lt_asymmetric(a: Seq<char>, b: Seq<char>)
    requires
        text_lt(a, b),
    ensures
        !text_lt(b, a),
{
    if text_lt(b, a) {
        lemma_text_lt_transitive(a, b, a);
        lemma_text_lt_irreflexive(a);
    }
}

/// Whether `a` comes strictly before `b`, by character, from position `i` on,
/// their characters before `i` being equal.
spec fn lt_from(a: Seq<char>, b: Seq<char>, i: int) -> bool {
    text_lt(a.skip(i), b.skip(i))
}

/// Compares two texts in `String`'s order: `-1`, `0` or `1`.
pub fn compare_text(a: &[char], b: &[char]) -> (r: i8)
    ensures
        r == 0 <==> a@ == b@,
        r < 0 <==> text_lt(a@, b@),
        r > 0 <==> text_lt(b@, a@),
{
    let mut i: usize = 0;
    assert(a@.skip(0) == a@);
    assert(b@.skip(0) == b@);
    while i < a.len() && i < b.len()
        invariant
            i <= a.len(),
            i <= b.len(),
            a@.take(i as int) == b@.take(i as int),
            text_lt(a@, b@) == lt_from(a@, b@, i as int),
            text_lt(b@, a@) == lt_from(b@, a@, i as int),
        decreases a.len() - i,
    {
        proof {
            assert(a@.skip(i as int).drop_first() == a@.skip(i as int + 1));
            assert(b@.skip(i as int).drop_first() == b@.skip(i as int + 1));
        }
        if a[i] != b[i] {
            proof {
                lemma_differing_texts_differ(a@, b@, i as int);
            }
            if a[i] < b[i] {
                return -1;
            } else {
                return 1;
            }
        }
        proof {
            assert(a@.take(i as int + 1) == a@.take(i as int).push(a@[i as int]));
            assert(b@.take(i as int + 1) == b@.take(i as int).push(b@[i as int]));
        }
        i += 1;
    }
    proof {
        assert(a@.skip(i as int).len() == 0 || b@.skip(i as int).len() == 0);
        if a.len() == b.len() {
            assert(a@ == a@.take(i as int));
            assert(b@ == b@.take(i as int));
        } else if a.len() < b.len() {
            assert(a@ == a@.take(i as int));
            assert(b@.take(i as int) != b@) by {
                assert(b@.take(i as int).len() != b@.len());
            }
        } else {
            assert(b@ == b@.take(i as int));
            assert(a@.take(i as int) != a@) by {
                assert(a@.take(i as int).len() != a@.len());
            }
        }
    }
    if a.len() == b.len() {
        0
    } else if a.len() < b.len() {
        -1
    } else {
        1
    }
}

/// Texts that differ at position `i`, and agree before it, are not equal.
proof fn lemma_differing_texts_differ(a: Seq<char>, b: Seq<char>, i: int)
    requires
        0 <= i < a.len(),
        i < b.len(),
        a[i] != b[i],
    ensures
        a != b,
{
    assert(a[i] != b[i]);
}

} // verus!
