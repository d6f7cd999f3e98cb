//! The order of texts: character by character, a shorter text before its
//! continuations.

use crate::text::chars_of;
use vstd::prelude::*;

verus! {

/// Whether `a` stands before `b`.
pub open spec fn before(a: Seq<char>, b: Seq<char>) -> bool
    decreases a.len(),
{
    if b.len() == 0 {
        false
    } else if a.len() == 0 {
        true
    } else if a[0] != b[0] {
        a[0] < b[0]
    } else {
        before(a.skip(1), b.skip(1))
    }
}

/// No text stands before itself.
pub proof fn law_before_irreflexive(a: Seq<char>)
    ensures
        !before(a, a),
    decreases a.len(),
{
    if a.len() > 0 {
        law_before_irreflexive(a.skip(1));
    }
}

/// Of two different texts one stands before the other.
pub proof fn law_before_total(a: Seq<char>, b: Seq<char>)
    requires
        a != b,
    ensures
        before(a, b) || before(b, a),
    decreases a.len(),
{
    if a.len() > 0 && b.len() > 0 {
        if a[0] == b[0] {
            if a.skip(1) == b.skip(1) {
                assert(a =~= seq![a[0]] + a.skip(1));
                assert(b =~= seq![b[0]] + b.skip(1));
            }
            law_before_total(a.skip(1), b.skip(1));
        }
    } else if a.len() == 0 && b.len() == 0 {
        assert(a =~= b);
    }
}

/// The order is transitive.
pub proof fn law_before_transitive(a: Seq<char>, b: Seq<char>, c: Seq<char>)
    requires
        before(a, b),
        before(b, c),
    ensures
        before(a, c),
    decreases a.len(),
{
    if a.len() > 0 && a[0] == b[0] && b[0] == c[0] {
        law_before_transitive(a.skip(1), b.skip(1), c.skip(1));
    }
}

/// Whether `a` stands before `b`.
pub fn stands_before(a: &str, b: &str) -> (r: bool)
    ensures
        r == before(a@, b@),
{
    let x = chars_of(a);
    let y = chars_of(b);
    let mut i: usize = 0;
    assert(a@.skip(0) =~= a@);
    assert(b@.skip(0) =~= b@);
    while i < x.len() && i < y.len()
        invariant
            i <= x@.len(),
            i <= y@.len(),
            x@ == a@,
            y@ == b@,
            before(a@, b@) == before(a@.skip(i as int), b@.skip(i as int)),
        decreases x@.len() - i,
    {
        proof {
            assert(a@.skip(i as int).skip(1) =~= a@.skip(i + 1));
            assert(b@.skip(i as int).skip(1) =~= b@.skip(i + 1));
        }
        if x[i] != y[i] {
            return x[i] < y[i];
        }
        i += 1;
    }
    i < y.len()
}

proof fn lemma_before_at(a: Seq<char>, b: Seq<char>, i: int)
    requires
        0 <= i <= a.len(),
        i <= b.len(),
        a.take(i) == b.take(i),
        i < a.len() && i < b.len() ==> a[i] != b[i],
        i < a.len() || i < b.len(),
    ensures
        before(a, b) == (if i == b.len() {
            false
        } else if i == a.len() {
            true
        } else {
            a[i] < b[i]
        }),
    decreases i,
{
    if i > 0 {
        assert(a.take(i)[0] == a[0]);
        assert(b.take(i)[0] == b[0]);
        assert(i < a.len() && i < b.len() ==> a.skip(1)[i - 1] == a[i] && b.skip(1)[i - 1] == b[i]);
        assert(a.skip(1).take(i - 1) == a.take(i).skip(1));
        assert(b.skip(1).take(i - 1) == b.take(i).skip(1));
        lemma_before_at(a.skip(1), b.skip(1), i - 1);
    }
}

/// Of two texts that agree up to some place and differ there, the one with
/// the smaller character stands before the other; a text stands before its
/// continuations.
pub proof fn law_first_difference_decides(a: &str, b: &str, r: bool, i: int)
    requires
        call_ensures(stands_before, (a, b), r),
        0 <= i <= a@.len(),
        i <= b@.len(),
        a@.take(i) == b@.take(i),
    ensures
        i < a@.len() && i < b@.len() && a@[i] != b@[i] ==> r == (a@[i] < b@[i]),
        i == a@.len() && i < b@.len() ==> r,
        i == b@.len() ==> !r,
{
    if i < a@.len() && i < b@.len() {
        if a@[i] != b@[i] {
            lemma_before_at(a@, b@, i);
        }
    } else if i < a@.len() || i < b@.len() {
        lemma_before_at(a@, b@, i);
    } else {
        assert(a@.take(i) == a@ && b@.take(i) == b@);
        law_before_irreflexive(a@);
    }
}

} // verus!
