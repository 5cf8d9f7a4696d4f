//! The order of texts and of other keys that are compared piece by piece.

use vstd::prelude::*;

use crate::text::chars_of;

verus! {

/// Lexicographic order: the first place where two sequences differ decides,
/// and a sequence comes before its own continuations.
pub open spec fn before(a: Seq<int>, b: Seq<int>) -> bool
    decreases a.len(),
{
    if b.len() == 0 {
        false
    } else if a.len() == 0 {
        true
    } else if a[0] != b[0] {
        a[0] < b[0]
    } else {
        before(a.skip(1), b.skip(1))
    }
}

pub open spec fn codes(s: Seq<char>) -> Seq<int> {
    Seq::new(s.len(), |i: int| s[i] as int)
}

/// The order of texts: by the code points of their characters.
pub open spec fn text_before(a: Seq<char>, b: Seq<char>) -> bool {
    before(codes(a), codes(b))
}

/// The order has no sequence before itself, and is transitive.
pub proof fn lemma_before_strict(a: Seq<int>, b: Seq<int>, c: Seq<int>)
    ensures
        !before(a, a),
        before(a, b) ==> !before(b, a),
        before(a, b) && before(b, c) ==> before(a, c),
    decreases a.len(),
{
    if a.len() > 0 {
        lemma_before_strict(a.skip(1), a.skip(1), a.skip(1));
        if b.len() > 0 {
            lemma_before_strict(a.skip(1), b.skip(1), b.skip(1));
            if c.len() > 0 {
                lemma_before_strict(a.skip(1), b.skip(1), c.skip(1));
            }
        }
    }
}

/// Any two different sequences are in order one way or the other.
pub proof fn lemma_before_total(a: Seq<int>, b: Seq<int>)
    ensures
        a == b || before(a, b) || before(b, a),
    decreases a.len(),
{
    if a.len() == 0 && b.len() == 0 {
        assert(a =~= b);
    } else if a.len() > 0 && b.len() > 0 && a[0] == b[0] {
        lemma_before_total(a.skip(1), b.skip(1));
        if a.skip(1) == b.skip(1) {
            assert(a.skip(1).len() == b.skip(1).len());
            assert forall|i: int| 0 <= i < a.len() implies a[i] == b[i] by {
                if i > 0 {
                    assert(a.skip(1)[i - 1] == b.skip(1)[i - 1]);
                }
            }
            assert(a =~= b);
        }
    }
}

/// Different texts have different codes.
pub proof fn lemma_codes_injective(a: Seq<char>, b: Seq<char>)
    ensures
        codes(a) == codes(b) ==> a == b,
{
    if codes(a) == codes(b) {
        assert(codes(a).len() == codes(b).len());
        assert forall|i: int| 0 <= i < a.len() implies a[i] == b[i] by {
            assert(codes(a)[i] == codes(b)[i]);
        }
        assert(a =~= b);
    }
}

/// The order of texts is strict and total.
pub proof fn lemma_text_before(a: Seq<char>, b: Seq<char>, c: Seq<char>)
    ensures
        !text_before(a, a),
        text_before(a, b) ==> !text_before(b, a) && a != b,
        text_before(a, b) && text_before(b, c) ==> text_before(a, c),
        a == b || text_before(a, b) || text_before(b, a),
{
    lemma_before_strict(codes(a), codes(b), codes(c));
    lemma_before_total(codes(a), codes(b));
    lemma_codes_injective(a, b);
}

/// Whether sequences that agree up to `i` are in order is decided from `i` on.
pub proof fn lemma_before_skip(a: Seq<int>, b: Seq<int>, i: int)
    requires
        0 <= i <= a.len(),
        i <= b.len(),
        forall|j: int| 0 <= j < i ==> a[j] == b[j],
    ensures
        before(a, b) == before(a.skip(i), b.skip(i)),
    decreases i,
{
    if i > 0 {
        assert(a[0] == b[0]);
        lemma_before_skip(a.skip(1), b.skip(1), i - 1);
        assert(a.skip(1).skip(i - 1) =~= a.skip(i));
        assert(b.skip(1).skip(i - 1) =~= b.skip(i));
    } else {
        assert(a.skip(0) =~= a);
        assert(b.skip(0) =~= b);
    }
}

/// Numbers as integers.
pub open spec fn ints(s: Seq<u64>) -> Seq<int> {
    Seq::new(s.len(), |i: int| s[i] as int)
}

pub fn keys_before(a: &[u64], b: &[u64]) -> (r: bool)
    ensures
        r == before(ints(a@), ints(b@)),
{
    let mut i: usize = 0;
    while i < a.len() && i < b.len() && a[i] == b[i]
        invariant
            i <= a.len(),
            i <= b.len(),
            forall|j: int| 0 <= j < i ==> a@[j] == b@[j],
        decreases a.len() - i,
    {
        i = i + 1;
    }
    proof {
        lemma_before_skip(ints(a@), ints(b@), i as int);
    }
    i < b.len() && (i == a.len() || a[i] < b[i])
}

pub fn text_comes_before(a: &str, b: &str) -> (r: bool)
    ensures
        r == text_before(a@, b@),
{
    let x: Vec<char> = chars_of(a);
    let y: Vec<char> = chars_of(b);
    let mut i: usize = 0;
    while i < x.len() && i < y.len() && x[i] == y[i]
        invariant
            i <= x.len(),
            i <= y.len(),
            forall|j: int| 0 <= j < i ==> x@[j] == y@[j],
        decreases x.len() - i,
    {
        i = i + 1;
    }
    proof {
        lemma_before_skip(codes(a@), codes(b@), i as int);
    }
    i < y.len() && (i == x.len() || x[i] < y[i])
}

/// Texts in ascending order, none of them twice.
pub open spec fn ascending(list: Seq<Seq<char>>) -> bool {
    forall|i: int, j: int| 0 <= i < j < list.len() ==> text_before(#[trigger] list[i], #[trigger] list[j])
}

/// One sequence comes before another exactly where it stops first, or is
/// smaller at the first place where they differ.
pub proof fn law_first_difference_decides(a: Seq<int>, b: Seq<int>, n: int)
    requires
        0 <= n <= a.len(),
        n <= b.len(),
        a.take(n) == b.take(n),
        n == a.len() || n == b.len() || a[n] != b[n],
    ensures
        before(a, b) == (n < b.len() && (n == a.len() || a[n] < b[n])),
{
    assert forall|i: int| 0 <= i < n implies a[i] == b[i] by {
        assert(a.take(n)[i] == a[i]);
        assert(b.take(n)[i] == b[i]);
    }
    lemma_before_skip(a, b, n);
}

/// Texts in ascending order are different from each other, and one that comes
/// after the last of them can follow.
pub proof fn law_ascending_lists_grow(list: Seq<Seq<char>>, next: Seq<char>)
    requires
        ascending(list),
        list.len() > 0 ==> text_before(list.last(), next),
    ensures
        list.no_duplicates(),
        ascending(list.push(next)),
        ascending(Seq::empty()),
{
    let longer = list.push(next);
    assert forall|i: int, j: int| 0 <= i < j < longer.len() implies text_before(
        #[trigger] longer[i],
        #[trigger] longer[j],
    ) by {
        if j == list.len() && i < list.len() - 1 {
            assert(text_before(list[i], list[list.len() - 1]));
            lemma_before_strict(codes(list[i]), codes(list.last()), codes(next));
        }
    }
    assert forall|i: int, j: int|
        0 <= i < list.len() && 0 <= j < list.len() && i != j implies list[i] != list[j] by {
        if i < j {
            assert(text_before(list[i], list[j]));
        } else {
            assert(text_before(list[j], list[i]));
        }
        lemma_before_strict(codes(list[i]), codes(list[i]), codes(list[i]));
    }
}

} // verus!
