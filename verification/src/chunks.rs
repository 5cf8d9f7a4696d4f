//! Long lists, cut into pieces of bounded length.

use vstd::prelude::*;

verus! {

/// A list in pieces: each as long as `size` allows, in order, none empty.
pub open spec fn pieces<A>(s: Seq<A>, size: int) -> Seq<Seq<A>>
    decreases s.len(),
{
    if s.len() == 0 || size <= 0 {
        Seq::empty()
    } else if s.len() <= size {
        seq![s]
    } else {
        seq![s.take(size)] + pieces(s.skip(size), size)
    }
}

/// The pieces of a list, one after the other.
pub open spec fn assembled<A>(list: Seq<Seq<A>>) -> Seq<A>
    decreases list.len(),
{
    if list.len() == 0 {
        Seq::empty()
    } else {
        list[0] + assembled(list.skip(1))
    }
}

/// Where the piece that starts at `from` ends.
pub fn piece_end(len: usize, from: usize, size: usize) -> (to: usize)
    requires
        from < len,
        size > 0,
    ensures
        from < to <= len,
        to == (if len - from <= size {
            len as int
        } else {
            from + size
        }),
{
    if len - from <= size {
        len
    } else {
        from + size
    }
}

/// What is left of a list from `from` on falls into the piece up to `to` and
/// the pieces of what is left after it.
pub proof fn lemma_next_piece<A>(s: Seq<A>, size: int, from: int, to: int)
    requires
        0 <= from < s.len(),
        size > 0,
        to == (if s.len() - from <= size {
            s.len() as int
        } else {
            from + size
        }),
    ensures
        pieces(s.skip(from), size) == seq![s.subrange(from, to)] + pieces(s.skip(to), size),
{
    let rest = s.skip(from);
    if rest.len() <= size {
        assert(rest =~= s.subrange(from, to));
        assert(s.skip(to) =~= Seq::<A>::empty());
        assert(pieces(s.skip(to), size) =~= Seq::<Seq<A>>::empty());
        assert(seq![rest] + Seq::<Seq<A>>::empty() =~= seq![rest]);
    } else {
        assert(rest.take(size) =~= s.subrange(from, to));
        assert(rest.skip(size) =~= s.skip(to));
    }
}

/// Cutting a list into pieces loses nothing and changes no order, and each
/// piece has from one to `size` elements.
pub proof fn law_pieces_assemble<A>(s: Seq<A>, size: int)
    requires
        size > 0,
    ensures
        assembled(pieces(s, size)) == s,
        forall|i: int|
            0 <= i < pieces(s, size).len() ==> 0 < (#[trigger] pieces(s, size)[i]).len() <= size,
        (pieces(s, size).len() == 0) == (s.len() == 0),
    decreases s.len(),
{
    if s.len() == 0 {
        assert(s =~= Seq::<A>::empty());
    } else if s.len() <= size {
        assert(seq![s].skip(1) =~= Seq::<Seq<A>>::empty());
        assert(assembled(Seq::<Seq<A>>::empty()) =~= Seq::<A>::empty());
        assert(s + Seq::<A>::empty() =~= s);
        assert(assembled(seq![s]) == s + assembled(seq![s].skip(1)));
    } else {
        let rest = s.skip(size);
        law_pieces_assemble(rest, size);
        let all = pieces(s, size);
        assert(all.skip(1) =~= pieces(rest, size));
        assert(s.take(size) + rest =~= s);
        assert forall|i: int| 0 <= i < all.len() implies 0 < (#[trigger] all[i]).len() <= size by {
            if i > 0 {
                assert(all[i] == pieces(rest, size)[i - 1]);
            }
        }
    }
}

} // verus!
