use vstd::prelude::*;

verus! {

/// `s` cut, in order, into consecutive pieces of `size` elements; the last
/// piece holds what is left. An empty sequence has no pieces.
pub open spec fn chunked<T>(s: Seq<T>, size: nat) -> Seq<Seq<T>>
    decreases s.len(),
{
    if s.len() == 0 {
        Seq::empty()
    } else if s.len() <= size || size == 0 {
        seq![s]
    } else {
        seq![s.take(size as int)] + chunked(s.skip(size as int), size)
    }
}

/// All pieces concatenated.
pub open spec fn flattened<T>(pieces: Seq<Seq<T>>) -> Seq<T>
    decreases pieces.len(),
{
    if pieces.len() == 0 {
        Seq::empty()
    } else {
        pieces[0] + flattened(pieces.drop_first())
    }
}

/// Chunking keeps every element once and in order, every piece is non-empty
/// and at most `size` long, and every piece but the last is exactly `size`
/// long.
pub proof fn lemma_chunked_shape<T>(s: Seq<T>, size: nat)
    requires
        size > 0,
    ensures
        flattened(chunked(s, size)) == s,
        forall|c: int| 0 <= c < chunked(s, size).len() ==> 0 < #[trigger] chunked(s, size)[c].len() <= size,
        forall|c: int| 0 <= c < chunked(s, size).len() - 1 ==> #[trigger] chunked(s, size)[c].len() == size,
    decreases s.len(),
{
    if s.len() == 0 {
    } else if s.len() <= size {
        assert(flattened(seq![s]) =~= s + flattened(seq![s].drop_first()));
        assert(s + Seq::<T>::empty() =~= s);
    } else {
        let rest = s.skip(size as int);
        lemma_chunked_shape(rest, size);
        let pieces = chunked(s, size);
        assert(pieces.drop_first() =~= chunked(rest, size));
        assert(s.take(size as int) + rest =~= s);
        assert forall|c: int| 0 <= c < pieces.len() implies 0 < #[trigger] pieces[c].len() <= size by {
            if c > 0 {
                assert(pieces[c] == chunked(rest, size)[c - 1]);
            }
        }
        assert forall|c: int| 0 <= c < pieces.len() - 1 implies #[trigger] pieces[c].len() == size by {
            if c > 0 {
                assert(pieces[c] == chunked(rest, size)[c - 1]);
            }
        }
    }
}

/// A non-empty sequence no longer than `size` is one chunk.
pub proof fn lemma_small_is_one_chunk<T>(s: Seq<T>, size: nat)
    requires
        0 < s.len() <= size,
    ensures
        chunked(s, size) == seq![s],
{
}

/// Chunking commutes with mapping every element.
pub proof fn lemma_chunked_map<A, B>(s: Seq<A>, size: nat, f: spec_fn(A) -> B)
    ensures
        chunked(s.map_values(f), size) == chunked(s, size).map_values(|p: Seq<A>| p.map_values(f)),
    decreases s.len(),
{
    let m = s.map_values(f);
    if s.len() == 0 {
        assert(chunked(s, size).map_values(|p: Seq<A>| p.map_values(f)) =~= Seq::<Seq<B>>::empty());
    } else if s.len() <= size || size == 0 {
        assert(chunked(s, size).map_values(|p: Seq<A>| p.map_values(f)) =~= seq![m]);
    } else {
        let rest = s.skip(size as int);
        lemma_chunked_map(rest, size, f);
        assert(m.take(size as int) =~= s.take(size as int).map_values(f));
        assert(m.skip(size as int) =~= rest.map_values(f));
        assert(chunked(s, size).map_values(|p: Seq<A>| p.map_values(f)) =~= seq![
            s.take(size as int).map_values(f),
        ] + chunked(rest, size).map_values(|p: Seq<A>| p.map_values(f)));
    }
}

/// The elements of `items` in pieces of `size`, as `chunked` describes.
pub fn split_into_chunks<T: Copy>(items: &Vec<T>, size: usize) -> (pieces: Vec<Vec<T>>)
    requires
        size > 0,
    ensures
        pieces@.map_values(|p: Vec<T>| p@) == chunked(items@, size as nat),
{
    let n = items.len();
    let mut pieces: Vec<Vec<T>> = Vec::new();
    let mut start: usize = 0;
    assert(items@.skip(0) =~= items@);
    assert(pieces@.map_values(|p: Vec<T>| p@) =~= Seq::<Seq<T>>::empty());
    assert(Seq::<Seq<T>>::empty() + chunked(items@, size as nat) =~= chunked(items@, size as nat));
    while start < n
        invariant
            n == items@.len(),
            size > 0,
            start <= n,
            pieces@.map_values(|p: Vec<T>| p@) + chunked(items@.skip(start as int), size as nat)
                == chunked(items@, size as nat),
        decreases n - start,
    {
        let end: usize = if n - start > size {
            start + size
        } else {
            n
        };
        let mut piece: Vec<T> = Vec::new();
        let mut k: usize = start;
        while k < end
            invariant
                n == items@.len(),
                start <= k <= end <= n,
                piece@ == items@.subrange(start as int, k as int),
            decreases end - k,
        {
            piece.push(items[k]);
            k = k + 1;
            assert(piece@ =~= items@.subrange(start as int, k as int));
        }
        let ghost rest = items@.skip(start as int);
        let ghost old_pieces = pieces@;
        proof {
            if end < n {
                assert(rest.take(size as int) =~= piece@);
                assert(rest.skip(size as int) =~= items@.skip(end as int));
            } else {
                assert(rest =~= piece@);
                assert(items@.skip(end as int) =~= Seq::<T>::empty());
            }
        }
        pieces.push(piece);
        start = end;
        proof {
            assert(pieces@.map_values(|p: Vec<T>| p@) =~= old_pieces.map_values(|p: Vec<T>| p@).push(piece@));
            assert(chunked(rest, size as nat) =~= seq![piece@] + chunked(items@.skip(end as int), size as nat));
            assert(pieces@.map_values(|p: Vec<T>| p@) + chunked(items@.skip(start as int), size as nat)
                =~= old_pieces.map_values(|p: Vec<T>| p@) + chunked(rest, size as nat));
        }
    }
    assert(items@.skip(n as int) =~= Seq::<T>::empty());
    assert(pieces@.map_values(|p: Vec<T>| p@) + Seq::<Seq<T>>::empty() =~= pieces@.map_values(|p: Vec<T>| p@));
    pieces
}

} // verus!
