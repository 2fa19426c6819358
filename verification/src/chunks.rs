//! Bounded pieces of completed results.

use vstd::prelude::*;
use vstd::slice::slice_subrange;

verus! {

/// A sequence cut into pieces of at most `size` elements, all but the last of exactly that many.
pub open spec fn chunked<T>(all: Seq<T>, size: nat) -> Seq<Seq<T>>
    decreases all.len(),
{
    if all.len() == 0 || size == 0 {
        Seq::empty()
    } else if all.len() <= size {
        seq![all]
    } else {
        seq![all.take(size as int)] + chunked(all.skip(size as int), size)
    }
}

/// Pieces in a row.
pub open spec fn concatenated<T>(pieces: Seq<Seq<T>>) -> Seq<T>
    decreases pieces.len(),
{
    if pieces.len() == 0 {
        Seq::empty()
    } else {
        pieces[0] + concatenated(pieces.skip(1))
    }
}

/// Cutting loses nothing: the pieces in a row are the whole, each is as long as promised, and there
/// is a piece exactly when there is something to cut.
pub proof fn chunks_are_the_whole<T>(all: Seq<T>, size: nat)
    requires
        size > 0,
    ensures
        concatenated(chunked(all, size)) == all,
        chunked(all, size).len() == 0 <==> all.len() == 0,
        forall|i: int|
            0 <= i < chunked(all, size).len() ==> 0 < (#[trigger] chunked(all, size)[i]).len()
                <= size && (i < chunked(all, size).len() - 1 ==> chunked(all, size)[i].len()
                == size),
    decreases all.len(),
{
    if all.len() == 0 {
    } else if all.len() <= size {
        let pieces = chunked(all, size);
        assert(pieces.skip(1) =~= Seq::empty());
        assert(concatenated(pieces.skip(1)) =~= Seq::empty());
        assert(concatenated(pieces) =~= all);
    } else {
        let rest = all.skip(size as int);
        chunks_are_the_whole(rest, size);
        let pieces = chunked(all, size);
        assert(pieces.skip(1) =~= chunked(rest, size));
        assert(concatenated(pieces) =~= all);
        assert forall|i: int| 0 <= i < pieces.len() implies 0 < (#[trigger] pieces[i]).len() <= size
            && (i < pieces.len() - 1 ==> pieces[i].len() == size) by {
            if i > 0 {
                assert(pieces[i] == chunked(rest, size)[i - 1]);
            }
        }
    }
}

/// The views of pieces.
pub open spec fn piece_views<T>(pieces: Seq<Vec<T>>) -> Seq<Seq<T>> {
    pieces.map_values(|piece: Vec<T>| piece@)
}

/// Cuts a slice into pieces.
pub fn cut<T: Copy>(all: &[T], size: usize) -> (pieces: Vec<Vec<T>>)
    requires
        size > 0,
    ensures
        piece_views(pieces@) == chunked(all@, size as nat),
{
    let mut pieces: Vec<Vec<T>> = Vec::new();
    let mut offset: usize = 0;
    assert(all@.skip(0) =~= all@);
    assert(piece_views(pieces@) =~= Seq::empty());
    assert(piece_views(pieces@) + chunked(all@, size as nat) =~= chunked(all@, size as nat));
    while all.len() - offset > size
        invariant
            size > 0,
            offset <= all@.len(),
            piece_views(pieces@) + chunked(all@.skip(offset as int), size as nat) == chunked(
                all@,
                size as nat,
            ),
        decreases all@.len() - offset,
    {
        let ghost before = piece_views(pieces@);
        let ghost rest = all@.skip(offset as int);
        let piece = copy_slice(slice_subrange(all, offset, offset + size));
        pieces.push(piece);
        proof {
            assert(piece@ =~= rest.take(size as int));
            assert(rest.skip(size as int) =~= all@.skip(offset + size));
            assert(piece_views(pieces@) =~= before.push(piece@));
            assert(piece_views(pieces@) + chunked(all@.skip(offset + size), size as nat) =~= before
                + chunked(rest, size as nat));
        }
        offset += size;
    }
    let ghost rest = all@.skip(offset as int);
    if offset < all.len() {
        let ghost before = piece_views(pieces@);
        let piece = copy_slice(slice_subrange(all, offset, all.len()));
        pieces.push(piece);
        proof {
            assert(piece@ =~= rest);
            assert(piece_views(pieces@) =~= before.push(piece@));
            assert(piece_views(pieces@) =~= before + chunked(rest, size as nat));
        }
    } else {
        assert(rest =~= Seq::empty());
        assert(piece_views(pieces@) + Seq::<Seq<T>>::empty() =~= piece_views(pieces@));
    }
    pieces
}

/// Copies a slice.
pub fn copy_slice<T: Copy>(all: &[T]) -> (copy: Vec<T>)
    ensures
        copy@ == all@,
{
    let mut copy: Vec<T> = Vec::new();
    let mut i: usize = 0;
    while i < all.len()
        invariant
            i <= all@.len(),
            copy@ =~= all@.take(i as int),
        decreases all@.len() - i,
    {
        copy.push(all[i]);
        i += 1;
    }
    assert(all@.take(i as int) =~= all@);
    copy
}

}
