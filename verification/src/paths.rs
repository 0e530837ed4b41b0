//! Comparing paths written with `/`.

use crate::text::{chars_of, same_chars, slice_of, split, split_at};
use vstd::prelude::*;

verus! {

/// Whether the piece of a path at `i` says where the path leads. Repeated and trailing separators
/// say nothing, nor does a `.` that is not the path's first piece.
pub open spec fn counts(pieces: Seq<Seq<char>>, i: int) -> bool {
    pieces[i].len() > 0 && (pieces[i] != seq!['.'] || i == 0)
}

/// The pieces of a path that say where it leads.
pub open spec fn components(pieces: Seq<Seq<char>>) -> Seq<Seq<char>>
    decreases pieces.len(),
{
    if pieces.len() == 0 {
        seq![]
    } else if counts(pieces, pieces.len() - 1) {
        components(pieces.drop_last()).push(pieces.last())
    } else {
        components(pieces.drop_last())
    }
}

/// Whether a path starts at the root.
pub open spec fn is_absolute(path: Seq<char>) -> bool {
    path.len() > 0 && path[0] == '/'
}

/// Whether two paths lead the same way, as far as their text shows.
pub open spec fn same_way(a: Seq<char>, b: Seq<char>) -> bool {
    &&& is_absolute(a) == is_absolute(b)
    &&& components(split(a, '/')) == components(split(b, '/'))
}

/// The pieces of `path` that say where it leads.
fn components_of(path: &Vec<char>) -> (r: Vec<Vec<char>>)
    ensures
        r@.len() == components(split(path@, '/')).len(),
        forall|i: int| 0 <= i < r@.len() ==> #[trigger] r@[i]@ == components(split(path@, '/'))[i],
{
    let pieces = split_at(path, '/');
    let ghost all = split(path@, '/');
    let mut out: Vec<Vec<char>> = Vec::new();
    let mut i: usize = 0;
    while i < pieces.len()
        invariant
            i <= pieces@.len(),
            all.len() == pieces@.len(),
            forall|k: int| 0 <= k < all.len() ==> #[trigger] pieces@[k]@ == all[k],
            out@.len() == components(all.take(i as int)).len(),
            forall|k: int|
                0 <= k < out@.len() ==> #[trigger] out@[k]@ == components(all.take(i as int))[k],
        decreases pieces@.len() - i,
    {
        let piece = &pieces[i];
        proof {
            let more = all.take(i + 1);
            assert(more.drop_last() =~= all.take(i as int));
            assert(more[i as int] == piece@);
            if piece@.len() == 1 && piece@[0] == '.' {
                assert(piece@ =~= seq!['.']);
            }
            assert(piece@.subrange(0, piece@.len() as int) =~= piece@);
        }
        if piece.len() > 0 && (i == 0 || !(piece.len() == 1 && piece[0] == '.')) {
            out.push(slice_of(piece, 0, piece.len()));
        }
        i = i + 1;
    }
    assert(all.take(i as int) =~= all);
    out
}

/// Whether two paths lead the same way.
pub fn same_path(a: &str, b: &str) -> (r: bool)
    ensures
        r == same_way(a@, b@),
{
    let first = chars_of(a);
    let second = chars_of(b);
    let rooted: bool = first.len() > 0 && first[0] == '/';
    if rooted != (second.len() > 0 && second[0] == '/') {
        return false;
    }
    let own = components_of(&first);
    let other = components_of(&second);
    let ghost left = components(split(a@, '/'));
    let ghost right = components(split(b@, '/'));
    if own.len() != other.len() {
        return false;
    }
    let mut i: usize = 0;
    while i < own.len()
        invariant
            i <= own@.len(),
            own@.len() == left.len(),
            other@.len() == right.len(),
            left.len() == right.len(),
            left == components(split(a@, '/')),
            right == components(split(b@, '/')),
            forall|k: int| 0 <= k < own@.len() ==> #[trigger] own@[k]@ == left[k],
            forall|k: int| 0 <= k < other@.len() ==> #[trigger] other@[k]@ == right[k],
            forall|k: int| 0 <= k < i ==> left[k] == right[k],
        decreases own@.len() - i,
    {
        if !same_chars(&own[i], &other[i]) {
            assert(left[i as int] != right[i as int]);
            return false;
        }
        i = i + 1;
    }
    assert(left =~= right);
    true
}

} // verus!
