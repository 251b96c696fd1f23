//! Paths and their segments.
//!
//! A path is a byte string. One leading `/` is set aside, and what follows is
//! cut at every further `/`. The pieces are the segments; a segment may be
//! empty, as the middle one of `/a//b` and the last one of `/a/` are. The
//! paths `/` and the empty path have no segment at all.

use vstd::prelude::*;

verus! {

/// The byte that separates the segments of a path.
pub const SLASH: u8 = 47;

/// The pieces into which the separators cut `s`. There is always at least
/// one piece: a byte string without a separator is its own single piece.
pub open spec fn pieces(s: Seq<u8>) -> Seq<Seq<u8>>
    decreases s.len(),
{
    if s.len() == 0 {
        seq![Seq::<u8>::empty()]
    } else {
        let before = pieces(s.drop_last());
        if s.last() == SLASH {
            before.push(Seq::<u8>::empty())
        } else {
            before.drop_last().push(before.last().push(s.last()))
        }
    }
}

/// `path` without its leading separator, if it has one.
pub open spec fn without_leading_slash(path: Seq<u8>) -> Seq<u8> {
    if path.len() > 0 && path[0] == SLASH {
        path.skip(1)
    } else {
        path
    }
}

/// The segments of `path`.
pub open spec fn segments_of(path: Seq<u8>) -> Seq<Seq<u8>> {
    let rest = without_leading_slash(path);
    if rest.len() == 0 {
        Seq::<Seq<u8>>::empty()
    } else {
        pieces(rest)
    }
}

/// `parts` written one after the other, with a separator between each two.
pub open spec fn joined(parts: Seq<Seq<u8>>) -> Seq<u8>
    decreases parts.len(),
{
    if parts.len() == 0 {
        Seq::<u8>::empty()
    } else if parts.len() == 1 {
        parts[0]
    } else {
        joined(parts.drop_last()).push(SLASH) + parts.last()
    }
}

/// Whether `part` holds no separator.
pub open spec fn slash_free(part: Seq<u8>) -> bool {
    forall|i: int| 0 <= i < part.len() ==> #[trigger] part[i] != SLASH
}

/// The byte strings that a list of owned segments holds.
pub open spec fn part_views(parts: Seq<Vec<u8>>) -> Seq<Seq<u8>> {
    Seq::new(parts.len(), |i: int| parts[i]@)
}

/// Cutting loses nothing and leaves no separator behind: the pieces of `s`,
/// joined again, are `s`, and no piece holds a separator.
pub proof fn lemma_pieces_rejoin(s: Seq<u8>)
    ensures
        pieces(s).len() >= 1,
        joined(pieces(s)) == s,
        forall|k: int| 0 <= k < pieces(s).len() ==> slash_free(#[trigger] pieces(s)[k]),
    decreases s.len(),
{
    if s.len() == 0 {
        assert(joined(pieces(s)) =~= s);
    } else {
        let head = s.drop_last();
        lemma_pieces_rejoin(head);
        let before = pieces(head);
        let after = pieces(s);
        if s.last() == SLASH {
            assert(after.drop_last() =~= before);
            assert(joined(after) =~= s);
        } else {
            let grown = before.last().push(s.last());
            assert(after.last() == grown);
            assert(head.push(s.last()) =~= s);
            if before.len() == 1 {
                assert(joined(before) == before[0]);
                assert(after.len() == 1);
                assert(joined(after) == after[0]);
                assert(joined(after) =~= s);
            } else {
                assert(after.len() == before.len());
                assert(after.drop_last() =~= before.drop_last());
                assert(joined(before) == joined(before.drop_last()).push(SLASH) + before.last());
                assert(joined(after) == joined(before.drop_last()).push(SLASH) + grown);
                assert(joined(after) =~= s);
            }
            assert forall|k: int| 0 <= k < after.len() implies slash_free(#[trigger] after[k]) by {
                if k < after.len() - 1 {
                    assert(after[k] == before[k]);
                } else {
                    assert(slash_free(before.last()));
                }
            }
        }
    }
}

/// Cuts `path` into its segments.
pub fn split_path(path: &[u8]) -> (r: Vec<Vec<u8>>)
    ensures
        part_views(r@) == segments_of(path@),
{
    let mut parts: Vec<Vec<u8>> = Vec::new();
    let start: usize = if path.len() > 0 && path[0] == SLASH {
        1
    } else {
        0
    };
    if start == path.len() {
        assert(part_views(parts@) =~= segments_of(path@));
        return parts;
    }
    let ghost rest = without_leading_slash(path@);
    let mut current: Vec<u8> = Vec::new();
    let mut i: usize = start;
    assert(part_views(parts@).push(current@) =~= pieces(rest.take(0)));
    while i < path.len()
        invariant
            start <= i <= path@.len(),
            start <= 1,
            rest == path@.skip(start as int),
            part_views(parts@).push(current@) == pieces(rest.take(i - start)),
        decreases path@.len() - i,
    {
        let ghost upto = rest.take(i - start + 1);
        proof {
            assert(upto.drop_last() =~= rest.take(i - start));
            assert(upto.last() == path@[i as int]);
        }
        if path[i] == SLASH {
            parts.push(current);
            current = Vec::new();
            assert(part_views(parts@).push(current@) =~= pieces(upto));
        } else {
            current.push(path[i]);
            assert(part_views(parts@).push(current@) =~= pieces(upto));
        }
        i += 1;
    }
    proof {
        assert(rest.take(i - start) =~= rest);
    }
    let ghost all = part_views(parts@).push(current@);
    parts.push(current);
    assert(part_views(parts@) =~= all);
    parts
}

} // verus!
