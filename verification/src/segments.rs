//! Model of a text as a sequence of grapheme clusters: whitespace clusters,
//! trimming at the cluster level, and the candidate word boundary of a
//! scanned span.

use vstd::prelude::*;
use crate::text::{is_blank, is_space_char};

verus! {

/// A grapheme cluster that contains a whitespace character; such clusters
/// count as word boundaries and are trimmed at chunk edges.
pub open spec fn has_space(g: Seq<char>) -> bool {
    exists|i: int| 0 <= i < g.len() && is_space_char(g[i])
}

/// The graphemes with every leading whitespace cluster removed.
pub open spec fn trim_front(gs: Seq<Seq<char>>) -> Seq<Seq<char>>
    decreases gs.len(),
{
    if gs.len() > 0 && has_space(gs.first()) {
        trim_front(gs.drop_first())
    } else {
        gs
    }
}

/// The graphemes with every trailing whitespace cluster removed.
pub open spec fn trim_back(gs: Seq<Seq<char>>) -> Seq<Seq<char>>
    decreases gs.len(),
{
    if gs.len() > 0 && has_space(gs.last()) {
        trim_back(gs.drop_last())
    } else {
        gs
    }
}

/// The graphemes with boundary whitespace clusters removed on both sides.
pub open spec fn trim(gs: Seq<Seq<char>>) -> Seq<Seq<char>> {
    trim_back(trim_front(gs))
}

pub broadcast proof fn lemma_trim_front_len(gs: Seq<Seq<char>>)
    ensures
        #[trigger] trim_front(gs).len() <= gs.len(),
    decreases gs.len(),
{
    if gs.len() > 0 && has_space(gs.first()) {
        lemma_trim_front_len(gs.drop_first());
    }
}

pub broadcast proof fn lemma_trim_back_len(gs: Seq<Seq<char>>)
    ensures
        #[trigger] trim_back(gs).len() <= gs.len(),
    decreases gs.len(),
{
    if gs.len() > 0 && has_space(gs.last()) {
        lemma_trim_back_len(gs.drop_last());
    }
}

pub proof fn lemma_trim_front_first(gs: Seq<Seq<char>>)
    ensures
        trim_front(gs).len() > 0 ==> !has_space(trim_front(gs).first()),
    decreases gs.len(),
{
    if gs.len() > 0 && has_space(gs.first()) {
        lemma_trim_front_first(gs.drop_first());
    }
}

/// Trimming the back of a sequence whose first cluster is not whitespace
/// keeps that first cluster and leaves the sequence nonempty.
pub proof fn lemma_trim_back_keeps_first(gs: Seq<Seq<char>>)
    requires
        gs.len() > 0,
        !has_space(gs.first()),
    ensures
        trim_back(gs).len() > 0,
        trim_back(gs).first() == gs.first(),
    decreases gs.len(),
{
    if has_space(gs.last()) {
        assert(gs.len() >= 2);
        assert(gs.drop_last().first() == gs.first());
        lemma_trim_back_keeps_first(gs.drop_last());
    }
}

pub proof fn lemma_trim_back_last(gs: Seq<Seq<char>>)
    ensures
        trim_back(gs).len() > 0 ==> !has_space(trim_back(gs).last()),
    decreases gs.len(),
{
    if gs.len() > 0 && has_space(gs.last()) {
        lemma_trim_back_last(gs.drop_last());
    }
}

/// A sequence that starts with a non-whitespace cluster trims to a nonempty
/// sequence that still starts with it, ends on a non-whitespace cluster,
/// and starts on one.
pub proof fn lemma_trim_nonempty(gs: Seq<Seq<char>>)
    requires
        gs.len() > 0,
        !has_space(gs.first()),
    ensures
        trim(gs).len() > 0,
        trim(gs).first() == gs.first(),
        !has_space(trim(gs).first()),
        !has_space(trim(gs).last()),
{
    assert(trim_front(gs) == gs);
    lemma_trim_back_keeps_first(gs);
    lemma_trim_back_last(gs);
}

pub proof fn lemma_trim_front_empty_all_space(gs: Seq<Seq<char>>)
    ensures
        trim_front(gs).len() == 0 ==> forall|i: int| 0 <= i < gs.len() ==> has_space(gs[i]),
    decreases gs.len(),
{
    if gs.len() > 0 && has_space(gs.first()) {
        lemma_trim_front_empty_all_space(gs.drop_first());
        if trim_front(gs).len() == 0 {
            assert forall|i: int| 0 <= i < gs.len() implies has_space(gs[i]) by {
                if i > 0 {
                    assert(gs.drop_first()[i - 1] == gs[i]);
                }
            }
        }
    }
}

/// A segmentation whose concatenation is blank trims away entirely: every
/// cluster is nonempty and made of whitespace characters only.
pub proof fn lemma_blank_graphemes_trim_empty(gs: Seq<Seq<char>>)
    requires
        is_blank(gs.flatten()),
        forall|i: int| 0 <= i < gs.len() ==> #[trigger] gs[i].len() > 0,
    ensures
        trim_front(gs).len() == 0,
        trim(gs).len() == 0,
    decreases gs.len(),
{
    if gs.len() > 0 {
        let head = gs.first();
        let tail_flat = gs.drop_first().flatten();
        assert(gs.flatten() == head + tail_flat);
        assert(head.len() > 0);
        assert((head + tail_flat)[0] == head[0]);
        assert(is_space_char(head[0]));
        assert(has_space(head));
        assert forall|j: int| 0 <= j < tail_flat.len() implies is_space_char(tail_flat[j]) by {
            assert((head + tail_flat)[head.len() + j] == tail_flat[j]);
        }
        assert forall|i: int| 0 <= i < gs.drop_first().len() implies #[trigger] gs.drop_first()[
            i
        ].len() > 0 by {
            assert(gs.drop_first()[i] == gs[i + 1]);
        }
        lemma_blank_graphemes_trim_empty(gs.drop_first());
    }
}

/// One past the position of the last whitespace cluster among the first `k`
/// graphemes, or zero when there is none: the candidate word boundary of a
/// scanned span.
pub open spec fn last_boundary(gs: Seq<Seq<char>>, k: int) -> int
    decreases k,
{
    if k <= 0 {
        0
    } else if has_space(gs[k - 1]) {
        k
    } else {
        last_boundary(gs, k - 1)
    }
}

pub broadcast proof fn lemma_last_boundary_range(gs: Seq<Seq<char>>, k: int)
    ensures
        0 <= #[trigger] last_boundary(gs, k),
        k >= 0 ==> last_boundary(gs, k) <= k,
    decreases k,
{
    if k > 0 && !has_space(gs[k - 1]) {
        lemma_last_boundary_range(gs, k - 1);
    }
}

} // verus!
