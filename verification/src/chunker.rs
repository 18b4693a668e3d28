//! Chunker: splits sanitized text into an ordered sequence of length-bounded
//! segments, preferring whitespace boundaries, and labels the segments of a
//! multi-part message. Lengths are grapheme-cluster counts throughout.

use vstd::prelude::*;
use crate::constants::{MAX_MESSAGE_LENGTH, MIN_BOUNDARY_RATIO, PREFIX_RESERVE_LENGTH};
use crate::graphemes::{graphemes_of, split_graphemes};
use crate::segments::{
    has_space, last_boundary, lemma_blank_graphemes_trim_empty, lemma_last_boundary_range,
    lemma_trim_back_keeps_first, lemma_trim_back_last, lemma_trim_back_len,
    lemma_trim_front_empty_all_space, lemma_trim_front_first, lemma_trim_front_len,
    lemma_trim_nonempty, trim, trim_back, trim_front,
};
use crate::text::{is_blank, is_space_char, space_char};

verus! {

broadcast use lemma_trim_front_len, lemma_trim_back_len, lemma_last_boundary_range;

/// The chunks of a text that is too long for a single message, given the
/// effective per-chunk limit. Repeatedly: a remainder within the limit is
/// emitted trimmed and ends the split; otherwise the first `eff` graphemes
/// are scanned, the split point is the candidate word boundary when it lies
/// beyond a third of the scanned span and the limit itself when not, the
/// text up to the split point is emitted trimmed, and the whitespace that
/// follows the split point is consumed uncounted. A degenerate split point
/// at the very start emits a single grapheme to guarantee progress.
pub open spec fn chunk_rec(gs: Seq<Seq<char>>, eff: int) -> Seq<Seq<Seq<char>>>
    decreases gs.len(),
{
    if gs.len() == 0 {
        Seq::empty()
    } else if gs.len() <= eff {
        seq![trim(gs)]
    } else {
        let b = last_boundary(gs, eff);
        let split = if b > eff / MIN_BOUNDARY_RATIO as int {
            b
        } else {
            eff
        };
        if split <= 0 {
            seq![gs.take(1)] + chunk_rec(gs.skip(1), eff)
        } else {
            seq![trim(gs.take(split))] + chunk_rec(trim_front(gs.skip(split)), eff)
        }
    }
}

/// The chunks of a text, as grapheme sequences: none for a blank text, the
/// whole trimmed text when it fits the absolute limit, and the bounded
/// split with the label margin reserved otherwise.
pub open spec fn spec_chunks(gs: Seq<Seq<char>>, max: int, reserve: int) -> Seq<Seq<Seq<char>>> {
    let t = trim(gs);
    if t.len() == 0 {
        Seq::empty()
    } else if t.len() <= max {
        seq![t]
    } else {
        chunk_rec(t, max - reserve)
    }
}

/// Each chunk as its text: the concatenation of its grapheme clusters.
pub open spec fn flatten_each(cs: Seq<Seq<Seq<char>>>) -> Seq<Seq<char>> {
    cs.map_values(|c: Seq<Seq<char>>| c.flatten())
}

/// The chunk texts of a message, measured on its grapheme segmentation with
/// the library's configured limits.
pub open spec fn spec_message_chunks(s: Seq<char>) -> Seq<Seq<char>> {
    flatten_each(
        spec_chunks(graphemes_of(s), MAX_MESSAGE_LENGTH as int, PREFIX_RESERVE_LENGTH as int),
    )
}

/// Decides `has_space` for one grapheme cluster.
fn grapheme_has_space(g: &str) -> (r: bool)
    ensures
        r == has_space(g@),
{
    let n = g.unicode_len();
    let mut i: usize = 0;
    while i < n
        invariant
            i <= n,
            n == g@.len(),
            forall|j: int| 0 <= j < i ==> !is_space_char(g@[j]),
        decreases n - i,
    {
        if space_char(g.get_char(i)) {
            assert(has_space(g@));
            return true;
        }
        i += 1;
    }
    false
}

/// The concatenation of the graphemes `gs[from..to]` as one string.
pub(crate) fn join_range(gs: &Vec<String>, from: usize, to: usize) -> (r: String)
    requires
        from <= to <= gs@.len(),
    ensures
        r@ == gs.deep_view().subrange(from as int, to as int).flatten(),
{
    broadcast use Seq::<_>::lemma_flatten_push;

    let ghost deep = gs.deep_view();
    let mut r = String::from_str("");
    let mut j: usize = from;
    proof {
        reveal_strlit("");
        assert(deep.subrange(from as int, from as int) =~= Seq::<Seq<char>>::empty());
        assert(r@ =~= deep.subrange(from as int, from as int).flatten());
    }
    while j < to
        invariant
            from <= j <= to <= gs@.len(),
            deep == gs.deep_view(),
            r@ == deep.subrange(from as int, j as int).flatten(),
        decreases to - j,
    {
        r.append(gs[j].as_str());
        proof {
            assert(deep[j as int] == gs@[j as int]@);
            assert(deep.subrange(from as int, j + 1) =~= deep.subrange(
                from as int,
                j as int,
            ).push(deep[j as int]));
            deep.subrange(from as int, j as int).lemma_flatten_push(deep[j as int]);
        }
        j += 1;
    }
    r
}

/// The sub-span of `gs[lo..hi]` that remains when boundary whitespace
/// clusters are trimmed on both sides.
fn trim_range(gs: &Vec<String>, lo: usize, hi: usize) -> (r: (usize, usize))
    requires
        lo <= hi <= gs@.len(),
    ensures
        lo <= r.0 <= r.1 <= hi,
        gs.deep_view().subrange(r.0 as int, r.1 as int) == trim(
            gs.deep_view().subrange(lo as int, hi as int),
        ),
{
    let ghost deep = gs.deep_view();
    let mut a: usize = lo;
    let mut front_done = false;
    while !front_done && a < hi
        invariant
            lo <= a <= hi <= gs@.len(),
            deep == gs.deep_view(),
            trim_front(deep.subrange(lo as int, hi as int)) == trim_front(
                deep.subrange(a as int, hi as int),
            ),
            front_done ==> a < hi && !has_space(deep[a as int]),
        decreases hi - a + (if front_done { 0int } else { 1int }),
    {
        proof {
            assert(deep[a as int] == gs@[a as int]@);
        }
        if grapheme_has_space(gs[a].as_str()) {
            proof {
                let cur = deep.subrange(a as int, hi as int);
                assert(cur[0] == deep[a as int]);
                assert(cur.drop_first() =~= deep.subrange(a + 1, hi as int));
            }
            a += 1;
        } else {
            front_done = true;
        }
    }
    proof {
        let cur = deep.subrange(a as int, hi as int);
        if a < hi {
            assert(cur[0] == deep[a as int]);
        }
        assert(trim_front(cur) == cur);
    }
    let mut b: usize = hi;
    let mut back_done = false;
    while !back_done && b > a
        invariant
            lo <= a <= b <= hi <= gs@.len(),
            deep == gs.deep_view(),
            trim_back(deep.subrange(a as int, hi as int)) == trim_back(
                deep.subrange(a as int, b as int),
            ),
            back_done ==> b > a && !has_space(deep[b - 1]),
        decreases b - a + (if back_done { 0int } else { 1int }),
    {
        proof {
            assert(deep[b - 1] == gs@[b - 1]@);
        }
        if grapheme_has_space(gs[b - 1].as_str()) {
            proof {
                let cur = deep.subrange(a as int, b as int);
                assert(cur.last() == deep[b - 1]);
                assert(cur.drop_last() =~= deep.subrange(a as int, b - 1));
            }
            b -= 1;
        } else {
            back_done = true;
        }
    }
    proof {
        let cur = deep.subrange(a as int, b as int);
        if b > a {
            assert(cur.last() == deep[b - 1]);
        }
        assert(trim_back(cur) == cur);
    }
    (a, b)
}

/// One past the last whitespace cluster among `gs[lo..lo+eff]`, or zero.
fn scan_boundary(gs: &Vec<String>, lo: usize, hi: usize, eff: usize) -> (b: usize)
    requires
        lo <= hi <= gs@.len(),
        eff <= hi - lo,
    ensures
        b as int == last_boundary(gs.deep_view().subrange(lo as int, hi as int), eff as int),
        b <= eff,
{
    let ghost deep = gs.deep_view();
    let ghost rem = deep.subrange(lo as int, hi as int);
    let mut b: usize = 0;
    let mut j: usize = 0;
    while j < eff
        invariant
            j <= eff,
            lo + eff <= hi <= gs@.len(),
            deep == gs.deep_view(),
            rem == deep.subrange(lo as int, hi as int),
            b as int == last_boundary(rem, j as int),
            b <= j,
        decreases eff - j,
    {
        proof {
            assert(rem[j as int] == deep[lo + j]);
            assert(deep[lo + j] == gs@[lo + j]@);
        }
        if grapheme_has_space(gs[lo + j].as_str()) {
            b = j + 1;
        }
        j += 1;
    }
    b
}

/// Every chunk of a bounded split of a text that starts on a
/// non-whitespace cluster is nonempty, within the effective limit, and free
/// of boundary whitespace.
pub proof fn lemma_chunk_rec_props(gs: Seq<Seq<char>>, eff: int)
    requires
        eff >= 1,
        gs.len() == 0 || !has_space(gs.first()),
    ensures
        forall|i: int|
            0 <= i < chunk_rec(gs, eff).len() ==> 1 <= (#[trigger] chunk_rec(gs, eff)[i]).len()
                && chunk_rec(gs, eff)[i].len() <= eff && !has_space(chunk_rec(gs, eff)[i].first())
                && !has_space(chunk_rec(gs, eff)[i].last()),
    decreases gs.len(),
{
    if gs.len() == 0 {
    } else if gs.len() <= eff {
        lemma_trim_nonempty(gs);
        assert forall|i: int|
            0 <= i < chunk_rec(gs, eff).len() implies 1 <= (#[trigger] chunk_rec(gs, eff)[
            i
        ]).len() && chunk_rec(gs, eff)[i].len() <= eff && !has_space(
            chunk_rec(gs, eff)[i].first(),
        ) && !has_space(chunk_rec(gs, eff)[i].last()) by {
            assert(chunk_rec(gs, eff)[i] == trim(gs));
        }
    } else {
        let b = last_boundary(gs, eff);
        let split = if b > eff / MIN_BOUNDARY_RATIO as int {
            b
        } else {
            eff
        };
        assert(1 <= split <= eff);
        let head = gs.take(split);
        assert(head.first() == gs.first());
        lemma_trim_nonempty(head);
        let rest = trim_front(gs.skip(split));
        lemma_trim_front_first(gs.skip(split));
        lemma_chunk_rec_props(rest, eff);
        let cs = chunk_rec(gs, eff);
        assert(cs == seq![trim(head)] + chunk_rec(rest, eff));
        assert forall|i: int|
            0 <= i < cs.len() implies 1 <= (#[trigger] cs[i]).len() && cs[i].len() <= eff
                && !has_space(cs[i].first()) && !has_space(cs[i].last()) by {
            if i == 0 {
                assert(cs[i] == trim(head));
            } else {
                assert(cs[i] == chunk_rec(rest, eff)[i - 1]);
            }
        }
    }
}

pub proof fn lemma_dec_digits_len_two(n: nat)
    requires
        n < 100,
    ensures
        1 <= dec_digits(n).len() <= 2,
{
    if n >= 10 {
        assert(n / 10 < 10);
        assert(dec_digits(n / 10).len() == 1);
    }
}

/// Chunking leaves a text that fits the absolute limit whole: it yields
/// exactly one chunk, the text trimmed of boundary whitespace clusters,
/// and formatting leaves a single chunk unlabeled.
pub proof fn lemma_short_text_single_chunk(s: Seq<char>)
    requires
        trim(graphemes_of(s)).len() > 0,
        graphemes_of(s).len() <= MAX_MESSAGE_LENGTH,
    ensures
        spec_message_chunks(s) == seq![trim(graphemes_of(s)).flatten()],
        format_spec(spec_message_chunks(s)) == spec_message_chunks(s),
{
    let gs = graphemes_of(s);
    let t = trim(gs);
    assert(t.len() <= gs.len());
    assert(spec_chunks(gs, MAX_MESSAGE_LENGTH as int, PREFIX_RESERVE_LENGTH as int) == seq![t]);
    assert(flatten_each(seq![t]) =~= seq![t.flatten()]);
}

/// Chunking a blank text yields no chunks at all. The two segmentation
/// hypotheses are what the segmentation guarantees of every real text: the
/// clusters are nonempty and concatenate back to the text.
pub proof fn lemma_blank_text_no_chunks(s: Seq<char>)
    requires
        is_blank(s),
        graphemes_of(s).flatten() == s,
        forall|i: int| 0 <= i < graphemes_of(s).len() ==> (#[trigger] graphemes_of(s)[i]).len()
            > 0,
    ensures
        spec_message_chunks(s) == Seq::<Seq<char>>::empty(),
{
    let gs = graphemes_of(s);
    lemma_blank_graphemes_trim_empty(gs);
    assert(spec_chunks(gs, MAX_MESSAGE_LENGTH as int, PREFIX_RESERVE_LENGTH as int)
        =~= Seq::<Seq<Seq<char>>>::empty());
    assert(flatten_each(Seq::<Seq<Seq<char>>>::empty()) =~= Seq::<Seq<char>>::empty());
}

/// When a text is too long for one message and splits into at most 99
/// chunks, more than one chunk comes out; every chunk keeps at least one
/// and at most the effective limit of grapheme clusters with no whitespace
/// cluster at either edge; and every chunk still fits the absolute limit
/// with its label in front. The label is ASCII, one grapheme cluster per
/// character, so the label's character count plus the chunk's cluster
/// count is the formatted chunk's grapheme-cluster length.
pub proof fn lemma_formatted_chunks_fit(s: Seq<char>)
    requires
        trim(graphemes_of(s)).len() > MAX_MESSAGE_LENGTH,
        spec_chunks(
            graphemes_of(s),
            MAX_MESSAGE_LENGTH as int,
            PREFIX_RESERVE_LENGTH as int,
        ).len() <= 99,
    ensures
        spec_chunks(
            graphemes_of(s),
            MAX_MESSAGE_LENGTH as int,
            PREFIX_RESERVE_LENGTH as int,
        ).len() >= 2,
        forall|i: int|
            0 <= i < spec_chunks(
                graphemes_of(s),
                MAX_MESSAGE_LENGTH as int,
                PREFIX_RESERVE_LENGTH as int,
            ).len() ==> 1 <= (#[trigger] spec_chunks(
                graphemes_of(s),
                MAX_MESSAGE_LENGTH as int,
                PREFIX_RESERVE_LENGTH as int,
            )[i]).len() && !has_space(
                spec_chunks(
                    graphemes_of(s),
                    MAX_MESSAGE_LENGTH as int,
                    PREFIX_RESERVE_LENGTH as int,
                )[i].first(),
            ) && !has_space(
                spec_chunks(
                    graphemes_of(s),
                    MAX_MESSAGE_LENGTH as int,
                    PREFIX_RESERVE_LENGTH as int,
                )[i].last(),
            ),
        forall|i: int|
            0 <= i < spec_chunks(
                graphemes_of(s),
                MAX_MESSAGE_LENGTH as int,
                PREFIX_RESERVE_LENGTH as int,
            ).len() ==> label_chars(
                (i + 1) as nat,
                spec_chunks(
                    graphemes_of(s),
                    MAX_MESSAGE_LENGTH as int,
                    PREFIX_RESERVE_LENGTH as int,
                ).len() as nat,
            ).len() + (#[trigger] spec_chunks(
                graphemes_of(s),
                MAX_MESSAGE_LENGTH as int,
                PREFIX_RESERVE_LENGTH as int,
            )[i]).len() <= MAX_MESSAGE_LENGTH,
{
    let gs = graphemes_of(s);
    let t = trim(gs);
    let eff = MAX_MESSAGE_LENGTH as int - PREFIX_RESERVE_LENGTH as int;
    let cs = spec_chunks(gs, MAX_MESSAGE_LENGTH as int, PREFIX_RESERVE_LENGTH as int);
    assert(cs == chunk_rec(t, eff));
    lemma_trim_front_first(gs);
    assert(trim_front(gs).len() > 0);
    lemma_trim_back_keeps_first(trim_front(gs));
    lemma_trim_back_last(trim_front(gs));
    assert(!has_space(t.first()));
    assert(!has_space(t.last()));
    lemma_chunk_rec_props(t, eff);
    // more than one chunk: the remainder after the first split still ends
    // on the non-whitespace final cluster, so it does not trim away
    let b = last_boundary(t, eff);
    let split = if b > eff / MIN_BOUNDARY_RATIO as int {
        b
    } else {
        eff
    };
    assert(1 <= split <= eff);
    let tail = t.skip(split);
    assert(tail.len() > 0);
    assert(tail.last() == t.last());
    let rest = trim_front(tail);
    lemma_trim_front_empty_all_space(tail);
    if rest.len() == 0 {
        assert(has_space(tail[tail.len() - 1]));
        assert(false);
    }
    assert(chunk_rec(t, eff) == seq![trim(t.take(split))] + chunk_rec(rest, eff));
    assert(chunk_rec(rest, eff).len() >= 1);
    assert(cs.len() >= 2);
    let n = cs.len();
    assert forall|i: int|
        0 <= i < n implies 1 <= (#[trigger] cs[i]).len() && !has_space(cs[i].first())
            && !has_space(cs[i].last()) by {
        assert(cs[i] == chunk_rec(t, eff)[i]);
    }
    // the label fits the reserved margin for up to two-digit indices
    assert forall|i: int|
        0 <= i < n implies label_chars((i + 1) as nat, n as nat).len() + (#[trigger] cs[
        i
    ]).len() <= MAX_MESSAGE_LENGTH by {
        lemma_dec_digits_len_two((i + 1) as nat);
        lemma_dec_digits_len_two(n as nat);
        assert(label_chars((i + 1) as nat, n as nat).len() <= 8);
        assert(cs[i] == chunk_rec(t, eff)[i]);
        assert(cs[i].len() <= eff);
    }
}

/// The decimal digit characters of `n`, most significant first, with no
/// leading zeros.
pub open spec fn digit_char(d: nat) -> char {
    if d == 0 {
        '0'
    } else if d == 1 {
        '1'
    } else if d == 2 {
        '2'
    } else if d == 3 {
        '3'
    } else if d == 4 {
        '4'
    } else if d == 5 {
        '5'
    } else if d == 6 {
        '6'
    } else if d == 7 {
        '7'
    } else if d == 8 {
        '8'
    } else {
        '9'
    }
}

pub open spec fn dec_digits(n: nat) -> Seq<char>
    decreases n,
{
    if n < 10 {
        seq![digit_char(n)]
    } else {
        dec_digits(n / 10).push(digit_char(n % 10))
    }
}

/// The positional label `"[i/n] "` of the i-th of n chunks, as characters.
pub open spec fn label_chars(i: nat, n: nat) -> Seq<char> {
    seq!['['] + dec_digits(i) + seq!['/'] + dec_digits(n) + seq![']', ' ']
}

/// The formatted chunks: unchanged when there is at most one, and the i-th
/// (1-based) prefixed with its label when there are several.
pub open spec fn format_spec(cs: Seq<Seq<char>>) -> Seq<Seq<char>> {
    if cs.len() <= 1 {
        cs
    } else {
        Seq::new(cs.len(), |i: int| label_chars((i + 1) as nat, cs.len() as nat) + cs[i])
    }
}

/// One decimal digit as a string.
fn digit_str(d: usize) -> (r: &'static str)
    requires
        d < 10,
    ensures
        r@ == seq![digit_char(d as nat)],
{
    let r: &'static str = if d == 0 {
        "0"
    } else if d == 1 {
        "1"
    } else if d == 2 {
        "2"
    } else if d == 3 {
        "3"
    } else if d == 4 {
        "4"
    } else if d == 5 {
        "5"
    } else if d == 6 {
        "6"
    } else if d == 7 {
        "7"
    } else if d == 8 {
        "8"
    } else {
        "9"
    };
    proof {
        reveal_strlit("0");
        reveal_strlit("1");
        reveal_strlit("2");
        reveal_strlit("3");
        reveal_strlit("4");
        reveal_strlit("5");
        reveal_strlit("6");
        reveal_strlit("7");
        reveal_strlit("8");
        reveal_strlit("9");
        assert(r@ =~= seq![digit_char(d as nat)]);
    }
    r
}

/// Appends the decimal digits of `k`.
fn append_number(out: &mut String, k: usize)
    ensures
        final(out)@ == old(out)@ + dec_digits(k as nat),
    decreases k,
{
    if k < 10 {
        out.append(digit_str(k));
    } else {
        append_number(out, k / 10);
        out.append(digit_str(k % 10));
        proof {
            assert((k / 10) as nat == k as nat / 10);
            assert((k % 10) as nat == k as nat % 10);
            assert(old(out)@ + dec_digits((k / 10) as nat) + seq![digit_char((k % 10) as nat)]
                =~= old(out)@ + dec_digits(k as nat));
        }
    }
}

/// Message chunker for the transport's fixed length limit.
pub struct MessageChunker;

impl MessageChunker {
    /// Splits a message into chunks, each within `max_len` grapheme
    /// clusters when it stands alone and within `max_len - reserve` when
    /// several chunks are needed, so a positional label of up to `reserve`
    /// characters still fits the absolute limit.
    pub fn chunk_with_limits(message: &str, max_len: usize, reserve: usize) -> (r: Vec<String>)
        requires
            reserve <= max_len,
        ensures
            r.deep_view() == flatten_each(
                spec_chunks(graphemes_of(message@), max_len as int, reserve as int),
            ),
    {
        let gs = split_graphemes(message);
        let ghost deep = gs.deep_view();
        let n = gs.len();
        let (start, end) = trim_range(&gs, 0, n);
        let ghost t = trim(deep);
        proof {
            assert(deep.subrange(0, n as int) =~= deep);
            assert(t == deep.subrange(start as int, end as int));
        }
        let mut out: Vec<String> = Vec::new();
        if start == end {
            proof {
                assert(t.len() == 0);
                assert(out.deep_view() =~= flatten_each(
                    spec_chunks(deep, max_len as int, reserve as int),
                ));
            }
            return out;
        }
        if end - start <= max_len {
            let s = join_range(&gs, start, end);
            out.push(s);
            proof {
                let cs = spec_chunks(deep, max_len as int, reserve as int);
                assert(cs == seq![t]);
                assert(flatten_each(cs) =~= seq![t.flatten()]);
                assert(out.deep_view() =~= seq![t.flatten()]);
            }
            return out;
        }
        let eff = max_len - reserve;
        let mut pos = start;
        proof {
            assert(deep.subrange(start as int, end as int) == t);
            assert(out.deep_view() + flatten_each(chunk_rec(t, eff as int)) =~= flatten_each(
                chunk_rec(t, eff as int),
            ));
        }
        while pos < end
            invariant
                start <= pos <= end <= gs@.len(),
                deep == gs.deep_view(),
                eff == max_len - reserve,
                t == trim(deep),
                t == deep.subrange(start as int, end as int),
                flatten_each(chunk_rec(t, eff as int)) == out.deep_view() + flatten_each(
                    chunk_rec(deep.subrange(pos as int, end as int), eff as int),
                ),
            decreases end - pos,
        {
            let ghost rem = deep.subrange(pos as int, end as int);
            let ghost prev_out = out.deep_view();
            if end - pos <= eff {
                let (a, b) = trim_range(&gs, pos, end);
                let s = join_range(&gs, a, b);
                out.push(s);
                proof {
                    assert(chunk_rec(rem, eff as int) == seq![trim(rem)]);
                    assert(trim(rem) == deep.subrange(a as int, b as int));
                    assert(s@ == trim(rem).flatten());
                    assert(flatten_each(seq![trim(rem)]) =~= seq![trim(rem).flatten()]);
                    assert(deep.subrange(end as int, end as int) =~= Seq::<Seq<char>>::empty());
                    assert(chunk_rec(deep.subrange(end as int, end as int), eff as int)
                        =~= Seq::<Seq<Seq<char>>>::empty());
                    assert(flatten_each(Seq::<Seq<Seq<char>>>::empty())
                        =~= Seq::<Seq<char>>::empty());
                    assert(out.deep_view() =~= prev_out.push(s@));
                    assert(prev_out + flatten_each(chunk_rec(rem, eff as int)) =~= out.deep_view()
                        + Seq::<Seq<char>>::empty());
                }
                pos = end;
            } else {
                let bnd = scan_boundary(&gs, pos, end, eff);
                let split = if bnd > eff / MIN_BOUNDARY_RATIO {
                    bnd
                } else {
                    eff
                };
                proof {
                    assert(rem.len() == end - pos);
                    assert(last_boundary(rem, eff as int) == bnd as int);
                }
                if split == 0 {
                    let s = join_range(&gs, pos, pos + 1);
                    out.push(s);
                    proof {
                        assert(rem.take(1) =~= deep.subrange(pos as int, pos + 1));
                        assert(chunk_rec(rem, eff as int) == seq![rem.take(1)] + chunk_rec(
                            rem.skip(1),
                            eff as int,
                        ));
                        assert(rem.skip(1) =~= deep.subrange(pos + 1, end as int));
                        assert(s@ == rem.take(1).flatten());
                        assert(flatten_each(seq![rem.take(1)] + chunk_rec(rem.skip(1), eff as int))
                            =~= seq![rem.take(1).flatten()] + flatten_each(
                            chunk_rec(rem.skip(1), eff as int),
                        ));
                        assert(out.deep_view() =~= prev_out.push(s@));
                        assert(prev_out + (seq![rem.take(1).flatten()] + flatten_each(
                            chunk_rec(rem.skip(1), eff as int),
                        )) =~= out.deep_view() + flatten_each(chunk_rec(rem.skip(1), eff as int)));
                    }
                    pos = pos + 1;
                } else {
                    let (a, b) = trim_range(&gs, pos, pos + split);
                    let s = join_range(&gs, a, b);
                    out.push(s);
                    let ghost split_pos = pos + split;
                    proof {
                        assert(rem.take(split as int) =~= deep.subrange(
                            pos as int,
                            pos + split,
                        ));
                        assert(chunk_rec(rem, eff as int) == seq![trim(rem.take(split as int))]
                            + chunk_rec(trim_front(rem.skip(split as int)), eff as int));
                        assert(trim(rem.take(split as int)) == deep.subrange(a as int, b as int));
                        assert(s@ == trim(rem.take(split as int)).flatten());
                    }
                    pos = pos + split;
                    let mut skip_done = false;
                    let ghost rest = rem.skip(split as int);
                    proof {
                        assert(rest =~= deep.subrange(split_pos, end as int));
                    }
                    while !skip_done && pos < end
                        invariant
                            split_pos <= pos as int <= end <= gs@.len(),
                            deep == gs.deep_view(),
                            rest == rem.skip(split as int),
                            trim_front(rest) == trim_front(
                                deep.subrange(pos as int, end as int),
                            ),
                            skip_done ==> pos < end && !has_space(deep[pos as int]),
                        decreases end - pos + (if skip_done { 0int } else { 1int }),
                    {
                        proof {
                            assert(deep[pos as int] == gs@[pos as int]@);
                        }
                        if grapheme_has_space(gs[pos].as_str()) {
                            proof {
                                let cur = deep.subrange(pos as int, end as int);
                                assert(cur[0] == deep[pos as int]);
                                assert(cur.drop_first() =~= deep.subrange(pos + 1, end as int));
                            }
                            pos += 1;
                        } else {
                            skip_done = true;
                        }
                    }
                    proof {
                        let cur = deep.subrange(pos as int, end as int);
                        if (pos as int) < end {
                            assert(cur[0] == deep[pos as int]);
                        }
                        assert(trim_front(cur) == cur);
                        assert(trim_front(rest) == cur);
                        let c0 = trim(rem.take(split as int));
                        assert(flatten_each(seq![c0] + chunk_rec(trim_front(rest), eff as int))
                            =~= seq![c0.flatten()] + flatten_each(
                            chunk_rec(trim_front(rest), eff as int),
                        ));
                        assert(out.deep_view() =~= prev_out.push(s@));
                        assert(prev_out + (seq![c0.flatten()] + flatten_each(
                            chunk_rec(trim_front(rest), eff as int),
                        )) =~= out.deep_view() + flatten_each(
                            chunk_rec(trim_front(rest), eff as int),
                        ));
                    }
                }
            }
        }
        proof {
            assert(deep.subrange(end as int, end as int) =~= Seq::<Seq<char>>::empty());
            assert(chunk_rec(Seq::<Seq<char>>::empty(), eff as int)
                =~= Seq::<Seq<Seq<char>>>::empty());
            assert(flatten_each(Seq::<Seq<Seq<char>>>::empty()) =~= Seq::<Seq<char>>::empty());
            assert(out.deep_view() =~= flatten_each(chunk_rec(t, eff as int)));
            assert(spec_chunks(deep, max_len as int, reserve as int) == chunk_rec(t, eff as int));
        }
        out
    }

    /// Splits a message into chunks that fit the transport's limit of
    /// `MAX_MESSAGE_LENGTH` grapheme clusters, reserving
    /// `PREFIX_RESERVE_LENGTH` clusters for positional labels whenever more
    /// than one chunk is needed.
    pub fn chunk(message: &str) -> (r: Vec<String>)
        ensures
            r.deep_view() == spec_message_chunks(message@),
    {
        Self::chunk_with_limits(message, MAX_MESSAGE_LENGTH, PREFIX_RESERVE_LENGTH)
    }

    /// Formats chunks for dispatch: a single chunk is returned unchanged, and
    /// each of several chunks is prefixed with its `"[i/n] "` label.
    pub fn format_chunks(chunks: &Vec<String>) -> (r: Vec<String>)
        ensures
            r.deep_view() == format_spec(chunks.deep_view()),
    {
        let n = chunks.len();
        let mut r: Vec<String> = Vec::new();
        if n <= 1 {
            if n == 1 {
                r.push(String::from_str(chunks[0].as_str()));
            }
            proof {
                assert(r.deep_view() =~= chunks.deep_view());
            }
            return r;
        }
        let mut i: usize = 0;
        while i < n
            invariant
                i <= n,
                n == chunks@.len(),
                n > 1,
                r@.len() == i,
                forall|j: int|
                    0 <= j < i ==> r.deep_view()[j] == label_chars(
                        (j + 1) as nat,
                        n as nat,
                    ) + chunks.deep_view()[j],
            decreases n - i,
        {
            let mut s = String::from_str("[");
            append_number(&mut s, i + 1);
            s.append("/");
            append_number(&mut s, n);
            s.append("] ");
            s.append(chunks[i].as_str());
            proof {
                reveal_strlit("[");
                reveal_strlit("/");
                reveal_strlit("] ");
                assert("["@ =~= seq!['[']);
                assert("/"@ =~= seq!['/']);
                assert("] "@ =~= seq![']', ' ']);
                assert(s@ =~= label_chars((i + 1) as nat, n as nat) + chunks.deep_view()[
                    i as int
                ]);
            }
            let ghost prev = r@;
            let ghost prev_deep = r.deep_view();
            let ghost s_view = s@;
            r.push(s);
            proof {
                assert forall|j: int|
                    0 <= j < i + 1 implies r.deep_view()[j] == label_chars(
                    (j + 1) as nat,
                    n as nat,
                ) + chunks.deep_view()[j] by {
                    if j < i {
                        assert(r@[j] == prev[j]);
                        assert(r.deep_view()[j] == prev[j]@);
                        assert(prev_deep[j] == prev[j]@);
                    } else {
                        assert(r.deep_view()[j] == r@[j]@);
                        assert(r@[j]@ == s_view);
                    }
                }
            }
            i += 1;
        }
        proof {
            assert(r.deep_view() =~= format_spec(chunks.deep_view()));
        }
        r
    }
}

} // verus!
