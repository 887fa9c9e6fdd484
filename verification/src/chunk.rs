use vstd::prelude::*;

use crate::text::{collect_chars, string_from_chars};

verus! {

/// The characters after which a sentence ends: `. ! ?` and their full-width
/// and CJK forms `．。！？`.
pub open spec fn is_sentence_end(c: char) -> bool {
    c == '.' || c == '!' || c == '?' || c == '\u{FF0E}' || c == '\u{3002}' || c == '\u{FF01}'
        || c == '\u{FF1F}'
}

/// Position `i` of the window `[.., lim)` starts a blank line `\n\n`.
pub open spec fn blank_line_at(c: Seq<char>, lim: int, i: int) -> bool {
    c[i] == '\n' && i + 1 < lim && c[i + 1] == '\n'
}

/// Position `i` of the window `[.., lim)` holds a newline that does not start a
/// blank line inside the window.
pub open spec fn single_newline_at(c: Seq<char>, lim: int, i: int) -> bool {
    c[i] == '\n' && !(i + 1 < lim && c[i + 1] == '\n')
}

/// Position `i` holds sentence-ending punctuation.
pub open spec fn sentence_end_at(c: Seq<char>, i: int) -> bool {
    is_sentence_end(c[i])
}

/// The end of a window that would end at `limit`: a window never reaches past
/// the text.
pub open spec fn window_end(c: Seq<char>, limit: int) -> int {
    if limit < c.len() {
        limit
    } else {
        c.len() as int
    }
}

/// The last blank line starting in `[lo, hi)` of the window ending at `lim`,
/// or `-1` when there is none.
pub open spec fn blank_line_before(c: Seq<char>, lo: int, hi: int, lim: int) -> int
    decreases hi - lo,
{
    if hi <= lo {
        -1
    } else if blank_line_at(c, lim, hi - 1) {
        hi - 1
    } else {
        blank_line_before(c, lo, hi - 1, lim)
    }
}

/// The last single newline in `[lo, hi)` of the window ending at `lim`, or
/// `-1` when there is none.
pub open spec fn single_newline_before(c: Seq<char>, lo: int, hi: int, lim: int) -> int
    decreases hi - lo,
{
    if hi <= lo {
        -1
    } else if single_newline_at(c, lim, hi - 1) {
        hi - 1
    } else {
        single_newline_before(c, lo, hi - 1, lim)
    }
}

/// The last sentence-ending punctuation in `[lo, hi)`, or `-1` when there is
/// none.
pub open spec fn sentence_end_before(c: Seq<char>, lo: int, hi: int) -> int
    decreases hi - lo,
{
    if hi <= lo {
        -1
    } else if sentence_end_at(c, hi - 1) {
        hi - 1
    } else {
        sentence_end_before(c, lo, hi - 1)
    }
}

/// `blank_line_before` is the last blank line of the range, or `-1` exactly
/// when the range holds none.
pub proof fn lemma_blank_line_before(c: Seq<char>, lo: int, hi: int, lim: int)
    requires
        0 <= lo,
    ensures
        blank_line_before(c, lo, hi, lim) == -1 || (lo <= blank_line_before(c, lo, hi, lim) < hi
            && blank_line_at(c, lim, blank_line_before(c, lo, hi, lim))),
        forall|j: int|
            lo <= j < hi && blank_line_before(c, lo, hi, lim) < j ==> !#[trigger] blank_line_at(
                c,
                lim,
                j,
            ),
    decreases hi - lo,
{
    if hi > lo && !blank_line_at(c, lim, hi - 1) {
        lemma_blank_line_before(c, lo, hi - 1, lim);
    }
}

/// `single_newline_before` is the last single newline of the range, or `-1`
/// exactly when the range holds none.
pub proof fn lemma_single_newline_before(c: Seq<char>, lo: int, hi: int, lim: int)
    requires
        0 <= lo,
    ensures
        single_newline_before(c, lo, hi, lim) == -1 || (lo <= single_newline_before(c, lo, hi, lim)
            < hi && single_newline_at(c, lim, single_newline_before(c, lo, hi, lim))),
        forall|j: int|
            lo <= j < hi && single_newline_before(c, lo, hi, lim) < j
                ==> !#[trigger] single_newline_at(c, lim, j),
    decreases hi - lo,
{
    if hi > lo && !single_newline_at(c, lim, hi - 1) {
        lemma_single_newline_before(c, lo, hi - 1, lim);
    }
}

/// `sentence_end_before` is the last sentence end of the range, or `-1`
/// exactly when the range holds none.
pub proof fn lemma_sentence_end_before(c: Seq<char>, lo: int, hi: int)
    requires
        0 <= lo,
    ensures
        sentence_end_before(c, lo, hi) == -1 || (lo <= sentence_end_before(c, lo, hi) < hi
            && sentence_end_at(c, sentence_end_before(c, lo, hi))),
        forall|j: int|
            lo <= j < hi && sentence_end_before(c, lo, hi) < j ==> !#[trigger] sentence_end_at(c, j),
    decreases hi - lo,
{
    if hi > lo && !sentence_end_at(c, hi - 1) {
        lemma_sentence_end_before(c, lo, hi - 1);
    }
}

pub open spec fn last_blank_line(c: Seq<char>, start: int, lim: int) -> int {
    blank_line_before(c, start, lim, lim)
}

pub open spec fn last_single_newline(c: Seq<char>, start: int, lim: int) -> int {
    single_newline_before(c, start, lim, lim)
}

pub open spec fn last_sentence_end(c: Seq<char>, start: int, lim: int) -> int {
    sentence_end_before(c, start, lim)
}

/// Where a chunk that starts at `start` and may reach `limit` ends: after the
/// last blank line of the window; else after its last single newline; else
/// after its last sentence-ending punctuation; else at the end of the window.
pub open spec fn boundary_end(c: Seq<char>, start: int, limit: int) -> int {
    let lim = window_end(c, limit);
    if last_blank_line(c, start, lim) >= 0 {
        last_blank_line(c, start, lim) + 2
    } else if last_single_newline(c, start, lim) >= 0 {
        last_single_newline(c, start, lim) + 1
    } else if last_sentence_end(c, start, lim) >= 0 {
        last_sentence_end(c, start, lim) + 1
    } else {
        lim
    }
}

/// A boundary found in a non-empty window lies inside the window, past its start.
pub proof fn lemma_boundary_in_window(c: Seq<char>, start: int, limit: int)
    requires
        0 <= start < window_end(c, limit),
    ensures
        start < boundary_end(c, start, limit) <= window_end(c, limit),
{
    let lim = window_end(c, limit);
    lemma_blank_line_before(c, start, lim, lim);
    lemma_single_newline_before(c, start, lim, lim);
    lemma_sentence_end_before(c, start, lim);
}

/// Index in the character sequence after which a chunk may end.
pub struct Boundary {
    pub end: usize,
}

/// Scans the window `[start, min(limit, chars.len()))` and returns the end of
/// the last occurrence of the highest-priority break found in it (blank line,
/// then single newline, then sentence punctuation), or a hard cut at the end
/// of the window when it holds none.
pub fn find_boundary(chars: &[char], start: usize, limit: usize) -> (b: Boundary)
    ensures
        b.end == boundary_end(chars@, start as int, limit as int),
{
    let end_exclusive = if limit < chars.len() {
        limit
    } else {
        chars.len()
    };
    let ghost c = chars@;
    let ghost lim = end_exclusive as int;

    let mut best_newline_newline: Option<usize> = None;
    let mut best_newline: Option<usize> = None;
    let mut best_sentence: Option<usize> = None;

    let mut i = start;
    while i < end_exclusive
        invariant
            c == chars@,
            lim == end_exclusive as int,
            end_exclusive <= chars.len(),
            start <= i,
            i <= end_exclusive || i == start,
            match best_newline_newline {
                Some(e) => e == blank_line_before(c, start as int, i as int, lim) + 2
                    && blank_line_before(c, start as int, i as int, lim) >= 0,
                None => blank_line_before(c, start as int, i as int, lim) == -1,
            },
            match best_newline {
                Some(e) => e == single_newline_before(c, start as int, i as int, lim) + 1
                    && single_newline_before(c, start as int, i as int, lim) >= 0,
                None => single_newline_before(c, start as int, i as int, lim) == -1,
            },
            match best_sentence {
                Some(e) => e == sentence_end_before(c, start as int, i as int) + 1
                    && sentence_end_before(c, start as int, i as int) >= 0,
                None => sentence_end_before(c, start as int, i as int) == -1,
            },
        decreases end_exclusive - i,
    {
        let ch = chars[i];
        if ch == '\n' {
            if i + 1 < end_exclusive && chars[i + 1] == '\n' {
                best_newline_newline = Some(i + 2);
            } else {
                best_newline = Some(i + 1);
            }
        } else if ch == '.' || ch == '!' || ch == '?' || ch == '\u{FF0E}' || ch == '\u{3002}'
            || ch == '\u{FF01}' || ch == '\u{FF1F}' {
            best_sentence = Some(i + 1);
        }
        i += 1;
    }
    assert(lim == window_end(c, limit as int));
    if start > end_exclusive {
        assert(blank_line_before(c, start as int, lim, lim) == -1);
        assert(single_newline_before(c, start as int, lim, lim) == -1);
        assert(sentence_end_before(c, start as int, lim) == -1);
    } else {
        assert(i == end_exclusive);
    }
    if let Some(end) = best_newline_newline {
        Boundary { end }
    } else if let Some(end) = best_newline {
        Boundary { end }
    } else if let Some(end) = best_sentence {
        Boundary { end }
    } else {
        Boundary { end: end_exclusive }
    }
}

/// The chunks of `c` from position `start` on, each of at most `max`
/// characters: the rest of the text when it fits, else the text up to the
/// window's preferred boundary followed by the chunks after it.
pub open spec fn chunks_from(c: Seq<char>, start: int, max: int) -> Seq<Seq<char>>
    decreases c.len() - start,
{
    if start < 0 || start >= c.len() || max <= 0 {
        Seq::empty()
    } else if c.len() - start <= max {
        seq![c.subrange(start, c.len() as int)]
    } else {
        let limit = start + max;
        let b = boundary_end(c, start, limit);
        let end = if b <= start {
            window_end(c, limit)
        } else {
            b
        };
        proof {
            lemma_boundary_in_window(c, start, limit);
        }
        seq![c.subrange(start, end)] + chunks_from(c, end, max)
    }
}

/// What `chunk_text` returns for the characters `text` and the limit `max`:
/// nothing for a zero limit, one empty chunk for an empty text, else the
/// chunks of the whole text.
pub open spec fn spec_chunk_text(text: Seq<char>, max: int) -> Seq<Seq<char>> {
    if max <= 0 {
        Seq::empty()
    } else if text.len() == 0 {
        seq![Seq::empty()]
    } else {
        chunks_from(text, 0, max)
    }
}

/// The chunks from `start` on cover the rest of the text exactly, in order,
/// and each has between 1 and `max` characters.
proof fn lemma_chunks_from(c: Seq<char>, start: int, max: int)
    requires
        0 <= start <= c.len(),
        max > 0,
    ensures
        chunks_from(c, start, max).flatten() == c.subrange(start, c.len() as int),
        forall|k: int|
            0 <= k < chunks_from(c, start, max).len() ==> 1 <= (#[trigger] chunks_from(
                c,
                start,
                max,
            )[k]).len() <= max,
    decreases c.len() - start,
{
    let r = chunks_from(c, start, max);
    if start == c.len() {
        assert(c.subrange(start, c.len() as int) =~= Seq::<char>::empty());
    } else if c.len() - start <= max {
        assert(r.drop_first() =~= Seq::<Seq<char>>::empty());
        assert(r.drop_first().flatten() == Seq::<char>::empty());
        assert(r.flatten() =~= c.subrange(start, c.len() as int));
    } else {
        let limit = start + max;
        lemma_boundary_in_window(c, start, limit);
        let b = boundary_end(c, start, limit);
        let end = if b <= start {
            window_end(c, limit)
        } else {
            b
        };
        let rest = chunks_from(c, end, max);
        lemma_chunks_from(c, end, max);
        assert(r.drop_first() =~= rest);
        assert(r.flatten() == c.subrange(start, end) + rest.flatten());
        assert(c.subrange(start, end) + c.subrange(end, c.len() as int) =~= c.subrange(
            start,
            c.len() as int,
        ));
        assert forall|k: int| 0 <= k < r.len() implies 1 <= (#[trigger] r[k]).len() <= max by {
            if k > 0 {
                assert(r[k] == rest[k - 1]);
            }
        }
    }
}

/// Joining the chunks in order gives back the text: splitting loses and
/// reorders nothing (for any positive limit).
pub proof fn law_chunks_reassemble(text: Seq<char>, max: int)
    requires
        max > 0,
    ensures
        spec_chunk_text(text, max).flatten() == text,
{
    if text.len() == 0 {
        let r = spec_chunk_text(text, max);
        assert(r.drop_first() =~= Seq::<Seq<char>>::empty());
        assert(r.drop_first().flatten() == Seq::<char>::empty());
        assert(r.flatten() =~= text);
    } else {
        lemma_chunks_from(text, 0, max);
        assert(text.subrange(0, text.len() as int) =~= text);
    }
}

/// No chunk is longer than the limit, and a non-empty text yields no empty
/// chunk.
pub proof fn law_chunk_sizes(text: Seq<char>, max: int)
    requires
        max > 0,
    ensures
        forall|k: int|
            0 <= k < spec_chunk_text(text, max).len() ==> (#[trigger] spec_chunk_text(
                text,
                max,
            )[k]).len() <= max,
        text.len() > 0 ==> forall|k: int|
            0 <= k < spec_chunk_text(text, max).len() ==> (#[trigger] spec_chunk_text(
                text,
                max,
            )[k]).len() >= 1,
{
    if text.len() > 0 {
        lemma_chunks_from(text, 0, max);
    }
}

/// A text that fits within the limit comes back as a single chunk equal to it;
/// a zero limit yields no chunk at all.
pub proof fn law_short_text_is_one_chunk(text: Seq<char>, max: int)
    ensures
        max > 0 && text.len() <= max ==> spec_chunk_text(text, max) == seq![text],
        max <= 0 ==> spec_chunk_text(text, max).len() == 0,
{
    if max > 0 && text.len() <= max && text.len() > 0 {
        assert(text.subrange(0, text.len() as int) =~= text);
    }
    if max > 0 && text.len() == 0 {
        assert(text =~= Seq::<char>::empty());
        assert(seq![text] =~= seq![Seq::<char>::empty()]);
    }
}

/// There are at least as many chunks as the text needs at `max` characters
/// each.
pub proof fn law_chunk_count(text: Seq<char>, max: int)
    requires
        max > 0,
    ensures
        spec_chunk_text(text, max).len() * max >= text.len(),
{
    let r = spec_chunk_text(text, max);
    law_chunks_reassemble(text, max);
    law_chunk_sizes(text, max);
    r.lemma_flatten_length_le_mul(max);
    r.lemma_flatten_and_flatten_alt_are_equivalent();
}

/// Where chunk `k` of `chunks` starts in the joined text.
pub open spec fn chunk_start(chunks: Seq<Seq<char>>, k: int) -> int {
    chunks.take(k).flatten().len() as int
}

/// Chunk `k` of `r`, which starts at offset `start` of `c`, is cut as the
/// chunking rule says: if it is not the last one, more than `max` characters
/// remained and it ends at the preferred boundary of its window; the last one
/// ends with the text and holds at most `max` characters.
pub open spec fn cut_as_preferred(c: Seq<char>, start: int, r: Seq<Seq<char>>, max: int, k: int) -> bool {
    let s = start + chunk_start(r, k);
    &&& (k < r.len() - 1 ==> c.len() - s > max && s + r[k].len() == boundary_end(c, s, s + max))
    &&& (k == r.len() - 1 ==> c.len() - s <= max && s + r[k].len() == c.len())
}

/// Each chunk from `start` on begins where the previous one ended; every chunk
/// but the last ends at the preferred boundary of its window (which then lies
/// wholly inside the text), and the last one takes the rest of the text.
proof fn lemma_chunks_from_cuts(c: Seq<char>, start: int, max: int)
    requires
        0 <= start <= c.len(),
        max > 0,
    ensures
        forall|k: int|
            0 <= k < chunks_from(c, start, max).len() ==> #[trigger] cut_as_preferred(
                c,
                start,
                chunks_from(c, start, max),
                max,
                k,
            ),
    decreases c.len() - start,
{
    let r = chunks_from(c, start, max);
    assert(r.take(0) =~= Seq::<Seq<char>>::empty());
    if start == c.len() {
    } else if c.len() - start <= max {
    } else {
        let limit = start + max;
        lemma_boundary_in_window(c, start, limit);
        let end = boundary_end(c, start, limit);
        let rest = chunks_from(c, end, max);
        lemma_chunks_from_cuts(c, end, max);
        lemma_chunks_from(c, end, max);
        assert(r.len() == rest.len() + 1);
        assert forall|k: int| 0 <= k < r.len() implies #[trigger] cut_as_preferred(
            c,
            start,
            r,
            max,
            k,
        ) by {
            if k == 0 {
                assert(r.take(0).flatten() == Seq::<char>::empty());
                if rest.len() == 0 {
                    assert(end == c.len()) by {
                        if end < c.len() {
                            assert(rest.len() > 0);
                        }
                    }
                }
            } else {
                assert(r[k] == rest[k - 1]);
                assert(r.take(k).drop_first() =~= rest.take(k - 1));
                assert(r.take(k).first() == r[0]);
                assert(r.take(k).flatten() == r[0] + rest.take(k - 1).flatten());
                assert(cut_as_preferred(c, end, rest, max, k - 1));
            }
        }
    }
}

/// Every chunk but the last ends exactly at the preferred boundary of the
/// window of `max` characters that starts where the chunk starts (and is cut
/// only because more than `max` characters remain); the last chunk holds all
/// the characters that remain, at most `max` of them.
pub proof fn law_chunks_cut_at_preferred_boundaries(text: Seq<char>, max: int)
    requires
        max > 0,
        text.len() > 0,
    ensures
        forall|k: int|
            0 <= k < spec_chunk_text(text, max).len() ==> #[trigger] cut_as_preferred(
                text,
                0,
                spec_chunk_text(text, max),
                max,
                k,
            ),
{
    lemma_chunks_from_cuts(text, 0, max);
}

/// What the preferred boundary of a window is, case by case: after the last
/// blank line when the window has one; otherwise after the last newline when
/// it has one; otherwise after the last sentence punctuation when it has
/// one; otherwise the end of the window.
pub proof fn law_boundary_priority(c: Seq<char>, start: int, limit: int)
    requires
        0 <= start < window_end(c, limit),
    ensures
        ({
            let lim = window_end(c, limit);
            let e = boundary_end(c, start, limit);
            &&& (exists|i: int| start <= i < lim && #[trigger] blank_line_at(c, lim, i)) ==> {
                &&& start + 2 <= e <= lim
                &&& c[e - 2] == '\n' && c[e - 1] == '\n'
                &&& forall|j: int| e - 2 < j < lim ==> !#[trigger] blank_line_at(c, lim, j)
            }
            &&& (!exists|i: int| start <= i < lim && #[trigger] blank_line_at(c, lim, i)) && (
            exists|i: int| start <= i < lim && #[trigger] single_newline_at(c, lim, i)) ==> {
                &&& start + 1 <= e <= lim
                &&& c[e - 1] == '\n'
                &&& forall|j: int| e - 1 < j < lim ==> !#[trigger] single_newline_at(c, lim, j)
            }
            &&& (!exists|i: int| start <= i < lim && #[trigger] blank_line_at(c, lim, i)) && (
            !exists|i: int| start <= i < lim && #[trigger] single_newline_at(c, lim, i)) && (
            exists|i: int| start <= i < lim && #[trigger] sentence_end_at(c, i)) ==> {
                &&& start + 1 <= e <= lim
                &&& is_sentence_end(c[e - 1])
                &&& forall|j: int| e - 1 < j < lim ==> !#[trigger] sentence_end_at(c, j)
            }
            &&& (!exists|i: int| start <= i < lim && #[trigger] blank_line_at(c, lim, i)) && (
            !exists|i: int| start <= i < lim && #[trigger] single_newline_at(c, lim, i)) && (
            !exists|i: int| start <= i < lim && #[trigger] sentence_end_at(c, i)) ==> e == lim
        }),
{
    let lim = window_end(c, limit);
    lemma_blank_line_before(c, start, lim, lim);
    lemma_single_newline_before(c, start, lim, lim);
    lemma_sentence_end_before(c, start, lim);
}

/// A sentence ends after exactly these characters: `.`, `!`, `?`, and the
/// full-width and CJK `．`, `。`, `！`, `？`.
pub proof fn law_sentence_end_characters(ch: char)
    ensures
        is_sentence_end(ch) <==> (ch == '.' || ch == '!' || ch == '?' || ch == '\u{FF0E}'
            || ch == '\u{3002}' || ch == '\u{FF01}' || ch == '\u{FF1F}'),
{
}

/// In a window without a newline, a chunk ends right after the last
/// sentence-ending character (`.`, `!`, `?`, `．`, `。`, `！`, `？`) of the
/// window, and at the window's end when it holds none.
pub proof fn law_cut_after_last_sentence_end(c: Seq<char>, start: int, limit: int)
    requires
        0 <= start < window_end(c, limit),
        forall|j: int| start <= j < window_end(c, limit) ==> c[j] != '\n',
    ensures
        ({
            let lim = window_end(c, limit);
            let e = boundary_end(c, start, limit);
            &&& (exists|i: int| start <= i < lim && (#[trigger] c[i] == '.' || c[i] == '!' || c[i] == '?' || c[i] == '\u{FF0E}'
                    || c[i] == '\u{3002}' || c[i] == '\u{FF01}' || c[i] == '\u{FF1F}')) ==> {
                &&& start < e <= lim
                &&& (c[e - 1] == '.' || c[e - 1] == '!' || c[e - 1] == '?' || c[e - 1] == '\u{FF0E}'
                    || c[e - 1] == '\u{3002}' || c[e - 1] == '\u{FF01}' || c[e - 1] == '\u{FF1F}')
                &&& forall|j: int| e <= j < lim ==> !(#[trigger] c[j] == '.' || c[j] == '!' || c[j] == '?' || c[j] == '\u{FF0E}'
                        || c[j] == '\u{3002}' || c[j] == '\u{FF01}' || c[j] == '\u{FF1F}')
            }
            &&& (!exists|i: int| start <= i < lim && (#[trigger] c[i] == '.' || c[i] == '!' || c[i] == '?' || c[i] == '\u{FF0E}'
                    || c[i] == '\u{3002}' || c[i] == '\u{FF01}' || c[i] == '\u{FF1F}')) ==> e == lim
        }),
{
    let lim = window_end(c, limit);
    law_boundary_priority(c, start, limit);
    assert(!exists|i: int| start <= i < lim && #[trigger] blank_line_at(c, lim, i));
    assert(!exists|i: int| start <= i < lim && #[trigger] single_newline_at(c, lim, i));
    if exists|i: int| start <= i < lim && (#[trigger] c[i] == '.' || c[i] == '!' || c[i] == '?' || c[i] == '\u{FF0E}'
            || c[i] == '\u{3002}' || c[i] == '\u{FF01}' || c[i] == '\u{FF1F}') {
        let i = choose|i: int| start <= i < lim && (#[trigger] c[i] == '.' || c[i] == '!' || c[i] == '?' || c[i] == '\u{FF0E}'
                || c[i] == '\u{3002}' || c[i] == '\u{FF01}' || c[i] == '\u{FF1F}');
        assert(sentence_end_at(c, i));
        let e = boundary_end(c, start, limit);
        assert forall|j: int| e <= j < lim implies !(#[trigger] c[j] == '.' || c[j] == '!' || c[j] == '?' || c[j] == '\u{FF0E}'
                || c[j] == '\u{3002}' || c[j] == '\u{FF01}' || c[j] == '\u{FF1F}') by {
            assert(!sentence_end_at(c, j));
        }
    } else {
        assert forall|i: int| start <= i < lim implies !#[trigger] sentence_end_at(c, i) by {
            assert(!(c[i] == '.' || c[i] == '!' || c[i] == '?' || c[i] == '\u{FF0E}'
                    || c[i] == '\u{3002}' || c[i] == '\u{FF01}' || c[i] == '\u{FF1F}'));
        }
    }
}

/// The character sequences of a list of strings.
pub open spec fn string_views(v: Seq<String>) -> Seq<Seq<char>> {
    v.map_values(|s: String| s@)
}

/// Split `text` into chunks each of at most `max_chars` Unicode scalar values,
/// preferring to cut after a blank line, then after a newline, then after
/// sentence punctuation, and cutting hard only when the window has none.
pub fn chunk_text(text: &str, max_chars: usize) -> (chunks: Vec<String>)
    ensures
        string_views(chunks@) == spec_chunk_text(text@, max_chars as int),
{
    if max_chars == 0 {
        return Vec::new();
    }
    if text.is_empty() {
        let mut one: Vec<String> = Vec::new();
        one.push(String::new());
        assert(string_views(one@) =~= seq![Seq::<char>::empty()]);
        return one;
    }
    let chars: Vec<char> = collect_chars(text);
    let total = chars.len();
    let mut chunks: Vec<String> = Vec::new();
    let mut start: usize = 0;
    let ghost c = text@;

    while start < total
        invariant
            c == text@,
            chars@ == c,
            total == c.len(),
            max_chars > 0,
            start <= total,
            string_views(chunks@) + chunks_from(c, start as int, max_chars as int)
                == chunks_from(c, 0, max_chars as int),
        decreases total - start,
    {
        if total - start <= max_chars {
            let tail = string_from_chars(chars.as_slice(), start, total);
            let ghost before = chunks@;
            chunks.push(tail);
            assert(string_views(chunks@) =~= string_views(before).push(tail@));
            assert(chunks_from(c, start as int, max_chars as int) == seq![
                c.subrange(start as int, total as int),
            ]);
            assert(chunks_from(c, total as int, max_chars as int) =~= Seq::<Seq<char>>::empty());
            assert(string_views(chunks@) + chunks_from(c, total as int, max_chars as int)
                =~= string_views(before) + chunks_from(c, start as int, max_chars as int));
            start = total;
        } else {
            let limit = start + max_chars;
            let boundary = find_boundary(chars.as_slice(), start, limit);
            proof {
                lemma_boundary_in_window(c, start as int, limit as int);
            }
            let end = if boundary.end <= start {
                if limit < total {
                    limit
                } else {
                    total
                }
            } else {
                boundary.end
            };
            let chunk = string_from_chars(chars.as_slice(), start, end);
            let ghost before = chunks@;
            chunks.push(chunk);
            assert(string_views(chunks@) =~= string_views(before).push(chunk@));
            assert(chunks_from(c, start as int, max_chars as int) == seq![
                c.subrange(start as int, end as int),
            ] + chunks_from(c, end as int, max_chars as int));
            assert(string_views(chunks@) + chunks_from(c, end as int, max_chars as int)
                =~= string_views(before) + chunks_from(c, start as int, max_chars as int));
            start = end;
        }
    }
    assert(chunks_from(c, start as int, max_chars as int) =~= Seq::<Seq<char>>::empty());
    assert(string_views(chunks@) =~= string_views(chunks@) + chunks_from(
        c,
        start as int,
        max_chars as int,
    ));
    chunks
}

} // verus!
