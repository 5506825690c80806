//! Word wrapping of the input buffer.
//!
//! A line takes as many grapheme clusters as fit in the width. Where the next
//! one does not fit, the line ends behind its last white space, if it has one.
//! A newline always ends a line and is part of none.

use crate::text;
use crate::text::{display_width, is_blank, text_eq};
use vstd::prelude::*;

verus! {

/// One visual line, as a range of grapheme clusters.
#[derive(Clone, Copy, Debug, PartialEq, Eq, Structural)]
pub struct WrappedLine {
    pub grapheme_start: usize,
    pub grapheme_end: usize,
}

/// Whether the cluster ends a line.
pub open spec fn newline(cluster: Seq<char>) -> bool {
    cluster == "\n"@ || cluster == "\r\n"@
}

/// How far a line goes whose clusters up to `e` take `used` columns: to the
/// next newline, or to the first cluster that does not fit.
pub open spec fn fit_end(clusters: Seq<Seq<char>>, e: int, used: int, width: int) -> int
    decreases clusters.len() - e,
{
    if 0 <= e < clusters.len() && !newline(clusters[e]) && used + text::display_columns(clusters[e])
        <= width {
        fit_end(clusters, e + 1, used + text::display_columns(clusters[e]), width)
    } else {
        e
    }
}

/// The index behind the last white space in `[start, e)`, or `start`.
pub open spec fn last_break(clusters: Seq<Seq<char>>, start: int, e: int) -> int
    decreases e - start,
{
    if e <= start {
        start
    } else if text::blank(clusters[e - 1]) {
        e
    } else {
        last_break(clusters, start, e - 1)
    }
}

/// Where the line that begins at `start` ends, and where the next one begins.
pub open spec fn line_from(clusters: Seq<Seq<char>>, start: int, width: int) -> (int, int) {
    let e = fit_end(clusters, start, 0, width);
    if e >= clusters.len() {
        (e, e)
    } else if newline(clusters[e]) {
        (e, e + 1)
    } else {
        let b = last_break(clusters, start, e);
        if b > start {
            (b, b)
        } else if e > start {
            (e, e)
        } else {
            (start + 1, start + 1)
        }
    }
}

/// The visual lines from `start` on.
pub open spec fn lines_from(clusters: Seq<Seq<char>>, start: int, width: int) -> Seq<(int, int)>
    decreases clusters.len() - start,
{
    let (end, next) = line_from(clusters, start, width);
    if fit_end(clusters, start, 0, width) >= clusters.len() || next <= start || next
        > clusters.len() {
        seq![(start, end)]
    } else {
        seq![(start, end)] + lines_from(clusters, next, width)
    }
}

/// The ranges of the lines.
pub open spec fn ranges(lines: Seq<WrappedLine>) -> Seq<(int, int)> {
    lines.map_values(|line: WrappedLine| (line.grapheme_start as int, line.grapheme_end as int))
}

proof fn lemma_fit_end(clusters: Seq<Seq<char>>, e: int, used: int, width: int)
    requires
        0 <= e <= clusters.len(),
    ensures
        e <= fit_end(clusters, e, used, width) <= clusters.len(),
    decreases clusters.len() - e,
{
    if e < clusters.len() && !newline(clusters[e]) && used + text::display_columns(clusters[e])
        <= width {
        lemma_fit_end(clusters, e + 1, used + text::display_columns(clusters[e]), width);
    }
}

proof fn lemma_last_break(clusters: Seq<Seq<char>>, start: int, e: int)
    requires
        start <= e,
    ensures
        start <= last_break(clusters, start, e) <= e,
    decreases e - start,
{
    if start < e && !text::blank(clusters[e - 1]) {
        lemma_last_break(clusters, start, e - 1);
    }
}

/// A line begins where it is told and lies inside the buffer, and the next one
/// begins at its end or behind the newline there.
pub proof fn lemma_line_from(clusters: Seq<Seq<char>>, start: int, width: int)
    requires
        0 <= start <= clusters.len(),
    ensures
        start <= line_from(clusters, start, width).0 <= clusters.len(),
        line_from(clusters, start, width).0 <= line_from(clusters, start, width).1,
        fit_end(clusters, start, 0, width) < clusters.len() ==> start < line_from(
            clusters,
            start,
            width,
        ).1 <= clusters.len(),
{
    lemma_fit_end(clusters, start, 0, width);
    lemma_last_break(clusters, start, fit_end(clusters, start, 0, width));
}

/// The visual lines lie inside the buffer, the first one at its start.
pub proof fn lemma_lines_from(clusters: Seq<Seq<char>>, start: int, width: int)
    requires
        0 <= start <= clusters.len(),
    ensures
        lines_from(clusters, start, width).len() > 0,
        lines_from(clusters, start, width)[0].0 == start,
        forall|k: int|
            0 <= k < lines_from(clusters, start, width).len() ==> start <= (
            #[trigger] lines_from(clusters, start, width)[k]).0 <= lines_from(
                clusters,
                start,
                width,
            )[k].1 <= clusters.len(),
    decreases clusters.len() - start,
{
    lemma_line_from(clusters, start, width);
    let (end, next) = line_from(clusters, start, width);
    let all = lines_from(clusters, start, width);
    if fit_end(clusters, start, 0, width) < clusters.len() {
        lemma_lines_from(clusters, next, width);
        let rest = lines_from(clusters, next, width);
        assert forall|k: int| 0 <= k < all.len() implies start <= (#[trigger] all[k]).0
            <= all[k].1 <= clusters.len() by {
            if k > 0 {
                assert(all[k] == rest[k - 1]);
            }
        }
    }
}

/// Whether the cluster ends a line.
fn is_newline(cluster: &String) -> (yes: bool)
    ensures
        yes == newline(cluster@),
{
    text_eq(cluster.as_str(), "\n") || text_eq(cluster.as_str(), "\r\n")
}

/// Wraps grapheme clusters into visual lines of at most `width` columns.
pub fn wrap_clusters(clusters: &Vec<String>, width: usize) -> (lines: Vec<WrappedLine>)
    ensures
        ranges(lines@) == lines_from(text::texts(clusters@), 0, width as int),
        lines@.len() > 0,
{
    let ghost all = text::texts(clusters@);
    let n: usize = clusters.len();
    let mut lines: Vec<WrappedLine> = Vec::new();
    let mut start: usize = 0;
    assert(ranges(lines@) + lines_from(all, 0, width as int) =~= lines_from(all, 0, width as int));
    loop
        invariant
            start <= n,
            n == clusters@.len(),
            all == text::texts(clusters@),
            ranges(lines@) + lines_from(all, start as int, width as int) == lines_from(
                all,
                0,
                width as int,
            ),
        decreases n - start,
    {
        proof {
            lemma_line_from(all, start as int, width as int);
        }
        let mut e: usize = start;
        let mut used: usize = 0;
        while e < n && !is_newline(&clusters[e]) && display_width(clusters[e].as_str()) <= width
            - used
            invariant
                start <= e <= n,
                n == clusters@.len(),
                all == text::texts(clusters@),
                used <= width,
                fit_end(all, start as int, 0, width as int) == fit_end(
                    all,
                    e as int,
                    used as int,
                    width as int,
                ),
            decreases n - e,
        {
            used += display_width(clusters[e].as_str());
            e += 1;
        }
        let ghost before = lines@;
        if e >= n {
            let line = WrappedLine { grapheme_start: start, grapheme_end: e };
            lines.push(line);
            assert(ranges(lines@) =~= ranges(before) + seq![(start as int, e as int)]);
            return lines;
        }
        let newline_here = is_newline(&clusters[e]);
        let mut b: usize = e;
        while b > start && !is_blank(clusters[b - 1].as_str())
            invariant
                start <= b <= e < n,
                n == clusters@.len(),
                all == text::texts(clusters@),
                last_break(all, start as int, e as int) == last_break(
                    all,
                    start as int,
                    b as int,
                ),
            decreases b - start,
        {
            b -= 1;
        }
        let end: usize = if newline_here {
            e
        } else if b > start {
            b
        } else if e > start {
            e
        } else {
            start + 1
        };
        let next: usize = if newline_here {
            e + 1
        } else {
            end
        };
        lines.push(WrappedLine { grapheme_start: start, grapheme_end: end });
        proof {
            assert(line_from(all, start as int, width as int) == (end as int, next as int));
            assert(ranges(lines@) =~= ranges(before) + seq![(start as int, end as int)]);
            assert(ranges(lines@) + lines_from(all, next as int, width as int) =~= ranges(before)
                + lines_from(all, start as int, width as int));
        }
        start = next;
    }
}

/// Wraps a text into visual lines of at most `width` columns.
pub fn wrap_text(text: &str, width: usize) -> (lines: Vec<WrappedLine>)
    ensures
        ranges(lines@) == lines_from(text::grapheme_clusters(text@), 0, width as int),
        lines@.len() > 0,
{
    let clusters = text::graphemes(text);
    wrap_clusters(&clusters, width)
}

/// The columns that the clusters in `[lo, hi)` take one beside the other.
pub open spec fn columns_between(clusters: Seq<Seq<char>>, lo: int, hi: int) -> int
    decreases hi - lo,
{
    if hi <= lo {
        0
    } else {
        columns_between(clusters, lo, hi - 1) + text::display_columns(clusters[hi - 1])
    }
}

/// Whether no cluster in `[lo, hi)` ends a line.
pub open spec fn unbroken(clusters: Seq<Seq<char>>, lo: int, hi: int) -> bool {
    forall|k: int|
        lo <= k < hi ==> (#[trigger] clusters[k]) != "\n"@ && clusters[k] != "\r\n"@
}

proof fn lemma_fit_end_fits(
    clusters: Seq<Seq<char>>,
    start: int,
    e: int,
    used: int,
    width: int,
)
    requires
        0 <= start <= e <= clusters.len(),
        used == columns_between(clusters, start, e),
        used <= width,
        unbroken(clusters, start, e),
    ensures
        ({
            let f = fit_end(clusters, e, used, width);
            &&& e <= f <= clusters.len()
            &&& columns_between(clusters, start, f) <= width
            &&& unbroken(clusters, start, f)
            &&& f < clusters.len() ==> clusters[f] == "\n"@ || clusters[f] == "\r\n"@
                || columns_between(clusters, start, f + 1) > width
        }),
    decreases clusters.len() - e,
{
    if e < clusters.len() && !newline(clusters[e]) && used + text::display_columns(clusters[e])
        <= width {
        assert(columns_between(clusters, start, e + 1) == used + text::display_columns(
            clusters[e],
        ));
        lemma_fit_end_fits(
            clusters,
            start,
            e + 1,
            used + text::display_columns(clusters[e]),
            width,
        );
    } else if e < clusters.len() {
        assert(columns_between(clusters, start, e + 1) == used + text::display_columns(
            clusters[e],
        ));
    }
}

proof fn lemma_last_break_is_last(clusters: Seq<Seq<char>>, start: int, e: int)
    requires
        0 <= start <= e <= clusters.len(),
    ensures
        ({
            let b = last_break(clusters, start, e);
            &&& start <= b <= e
            &&& b > start ==> text::blank(clusters[b - 1])
            &&& forall|k: int| b <= k < e ==> !text::blank(#[trigger] clusters[k])
        }),
    decreases e - start,
{
    if start < e && !text::blank(clusters[e - 1]) {
        lemma_last_break_is_last(clusters, start, e - 1);
    }
}

proof fn lemma_columns_grow(clusters: Seq<Seq<char>>, lo: int, mid: int, hi: int)
    requires
        lo <= mid <= hi,
    ensures
        columns_between(clusters, lo, mid) <= columns_between(clusters, lo, hi),
    decreases hi - mid,
{
    if mid < hi {
        lemma_columns_grow(clusters, lo, mid, hi - 1);
    }
}

/// Where a line ends that begins at `start`. It holds no newline, and its
/// clusters fit in the width unless it is a single one. It goes to the end of
/// the buffer, or to a newline, which the next line leaves out; otherwise the
/// next line goes on where it ends, because more would not fit: behind the last
/// white space of what fits, or behind all that fits where there is none.
pub proof fn lemma_line_is_as_long_as_it_fits(
    clusters: Seq<Seq<char>>,
    start: int,
    width: int,
) -> (fitting: int)
    requires
        0 <= start <= clusters.len(),
        0 <= width,
    ensures
        ({
            let (end, next) = line_from(clusters, start, width);
            &&& start <= end <= clusters.len()
            &&& unbroken(clusters, start, end)
            &&& columns_between(clusters, start, end) <= width || end == start + 1
            &&& {
                ||| end == clusters.len() && next == end
                ||| next == end + 1 && end < clusters.len() && (clusters[end] == "\n"@
                    || clusters[end] == "\r\n"@)
                ||| {
                    &&& next == end
                    &&& start < end <= clusters.len()
                    &&& start <= fitting < clusters.len()
                    &&& columns_between(clusters, start, fitting) <= width
                    &&& columns_between(clusters, start, fitting + 1) > width
                    &&& {
                        ||| end <= fitting && text::blank(clusters[end - 1]) && (forall|k: int|
                            end <= k < fitting ==> !text::blank(#[trigger] clusters[k]))
                        ||| end == fitting && (forall|k: int|
                            start <= k < fitting ==> !text::blank(#[trigger] clusters[k]))
                        ||| fitting == start && end == start + 1
                    }
                }
            }
        }),
{
    let e = fit_end(clusters, start, 0, width);
    assert(columns_between(clusters, start, start) == 0);
    lemma_fit_end_fits(clusters, start, start, 0, width);
    lemma_last_break_is_last(clusters, start, e);
    let b = last_break(clusters, start, e);
    lemma_columns_grow(clusters, start, b, e);
    e
}

/// The visual lines cover the buffer: the first begins at its start, each next
/// one where the line before ends or behind the newline there, and the last
/// ends at the end.
pub proof fn lemma_lines_cover(clusters: Seq<Seq<char>>, start: int, width: int)
    requires
        0 <= start <= clusters.len(),
        0 <= width,
    ensures
        ({
            let lines = lines_from(clusters, start, width);
            &&& lines.len() > 0
            &&& lines[0].0 == start
            &&& lines.last().1 == clusters.len()
            &&& forall|k: int|
                #![trigger lines[k]]
                0 <= k < lines.len() - 1 ==> lines[k + 1].0 == lines[k].1 && lines[k].1
                    > lines[k].0 || lines[k + 1].0 == lines[k].1 + 1 && (clusters[lines[k].1]
                    == "\n"@ || clusters[lines[k].1] == "\r\n"@)
        }),
    decreases clusters.len() - start,
{
    lemma_line_from(clusters, start, width);
    lemma_line_is_as_long_as_it_fits(clusters, start, width);
    assert(columns_between(clusters, start, start) == 0);
    lemma_fit_end_fits(clusters, start, start, 0, width);
    let (end, next) = line_from(clusters, start, width);
    if fit_end(clusters, start, 0, width) < clusters.len() {
        lemma_lines_cover(clusters, next, width);
        let rest = lines_from(clusters, next, width);
        let lines = lines_from(clusters, start, width);
        assert(lines =~= seq![(start, end)] + rest);
        assert(lines.last() == rest.last());
        assert forall|k: int|
            #![trigger lines[k]]
            0 <= k < lines.len() - 1 implies lines[k + 1].0 == lines[k].1 && lines[k].1
            > lines[k].0 || lines[k + 1].0 == lines[k].1 + 1 && (clusters[lines[k].1] == "\n"@
            || clusters[lines[k].1] == "\r\n"@) by {
            assert(lines[k + 1] == rest[k]);
            if k > 0 {
                assert(lines[k] == rest[k - 1]);
            }
        }
    }
}

/// The lines of a text cover it without gaps, and only a newline stands
/// between two of them.
pub proof fn lemma_wrapped_lines_cover(text: &str, width: usize, lines: Vec<WrappedLine>, k: int)
    requires
        call_ensures(wrap_text, (text, width), lines),
        0 <= k < lines@.len(),
    ensures
        ({
            let clusters = text::grapheme_clusters(text@);
            let line = lines@[k];
            &&& lines@[0].grapheme_start == 0
            &&& lines@[lines@.len() - 1].grapheme_end == clusters.len()
            &&& k + 1 < lines@.len() ==> lines@[k + 1].grapheme_start == line.grapheme_end
                && line.grapheme_start < line.grapheme_end || lines@[k + 1].grapheme_start
                == line.grapheme_end + 1 && (clusters[line.grapheme_end as int] == "\n"@
                || clusters[line.grapheme_end as int] == "\r\n"@)
        }),
{
    let clusters = text::grapheme_clusters(text@);
    let ranged = ranges(lines@);
    lemma_lines_cover(clusters, 0, width as int);
    assert(ranged.len() == lines@.len());
    assert(ranged[0].0 == lines@[0].grapheme_start);
    assert(ranged.last() == ranged[lines@.len() - 1]);
    assert(ranged[k] == (lines@[k].grapheme_start as int, lines@[k].grapheme_end as int));
    if k + 1 < lines@.len() {
        assert(ranged[k + 1].0 == lines@[k + 1].grapheme_start);
    }
}

proof fn lemma_line_at(clusters: Seq<Seq<char>>, start: int, width: int, k: int)
    requires
        0 <= start <= clusters.len(),
        0 <= k < lines_from(clusters, start, width).len(),
    ensures
        ({
            let lines = lines_from(clusters, start, width);
            &&& start <= lines[k].0 <= clusters.len()
            &&& lines[k].1 == line_from(clusters, lines[k].0, width).0
            &&& k + 1 < lines.len() ==> lines[k + 1].0 == line_from(clusters, lines[k].0, width).1
        }),
    decreases clusters.len() - start,
{
    lemma_line_from(clusters, start, width);
    let (end, next) = line_from(clusters, start, width);
    if !(fit_end(clusters, start, 0, width) >= clusters.len() || next <= start || next
        > clusters.len()) {
        let rest = lines_from(clusters, next, width);
        let lines = lines_from(clusters, start, width);
        lemma_lines_from(clusters, next, width);
        if k > 0 {
            lemma_line_at(clusters, next, width, k - 1);
            assert(lines[k] == rest[k - 1]);
        }
        if k + 1 < lines.len() {
            assert(lines[k + 1] == rest[k]);
        }
    }
}

/// Each line of a wrapped text holds no newline and fits in the width unless
/// it is a single cluster. It ends at the end of the text, before a newline,
/// or where the next cluster, or the word that it is part of, does not fit.
pub proof fn lemma_wrapped_line_fits(text: &str, width: usize, lines: Vec<WrappedLine>, k: int) -> (
fitting: int)
    requires
        call_ensures(wrap_text, (text, width), lines),
        0 <= k < lines@.len(),
    ensures
        ({
            let clusters = text::grapheme_clusters(text@);
            let (start, end) = (lines@[k].grapheme_start as int, lines@[k].grapheme_end as int);
            &&& 0 <= start <= end <= clusters.len()
            &&& unbroken(clusters, start, end)
            &&& columns_between(clusters, start, end) <= width || end == start + 1
            &&& end == clusters.len() || clusters[end] == "\n"@ || clusters[end] == "\r\n"@ || {
                &&& start < end
                &&& start <= fitting < clusters.len()
                &&& columns_between(clusters, start, fitting) <= width
                &&& columns_between(clusters, start, fitting + 1) > width
                &&& {
                    ||| end <= fitting && text::blank(clusters[end - 1]) && (forall|j: int|
                        end <= j < fitting ==> !text::blank(#[trigger] clusters[j]))
                    ||| end == fitting && (forall|j: int|
                        start <= j < fitting ==> !text::blank(#[trigger] clusters[j]))
                    ||| fitting == start && end == start + 1
                }
            }
        }),
{
    let clusters = text::grapheme_clusters(text@);
    let ranged = ranges(lines@);
    assert(ranged[k] == (lines@[k].grapheme_start as int, lines@[k].grapheme_end as int));
    lemma_line_at(clusters, 0, width as int, k);
    lemma_line_is_as_long_as_it_fits(clusters, ranged[k].0, width as int)
}

} // verus!
