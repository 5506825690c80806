//! Tokens in the input buffer: a trigger and what is typed behind it.

use crate::chat_input::state;
use crate::chat_input::state::ChatInputBoxState;
use crate::text;
use crate::text::{concat_clusters, graphemes, is_blank, starts_with, text_eq};
use vstd::prelude::*;

verus! {

/// Whether a token may begin at the position: at the start of the buffer, or
/// behind a space or a newline.
pub open spec fn boundary_before(clusters: Seq<Seq<char>>, at: int) -> bool {
    at == 0 || clusters[at - 1] == " "@ || clusters[at - 1] == "\n"@
}

/// Whether a token stops before the cluster: at white space, and at the next
/// mark where there is one.
pub open spec fn stops(cluster: Seq<char>, mark: Option<Seq<char>>) -> bool {
    text::blank(cluster) || mark == Some(cluster)
}

/// The first position at or after `from` where a token stops.
pub open spec fn token_end(clusters: Seq<Seq<char>>, from: int, mark: Option<Seq<char>>) -> int
    decreases clusters.len() - from,
{
    if 0 <= from < clusters.len() && !stops(clusters[from], mark) {
        token_end(clusters, from + 1, mark)
    } else {
        from
    }
}

/// The last position at or before `i` that holds the mark, with no white
/// space from it up to `i`.
pub open spec fn mark_before(clusters: Seq<Seq<char>>, i: int, mark: Seq<char>) -> Option<int>
    decreases i + 1,
{
    if i < 0 {
        None
    } else if i < clusters.len() && clusters[i] == mark {
        Some(i)
    } else if i < clusters.len() && text::blank(clusters[i]) {
        None
    } else {
        mark_before(clusters, i - 1, mark)
    }
}

/// The start of the marked token that the cursor is in.
pub open spec fn token_at(clusters: Seq<Seq<char>>, cursor: int, mark: Seq<char>) -> Option<int> {
    match mark_before(clusters, cursor, mark) {
        Some(i) => if boundary_before(clusters, i) && cursor <= token_end(
            clusters,
            i + 1,
            Some(mark),
        ) {
            Some(i)
        } else {
            None
        },
        None => None,
    }
}

/// Whether the cursor is in a command at the start of the buffer.
pub open spec fn in_command(input: state::InputView) -> bool {
    "/"@.is_prefix_of(input.text) && input.cursor <= token_end(input.clusters(), 1, None)
}

/// Whether the cursor has left the popup's token.
pub open spec fn left_token(input: state::InputView) -> bool {
    match input.popup {
        Some(popup) => input.cursor <= popup.token_start || input.cursor > token_end(
            input.clusters(),
            popup.token_start + 1,
            Some("#"@),
        ),
        None => false,
    }
}

/// A token starts at a mark at or before the cursor, and neither white space
/// nor a second mark stands between the mark and the cursor.
pub proof fn lemma_token_at(clusters: Seq<Seq<char>>, cursor: int, mark: Seq<char>)
    ensures
        token_at(clusters, cursor, mark) matches Some(i) ==> {
            &&& 0 <= i <= cursor
            &&& i < clusters.len()
            &&& clusters[i] == mark
            &&& boundary_before(clusters, i)
            &&& forall|k: int|
                i < k < cursor && k < clusters.len() ==> !text::blank(#[trigger] clusters[k])
                    && clusters[k] != mark
        },
{
    lemma_mark_before(clusters, cursor, mark);
}

proof fn lemma_mark_before(clusters: Seq<Seq<char>>, i: int, mark: Seq<char>)
    ensures
        mark_before(clusters, i, mark) matches Some(m) ==> {
            &&& 0 <= m <= i
            &&& m < clusters.len()
            &&& clusters[m] == mark
            &&& forall|k: int|
                m < k <= i && k < clusters.len() ==> !text::blank(#[trigger] clusters[k])
                    && clusters[k] != mark
        },
    decreases i + 1,
{
    if i >= 0 {
        lemma_mark_before(clusters, i - 1, mark);
    }
}

/// Whether a token may begin at the position.
pub fn is_boundary_before(clusters: &Vec<String>, at: usize) -> (yes: bool)
    requires
        at <= clusters@.len(),
    ensures
        yes == boundary_before(text::texts(clusters@), at as int),
{
    if at == 0 {
        return true;
    }
    let before = clusters[at - 1].as_str();
    text_eq(before, " ") || text_eq(before, "\n")
}

/// The first position at or after `from` where a token stops.
pub fn compute_token_end(clusters: &Vec<String>, from: usize, mark: Option<&str>) -> (end: usize)
    ensures
        end == token_end(
            text::texts(clusters@),
            from as int,
            match mark {
                Some(m) => Some(m@),
                None => None,
            },
        ),
{
    let ghost all = text::texts(clusters@);
    let ghost stop = match mark {
        Some(m) => Some(m@),
        None => None,
    };
    let mut end: usize = from;
    while end < clusters.len()
        invariant
            all == text::texts(clusters@),
            stop == (match mark {
                Some(m) => Some(m@),
                None => None,
            }),
            token_end(all, from as int, stop) == token_end(all, end as int, stop),
        decreases clusters@.len() - end,
    {
        let cluster = clusters[end].as_str();
        let marked = match mark {
            Some(m) => text_eq(cluster, m),
            None => false,
        };
        if marked || is_blank(cluster) {
            return end;
        }
        end += 1;
    }
    end
}

/// The start of the marked token that the cursor is in, and what is typed
/// behind it up to the cursor.
pub fn find_token_at_cursor(input: &ChatInputBoxState, mark: &str) -> (found: Option<
    (usize, String),
>)
    ensures
        match found {
            Some((start, filter)) => token_at(input@.clusters(), input@.cursor, mark@) == Some(
                start as int,
            ) && filter@ == text::cluster_text(input@.clusters(), start + 1, input@.cursor),
            None => token_at(input@.clusters(), input@.cursor, mark@) is None,
        },
{
    let cursor: usize = input.cursor_pos();
    let clusters = graphemes(input.text());
    let ghost all = text::texts(clusters@);
    let mut i: usize = cursor;
    loop
        invariant
            i <= cursor <= clusters@.len(),
            all == text::texts(clusters@),
            all == input@.clusters(),
            cursor == input@.cursor,
            mark_before(all, cursor as int, mark@) == mark_before(all, i as int, mark@),
        decreases i,
    {
        if i < clusters.len() {
            let cluster = clusters[i].as_str();
            if text_eq(cluster, mark) {
                if !is_boundary_before(&clusters, i) {
                    return None;
                }
                let end: usize = compute_token_end(&clusters, i + 1, Some(mark));
                if cursor > end {
                    return None;
                }
                let filter = concat_clusters(&clusters, i + 1, cursor);
                return Some((i, filter));
            }
            if is_blank(cluster) {
                return None;
            }
        }
        if i == 0 {
            assert(mark_before(all, -1, mark@) is None);
            return None;
        }
        i -= 1;
    }
}

/// What is typed behind the `/` of a command at the start of the buffer up to
/// the cursor, if the cursor is in it.
pub fn find_slash_token_at_cursor(input: &ChatInputBoxState) -> (filter: Option<String>)
    ensures
        match filter {
            Some(f) => in_command(input@) && f@ == text::cluster_text(
                input@.clusters(),
                1,
                input@.cursor,
            ),
            None => !in_command(input@),
        },
{
    if !starts_with(input.text(), "/") {
        return None;
    }
    let cursor: usize = input.cursor_pos();
    let clusters = graphemes(input.text());
    let end: usize = compute_token_end(&clusters, 1, None);
    if cursor <= end {
        Some(concat_clusters(&clusters, 1, cursor))
    } else {
        None
    }
}

/// Whether the cursor has left the popup's token.
pub fn should_deactivate_on_cursor_move(input: &ChatInputBoxState) -> (yes: bool)
    ensures
        yes == left_token(input@),
{
    let token_start: usize = match input.autocomplete_token_start() {
        Some(start) => start,
        None => {
            return false;
        },
    };
    let cursor: usize = input.cursor_pos();
    if cursor <= token_start {
        return true;
    }
    let clusters = graphemes(input.text());
    cursor > compute_token_end(&clusters, token_start + 1, Some("#"))
}

/// A token ends before the first white space or mark at or behind `from`, or
/// at the end of the buffer.
pub proof fn lemma_token_end(clusters: Seq<Seq<char>>, from: int, mark: Option<Seq<char>>)
    requires
        0 <= from <= clusters.len(),
    ensures
        ({
            let end = token_end(clusters, from, mark);
            &&& from <= end <= clusters.len()
            &&& forall|k: int|
                from <= k < end ==> !text::blank(#[trigger] clusters[k]) && Some(clusters[k])
                    != mark
            &&& end < clusters.len() ==> text::blank(clusters[end]) || Some(clusters[end]) == mark
        }),
    decreases clusters.len() - from,
{
    if from < clusters.len() && !stops(clusters[from], mark) {
        lemma_token_end(clusters, from + 1, mark);
    }
}

/// Where the cursor stands in no white space and behind a mark at a word's
/// start, with neither mark nor white space between, it is in that token.
pub proof fn lemma_token_is_found(
    clusters: Seq<Seq<char>>,
    start: int,
    cursor: int,
    mark: Seq<char>,
)
    requires
        0 <= start < cursor <= clusters.len(),
        clusters[start] == mark,
        start == 0 || clusters[start - 1] == " "@ || clusters[start - 1] == "\n"@,
        forall|k: int|
            start < k <= cursor && k < clusters.len() ==> !text::blank(#[trigger] clusters[k])
                && clusters[k] != mark,
    ensures
        token_at(clusters, cursor, mark) == Some(start),
{
    lemma_mark_is_found(clusters, start, cursor, mark);
    lemma_token_end(clusters, start + 1, Some(mark));
}

proof fn lemma_mark_is_found(
    clusters: Seq<Seq<char>>,
    start: int,
    i: int,
    mark: Seq<char>,
)
    requires
        0 <= start <= i <= clusters.len(),
        start < clusters.len(),
        clusters[start] == mark,
        forall|k: int|
            start < k <= i && k < clusters.len() ==> !text::blank(#[trigger] clusters[k])
                && clusters[k] != mark,
    ensures
        mark_before(clusters, i, mark) == Some(start),
    decreases i - start,
{
    if start < i {
        if i < clusters.len() {
            assert(!text::blank(clusters[i]) && clusters[i] != mark);
        }
        lemma_mark_is_found(clusters, start, i - 1, mark);
    }
}

/// A token that is found starts with the mark, at the start of the text or
/// behind a space or newline. No white space and no second mark stands up to
/// the cursor, and its filter is what stands there.
pub proof fn lemma_found_token(
    input: &ChatInputBoxState,
    mark: &str,
    found: Option<(usize, String)>,
)
    requires
        call_ensures(find_token_at_cursor, (input, mark), found),
        found is Some,
        input@.cursor <= input@.clusters().len(),
    ensures
        ({
            let (start, filter) = found.unwrap();
            let clusters = input@.clusters();
            &&& start < clusters.len()
            &&& start <= input@.cursor
            &&& clusters[start as int] == mark@
            &&& start == 0 || clusters[start - 1] == " "@ || clusters[start - 1] == "\n"@
            &&& forall|k: int|
                start < k < input@.cursor ==> !text::blank(#[trigger] clusters[k]) && clusters[k]
                    != mark@
            &&& start < input@.cursor ==> filter@ == clusters.subrange(
                start + 1,
                input@.cursor,
            ).flatten()
        }),
{
    lemma_token_at(input@.clusters(), input@.cursor, mark@);
}

/// The end of a token that is computed is the first white space or mark at or
/// behind the place, or the end of the text.
pub proof fn lemma_computed_token_end(
    clusters: &Vec<String>,
    from: usize,
    mark: &str,
    end: usize,
)
    requires
        call_ensures(compute_token_end, (clusters, from, Some(mark)), end),
        from <= clusters@.len(),
    ensures
        from <= end <= clusters@.len(),
        forall|k: int|
            #![trigger clusters@[k]]
            from <= k < end ==> !text::blank(clusters@[k]@) && clusters@[k]@ != mark@,
        end < clusters@.len() ==> text::blank(clusters@[end as int]@) || clusters@[end as int]@
            == mark@,
{
    let texts = text::texts(clusters@);
    lemma_token_end(texts, from as int, Some(mark@));
    assert forall|k: int| #![trigger clusters@[k]] from <= k < end implies !text::blank(
        clusters@[k]@,
    ) && clusters@[k]@ != mark@ by {
        assert(texts[k] == clusters@[k]@);
    }
}

/// The cursor has left the token of a popup exactly where it stands at or
/// before the trigger, or where white space or a `#` stands between the two.
pub proof fn lemma_token_is_left(input: &ChatInputBoxState, yes: bool)
    requires
        call_ensures(should_deactivate_on_cursor_move, (input,), yes),
        input@.popup is Some,
        0 <= input@.popup.unwrap().token_start < input@.clusters().len(),
        input@.cursor <= input@.clusters().len(),
    ensures
        ({
            let start = input@.popup.unwrap().token_start;
            let clusters = input@.clusters();
            yes <==> input@.cursor <= start || exists|k: int|
                start < k < input@.cursor && (text::blank(#[trigger] clusters[k]) || clusters[k]
                    == "#"@)
        }),
{
    let start = input@.popup.unwrap().token_start;
    let clusters = input@.clusters();
    lemma_token_end(clusters, start + 1, Some("#"@));
    let end = token_end(clusters, start + 1, Some("#"@));
    if input@.cursor > end {
        assert(text::blank(clusters[end]) || clusters[end] == "#"@);
    }
    if input@.cursor > start && exists|k: int|
        start < k < input@.cursor && (text::blank(#[trigger] clusters[k]) || clusters[k] == "#"@) {
        let k = choose|k: int|
            start < k < input@.cursor && (text::blank(#[trigger] clusters[k]) || clusters[k]
                == "#"@);
        if k < end {
            assert(!text::blank(clusters[k]) && Some(clusters[k]) != Some("#"@));
        }
    }
}

/// The cursor is in a command exactly where the text starts with `/` and no
/// white space stands behind it up to the cursor.
pub proof fn lemma_command_at_cursor(input: &ChatInputBoxState, filter: Option<String>)
    requires
        call_ensures(find_slash_token_at_cursor, (input,), filter),
        1 <= input@.clusters().len(),
        input@.cursor <= input@.clusters().len(),
    ensures
        filter is Some <==> "/"@.is_prefix_of(input@.text) && forall|k: int|
            1 <= k < input@.cursor ==> !text::blank(#[trigger] input@.clusters()[k]),
        filter is Some && input@.cursor >= 1 ==> filter.unwrap()@ == input@.clusters().subrange(
            1,
            input@.cursor,
        ).flatten(),
{
    let clusters = input@.clusters();
    lemma_token_end(clusters, 1, None);
    let end = token_end(clusters, 1, None);
    if input@.cursor > end {
        assert(text::blank(clusters[end]));
    }
}

} // verus!
