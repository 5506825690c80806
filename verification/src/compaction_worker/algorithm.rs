//! Boundary finding, token accumulation and entry gathering for compaction.

use crate::chat_entry::{ChatEntry, ChatEntryKind};
use crate::context::token_estimator::{self, estimate_entry_tokens, CharRatioEstimator};
use vstd::prelude::*;

verus! {

/// Whether an entry can open the part of the history that is kept: only a
/// user or a system message stands on its own.
pub open spec fn kept_opener(entry: ChatEntry) -> bool {
    entry.kind is User || entry.kind is System
}

/// Whether an entry is half of a tool invocation.
pub open spec fn tool_entry(entry: ChatEntry) -> bool {
    entry.kind is ToolCall || entry.kind is ToolResult
}

/// The first index at or after `i` that holds no tool entry.
pub open spec fn past_tools(history: Seq<ChatEntry>, i: int) -> int
    decreases history.len() - i,
{
    if 0 <= i < history.len() && tool_entry(history[i]) {
        past_tools(history, i + 1)
    } else {
        i
    }
}

/// Whether every tool call in `[lo, hi)` has a result of the same id there.
pub open spec fn calls_answered(history: Seq<ChatEntry>, lo: int, hi: int) -> bool {
    forall|c: int|
        #![trigger history[c]]
        lo <= c < hi ==> (history[c].kind matches ChatEntryKind::ToolCall { id, .. }
            ==> result_between(history, lo, hi, id@))
}

/// Whether some tool result in `[lo, hi)` carries the id.
pub open spec fn result_between(history: Seq<ChatEntry>, lo: int, hi: int, id: Seq<char>) -> bool {
    exists|r: int|
        #![trigger history[r]]
        lo <= r < hi && (history[r].kind matches ChatEntryKind::ToolResult { id: i, .. } && i@ == id)
}

/// Where a cut settles that may neither part a tool result from its call nor
/// fall before an assistant message whose tool calls are not all answered.
pub open spec fn settled_cut(history: Seq<ChatEntry>, cut: int) -> int
    decreases history.len() - cut,
{
    if cut < 0 || cut >= history.len() {
        cut
    } else {
        proof {
            lemma_past_tools(history, cut);
        }
        let c = past_tools(history, cut);
        if c >= history.len() || !(history[c].kind is Assistant) {
            c
        } else {
            let group_end = past_tools(history, c + 1);
            if calls_answered(history, c + 1, group_end) {
                c
            } else {
                proof {
                    lemma_past_tools(history, c + 1);
                }
                settled_cut(history, group_end)
            }
        }
    }
}

/// The tool entries end at the first index that holds none.
pub proof fn lemma_past_tools(history: Seq<ChatEntry>, i: int)
    requires
        0 <= i <= history.len(),
    ensures
        i <= past_tools(history, i) <= history.len(),
        forall|j: int| i <= j < past_tools(history, i) ==> tool_entry(#[trigger] history[j]),
        past_tools(history, i) < history.len() ==> !tool_entry(history[past_tools(history, i)]),
    decreases history.len() - i,
{
    if i < history.len() && tool_entry(history[i]) {
        lemma_past_tools(history, i + 1);
    }
}

proof fn lemma_past_tools_from(history: Seq<ChatEntry>, i: int, end: int)
    requires
        0 <= i <= end <= history.len(),
        forall|j: int| i <= j < end ==> tool_entry(#[trigger] history[j]),
        end < history.len() ==> !tool_entry(history[end]),
    ensures
        past_tools(history, i) == end,
    decreases end - i,
{
    if i < end {
        assert(tool_entry(history[i]));
        lemma_past_tools_from(history, i + 1, end);
    }
}

/// A settled cut lies at or after the proposed one, inside the history, on no
/// tool entry, and no opener was passed over on the way.
pub proof fn lemma_settled_cut(history: Seq<ChatEntry>, cut: int)
    requires
        0 <= cut <= history.len(),
    ensures
        cut <= settled_cut(history, cut) <= history.len(),
        settled_cut(history, cut) < history.len() ==> !tool_entry(
            history[settled_cut(history, cut)],
        ),
        forall|j: int|
            cut <= j < settled_cut(history, cut) ==> !kept_opener(#[trigger] history[j]),
    decreases history.len() - cut,
{
    if cut < history.len() {
        lemma_past_tools(history, cut);
        let c = past_tools(history, cut);
        if c < history.len() && history[c].kind is Assistant {
            lemma_past_tools(history, c + 1);
            let group_end = past_tools(history, c + 1);
            if !calls_answered(history, c + 1, group_end) {
                lemma_settled_cut(history, group_end);
            }
        }
    }
}

/// Whether an entry kind can open the kept part of the history.
pub fn is_valid_kept_opener(kind: &ChatEntryKind) -> (valid: bool)
    ensures
        valid == (kind is User || kind is System),
{
    match kind {
        ChatEntryKind::User { .. } | ChatEntryKind::System(_) => true,
        _ => false,
    }
}

/// Whether an entry kind is half of a tool invocation.
fn is_tool_kind(kind: &ChatEntryKind) -> (tool: bool)
    ensures
        tool == (kind is ToolCall || kind is ToolResult),
{
    match kind {
        ChatEntryKind::ToolCall { .. } | ChatEntryKind::ToolResult { .. } => true,
        _ => false,
    }
}

/// The first index at or after `cut` whose entry can open the kept part, or
/// the end of the history.
pub open spec fn kept_start(history: Seq<ChatEntry>, cut: int) -> int
    decreases history.len() - cut,
{
    if 0 <= cut < history.len() && !kept_opener(history[cut]) {
        kept_start(history, cut + 1)
    } else {
        cut
    }
}

/// The kept part begins at or after the cut, inside the history, with an
/// opener unless it is empty, and no opener is given up.
pub proof fn lemma_kept_start(history: Seq<ChatEntry>, cut: int)
    requires
        0 <= cut <= history.len(),
    ensures
        cut <= kept_start(history, cut) <= history.len(),
        kept_start(history, cut) < history.len() ==> kept_opener(
            history[kept_start(history, cut)],
        ),
        forall|j: int| cut <= j < kept_start(history, cut) ==> !kept_opener(#[trigger] history[j]),
    decreases history.len() - cut,
{
    if cut < history.len() && !kept_opener(history[cut]) {
        lemma_kept_start(history, cut + 1);
    }
}

/// Adjusting an adjusted cut changes nothing.
pub proof fn lemma_kept_start_idempotent(history: Seq<ChatEntry>, cut: int)
    requires
        0 <= cut,
    ensures
        kept_start(history, kept_start(history, cut)) == kept_start(history, cut),
{
    if cut <= history.len() {
        lemma_kept_start(history, cut);
    }
}

proof fn lemma_kept_start_passes(history: Seq<ChatEntry>, cut: int, later: int)
    requires
        0 <= cut <= later <= history.len(),
        forall|j: int| cut <= j < later ==> !kept_opener(#[trigger] history[j]),
    ensures
        kept_start(history, cut) == kept_start(history, later),
    decreases later - cut,
{
    if cut < later {
        assert(!kept_opener(history[cut]));
        lemma_kept_start_passes(history, cut + 1, later);
    }
}

/// A later cut adjusts to no earlier boundary.
pub proof fn lemma_kept_start_monotone(history: Seq<ChatEntry>, cut: int, later: int)
    requires
        0 <= cut <= later,
    ensures
        kept_start(history, cut) <= kept_start(history, later),
{
    if cut <= history.len() {
        lemma_kept_start(history, cut);
        let start = kept_start(history, cut);
        if later <= history.len() {
            lemma_kept_start(history, later);
            if later <= start {
                lemma_kept_start_passes(history, cut, later);
            }
        }
    }
}

/// Moves a cut forward to where the kept part of the history stands on its
/// own: to the first user or system message at or after it, or to the end.
///
/// The cut first leaves tool entries and assistant messages with unanswered
/// tool calls behind, then walks on to an opener.
pub fn adjust_cut_to_boundary(history: &[ChatEntry], cut_index: usize) -> (cut: usize)
    ensures
        cut == kept_start(history@, cut_index as int),
        cut_index <= history@.len() ==> cut_index <= cut <= history@.len(),
        cut_index <= history@.len() && cut < history@.len() ==> kept_opener(history@[cut as int]),
{
    let mut cut: usize = adjust_cut_inner(history, cut_index);
    if cut_index >= history.len() {
        return cut;
    }
    proof {
        lemma_settled_cut(history@, cut_index as int);
        lemma_kept_start_passes(history@, cut_index as int, cut as int);
    }
    while cut < history.len() && !is_valid_kept_opener(&history[cut].kind)
        invariant
            cut_index <= cut <= history@.len(),
            kept_start(history@, cut_index as int) == kept_start(history@, cut as int),
        decreases history@.len() - cut,
    {
        cut += 1;
    }
    cut
}

/// Settles a cut behind tool entries and unanswered tool calls.
fn adjust_cut_inner(history: &[ChatEntry], cut_index: usize) -> (cut: usize)
    ensures
        cut == settled_cut(history@, cut_index as int),
    decreases history@.len() - cut_index,
{
    if cut_index >= history.len() {
        return cut_index;
    }
    let mut cut: usize = cut_index;
    while cut < history.len() && is_tool_kind(&history[cut].kind)
        invariant
            cut_index <= cut <= history@.len(),
            forall|j: int| cut_index <= j < cut ==> tool_entry(#[trigger] history@[j]),
        decreases history@.len() - cut,
    {
        cut += 1;
    }
    proof {
        lemma_past_tools_from(history@, cut_index as int, cut as int);
    }
    if cut >= history.len() {
        return cut;
    }
    match &history[cut].kind {
        ChatEntryKind::Assistant(_) => {},
        _ => {
            return cut;
        },
    }

    let mut group_end: usize = cut + 1;
    while group_end < history.len() && is_tool_kind(&history[group_end].kind)
        invariant
            cut < group_end <= history@.len(),
            forall|j: int| cut < j < group_end ==> tool_entry(#[trigger] history@[j]),
        decreases history@.len() - group_end,
    {
        group_end += 1;
    }
    proof {
        lemma_past_tools_from(history@, cut + 1, group_end as int);
    }
    if all_calls_answered(history, cut + 1, group_end) {
        return cut;
    }
    adjust_cut_inner(history, group_end)
}

/// Whether every tool call in `[lo, hi)` has a result of the same id there.
fn all_calls_answered(history: &[ChatEntry], lo: usize, hi: usize) -> (answered: bool)
    requires
        lo <= hi <= history@.len(),
    ensures
        answered == calls_answered(history@, lo as int, hi as int),
{
    let mut call: usize = lo;
    while call < hi
        invariant
            lo <= call <= hi <= history@.len(),
            calls_answered(history@, lo as int, hi as int) <==> forall|c: int|
                #![trigger history@[c]]
                call <= c < hi ==> (history@[c].kind matches ChatEntryKind::ToolCall { id, .. }
                    ==> result_between(history@, lo as int, hi as int, id@)),
        decreases hi - call,
    {
        if let ChatEntryKind::ToolCall { id, .. } = &history[call].kind {
            let mut found = false;
            let mut r: usize = lo;
            while r < hi
                invariant
                    lo <= r <= hi <= history@.len(),
                    found <==> exists|k: int|
                        #![trigger history@[k]]
                        lo <= k < r && (history@[k].kind matches ChatEntryKind::ToolResult {
                            id: i,
                            ..
                        } && i@ == id@),
                decreases hi - r,
            {
                if let ChatEntryKind::ToolResult { id: result_id, .. } = &history[r].kind {
                    if *result_id == *id {
                        found = true;
                    }
                }
                r += 1;
            }
            if !found {
                assert(history@[call as int].kind matches ChatEntryKind::ToolCall { id, .. }
                    && !result_between(history@, lo as int, hi as int, id@));
                return false;
            }
        }
        call += 1;
    }
    true
}

/// The estimated tokens of the entries in `[lo, hi)` that `counted` accepts.
pub open spec fn tokens_between(
    history: Seq<ChatEntry>,
    lo: int,
    hi: int,
    counted: spec_fn(ChatEntry) -> bool,
) -> nat
    decreases hi - lo,
{
    if lo >= hi {
        0
    } else {
        tokens_between(history, lo, hi - 1, counted) + if counted(history[hi - 1]) {
            token_estimator::entry_tokens(CharRatioEstimator, history[hi - 1])
        } else {
            0
        }
    }
}

/// The tokens of the entries from `lo` on.
pub open spec fn tail_tokens(history: Seq<ChatEntry>, lo: int) -> nat {
    tokens_between(history, lo, history.len() as int, |entry: ChatEntry| true)
}

/// Whether the entry's token estimate fits in machine arithmetic.
pub open spec fn estimable(entry: ChatEntry) -> bool {
    token_estimator::content_bound(CharRatioEstimator, entry) <= usize::MAX
}

/// A bound, over the lengths of the texts alone, on the tokens in `[lo, hi)`.
pub open spec fn tokens_bound(history: Seq<ChatEntry>, lo: int, hi: int) -> nat
    decreases hi - lo,
{
    if lo >= hi {
        0
    } else {
        tokens_bound(history, lo, hi - 1) + token_estimator::content_bound(
            CharRatioEstimator,
            history[hi - 1],
        )
    }
}

proof fn lemma_tokens_from_front(
    history: Seq<ChatEntry>,
    lo: int,
    hi: int,
    counted: spec_fn(ChatEntry) -> bool,
)
    requires
        lo < hi,
    ensures
        tokens_between(history, lo, hi, counted) == tokens_between(history, lo + 1, hi, counted)
            + if counted(history[lo]) {
            token_estimator::entry_tokens(CharRatioEstimator, history[lo])
        } else {
            0
        },
    decreases hi - lo,
{
    if lo + 1 < hi {
        lemma_tokens_from_front(history, lo, hi - 1, counted);
    } else {
        assert(tokens_between(history, lo, lo, counted) == 0);
        assert(tokens_between(history, lo + 1, lo + 1, counted) == 0);
    }
}

proof fn lemma_tokens_bound_grows(history: Seq<ChatEntry>, lo: int, mid: int, hi: int)
    requires
        lo <= mid <= hi,
    ensures
        tokens_bound(history, lo, mid) <= tokens_bound(history, lo, hi),
    decreases hi - mid,
{
    if mid < hi {
        lemma_tokens_bound_grows(history, lo, mid, hi - 1);
    }
}

/// A later tail never holds more tokens.
pub proof fn lemma_tail_tokens_shrink(history: Seq<ChatEntry>, from: int, to: int)
    requires
        0 <= from <= to <= history.len(),
    ensures
        tail_tokens(history, to) <= tail_tokens(history, from),
    decreases to - from,
{
    if from < to {
        lemma_tokens_from_front(
            history,
            from,
            history.len() as int,
            |entry: ChatEntry| true,
        );
        lemma_tail_tokens_shrink(history, from + 1, to);
    }
}

/// Finds where the recent entries begin that fit in the reserve.
///
/// The cut is the least index at or after `start_index` from which the
/// entries' tokens stay within `reserve_tokens`; with `compact_all` it is the
/// end of the history.
pub fn compute_cut_index(
    history: &[ChatEntry],
    start_index: usize,
    reserve_tokens: usize,
    compact_all: bool,
) -> (cut: usize)
    requires
        forall|i: int| start_index <= i < history@.len() ==> estimable(#[trigger] history@[i]),
    ensures
        compact_all ==> cut == history@.len(),
        !compact_all && start_index > history@.len() ==> cut == start_index,
        !compact_all && start_index <= history@.len() ==> {
            &&& start_index <= cut <= history@.len()
            &&& tail_tokens(history@, cut as int) <= reserve_tokens
            &&& cut > start_index ==> tail_tokens(history@, cut - 1) > reserve_tokens
            &&& tail_tokens(history@, start_index as int) <= reserve_tokens ==> cut == start_index
        },
{
    if compact_all {
        return history.len();
    }
    if start_index >= history.len() {
        return start_index;
    }
    let ghost all = |entry: ChatEntry| true;
    let mut accumulated: usize = 0;
    let mut i: usize = history.len();
    while i > start_index
        invariant
            !compact_all,
            start_index <= i <= history@.len(),
            accumulated <= reserve_tokens,
            all == (|entry: ChatEntry| true),
            accumulated == tokens_between(history@, i as int, history@.len() as int, all),
            forall|j: int| start_index <= j < history@.len() ==> estimable(#[trigger] history@[j]),
        decreases i,
    {
        proof {
            lemma_tokens_from_front(history@, i - 1, history@.len() as int, all);
        }
        let tokens: usize = estimate_entry_tokens(&CharRatioEstimator, &history[i - 1]);
        if tokens > reserve_tokens - accumulated {
            proof {
                lemma_tail_tokens_shrink(history@, start_index as int, i - 1);
            }
            return i;
        }
        accumulated += tokens;
        i -= 1;
    }
    start_index
}

/// Whether an entry is summarised by compaction: neither a system message nor
/// an earlier summary.
pub open spec fn compactable(entry: ChatEntry) -> bool {
    !(entry.kind is System) && !(entry.kind is Compaction)
}

/// The indices in `[lo, hi)` of the compactable entries, ascending.
pub open spec fn compactable_indices(history: Seq<ChatEntry>, lo: int, hi: int) -> Seq<usize>
    decreases hi - lo,
{
    if lo >= hi {
        Seq::empty()
    } else {
        let before = compactable_indices(history, lo, hi - 1);
        if compactable(history[hi - 1]) {
            before.push((hi - 1) as usize)
        } else {
            before
        }
    }
}

/// The gathered indices are exactly those of the compactable entries of the
/// range, in ascending order.
pub proof fn lemma_compactable_indices(history: Seq<ChatEntry>, lo: int, hi: int)
    requires
        0 <= lo <= hi <= history.len(),
        history.len() <= usize::MAX,
    ensures
        forall|k: int|
            #![trigger compactable_indices(history, lo, hi)[k]]
            0 <= k < compactable_indices(history, lo, hi).len() ==> {
                let i = compactable_indices(history, lo, hi)[k] as int;
                lo <= i < hi && compactable(history[i])
            },
        forall|i: int|
            lo <= i < hi && compactable(#[trigger] history[i]) ==> compactable_indices(
                history,
                lo,
                hi,
            ).contains(i as usize),
        forall|k: int, m: int|
            0 <= k < m < compactable_indices(history, lo, hi).len() ==> compactable_indices(
                history,
                lo,
                hi,
            )[k] < compactable_indices(history, lo, hi)[m],
    decreases hi - lo,
{
    if lo < hi {
        lemma_compactable_indices(history, lo, hi - 1);
        let before = compactable_indices(history, lo, hi - 1);
        let all = compactable_indices(history, lo, hi);
        assert forall|i: int| lo <= i < hi && compactable(#[trigger] history[i]) implies all.contains(
            i as usize,
        ) by {
            if i < hi - 1 {
                let k = choose|k: int| 0 <= k < before.len() && before[k] == i as usize;
                assert(all[k] == i as usize);
            } else {
                assert(all[before.len() as int] == i as usize);
            }
        }
    }
}

/// The end of the gathered range: the cut, but never past the history.
pub open spec fn clamp_cut(history: Seq<ChatEntry>, cut_index: usize) -> int {
    if cut_index <= history.len() {
        cut_index as int
    } else {
        history.len() as int
    }
}

/// Gathers the compactable entries between `start_index` and `cut_index` and
/// sums their estimated tokens.
pub fn gather_compactable_entries(
    history: &[ChatEntry],
    start_index: usize,
    cut_index: usize,
) -> (gathered: (Vec<usize>, usize))
    requires
        tokens_bound(history@, start_index as int, clamp_cut(history@, cut_index)) <= usize::MAX,
    ensures
        gathered.0@ == compactable_indices(
            history@,
            start_index as int,
            clamp_cut(history@, cut_index),
        ),
        gathered.1 == tokens_between(
            history@,
            start_index as int,
            clamp_cut(history@, cut_index),
            |entry: ChatEntry| compactable(entry),
        ),
{
    let end: usize = if cut_index <= history.len() {
        cut_index
    } else {
        history.len()
    };
    let ghost counted = |entry: ChatEntry| compactable(entry);
    let mut gathered: Vec<usize> = Vec::new();
    let mut tokens_before: usize = 0;
    let mut i: usize = start_index;
    while i < end
        invariant
            end <= history@.len(),
            start_index <= i,
            start_index < end ==> i <= end,
            start_index >= end ==> i == start_index,
            end == clamp_cut(history@, cut_index),
            counted == (|entry: ChatEntry| compactable(entry)),
            tokens_bound(history@, start_index as int, end as int) <= usize::MAX,
            gathered@ == compactable_indices(history@, start_index as int, i as int),
            tokens_before == tokens_between(history@, start_index as int, i as int, counted),
            tokens_before <= tokens_bound(history@, start_index as int, i as int),
        decreases end - i,
    {
        proof {
            lemma_tokens_bound_grows(history@, start_index as int, i + 1, end as int);
        }
        let entry = &history[i];
        let system = match &entry.kind {
            ChatEntryKind::System(_) => true,
            _ => false,
        };
        if !system && !entry.is_compaction() {
            tokens_before += estimate_entry_tokens(&CharRatioEstimator, entry);
            gathered.push(i);
        }
        i += 1;
    }
    proof {
        if start_index >= end {
            assert(tokens_between(history@, start_index as int, end as int, counted) == 0);
        }
    }
    (gathered, tokens_before)
}

/// The context window: what the provider reports, or the fallback.
pub fn resolve_context_window(context_length: Option<u32>, fallback: usize) -> (window: usize)
    ensures
        window == (match context_length {
            Some(length) => length as usize,
            None => fallback,
        }),
{
    match context_length {
        Some(length) => length as usize,
        None => fallback,
    }
}

/// Estimates the tokens of all entries from `start_index` on, leaving
/// compaction summaries out.
pub fn estimate_total_tokens(history: &[ChatEntry], start_index: usize) -> (total: usize)
    requires
        tokens_bound(history@, start_index as int, history@.len() as int) <= usize::MAX,
    ensures
        total == tokens_between(
            history@,
            start_index as int,
            history@.len() as int,
            |entry: ChatEntry| !(entry.kind is Compaction),
        ),
{
    let ghost counted = |entry: ChatEntry| !(entry.kind is Compaction);
    let mut total: usize = 0;
    let mut i: usize = start_index;
    while i < history.len()
        invariant
            start_index <= i,
            start_index < history@.len() ==> i <= history@.len(),
            start_index >= history@.len() ==> i == start_index,
            counted == (|entry: ChatEntry| !(entry.kind is Compaction)),
            tokens_bound(history@, start_index as int, history@.len() as int) <= usize::MAX,
            total == tokens_between(history@, start_index as int, i as int, counted),
            total <= tokens_bound(history@, start_index as int, i as int),
        decreases history@.len() - i,
    {
        proof {
            lemma_tokens_bound_grows(
                history@,
                start_index as int,
                i + 1,
                history@.len() as int,
            );
        }
        let entry = &history[i];
        if !entry.is_compaction() {
            total += estimate_entry_tokens(&CharRatioEstimator, entry);
        }
        i += 1;
    }
    proof {
        if start_index >= history@.len() {
            assert(tokens_between(history@, start_index as int, history@.len() as int, counted)
                == 0);
        }
    }
    total
}

/// Finds the index after the last compaction summary, or 0.
pub fn find_start_boundary(history: &[ChatEntry]) -> (start: usize)
    ensures
        start <= history@.len(),
        start > 0 ==> history@[start - 1].kind is Compaction,
        forall|i: int| start <= i < history@.len() ==> !((#[trigger] history@[i]).kind is Compaction),
{
    let mut i: usize = history.len();
    while i > 0
        invariant
            i <= history@.len(),
            forall|j: int| i <= j < history@.len() ==> !((#[trigger] history@[j]).kind is Compaction),
        decreases i,
    {
        if history[i - 1].is_compaction() {
            return i;
        }
        i -= 1;
    }
    0
}

/// The adjusted cut is the first user or system message at or behind the cut,
/// and the end of the history where there is none.
pub proof fn lemma_kept_part_opens_with_a_message(history: Seq<ChatEntry>, cut: int)
    requires
        0 <= cut <= history.len(),
    ensures
        ({
            let start = kept_start(history, cut);
            &&& cut <= start <= history.len()
            &&& start < history.len() ==> history[start].kind is User
                || history[start].kind is System
            &&& forall|j: int|
                cut <= j < start ==> !((#[trigger] history[j]).kind is User) && !(
                history[j].kind is System)
        }),
{
    lemma_kept_start(history, cut);
    assert forall|j: int| cut <= j < kept_start(history, cut) implies !((
    #[trigger] history[j]).kind is User) && !(history[j].kind is System) by {
        assert(!kept_opener(history[j]));
    }
}

/// Tokens add up over neighbouring parts of a history, and a part of one entry
/// costs what the entry costs where it is counted.
pub proof fn lemma_tokens_add_up(
    history: Seq<ChatEntry>,
    lo: int,
    mid: int,
    hi: int,
    counted: spec_fn(ChatEntry) -> bool,
)
    requires
        lo <= mid <= hi,
    ensures
        tokens_between(history, lo, hi, counted) == tokens_between(history, lo, mid, counted)
            + tokens_between(history, mid, hi, counted),
        tokens_between(history, lo, lo + 1, counted) == if counted(history[lo]) {
            token_estimator::entry_tokens(CharRatioEstimator, history[lo])
        } else {
            0
        },
    decreases hi - mid,
{
    assert(tokens_between(history, lo, lo, counted) == 0);
    if mid < hi {
        lemma_tokens_add_up(history, lo, mid, hi - 1, counted);
    }
}

/// What is summarised is every entry of the range but system messages and
/// earlier summaries.
pub proof fn lemma_summarised_entries(history: Seq<ChatEntry>, lo: int, hi: int, i: int)
    requires
        0 <= lo <= hi <= history.len() <= usize::MAX,
        0 <= i < history.len(),
    ensures
        compactable_indices(history, lo, hi).contains(i as usize) <==> lo <= i < hi && !(
        history[i].kind is System) && !(history[i].kind is Compaction),
{
    lemma_compactable_indices(history, lo, hi);
    let all = compactable_indices(history, lo, hi);
    if all.contains(i as usize) {
        let k = choose|k: int| 0 <= k < all.len() && all[k] == i as usize;
        assert(all[k] as int == i);
    }
}

/// The tokens from an entry on are its own and those behind it; nothing is
/// left out, and behind the last entry there are none.
pub proof fn lemma_tail_tokens_step(history: Seq<ChatEntry>, i: int)
    requires
        0 <= i < history.len(),
    ensures
        tail_tokens(history, i) == token_estimator::entry_tokens(CharRatioEstimator, history[i])
            + tail_tokens(history, i + 1),
        tail_tokens(history, history.len() as int) == 0,
{
    lemma_tokens_from_front(history, i, history.len() as int, |entry: ChatEntry| true);
}

/// What is kept fits in the reserve, and with any earlier cut it would not.
pub proof fn lemma_cut_keeps_what_fits(
    history: &[ChatEntry],
    start_index: usize,
    reserve_tokens: usize,
    cut: usize,
    other: int,
)
    requires
        call_ensures(compute_cut_index, (history, start_index, reserve_tokens, false), cut),
        start_index <= other <= history@.len(),
    ensures
        start_index <= cut <= history@.len(),
        tail_tokens(history@, other) <= reserve_tokens <==> cut <= other,
{
    if other < cut {
        lemma_tail_tokens_shrink(history@, other, cut - 1);
    } else {
        lemma_tail_tokens_shrink(history@, cut as int, other);
    }
}

/// The cut is moved to the first user or system message at or behind it, and
/// to the end of the history where there is none.
pub proof fn lemma_adjusted_cut_opens_with_a_message(
    history: &[ChatEntry],
    cut_index: usize,
    cut: usize,
)
    requires
        call_ensures(adjust_cut_to_boundary, (history, cut_index), cut),
        cut_index <= history@.len(),
    ensures
        cut_index <= cut <= history@.len(),
        cut < history@.len() ==> history@[cut as int].kind is User
            || history@[cut as int].kind is System,
        forall|j: int|
            cut_index <= j < cut ==> !((#[trigger] history@[j]).kind is User) && !(
            history@[j].kind is System),
{
    lemma_kept_part_opens_with_a_message(history@, cut_index as int);
}

/// What is gathered for a summary is every entry of the range but system
/// messages and earlier summaries, each once and in order.
pub proof fn lemma_gathered_entries(
    history: &[ChatEntry],
    start_index: usize,
    cut_index: usize,
    gathered: (Vec<usize>, usize),
    i: int,
)
    requires
        call_ensures(gather_compactable_entries, (history, start_index, cut_index), gathered),
        start_index <= cut_index <= history@.len(),
        0 <= i < history@.len(),
    ensures
        gathered.0@.contains(i as usize) <==> start_index <= i < cut_index && !(
        history@[i].kind is System) && !(history@[i].kind is Compaction),
        forall|k: int, m: int|
            0 <= k < m < gathered.0@.len() ==> gathered.0@[k] < gathered.0@[m],
{
    assert(history.len() == history@.len());
    lemma_compactable_indices(history@, start_index as int, cut_index as int);
    lemma_summarised_entries(history@, start_index as int, cut_index as int, i);
}

/// The tokens of what is gathered add up over neighbouring ranges, and a range
/// of one entry has those of the entry where it is gathered.
pub proof fn lemma_gathered_tokens(
    history: &[ChatEntry],
    start: usize,
    mid: usize,
    end: usize,
    first: (Vec<usize>, usize),
    second: (Vec<usize>, usize),
    whole: (Vec<usize>, usize),
)
    requires
        start <= mid <= end <= history@.len(),
        call_ensures(gather_compactable_entries, (history, start, mid), first),
        call_ensures(gather_compactable_entries, (history, mid, end), second),
        call_ensures(gather_compactable_entries, (history, start, end), whole),
    ensures
        whole.1 == first.1 + second.1,
        start < end && mid == start + 1 ==> first.1 == if history@[start as int].kind is System
            || history@[start as int].kind is Compaction {
            0
        } else {
            token_estimator::entry_tokens(CharRatioEstimator, history@[start as int])
        },
{
    lemma_tokens_add_up(
        history@,
        start as int,
        mid as int,
        end as int,
        |entry: ChatEntry| compactable(entry),
    );
}

/// The tokens of a history are those of its first entry, unless that is an
/// earlier summary, and those from the next one on.
pub proof fn lemma_total_tokens_step(
    history: &[ChatEntry],
    start_index: usize,
    total: usize,
    rest: usize,
)
    requires
        start_index < history@.len(),
        call_ensures(estimate_total_tokens, (history, start_index), total),
        call_ensures(estimate_total_tokens, (history, (start_index + 1) as usize), rest),
    ensures
        start_index + 1 == history@.len() ==> rest == 0,
        total == rest + if history@[start_index as int].kind is Compaction {
            0
        } else {
            token_estimator::entry_tokens(CharRatioEstimator, history@[start_index as int])
        },
{
    assert(history.len() == history@.len());
    let counted = |entry: ChatEntry| !(entry.kind is Compaction);
    lemma_tokens_from_front(history@, start_index as int, history@.len() as int, counted);
}

/// A compaction starts behind the last summary: no summary follows, and one
/// stands right before unless it starts with the history.
pub proof fn lemma_start_is_behind_the_last_summary(history: &[ChatEntry], start: usize, i: int)
    requires
        call_ensures(find_start_boundary, (history,), start),
        0 <= i < history@.len(),
        history@[i].kind is Compaction,
    ensures
        i < start <= history@.len(),
        history@[start - 1].kind is Compaction,
{
}

/// With `compact_all` nothing is kept.
pub proof fn lemma_compacting_all_keeps_nothing(
    history: &[ChatEntry],
    start_index: usize,
    reserve_tokens: usize,
    cut: usize,
)
    requires
        call_ensures(compute_cut_index, (history, start_index, reserve_tokens, true), cut),
    ensures
        cut == history@.len(),
{
}

/// What the provider reports is the context window; the fallback counts only
/// where it reports nothing.
pub proof fn lemma_reported_window_counts(
    length: u32,
    fallback: usize,
    reported: usize,
    unreported: usize,
)
    requires
        call_ensures(resolve_context_window, (Some(length), fallback), reported),
        call_ensures(resolve_context_window, (None, fallback), unreported),
    ensures
        reported == length,
        unreported == fallback,
{
}

} // verus!
