//! The entries of a session, the cursor in them, and how they are changed.
//!
//! An assistant message and the tool traffic behind it form a chunk, which is
//! included, excluded and pinned as one. A run of two or more excluded entries
//! is shown collapsed, unless the user unfolds it.

use crate::chat_entry::{
    ChangeSource, ChatEntry, ChatEntryId, ChatEntryKind, ContextOverride, PinPosition,
};
use vstd::prelude::*;

verus! {

/// Whether the entry belongs to the chunk of the entry before it: it is half
/// of a tool invocation behind an assistant message or more tool traffic.
pub open spec fn continues_chunk(entries: Seq<ChatEntry>, i: int) -> bool {
    &&& 0 < i < entries.len()
    &&& entries[i].kind is ToolCall || entries[i].kind is ToolResult
    &&& entries[i - 1].kind is ToolCall || entries[i - 1].kind is ToolResult
        || entries[i - 1].kind is Assistant
}

/// The index of the first entry of the chunk that holds `i`.
pub open spec fn chunk_start(entries: Seq<ChatEntry>, i: int) -> int
    decreases i,
{
    if i > 0 && continues_chunk(entries, i) {
        chunk_start(entries, i - 1)
    } else {
        i
    }
}

/// The first index at or after `i` that continues no chunk.
pub open spec fn chunk_break(entries: Seq<ChatEntry>, i: int) -> int
    decreases entries.len() - i,
{
    if continues_chunk(entries, i) {
        chunk_break(entries, i + 1)
    } else {
        i
    }
}

/// The index behind the last entry of the chunk that holds `i`.
pub open spec fn chunk_end(entries: Seq<ChatEntry>, i: int) -> int {
    chunk_break(entries, i + 1)
}

/// Whether some entry in `[lo, hi)` is pinned.
pub open spec fn any_pinned(entries: Seq<ChatEntry>, lo: int, hi: int) -> bool {
    exists|k: int| lo <= k < hi && (#[trigger] entries[k]).pinned()
}

/// Whether the chunk that holds `i` refuses the override: a pinned member
/// keeps it from being excluded.
pub open spec fn refuses(entries: Seq<ChatEntry>, i: int, value: ContextOverride) -> bool {
    value == ContextOverride::ForcedExclude && any_pinned(
        entries,
        chunk_start(entries, i),
        chunk_end(entries, i),
    )
}

/// Whether setting the override on the chunk that holds `i` changes it.
pub open spec fn chunk_changes(entries: Seq<ChatEntry>, i: int, value: ContextOverride) -> bool {
    !refuses(entries, i, value) && exists|k: int|
        chunk_start(entries, i) <= k < chunk_end(entries, i) && (
        #[trigger] entries[k]).context_override != value
}

/// Whether `later` is the entry after the user set its override: an entry that
/// had it already is left as it is.
pub open spec fn user_set(entry: ChatEntry, value: ContextOverride, later: ChatEntry) -> bool {
    if entry.context_override == value {
        later == entry
    } else {
        entry.overridden_to(value, ChangeSource::User, later)
    }
}

/// Whether `later` are the entries after the user set the override on the
/// chunk that holds `i`.
pub open spec fn chunk_set(
    entries: Seq<ChatEntry>,
    i: int,
    value: ContextOverride,
    later: Seq<ChatEntry>,
) -> bool {
    &&& later.len() == entries.len()
    &&& forall|k: int|
        #![trigger entries[k]]
        #![trigger later[k]]
        0 <= k < entries.len() ==> if chunk_start(entries, i) <= k < chunk_end(entries, i)
            && !refuses(entries, i, value) {
            user_set(entries[k], value, later[k])
        } else {
            later[k] == entries[k]
        }
}

/// A chunk lies around its entries: it starts at one that continues no chunk,
/// ends before another such, and every entry between continues it.
pub proof fn lemma_chunk(entries: Seq<ChatEntry>, i: int)
    requires
        0 <= i < entries.len(),
    ensures
        0 <= chunk_start(entries, i) <= i < chunk_end(entries, i) <= entries.len(),
        !continues_chunk(entries, chunk_start(entries, i)),
        !continues_chunk(entries, chunk_end(entries, i)),
        forall|k: int|
            chunk_start(entries, i) < k < chunk_end(entries, i) ==> #[trigger] continues_chunk(
                entries,
                k,
            ),
{
    lemma_chunk_start(entries, i);
    lemma_chunk_break(entries, i + 1);
}

proof fn lemma_chunk_start(entries: Seq<ChatEntry>, i: int)
    requires
        0 <= i < entries.len(),
    ensures
        0 <= chunk_start(entries, i) <= i,
        !continues_chunk(entries, chunk_start(entries, i)),
        forall|k: int|
            chunk_start(entries, i) < k <= i ==> #[trigger] continues_chunk(entries, k),
    decreases i,
{
    if i > 0 && continues_chunk(entries, i) {
        lemma_chunk_start(entries, i - 1);
    }
}

proof fn lemma_chunk_break(entries: Seq<ChatEntry>, i: int)
    requires
        0 <= i <= entries.len(),
    ensures
        i <= chunk_break(entries, i) <= entries.len(),
        !continues_chunk(entries, chunk_break(entries, i)),
        forall|k: int| i <= k < chunk_break(entries, i) ==> #[trigger] continues_chunk(entries, k),
    decreases entries.len() - i,
{
    if continues_chunk(entries, i) {
        lemma_chunk_break(entries, i + 1);
    }
}

proof fn lemma_chunk_start_is(entries: Seq<ChatEntry>, i: int, start: int)
    requires
        0 <= start <= i < entries.len(),
        !continues_chunk(entries, start),
        forall|k: int| start < k <= i ==> #[trigger] continues_chunk(entries, k),
    ensures
        chunk_start(entries, i) == start,
    decreases i,
{
    if i > start {
        assert(continues_chunk(entries, i));
        lemma_chunk_start_is(entries, i - 1, start);
    }
}

proof fn lemma_chunk_break_is(entries: Seq<ChatEntry>, i: int, end: int)
    requires
        0 <= i <= end <= entries.len(),
        !continues_chunk(entries, end),
        forall|k: int| i <= k < end ==> #[trigger] continues_chunk(entries, k),
    ensures
        chunk_break(entries, i) == end,
    decreases end - i,
{
    if i < end {
        assert(continues_chunk(entries, i));
        lemma_chunk_break_is(entries, i + 1, end);
    }
}

/// Every entry of a chunk sees the same chunk.
pub proof fn lemma_same_chunk(entries: Seq<ChatEntry>, i: int, k: int)
    requires
        0 <= i < entries.len(),
        chunk_start(entries, i) <= k < chunk_end(entries, i),
    ensures
        0 <= k < entries.len(),
        chunk_start(entries, k) == chunk_start(entries, i),
        chunk_end(entries, k) == chunk_end(entries, i),
{
    lemma_chunk(entries, i);
    lemma_chunk_start_is(entries, k, chunk_start(entries, i));
    lemma_chunk_break_is(entries, k + 1, chunk_end(entries, i));
}

/// Whether the entries kept their ids, kinds and pins.
pub open spec fn same_shape(a: Seq<ChatEntry>, b: Seq<ChatEntry>) -> bool {
    &&& a.len() == b.len()
    &&& forall|k: int|
        #![trigger a[k]]
        #![trigger b[k]]
        0 <= k < a.len() ==> a[k].id == b[k].id && a[k].kind == b[k].kind && a[k].pin_position
            == b[k].pin_position
}

/// Chunks depend on the shape of the entries alone.
pub proof fn lemma_chunks_keep(a: Seq<ChatEntry>, b: Seq<ChatEntry>, i: int)
    requires
        same_shape(a, b),
        0 <= i < a.len(),
    ensures
        chunk_start(a, i) == chunk_start(b, i),
        chunk_end(a, i) == chunk_end(b, i),
        forall|v: ContextOverride| #[trigger] refuses(a, i, v) == refuses(b, i, v),
{
    assert forall|k: int| #[trigger] continues_chunk(a, k) == continues_chunk(b, k) by {
        if 0 < k < a.len() {
            assert(a[k].kind == b[k].kind && a[k - 1].kind == b[k - 1].kind);
        }
    }
    lemma_chunk(a, i);
    assert forall|k: int| chunk_start(a, i) < k < chunk_end(a, i) implies #[trigger] continues_chunk(
        b,
        k,
    ) by {
        assert(continues_chunk(a, k));
    }
    assert(!continues_chunk(a, chunk_start(a, i)) && !continues_chunk(a, chunk_end(a, i)));
    lemma_chunk_start_is(b, i, chunk_start(a, i));
    lemma_chunk_break_is(b, i + 1, chunk_end(a, i));
    assert forall|v: ContextOverride| #[trigger] refuses(a, i, v) == refuses(b, i, v) by {
        let (lo, hi) = (chunk_start(a, i), chunk_end(a, i));
        if any_pinned(a, lo, hi) {
            let k = choose|k: int| lo <= k < hi && (#[trigger] a[k]).pinned();
            assert(b[k].pinned());
        }
        if any_pinned(b, lo, hi) {
            let k = choose|k: int| lo <= k < hi && (#[trigger] b[k]).pinned();
            assert(a[k].pinned());
        }
    }
}

/// Whether the entry at `i` continues the chunk before it.
fn continues(entries: &[ChatEntry], i: usize) -> (yes: bool)
    ensures
        yes == continues_chunk(entries@, i as int),
{
    if i == 0 || i >= entries.len() {
        return false;
    }
    let tool = match &entries[i].kind {
        ChatEntryKind::ToolCall { .. } | ChatEntryKind::ToolResult { .. } => true,
        _ => false,
    };
    let after = match &entries[i - 1].kind {
        ChatEntryKind::ToolCall { .. }
        | ChatEntryKind::ToolResult { .. }
        | ChatEntryKind::Assistant(_) => true,
        _ => false,
    };
    tool && after
}

/// The index behind the tool loop that holds `idx`, or `None` where the entry
/// is a chunk of its own.
pub fn tool_group_end(entries: &[ChatEntry], idx: usize) -> (end: Option<usize>)
    ensures
        idx >= entries@.len() ==> end is None,
        idx < entries@.len() ==> match end {
            Some(e) => e == chunk_end(entries@, idx as int) && e > idx + 1,
            None => chunk_end(entries@, idx as int) == idx + 1,
        },
{
    if idx >= entries.len() {
        return None;
    }
    let mut end: usize = idx + 1;
    while continues(entries, end)
        invariant
            idx < end <= entries@.len(),
            chunk_end(entries@, idx as int) == chunk_break(entries@, end as int),
        decreases entries@.len() - end,
    {
        assert(end < entries.len());
        end += 1;
    }
    if end > idx + 1 {
        Some(end)
    } else {
        None
    }
}

/// Whether the entry is shown as excluded.
pub open spec fn ignored(entry: ChatEntry) -> bool {
    !entry.pinned() && entry.context_override == ContextOverride::ForcedExclude
}

/// The first entry of the run of excluded entries that ends with `i`.
pub open spec fn run_start(entries: Seq<ChatEntry>, i: int) -> int
    decreases i,
{
    if i > 0 && ignored(entries[i - 1]) {
        run_start(entries, i - 1)
    } else {
        i
    }
}

/// The index behind the run of excluded entries that begins at or before `i`.
pub open spec fn run_end(entries: Seq<ChatEntry>, i: int) -> int
    decreases entries.len() - i,
{
    if 0 <= i < entries.len() && ignored(entries[i]) {
        run_end(entries, i + 1)
    } else {
        i
    }
}

/// The index of the first entry at or after `from` with this id.
pub open spec fn index_of_id(entries: Seq<ChatEntry>, from: int, id: ChatEntryId) -> Option<int>
    decreases entries.len() - from,
{
    if from < 0 || from >= entries.len() {
        None
    } else if entries[from].id == id {
        Some(from)
    } else {
        index_of_id(entries, from + 1, id)
    }
}

/// The entries of a session with the cursor in them.
#[derive(Debug, PartialEq, Eq)]
pub struct ChatLog {
    pub entries: Vec<ChatEntry>,
    /// The index of the entry that the cursor is on.
    pub cursor: Option<usize>,
    /// The first entries of the excluded runs that the user has unfolded.
    pub shown_blocks: Vec<ChatEntryId>,
    /// The override that a sweep carries on to the next entry.
    pub ignore_sweep: Option<ContextOverride>,
}

/// Whether the entry at `i` is hidden in a collapsed block.
pub open spec fn collapsed(entries: Seq<ChatEntry>, shown: Seq<ChatEntryId>, i: int) -> bool {
    &&& 0 <= i < entries.len()
    &&& ignored(entries[i])
    &&& run_end(entries, i) - run_start(entries, i) >= 2
    &&& !shown.contains(entries[run_start(entries, i)].id)
}

/// Where the cursor goes from `i` by one visible step.
pub open spec fn step_from(entries: Seq<ChatEntry>, shown: Seq<ChatEntryId>, i: int) -> int {
    if collapsed(entries, shown, i) {
        run_end(entries, i)
    } else {
        i + 1
    }
}

/// The cursor after one visible step down from `i`: it stays at the bottom.
pub open spec fn advanced(entries: Seq<ChatEntry>, shown: Seq<ChatEntryId>, i: int) -> int {
    let next = step_from(entries, shown, i);
    if next < entries.len() {
        next
    } else {
        i
    }
}

/// The unfolded blocks after the entry at `i` came back into the prompt: where
/// it was part of an unfolded block, the part behind it stays unfolded.
pub open spec fn shown_after_unignore(
    entries: Seq<ChatEntry>,
    shown: Seq<ChatEntryId>,
    i: int,
) -> Seq<ChatEntryId> {
    let was_shown = shown.contains(entries[i].id) || (i > 0 && ignored(entries[i - 1])
        && shown.contains(entries[run_start(entries, i)].id));
    if was_shown && i + 1 < entries.len() && ignored(entries[i + 1]) && !shown.contains(
        entries[i + 1].id,
    ) {
        shown.push(entries[i + 1].id)
    } else {
        shown
    }
}

/// A run of excluded entries ends behind its entries.
pub proof fn lemma_run_end(entries: Seq<ChatEntry>, i: int)
    requires
        0 <= i < entries.len(),
    ensures
        i <= run_end(entries, i) <= entries.len(),
        ignored(entries[i]) ==> i < run_end(entries, i),
    decreases entries.len() - i,
{
    if ignored(entries[i]) {
        if i + 1 < entries.len() {
            lemma_run_end(entries, i + 1);
        } else {
            assert(run_end(entries, i + 1) == i + 1);
        }
    }
}

/// Whether the list holds the id.
fn contains_id(ids: &Vec<ChatEntryId>, id: ChatEntryId) -> (found: bool)
    ensures
        found == ids@.contains(id),
{
    let mut k: usize = 0;
    while k < ids.len()
        invariant
            forall|j: int| 0 <= j < k ==> ids@[j] != id,
        decreases ids@.len() - k,
    {
        if ids[k] == id {
            assert(ids@[k as int] == id);
            return true;
        }
        k += 1;
    }
    false
}

impl ChatLog {
    /// Whether the cursor is on an entry.
    pub open spec fn wf(self) -> bool {
        self.cursor matches Some(i) ==> i < self.entries@.len()
    }

    /// The index of the entry that is selected: the cursor's, unless that
    /// entry is hidden in a collapsed block.
    pub open spec fn selected(self) -> Option<int> {
        match self.cursor {
            Some(i) => if collapsed(self.entries@, self.shown_blocks@, i as int) {
                None
            } else {
                Some(i as int)
            },
            None => None,
        }
    }

    /// An empty log.
    pub fn new() -> (log: ChatLog)
        ensures
            log.wf(),
            log.entries@.len() == 0,
            log.cursor is None,
            log.shown_blocks@.len() == 0,
            log.ignore_sweep is None,
    {
        ChatLog { entries: Vec::new(), cursor: None, shown_blocks: Vec::new(), ignore_sweep: None }
    }

    /// The entries.
    pub fn history(&self) -> (entries: &[ChatEntry])
        ensures
            entries@ == self.entries@,
    {
        self.entries.as_slice()
    }

    /// Appends an entry. The cursor stays where it is.
    pub fn push_entry(&mut self, entry: ChatEntry)
        requires
            old(self).wf(),
        ensures
            final(self).wf(),
            final(self).entries@ == old(self).entries@.push(entry),
            final(self).cursor == old(self).cursor,
            final(self).shown_blocks == old(self).shown_blocks,
            final(self).ignore_sweep == old(self).ignore_sweep,
    {
        self.entries.push(entry);
    }

    /// Finds the first entry with this id.
    fn find(&self, id: &ChatEntryId) -> (found: Option<usize>)
        ensures
            found matches Some(i) ==> i < self.entries@.len() && index_of_id(
                self.entries@,
                0,
                *id,
            ) == Some(i as int) && self.entries@[i as int].id == *id,
            found is None ==> index_of_id(self.entries@, 0, *id) is None,
    {
        let mut i: usize = 0;
        while i < self.entries.len()
            invariant
                index_of_id(self.entries@, 0, *id) == index_of_id(self.entries@, i as int, *id),
            decreases self.entries@.len() - i,
        {
            if self.entries[i].id == *id {
                return Some(i);
            }
            i += 1;
        }
        None
    }

    /// Takes the cursor off the entries.
    pub fn clear_selection(&mut self)
        ensures
            *final(self) == (ChatLog { cursor: None, ..*old(self) }),
    {
        self.cursor = None;
    }

    /// Puts the cursor on the entry with this id, if there is one.
    pub fn set_selected_cursor_id(&mut self, id: ChatEntryId)
        requires
            old(self).wf(),
        ensures
            final(self).wf(),
            *final(self) == (ChatLog {
                cursor: (match index_of_id(old(self).entries@, 0, id) {
                    Some(i) => Some(i as usize),
                    None => old(self).cursor,
                }),
                ..*old(self)
            }),
    {
        if let Some(i) = self.find(&id) {
            self.cursor = Some(i);
        }
    }

    /// The id of the entry that the cursor is on.
    pub fn selected_cursor_id(&self) -> (id: Option<ChatEntryId>)
        requires
            self.wf(),
        ensures
            id == (match self.cursor {
                Some(i) => Some(self.entries@[i as int].id),
                None => None,
            }),
    {
        match self.cursor {
            Some(i) => Some(self.entries[i].id),
            None => None,
        }
    }

    /// The first index of the excluded run that ends with `i`.
    fn find_run_start(&self, i: usize) -> (start: usize)
        requires
            i < self.entries@.len(),
        ensures
            start == run_start(self.entries@, i as int),
            start <= i,
    {
        let mut start: usize = i;
        while start > 0 && is_ignored(&self.entries[start - 1])
            invariant
                start <= i < self.entries@.len(),
                run_start(self.entries@, i as int) == run_start(self.entries@, start as int),
            decreases start,
        {
            start -= 1;
        }
        start
    }

    /// The index behind the excluded run around `i`.
    fn find_run_end(&self, i: usize) -> (end: usize)
        requires
            i < self.entries@.len(),
        ensures
            end == run_end(self.entries@, i as int),
            i <= end <= self.entries@.len(),
    {
        let mut end: usize = i;
        while end < self.entries.len() && is_ignored(&self.entries[end])
            invariant
                i <= end <= self.entries@.len(),
                run_end(self.entries@, i as int) == run_end(self.entries@, end as int),
            decreases self.entries@.len() - end,
        {
            end += 1;
        }
        end
    }

    /// Whether the entry at `i` is hidden in a collapsed block.
    pub fn is_collapsed(&self, i: usize) -> (hidden: bool)
        ensures
            hidden == collapsed(self.entries@, self.shown_blocks@, i as int),
    {
        if i >= self.entries.len() || !is_ignored(&self.entries[i]) {
            return false;
        }
        let start: usize = self.find_run_start(i);
        let end: usize = self.find_run_end(i);
        end - start >= 2 && !contains_id(&self.shown_blocks, self.entries[start].id)
    }

    /// Whether the cursor is on a collapsed block.
    pub fn is_selected_collapsed_block(&self) -> (hidden: bool)
        ensures
            hidden == (self.cursor matches Some(i) && collapsed(
                self.entries@,
                self.shown_blocks@,
                i as int,
            )),
    {
        match self.cursor {
            Some(i) => self.is_collapsed(i),
            None => false,
        }
    }

    /// The index of the selected entry; `None` on a collapsed block.
    pub fn selected_history_index(&self) -> (index: Option<usize>)
        ensures
            match index {
                Some(i) => self.selected() == Some(i as int),
                None => self.selected() is None,
            },
    {
        match self.cursor {
            Some(i) => if self.is_collapsed(i) {
                None
            } else {
                Some(i)
            },
            None => None,
        }
    }

    /// The selected entry; `None` on a collapsed block.
    pub fn selected_entry(&self) -> (entry: Option<&ChatEntry>)
        requires
            self.wf(),
        ensures
            match entry {
                Some(e) => self.selected() matches Some(i) && *e == self.entries@[i],
                None => self.selected() is None,
            },
    {
        match self.selected_history_index() {
            Some(i) => Some(&self.entries[i]),
            None => None,
        }
    }

    /// Moves the cursor one visible step down; `false` at the bottom.
    pub fn advance_selection_one(&mut self) -> (moved: bool)
        requires
            old(self).wf(),
        ensures
            final(self).wf(),
            old(self).cursor is None ==> !moved && *final(self) == *old(self),
            old(self).cursor matches Some(i) ==> {
                &&& moved == (step_from(
                    old(self).entries@,
                    old(self).shown_blocks@,
                    i as int,
                ) < old(self).entries@.len())
                &&& *final(self) == (ChatLog {
                    cursor: Some(
                        advanced(
                            old(self).entries@,
                            old(self).shown_blocks@,
                            i as int,
                        ) as usize,
                    ),
                    ..*old(self)
                })
            },
    {
        match self.cursor {
            Some(i) => {
                assert(i < self.entries.len());
                let next: usize = if self.is_collapsed(i) {
                    self.find_run_end(i)
                } else {
                    i + 1
                };
                if next < self.entries.len() {
                    self.cursor = Some(next);
                    true
                } else {
                    false
                }
            },
            None => false,
        }
    }

    /// Moves the cursor one visible step down; without one, to the first
    /// entry.
    pub fn select_next_entry(&mut self)
        requires
            old(self).wf(),
        ensures
            final(self).wf(),
            *final(self) == (ChatLog {
                cursor: (match old(self).cursor {
                    Some(i) => Some(
                        advanced(
                            old(self).entries@,
                            old(self).shown_blocks@,
                            i as int,
                        ) as usize,
                    ),
                    None => if old(self).entries@.len() > 0 {
                        Some(0usize)
                    } else {
                        None
                    },
                }),
                ..*old(self)
            }),
    {
        if self.cursor.is_none() {
            if self.entries.len() > 0 {
                self.cursor = Some(0);
            }
        } else {
            self.advance_selection_one();
        }
    }

    /// Sets the override on the chunk that holds `idx`, as the user.
    ///
    /// Returns the entry's id if the chunk changed. A chunk with a pinned
    /// member refuses to be excluded.
    pub fn set_entry_context_override_at(&mut self, idx: usize, value: ContextOverride) -> (changed:
        Option<ChatEntryId>)
        requires
            old(self).wf(),
            idx < old(self).entries@.len(),
        ensures
            final(self).wf(),
            chunk_set(old(self).entries@, idx as int, value, final(self).entries@),
            same_shape(old(self).entries@, final(self).entries@),
            final(self).cursor == old(self).cursor,
            final(self).shown_blocks == old(self).shown_blocks,
            final(self).ignore_sweep == old(self).ignore_sweep,
            changed == (if chunk_changes(old(self).entries@, idx as int, value) {
                Some(old(self).entries@[idx as int].id)
            } else {
                None
            }),
    {
        let ghost entries = self.entries@;
        let ghost i = idx as int;
        proof {
            lemma_chunk(entries, i);
        }
        let mut start: usize = idx;
        while continues(self.entries.as_slice(), start)
            invariant
                start <= idx < entries.len(),
                self.entries@ == entries,
                chunk_start(entries, idx as int) == chunk_start(entries, start as int),
            decreases start,
        {
            start -= 1;
        }
        let end: usize = match tool_group_end(self.entries.as_slice(), idx) {
            Some(end) => end,
            None => {
                assert(idx < self.entries.len());
                idx + 1
            },
        };
        if value == ContextOverride::ForcedExclude && has_pin(
            self.entries.as_slice(),
            start,
            end,
        ) {
            return None;
        }
        assert(!refuses(entries, i, value));
        let mut changed = false;
        let mut k: usize = start;
        while k < end
            invariant
                start <= k <= end <= entries.len(),
                self.entries@.len() == entries.len(),
                forall|j: int|
                    #![trigger entries[j]]
                    #![trigger self.entries@[j]]
                    start <= j < k ==> user_set(entries[j], value, self.entries@[j]),
                forall|j: int|
                    #![trigger entries[j]]
                    #![trigger self.entries@[j]]
                    0 <= j < start || k <= j < entries.len() ==> self.entries@[j] == entries[j],
                changed <==> exists|j: int|
                    start <= j < k && (#[trigger] entries[j]).context_override != value,
                self.cursor == old(self).cursor,
                self.shown_blocks == old(self).shown_blocks,
                self.ignore_sweep == old(self).ignore_sweep,
            decreases end - k,
        {
            if self.entries[k].context_override != value {
                self.entries[k].apply_context_override(value, ChangeSource::User);
                changed = true;
                assert(entries[k as int].context_override != value);
            }
            k += 1;
        }
        if changed {
            Some(self.entries[idx].id)
        } else {
            None
        }
    }

    /// Sets the override on the chunk of the entry with this id, as the user.
    pub fn set_entry_context_override_by_id(
        &mut self,
        id: &ChatEntryId,
        value: ContextOverride,
    ) -> (changed: Option<ChatEntryId>)
        requires
            old(self).wf(),
        ensures
            final(self).wf(),
            match index_of_id(old(self).entries@, 0, *id) {
                Some(i) => {
                    &&& chunk_set(old(self).entries@, i, value, final(self).entries@)
                    &&& changed == (if chunk_changes(old(self).entries@, i, value) {
                        Some(*id)
                    } else {
                        None
                    })
                },
                None => changed is None && *final(self) == *old(self),
            },
            final(self).cursor == old(self).cursor,
            final(self).shown_blocks == old(self).shown_blocks,
            final(self).ignore_sweep == old(self).ignore_sweep,
    {
        match self.find(id) {
            Some(i) => self.set_entry_context_override_at(i, value),
            None => None,
        }
    }

    /// Pins the chunk of the entry with this id: tool traffic is only of use
    /// together with the message that it belongs to.
    pub fn pin_entry(&mut self, id: &ChatEntryId, position: PinPosition)
        requires
            old(self).wf(),
        ensures
            final(self).wf(),
            final(self).entries@.len() == old(self).entries@.len(),
            index_of_id(old(self).entries@, 0, *id) is None ==> *final(self) == *old(self),
            index_of_id(old(self).entries@, 0, *id) matches Some(i) ==> forall|k: int|
                0 <= k < old(self).entries@.len() ==> #[trigger] final(self).entries@[k] == if chunk_start(
                    old(self).entries@,
                    i,
                ) <= k < chunk_end(old(self).entries@, i) {
                    ChatEntry { pin_position: Some(position), ..old(self).entries@[k] }
                } else {
                    old(self).entries@[k]
                },
            final(self).cursor == old(self).cursor,
            final(self).shown_blocks == old(self).shown_blocks,
            final(self).ignore_sweep == old(self).ignore_sweep,
    {
        let idx: usize = match self.find(id) {
            Some(i) => i,
            None => {
                return;
            },
        };
        let ghost entries = self.entries@;
        proof {
            lemma_chunk(entries, idx as int);
        }
        let mut start: usize = idx;
        while continues(self.entries.as_slice(), start)
            invariant
                start <= idx < entries.len(),
                self.entries@ == entries,
                chunk_start(entries, idx as int) == chunk_start(entries, start as int),
            decreases start,
        {
            start -= 1;
        }
        let end: usize = match tool_group_end(self.entries.as_slice(), idx) {
            Some(end) => end,
            None => {
                assert(idx < self.entries.len());
                idx + 1
            },
        };
        let mut k: usize = start;
        while k < end
            invariant
                start <= k <= end <= entries.len(),
                self.entries@.len() == entries.len(),
                forall|j: int|
                    0 <= j < entries.len() ==> #[trigger] self.entries@[j] == if start <= j < k {
                        ChatEntry { pin_position: Some(position), ..entries[j] }
                    } else {
                        entries[j]
                    },
                self.cursor == old(self).cursor,
                self.shown_blocks == old(self).shown_blocks,
                self.ignore_sweep == old(self).ignore_sweep,
            decreases end - k,
        {
            self.entries[k].pin_position = Some(position);
            k += 1;
        }
    }

    /// Keeps the part behind the entry at `i` unfolded after the entry came
    /// back into the prompt.
    pub fn propagate_shown_on_unignore(&mut self, i: usize)
        requires
            i < old(self).entries@.len(),
        ensures
            final(self).shown_blocks@ == shown_after_unignore(
                old(self).entries@,
                old(self).shown_blocks@,
                i as int,
            ),
            final(self).entries == old(self).entries,
            final(self).cursor == old(self).cursor,
            final(self).ignore_sweep == old(self).ignore_sweep,
    {
        assert(i < self.entries.len());
        let mut was_shown = contains_id(&self.shown_blocks, self.entries[i].id);
        if !was_shown && i > 0 && is_ignored(&self.entries[i - 1]) {
            let start: usize = self.find_run_start(i);
            was_shown = contains_id(&self.shown_blocks, self.entries[start].id);
        }
        if was_shown && i + 1 < self.entries.len() && is_ignored(&self.entries[i + 1]) {
            let next = self.entries[i + 1].id;
            if !contains_id(&self.shown_blocks, next) {
                self.shown_blocks.push(next);
            }
        }
    }

    /// Unfolds the block that begins with this entry, or folds it again.
    pub fn toggle_ignored_block_visibility(&mut self, id: &ChatEntryId)
        ensures
            final(self).shown_blocks@.contains(*id) == !old(self).shown_blocks@.contains(*id),
            forall|other: ChatEntryId|
                other != *id ==> #[trigger] final(self).shown_blocks@.contains(other) == old(
                    self,
                ).shown_blocks@.contains(other),
            final(self).entries == old(self).entries,
            final(self).cursor == old(self).cursor,
            final(self).ignore_sweep == old(self).ignore_sweep,
    {
        let ghost before = self.shown_blocks@;
        if !contains_id(&self.shown_blocks, *id) {
            self.shown_blocks.push(*id);
            proof {
                let after = self.shown_blocks@;
                assert(after[before.len() as int] == *id);
                assert forall|other: ChatEntryId|
                    other != *id implies #[trigger] after.contains(other) == before.contains(
                    other,
                ) by {
                    if before.contains(other) {
                        let k = choose|k: int| 0 <= k < before.len() && before[k] == other;
                        assert(after[k] == other);
                    }
                }
            }
            return;
        }
        let mut kept: Vec<ChatEntryId> = Vec::new();
        let mut k: usize = 0;
        while k < self.shown_blocks.len()
            invariant
                k <= self.shown_blocks@.len(),
                self.shown_blocks@ == before,
                forall|other: ChatEntryId| #[trigger]
                    kept@.contains(other) <==> other != *id && before.take(k as int).contains(
                        other,
                    ),
            decreases self.shown_blocks@.len() - k,
        {
            let ghost old_kept = kept@;
            let block = self.shown_blocks[k];
            if block != *id {
                kept.push(block);
            }
            proof {
                assert(before.take(k + 1) =~= before.take(k as int).push(block));
                assert forall|other: ChatEntryId| #[trigger]
                    kept@.contains(other) <==> other != *id && before.take(k + 1).contains(
                        other,
                    ) by {
                    lemma_push_contains(old_kept, block, other);
                    lemma_push_contains(before.take(k as int), block, other);
                }
            }
            k += 1;
        }
        assert(before.take(k as int) =~= before);
        self.shown_blocks = kept;
    }

    /// Remembers the override that a sweep carries on.
    pub fn set_ignore_sweep(&mut self, value: ContextOverride)
        ensures
            *final(self) == (ChatLog { ignore_sweep: Some(value), ..*old(self) }),
    {
        self.ignore_sweep = Some(value);
    }
}

proof fn lemma_push_contains(ids: Seq<ChatEntryId>, id: ChatEntryId, other: ChatEntryId)
    ensures
        ids.push(id).contains(other) <==> ids.contains(other) || other == id,
{
    let all = ids.push(id);
    if ids.contains(other) {
        let k = choose|k: int| 0 <= k < ids.len() && ids[k] == other;
        assert(all[k] == other);
    }
    if other == id {
        assert(all[ids.len() as int] == other);
    }
    if all.contains(other) && other != id {
        let k = choose|k: int| 0 <= k < all.len() && all[k] == other;
        assert(ids[k] == other);
    }
}

/// Whether some entry in `[lo, hi)` is pinned.
fn has_pin(entries: &[ChatEntry], lo: usize, hi: usize) -> (found: bool)
    requires
        hi <= entries@.len(),
    ensures
        found == any_pinned(entries@, lo as int, hi as int),
{
    let mut k: usize = lo;
    while k < hi
        invariant
            lo <= k,
            hi <= entries@.len(),
            forall|j: int| lo <= j < k ==> !(#[trigger] entries@[j]).pinned(),
        decreases hi - k,
    {
        if entries[k].is_pinned() {
            assert(entries@[k as int].pinned());
            return true;
        }
        k += 1;
    }
    false
}

/// Whether the entry is shown as excluded.
pub fn is_ignored(entry: &ChatEntry) -> (yes: bool)
    ensures
        yes == ignored(*entry),
{
    !entry.is_pinned() && entry.context_override == ContextOverride::ForcedExclude
}

/// Whether the entry is one half of a tool invocation.
pub open spec fn tool_half(entry: ChatEntry) -> bool {
    entry.kind is ToolCall || entry.kind is ToolResult
}

/// Whether the entry at `k` hangs on the one before it: tool traffic behind
/// tool traffic or behind an assistant message.
pub open spec fn hangs_on(entries: Seq<ChatEntry>, k: int) -> bool {
    &&& 0 < k < entries.len()
    &&& tool_half(entries[k])
    &&& tool_half(entries[k - 1]) || entries[k - 1].kind is Assistant
}

/// A chunk is a message with the tool traffic behind it, or any other entry by
/// itself: every member but the first hangs on the one before it, and neither
/// the first nor the entry behind the chunk does.
pub proof fn lemma_chunk_is_a_tool_loop(entries: Seq<ChatEntry>, i: int)
    requires
        0 <= i < entries.len(),
    ensures
        ({
            let (start, end) = (chunk_start(entries, i), chunk_end(entries, i));
            &&& 0 <= start <= i < end <= entries.len()
            &&& !hangs_on(entries, start)
            &&& !hangs_on(entries, end)
            &&& forall|k: int| start < k < end ==> #[trigger] hangs_on(entries, k)
        }),
{
    lemma_chunk(entries, i);
    assert forall|k: int|
        chunk_start(entries, i) < k < chunk_end(entries, i) implies #[trigger] hangs_on(
        entries,
        k,
    ) by {
        assert(continues_chunk(entries, k));
    }
}

/// Setting an override reaches every member of the chunk and nothing else, and
/// is recorded as the user's where it changes something. A chunk with a pinned
/// member refuses to be excluded as a whole.
pub proof fn lemma_chunk_set(
    entries: Seq<ChatEntry>,
    i: int,
    value: ContextOverride,
    later: Seq<ChatEntry>,
    k: int,
)
    requires
        0 <= i < entries.len(),
        0 <= k < entries.len(),
        chunk_set(entries, i, value, later),
    ensures
        ({
            let (start, end) = (chunk_start(entries, i), chunk_end(entries, i));
            let pinned = exists|p: int|
                start <= p < end && (#[trigger] entries[p]).pin_position is Some;
            let refused = value == ContextOverride::ForcedExclude && pinned;
            &&& later.len() == entries.len()
            &&& !(start <= k < end) || refused || entries[k].context_override == value ==> later[k]
                == entries[k]
            &&& start <= k < end && !refused ==> later[k].context_override == value
            &&& start <= k < end && !refused && entries[k].context_override != value ==> {
                &&& later[k].id == entries[k].id
                &&& later[k].kind == entries[k].kind
                &&& later[k].pin_position == entries[k].pin_position
                &&& later[k].token_count == entries[k].token_count
                &&& later[k].context_history@ == entries[k].context_history@.push(
                    crate::chat_entry::ContextChange { to: value, source: ChangeSource::User },
                )
            }
        }),
{
    let (start, end) = (chunk_start(entries, i), chunk_end(entries, i));
    if any_pinned(entries, start, end) {
        let p = choose|p: int| start <= p < end && (#[trigger] entries[p]).pinned();
        assert(entries[p].pin_position is Some);
    }
    if exists|p: int| start <= p < end && (#[trigger] entries[p]).pin_position is Some {
        let p = choose|p: int| start <= p < end && (#[trigger] entries[p]).pin_position is Some;
        assert(entries[p].pinned());
    }
    assert(later[k] == later[k]);
}

/// A chunk counts as changed exactly if setting the override changes one of
/// its members.
pub proof fn lemma_chunk_changes(
    entries: Seq<ChatEntry>,
    i: int,
    value: ContextOverride,
    later: Seq<ChatEntry>,
)
    requires
        0 <= i < entries.len(),
        chunk_set(entries, i, value, later),
    ensures
        chunk_changes(entries, i, value) <==> later != entries,
{
    lemma_chunk(entries, i);
    if chunk_changes(entries, i, value) {
        let k = choose|k: int|
            chunk_start(entries, i) <= k < chunk_end(entries, i) && (
            #[trigger] entries[k]).context_override != value;
        assert(later[k].context_override == value);
    } else {
        assert forall|k: int| 0 <= k < entries.len() implies later[k] == entries[k] by {
            assert(later[k] == later[k]);
        }
        assert(later =~= entries);
    }
}

/// Whether the entry is shown as excluded: its override takes it out and no pin
/// keeps it in.
pub open spec fn shown_excluded(entries: Seq<ChatEntry>, k: int) -> bool {
    &&& 0 <= k < entries.len()
    &&& entries[k].pin_position is None
    &&& entries[k].context_override == ContextOverride::ForcedExclude
}

/// Whether `[start, end)` is a whole run of excluded entries.
pub open spec fn excluded_run(entries: Seq<ChatEntry>, start: int, end: int) -> bool {
    &&& 0 <= start < end <= entries.len()
    &&& forall|k: int| start <= k < end ==> #[trigger] shown_excluded(entries, k)
    &&& !shown_excluded(entries, start - 1)
    &&& !shown_excluded(entries, end)
}

proof fn lemma_run_start_whole(entries: Seq<ChatEntry>, i: int)
    requires
        0 <= i < entries.len(),
    ensures
        0 <= run_start(entries, i) <= i,
        !shown_excluded(entries, run_start(entries, i) - 1),
        forall|k: int| run_start(entries, i) <= k < i ==> #[trigger] shown_excluded(entries, k),
    decreases i,
{
    if i > 0 && ignored(entries[i - 1]) {
        lemma_run_start_whole(entries, i - 1);
        assert(shown_excluded(entries, i - 1));
    }
}

proof fn lemma_run_end_whole(entries: Seq<ChatEntry>, i: int)
    requires
        0 <= i <= entries.len(),
    ensures
        i <= run_end(entries, i) <= entries.len(),
        !shown_excluded(entries, run_end(entries, i)),
        forall|k: int| i <= k < run_end(entries, i) ==> #[trigger] shown_excluded(entries, k),
    decreases entries.len() - i,
{
    if i < entries.len() && ignored(entries[i]) {
        lemma_run_end_whole(entries, i + 1);
        assert(shown_excluded(entries, i));
    }
}

/// The run of excluded entries around an excluded one.
proof fn lemma_run_around(entries: Seq<ChatEntry>, i: int)
    requires
        shown_excluded(entries, i),
    ensures
        excluded_run(entries, run_start(entries, i), run_end(entries, i)),
        run_start(entries, i) <= i < run_end(entries, i),
{
    lemma_run_start_whole(entries, i);
    lemma_run_end_whole(entries, i);
    assert(ignored(entries[i]));
    assert(shown_excluded(entries, i));
    if run_end(entries, i) == i {
        assert(!shown_excluded(entries, i));
    }
    assert forall|k: int| run_start(entries, i) <= k < run_end(entries, i) implies
        #[trigger] shown_excluded(entries, k) by {}
}

proof fn lemma_runs_agree(entries: Seq<ChatEntry>, a: int, b: int, c: int, d: int, i: int)
    requires
        excluded_run(entries, a, b),
        excluded_run(entries, c, d),
        a <= i < b,
        c <= i < d,
    ensures
        a == c,
        b == d,
{
    if a < c {
        assert(shown_excluded(entries, c - 1));
    }
    if c < a {
        assert(shown_excluded(entries, a - 1));
    }
    if b < d {
        assert(shown_excluded(entries, b));
    }
    if d < b {
        assert(shown_excluded(entries, d));
    }
}

/// An entry is hidden exactly if it belongs to a run of two or more excluded
/// entries that the user has not unfolded. Its whole run is hidden with it.
pub proof fn lemma_collapsed_is_a_folded_run(
    entries: Seq<ChatEntry>,
    shown: Seq<ChatEntryId>,
    i: int,
    start: int,
    end: int,
)
    requires
        excluded_run(entries, start, end),
        start <= i < end,
    ensures
        collapsed(entries, shown, i) <==> end - start >= 2 && !shown.contains(entries[start].id),
        collapsed(entries, shown, i) ==> step_from(entries, shown, i) == end,
        !collapsed(entries, shown, i) ==> step_from(entries, shown, i) == i + 1,
{
    assert(shown_excluded(entries, i));
    lemma_run_around(entries, i);
    lemma_runs_agree(
        entries,
        start,
        end,
        run_start(entries, i),
        run_end(entries, i),
        i,
    );
}

/// An entry that is not shown as excluded is never hidden, and the cursor
/// steps from it to the next one.
pub proof fn lemma_included_is_visible(
    entries: Seq<ChatEntry>,
    shown: Seq<ChatEntryId>,
    i: int,
)
    requires
        !shown_excluded(entries, i),
    ensures
        !collapsed(entries, shown, i),
        step_from(entries, shown, i) == i + 1,
        advanced(entries, shown, i) == if i + 1 < entries.len() {
            i + 1
        } else {
            i
        },
{
}

/// Where the cursor steps down over a hidden run, it comes to the first entry
/// behind the run, or stays where there is none.
pub proof fn lemma_step_over_folded_run(
    entries: Seq<ChatEntry>,
    shown: Seq<ChatEntryId>,
    i: int,
    start: int,
    end: int,
)
    requires
        excluded_run(entries, start, end),
        start <= i < end,
        end - start >= 2,
        !shown.contains(entries[start].id),
    ensures
        advanced(entries, shown, i) == if end < entries.len() {
            end
        } else {
            i
        },
{
    lemma_collapsed_is_a_folded_run(entries, shown, i, start, end);
}

/// The entry under the cursor is selected unless it is hidden.
pub proof fn lemma_selected_is_visible(log: ChatLog)
    ensures
        log.cursor is None ==> log.selected() is None,
        log.cursor matches Some(i) ==> (log.selected() == Some(i as int) <==> !collapsed(
            log.entries@,
            log.shown_blocks@,
            i as int,
        )) && (log.selected() is None <==> collapsed(
            log.entries@,
            log.shown_blocks@,
            i as int,
        )),
{
}

/// An entry is looked up by its id, and of several the first is found.
pub proof fn lemma_index_of_id(entries: Seq<ChatEntry>, from: int, id: ChatEntryId)
    requires
        0 <= from <= entries.len(),
    ensures
        match index_of_id(entries, from, id) {
            Some(i) => from <= i < entries.len() && entries[i].id == id && forall|j: int|
                from <= j < i ==> (#[trigger] entries[j]).id != id,
            None => forall|j: int|
                from <= j < entries.len() ==> (#[trigger] entries[j]).id != id,
        },
    decreases entries.len() - from,
{
    if from < entries.len() && entries[from].id != id {
        lemma_index_of_id(entries, from + 1, id);
    }
}

/// When an entry comes back into the prompt, no unfolded block is folded, and
/// nothing but the part of an unfolded block behind the entry is unfolded.
pub proof fn lemma_unfolding_goes_on(
    entries: Seq<ChatEntry>,
    shown: Seq<ChatEntryId>,
    i: int,
)
    requires
        0 <= i < entries.len(),
    ensures
        ({
            let later = shown_after_unignore(entries, shown, i);
            &&& forall|id: ChatEntryId| shown.contains(id) ==> #[trigger] later.contains(id)
            &&& forall|id: ChatEntryId| #[trigger]
                later.contains(id) && !shown.contains(id) ==> shown_excluded(entries, i + 1) && id
                    == entries[i + 1].id
            &&& shown.contains(entries[i].id) && shown_excluded(entries, i + 1) ==> later.contains(
                entries[i + 1].id,
            )
        }),
{
    let later = shown_after_unignore(entries, shown, i);
    if later != shown {
        assert forall|id: ChatEntryId| shown.contains(id) implies #[trigger] later.contains(
            id,
        ) by {
            lemma_push_contains(shown, entries[i + 1].id, id);
        }
        assert forall|id: ChatEntryId| #[trigger]
            later.contains(id) && !shown.contains(id) implies id == entries[i + 1].id by {
            lemma_push_contains(shown, entries[i + 1].id, id);
        }
        lemma_push_contains(shown, entries[i + 1].id, entries[i + 1].id);
    }
}

/// The rest of the run of a hidden entry is hidden as well.
pub proof fn lemma_whole_run_is_hidden(
    entries: Seq<ChatEntry>,
    shown: Seq<ChatEntryId>,
    i: int,
)
    requires
        collapsed(entries, shown, i),
    ensures
        forall|k: int|
            i <= k < step_from(entries, shown, i) ==> #[trigger] collapsed(entries, shown, k),
{
    let (start, end) = (run_start(entries, i), run_end(entries, i));
    assert(shown_excluded(entries, i));
    lemma_run_around(entries, i);
    assert forall|k: int| i <= k < end implies #[trigger] collapsed(entries, shown, k) by {
        lemma_collapsed_is_a_folded_run(entries, shown, k, start, end);
    }
}

/// Setting an override sets it on the whole tool loop of the entry, with the
/// user as its source, and on nothing else; a loop with a pin is not excluded.
/// What is reported is the entry, and only where something changed.
pub proof fn lemma_override_sets_the_chunk(
    idx: usize,
    value: ContextOverride,
    changed: Option<ChatEntryId>,
    k: int,
)
    ensures
        forall|log: &mut ChatLog|
            #[trigger] call_ensures(
                ChatLog::set_entry_context_override_at,
                (log, idx, value),
                changed,
            ) && idx < (*log).entries@.len() && 0 <= k < (*log).entries@.len() ==> {
                let entries = (*log).entries@;
                let later = (*final(log)).entries@;
                let (start, end) = (chunk_start(entries, idx as int), chunk_end(entries, idx as int));
                let refused = value == ContextOverride::ForcedExclude && exists|p: int|
                    start <= p < end && (#[trigger] entries[p]).pin_position is Some;
                &&& later.len() == entries.len()
                &&& !(start <= k < end) || refused || entries[k].context_override == value
                    ==> later[k] == entries[k]
                &&& start <= k < end && !refused ==> later[k].context_override == value
                    && later[k].kind == entries[k].kind && later[k].id == entries[k].id
                &&& start <= k < end && !refused && entries[k].context_override != value
                    ==> later[k].context_history@ == entries[k].context_history@.push(
                    crate::chat_entry::ContextChange { to: value, source: ChangeSource::User },
                )
                &&& changed == if later == entries {
                    None
                } else {
                    Some(entries[idx as int].id)
                }
                &&& (*final(log)).cursor == (*log).cursor
            },
{
    assert forall|log: &mut ChatLog|
        #[trigger] call_ensures(
            ChatLog::set_entry_context_override_at,
            (log, idx, value),
            changed,
        ) && idx < (*log).entries@.len() && 0 <= k < (*log).entries@.len() implies ({
        let entries = (*log).entries@;
        let later = (*final(log)).entries@;
        let (start, end) = (chunk_start(entries, idx as int), chunk_end(entries, idx as int));
        let refused = value == ContextOverride::ForcedExclude && exists|p: int|
            start <= p < end && (#[trigger] entries[p]).pin_position is Some;
        &&& later.len() == entries.len()
        &&& !(start <= k < end) || refused || entries[k].context_override == value ==> later[k]
            == entries[k]
        &&& start <= k < end && !refused ==> later[k].context_override == value && later[k].kind
            == entries[k].kind && later[k].id == entries[k].id
        &&& start <= k < end && !refused && entries[k].context_override != value
            ==> later[k].context_history@ == entries[k].context_history@.push(
            crate::chat_entry::ContextChange { to: value, source: ChangeSource::User },
        )
        &&& changed == if later == entries {
            None
        } else {
            Some(entries[idx as int].id)
        }
        &&& (*final(log)).cursor == (*log).cursor
    }) by {
        let entries = (*log).entries@;
        let later = (*final(log)).entries@;
        lemma_chunk_set(entries, idx as int, value, later, k);
        lemma_chunk_changes(entries, idx as int, value, later);
    }
}

/// A pin is put on the whole tool loop of the entry with the id, and changes
/// nothing else of it.
pub proof fn lemma_pin_is_put_on_the_chunk(
    id: &ChatEntryId,
    position: PinPosition,
    i: int,
    k: int,
)
    ensures
        forall|log: &mut ChatLog|
            #[trigger] call_ensures(ChatLog::pin_entry, (log, id, position), ()) && 0 <= i
                < (*log).entries@.len() && 0 <= k < (*log).entries@.len()
                && crate::history::distinct_ids((*log).entries@) && (*log).entries@[i].id == *id
                ==> {
                let entries = (*log).entries@;
                let later = (*final(log)).entries@;
                let pinned = chunk_start(entries, i) <= k < chunk_end(entries, i);
                &&& later.len() == entries.len()
                &&& later[k].id == entries[k].id && later[k].kind == entries[k].kind
                &&& later[k].context_override == entries[k].context_override
                &&& pinned ==> later[k].pin_position == Some(position)
                &&& !pinned ==> later[k] == entries[k]
            },
{
    assert forall|log: &mut ChatLog|
        #[trigger] call_ensures(ChatLog::pin_entry, (log, id, position), ()) && 0 <= i
            < (*log).entries@.len() && 0 <= k < (*log).entries@.len()
            && crate::history::distinct_ids((*log).entries@) && (*log).entries@[i].id
            == *id implies ({
        let entries = (*log).entries@;
        let later = (*final(log)).entries@;
        let pinned = chunk_start(entries, i) <= k < chunk_end(entries, i);
        &&& later.len() == entries.len()
        &&& later[k].id == entries[k].id && later[k].kind == entries[k].kind
        &&& later[k].context_override == entries[k].context_override
        &&& pinned ==> later[k].pin_position == Some(position)
        &&& !pinned ==> later[k] == entries[k]
    }) by {
        let entries = (*log).entries@;
        lemma_index_of_id(entries, 0, *id);
        let found = index_of_id(entries, 0, *id).unwrap();
        assert(entries[found].id == entries[i].id);
        assert(found == i);
    }
}

/// An entry is shown as part of a folded block exactly when it stands in a run
/// of at least two excluded entries that the user has not unfolded.
pub proof fn lemma_asked_collapsed(log: &ChatLog, i: usize, hidden: bool, start: int, end: int)
    requires
        call_ensures(ChatLog::is_collapsed, (log, i), hidden),
        excluded_run(log.entries@, start, end),
        start <= i < end,
    ensures
        hidden <==> end - start >= 2 && !log.shown_blocks@.contains(log.entries@[start].id),
{
    lemma_collapsed_is_a_folded_run(log.entries@, log.shown_blocks@, i as int, start, end);
}

/// The end of a tool loop that is asked for stands behind everything that
/// hangs on the entry, and there is one only where something does.
pub proof fn lemma_asked_group_end(entries: &[ChatEntry], idx: usize, end: Option<usize>)
    requires
        call_ensures(tool_group_end, (entries, idx), end),
        idx < entries@.len(),
    ensures
        end is Some <==> hangs_on(entries@, idx + 1),
        end matches Some(e) ==> {
            &&& idx + 1 < e <= entries@.len()
            &&& !hangs_on(entries@, e as int)
            &&& forall|k: int| idx < k < e ==> #[trigger] hangs_on(entries@, k)
        },
{
    lemma_chunk_is_a_tool_loop(entries@, idx as int);
    let end_at = chunk_end(entries@, idx as int);
    assert(idx + 1 < end_at ==> hangs_on(entries@, idx + 1));
}

/// Unfolding a block folds it the next time, and no other block is touched.
pub proof fn lemma_folding_toggles(id: &ChatEntryId, other: ChatEntryId)
    ensures
        forall|log: &mut ChatLog|
            #[trigger] call_ensures(ChatLog::toggle_ignored_block_visibility, (log, id), ()) ==> {
                let (before, after) = ((*log).shown_blocks@, (*final(log)).shown_blocks@);
                &&& after.contains(*id) <==> !before.contains(*id)
                &&& other != *id ==> (after.contains(other) <==> before.contains(other))
                &&& (*final(log)).entries == (*log).entries
            },
{
}

/// The first step selects the first entry; each further one goes to the next
/// entry, over the rest of a folded block, and stays where there is none.
pub proof fn lemma_steps_through_the_log()
    ensures
        forall|log: &mut ChatLog|
            #[trigger] call_ensures(ChatLog::select_next_entry, (log,), ()) ==> {
                let before = *log;
                let after = *final(log);
                &&& after.entries == before.entries && after.shown_blocks == before.shown_blocks
                &&& before.cursor is None && before.entries@.len() > 0 ==> after.cursor == Some(
                    0usize,
                )
                &&& before.entries@.len() == 0 && before.cursor is None ==> after.cursor is None
                &&& before.cursor is Some && !shown_excluded(
                    before.entries@,
                    before.cursor.unwrap() as int,
                ) ==> after.cursor == Some(
                    if before.cursor.unwrap() + 1 < before.entries@.len() {
                        (before.cursor.unwrap() + 1) as usize
                    } else {
                        before.cursor.unwrap()
                    },
                )
            },
{
    assert forall|log: &mut ChatLog|
        #[trigger] call_ensures(ChatLog::select_next_entry, (log,), ()) && (*log).cursor is Some
            && !shown_excluded((*log).entries@, (*log).cursor.unwrap() as int) implies (*final(
        log)).cursor == Some(
        if (*log).cursor.unwrap() + 1 < (*log).entries@.len() {
            ((*log).cursor.unwrap() + 1) as usize
        } else {
            (*log).cursor.unwrap()
        },
    ) by {
        lemma_included_is_visible(
            (*log).entries@,
            (*log).shown_blocks@,
            (*log).cursor.unwrap() as int,
        );
    }
}

/// An entry is shown as excluded where its override excludes it and no pin
/// keeps it.
pub proof fn lemma_asked_ignored(entry: &ChatEntry, yes: bool)
    requires
        call_ensures(is_ignored, (entry,), yes),
    ensures
        yes <==> entry.pin_position is None && entry.context_override
            == ContextOverride::ForcedExclude,
{
}

/// A step of the selection says whether it went on, and changes nothing but
/// the cursor.
pub proof fn lemma_step_tells_whether_it_moved(moved: bool)
    ensures
        forall|log: &mut ChatLog|
            #[trigger] call_ensures(ChatLog::advance_selection_one, (log,), moved) && (*log).wf()
                ==> {
                let (before, after) = (*log, *final(log));
                &&& moved <==> after.cursor != before.cursor
                &&& after.entries == before.entries
                &&& after.shown_blocks == before.shown_blocks
                &&& before.cursor is Some && after.cursor is Some ==> before.cursor.unwrap()
                    <= after.cursor.unwrap() < before.entries@.len()
            },
{
    assert forall|log: &mut ChatLog|
        #[trigger] call_ensures(ChatLog::advance_selection_one, (log,), moved)
            && (*log).wf() implies ({
        let (before, after) = (*log, *final(log));
        &&& moved <==> after.cursor != before.cursor
        &&& before.cursor is Some && after.cursor is Some ==> before.cursor.unwrap()
            <= after.cursor.unwrap() < before.entries@.len()
    }) by {
        if let Some(i) = (*log).cursor {
            let entries = (*log).entries@;
            assert((*log).entries.len() == entries.len());
            lemma_run_end(entries, i as int);
            let next = advanced(entries, (*log).shown_blocks@, i as int);
            assert(i <= next < entries.len());
            assert((next as usize) as int == next);
            assert((*final(log)).cursor == Some(next as usize));
        }
    }
}

/// When an entry comes back into the prompt, a block is unfolded behind it
/// only where the block that the entry was part of was: the entry itself or an
/// excluded one before it, without a gap, was marked as unfolded.
pub proof fn lemma_unfolding_needs_an_unfolded_block(
    entries: Seq<ChatEntry>,
    shown: Seq<ChatEntryId>,
    i: int,
)
    requires
        0 <= i < entries.len(),
        shown_after_unignore(entries, shown, i) != shown,
    ensures
        shown.contains(entries[i].id) || exists|s: int|
            0 <= s < i && shown.contains((#[trigger] entries[s]).id) && forall|k: int|
                s <= k < i ==> #[trigger] shown_excluded(entries, k),
{
    if !shown.contains(entries[i].id) {
        lemma_run_before(entries, i);
        let s = run_start(entries, i);
        assert(shown.contains(entries[s].id));
    }
}

proof fn lemma_run_before(entries: Seq<ChatEntry>, i: int)
    requires
        0 <= i < entries.len(),
    ensures
        0 <= run_start(entries, i) <= i,
        i > 0 && ignored(entries[i - 1]) ==> run_start(entries, i) < i,
        forall|k: int| run_start(entries, i) <= k < i ==> #[trigger] shown_excluded(entries, k),
        run_start(entries, i) > 0 ==> !shown_excluded(entries, run_start(entries, i) - 1),
    decreases i,
{
    if i > 0 && ignored(entries[i - 1]) {
        lemma_run_before(entries, i - 1);
    }
}

/// Where the excluded entries right before an entry are an unfolded block, the
/// block goes on behind the entry when that comes back into the prompt.
pub proof fn lemma_unfolded_block_goes_on(
    entries: Seq<ChatEntry>,
    shown: Seq<ChatEntryId>,
    i: int,
    s: int,
)
    requires
        0 <= s < i < entries.len(),
        forall|k: int| s <= k < i ==> #[trigger] shown_excluded(entries, k),
        s > 0 ==> !shown_excluded(entries, s - 1),
        shown.contains(entries[s].id),
        shown_excluded(entries, i + 1),
    ensures
        shown_after_unignore(entries, shown, i).contains(entries[i + 1].id),
{
    lemma_run_before(entries, i);
    let r = run_start(entries, i);
    assert(shown_excluded(entries, i - 1));
    if r < s {
        assert(shown_excluded(entries, s - 1));
    }
    if s < r {
        assert(shown_excluded(entries, r - 1));
    }
    let later = shown_after_unignore(entries, shown, i);
    if !shown.contains(entries[i + 1].id) {
        assert(later[shown.len() as int] == entries[i + 1].id);
    }
}

} // verus!
