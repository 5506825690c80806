//! The input buffer with its cursor, popup and wrapping.
//!
//! Positions count grapheme clusters of the buffer's text.

use crate::chat_input::wrap;
use crate::chat_input::wrap::{wrap_clusters, WrappedLine};
use crate::text;
use crate::text::{concat_clusters, display_width, graphemes, is_blank, text_eq};
use vstd::prelude::*;

verus! {

/// Where a submitted message goes while the model is busy.
#[derive(Clone, Copy, Debug, PartialEq, Eq, Structural)]
pub enum InputMode {
    /// Behind the messages that wait.
    Queue,
    /// Into the running turn.
    Steer,
}

impl InputMode {
    /// The word shown for the mode.
    pub fn label(self) -> (label: &'static str)
        ensures
            label@ == mode_label(self),
    {
        match self {
            InputMode::Queue => "QUEUE",
            InputMode::Steer => "STEER",
        }
    }
}

/// The word shown for the mode.
pub open spec fn mode_label(mode: InputMode) -> Seq<char> {
    match mode {
        InputMode::Queue => "QUEUE"@,
        InputMode::Steer => "STEER"@,
    }
}

/// The mode that this one changes to.
pub open spec fn other_mode(mode: InputMode) -> InputMode {
    match mode {
        InputMode::Queue => InputMode::Steer,
        InputMode::Steer => InputMode::Queue,
    }
}

/// Changing the mode twice changes nothing.
pub proof fn lemma_other_mode_twice(mode: InputMode)
    ensures
        other_mode(mode) != mode,
        other_mode(other_mode(mode)) == mode,
{
}

/// What opened the popup.
#[derive(Clone, Copy, Debug, PartialEq, Eq, Structural)]
pub enum AutocompleteTrigger {
    /// `#`: prompt templates.
    Hash,
    /// `/`: commands.
    Slash,
    /// `@`: files.
    At,
    /// `@@`: reserved.
    AtAt,
}

/// One row of the popup.
#[derive(Debug, PartialEq, Eq)]
pub struct AutocompleteMatch {
    pub name: String,
    pub description: String,
}

/// The value of an [`AutocompleteMatch`].
pub ghost struct MatchView {
    pub name: Seq<char>,
    pub description: Seq<char>,
}

impl View for AutocompleteMatch {
    type V = MatchView;

    open spec fn view(&self) -> MatchView {
        MatchView { name: self.name@, description: self.description@ }
    }
}

/// The values of a sequence of matches.
pub open spec fn match_views(matches: Seq<AutocompleteMatch>) -> Seq<MatchView> {
    matches.map_values(|m: AutocompleteMatch| m@)
}

/// The open popup.
#[derive(Debug, PartialEq, Eq)]
pub struct AutocompleteState {
    /// The position of the trigger.
    pub token_start: usize,
    pub trigger: AutocompleteTrigger,
    pub matches: Vec<AutocompleteMatch>,
    pub selected_index: usize,
}

/// The value of an [`AutocompleteState`].
pub ghost struct PopupView {
    pub token_start: int,
    pub trigger: AutocompleteTrigger,
    pub matches: Seq<MatchView>,
    pub selected: int,
}

impl View for AutocompleteState {
    type V = PopupView;

    open spec fn view(&self) -> PopupView {
        PopupView {
            token_start: self.token_start as int,
            trigger: self.trigger,
            matches: match_views(self.matches@),
            selected: self.selected_index as int,
        }
    }
}

/// The value of the input box.
pub ghost struct InputView {
    pub text: Seq<char>,
    pub cursor: int,
    pub popup: Option<PopupView>,
    pub mode: InputMode,
    pub disabled: bool,
    pub scroll_offset: int,
    pub wrap_width: int,
}

/// The smaller number.
pub open spec fn lesser(a: int, b: int) -> int {
    if a <= b {
        a
    } else {
        b
    }
}

/// The first position at or before `i` with nothing but blanks (or, for
/// `over_blanks` false, nothing but non-blanks) up to `i`.
pub open spec fn skip_back(clusters: Seq<Seq<char>>, i: int, over_blanks: bool) -> int
    decreases i,
{
    if i > 0 && text::blank(clusters[i - 1]) == over_blanks {
        skip_back(clusters, i - 1, over_blanks)
    } else {
        i
    }
}

/// The last position at or after `i` with nothing but blanks (or, for
/// `over_blanks` false, nothing but non-blanks) from `i` on.
pub open spec fn skip_ahead(clusters: Seq<Seq<char>>, i: int, over_blanks: bool) -> int
    decreases clusters.len() - i,
{
    if 0 <= i < clusters.len() && text::blank(clusters[i]) == over_blanks {
        skip_ahead(clusters, i + 1, over_blanks)
    } else {
        i
    }
}

/// The position behind the last `/` in `[lo, hi)`, or `lo`.
pub open spec fn behind_slash(clusters: Seq<Seq<char>>, lo: int, hi: int) -> int
    decreases hi - lo,
{
    if hi <= lo {
        lo
    } else if clusters[hi - 1] == "/"@ {
        hi
    } else {
        behind_slash(clusters, lo, hi - 1)
    }
}

/// The row of the first `n` lines that holds the position: the last one that
/// begins at or before it.
pub open spec fn row_of(lines: Seq<(int, int)>, n: int, position: int) -> int
    decreases n,
{
    if n <= 1 || lines[n - 1].0 <= position {
        n - 1
    } else {
        row_of(lines, n - 1, position)
    }
}

/// The row that holds a position is one of the lines.
pub proof fn lemma_row_of(lines: Seq<(int, int)>, n: int, position: int)
    requires
        n >= 1,
    ensures
        0 <= row_of(lines, n, position) < n,
    decreases n,
{
    if n > 1 && lines[n - 1].0 > position {
        lemma_row_of(lines, n - 1, position);
    }
}

impl InputView {
    /// The grapheme clusters of the buffer.
    pub open spec fn clusters(self) -> Seq<Seq<char>> {
        text::grapheme_clusters(self.text)
    }

    /// The box after `[lo, hi)` was replaced by `piece` and the cursor put
    /// `advance` positions behind `lo`, but not past the end.
    pub open spec fn spliced(self, lo: int, hi: int, piece: Seq<char>, advance: int) -> InputView {
        let text = text::spliced(self.text, lo, hi, piece);
        InputView { text, cursor: text::clamped(text, lo + advance), ..self }
    }

    /// The box with the cursor elsewhere.
    pub open spec fn at(self, cursor: int) -> InputView {
        InputView { cursor: cursor as int, ..self }
    }

    /// The box without a popup.
    pub open spec fn closed_popup(self) -> InputView {
        InputView { popup: None, ..self }
    }

    /// The box with a popup just opened.
    pub open spec fn opened_popup(
        self,
        token_start: int,
        trigger: AutocompleteTrigger,
        matches: Seq<MatchView>,
    ) -> InputView {
        InputView {
            popup: Some(PopupView { token_start, trigger, matches, selected: 0 }),
            ..self
        }
    }

    /// What the user has typed behind the trigger, up to the cursor.
    pub open spec fn filter(self) -> Seq<char> {
        match self.popup {
            Some(popup) => text::cluster_text(
                self.clusters(),
                popup.token_start + 1,
                self.cursor as int,
            ),
            None => Seq::empty(),
        }
    }

    /// The box after a character was typed.
    pub open spec fn typed(self, ch: char) -> InputView {
        self.spliced(self.cursor as int, self.cursor as int, seq![ch], 1)
    }

    /// The box after a text was inserted.
    pub open spec fn inserted(self, piece: Seq<char>) -> InputView {
        self.spliced(
            self.cursor as int,
            self.cursor as int,
            piece,
            text::grapheme_clusters(piece).len() as int,
        )
    }

    /// The box after the cluster before the cursor was deleted.
    pub open spec fn deleted_before(self) -> InputView {
        if self.cursor == 0 {
            self
        } else {
            self.spliced(self.cursor - 1, self.cursor as int, Seq::empty(), 0)
        }
    }

    /// The box after the cluster behind the cursor was deleted.
    pub open spec fn deleted_after(self) -> InputView {
        if self.cursor >= self.clusters().len() {
            self
        } else {
            self.spliced(self.cursor as int, self.cursor + 1, Seq::empty(), 0)
        }
    }

    /// The box with other matches in the popup; the selection starts over
    /// where it is no longer among them.
    pub open spec fn rematched(self, matches: Seq<MatchView>) -> InputView {
        match self.popup {
            Some(popup) => InputView {
                popup: Some(
                    PopupView {
                        matches,
                        selected: (if popup.selected < matches.len() {
                            popup.selected
                        } else {
                            0
                        }),
                        ..popup
                    },
                ),
                ..self
            },
            None => self,
        }
    }

    /// The box with another row of the popup selected.
    pub open spec fn selecting(self, selected: int) -> InputView {
        match self.popup {
            Some(popup) => InputView { popup: Some(PopupView { selected, ..popup }), ..self },
            None => self,
        }
    }

    /// The box after the token was replaced by a template's body.
    pub open spec fn expanded(self, body: Seq<char>) -> InputView {
        match self.popup {
            Some(popup) => if popup.token_start <= self.cursor {
                self.spliced(
                    popup.token_start as int,
                    self.cursor as int,
                    body,
                    text::grapheme_clusters(body).len() as int,
                ).closed_popup()
            } else {
                self.closed_popup()
            },
            None => self,
        }
    }

    /// The box after the typed filter was replaced by a match's name.
    pub open spec fn completed(self, name: Seq<char>) -> InputView {
        match self.popup {
            Some(popup) => if popup.token_start < self.cursor {
                self.spliced(
                    popup.token_start + 1,
                    self.cursor as int,
                    name,
                    text::grapheme_clusters(name).len() as int,
                )
            } else {
                self
            },
            None => self,
        }
    }

    /// The box after the last path segment of the filter was replaced by a
    /// file name. A directory gets a `/` and keeps the popup open.
    pub open spec fn completed_path(self, name: Seq<char>, is_dir: bool) -> InputView {
        match self.popup {
            Some(popup) => {
                let piece = if is_dir {
                    name + "/"@
                } else {
                    name
                };
                let replaced = if popup.token_start < self.cursor {
                    self.spliced(
                        behind_slash(
                            self.clusters(),
                            popup.token_start + 1,
                            self.cursor as int,
                        ),
                        self.cursor as int,
                        piece,
                        text::grapheme_clusters(piece).len() as int,
                    )
                } else {
                    self
                };
                if is_dir {
                    replaced.selecting(0)
                } else {
                    replaced.closed_popup()
                }
            },
            None => self,
        }
    }

    /// The visual lines.
    pub open spec fn lines(self) -> Seq<(int, int)> {
        wrap::lines_from(self.clusters(), 0, self.wrap_width as int)
    }

    /// The visual row of a position.
    pub open spec fn row_at(self, position: int) -> int {
        row_of(self.lines(), self.lines().len() as int, position)
    }

    /// The last position that belongs to the row: behind its last cluster, or
    /// before it where the next row follows without a newline.
    pub open spec fn last_in_row(self, row: int) -> int {
        let (start, end) = self.lines()[row];
        if row + 1 < self.lines().len() && self.lines()[row + 1].0 == end && end > start {
            end - 1
        } else {
            end
        }
    }

    /// The position in another row, in the cursor's column as far as that row
    /// goes.
    pub open spec fn in_row(self, row: int) -> int {
        let column = self.cursor - self.lines()[self.row_at(self.cursor as int)].0;
        lesser(self.lines()[row].0 + column, self.last_in_row(row))
    }
}

/// The input box.
pub struct ChatInputBoxState {
    text: String,
    cursor: usize,
    autocomplete: Option<AutocompleteState>,
    input_mode: InputMode,
    disabled: bool,
    scroll_offset: usize,
    wrap_width: usize,
}

impl View for ChatInputBoxState {
    type V = InputView;

    closed spec fn view(&self) -> InputView {
        InputView {
            text: self.text@,
            cursor: self.cursor as int,
            popup: (match self.autocomplete {
                Some(popup) => Some(popup@),
                None => None,
            }),
            mode: self.input_mode,
            disabled: self.disabled,
            scroll_offset: self.scroll_offset as int,
            wrap_width: self.wrap_width as int,
        }
    }
}

/// The wrap width before the first layout, wider than any terminal.
pub const NO_WRAP: usize = 0xffff;

impl ChatInputBoxState {
    #[verifier::type_invariant]
    spec fn cursor_in_text(self) -> bool {
        self.cursor <= text::grapheme_clusters(self.text@).len()
    }

    /// An empty box in queue mode.
    pub fn new() -> (input: ChatInputBoxState)
        ensures
            input@ == (InputView {
                text: Seq::empty(),
                cursor: 0,
                popup: None,
                mode: InputMode::Queue,
                disabled: false,
                scroll_offset: 0,
                wrap_width: NO_WRAP as int,
            }),
    {
        ChatInputBoxState {
            text: String::new(),
            cursor: 0,
            autocomplete: None,
            input_mode: InputMode::Queue,
            disabled: false,
            scroll_offset: 0,
            wrap_width: NO_WRAP,
        }
    }

    /// The buffer's text.
    pub fn text(&self) -> (text: &str)
        ensures
            text@ == self@.text,
    {
        self.text.as_str()
    }

    /// Whether the buffer is empty.
    pub fn is_empty(&self) -> (empty: bool)
        ensures
            empty == (self@.text.len() == 0),
    {
        self.text.as_str().is_empty()
    }

    /// The cursor's position, which is never behind the text.
    pub fn cursor_pos(&self) -> (cursor: usize)
        ensures
            cursor == self@.cursor,
            cursor <= self@.clusters().len(),
    {
        proof {
            use_type_invariant(self);
        }
        self.cursor
    }

    /// The open popup.
    pub fn autocomplete(&self) -> (popup: &Option<AutocompleteState>)
        ensures
            match popup {
                Some(p) => self@.popup == Some(p@),
                None => self@.popup is None,
            },
    {
        &self.autocomplete
    }

    /// What opened the popup.
    pub fn autocomplete_trigger(&self) -> (trigger: Option<AutocompleteTrigger>)
        ensures
            trigger == (match self@.popup {
                Some(popup) => Some(popup.trigger),
                None => None,
            }),
    {
        match &self.autocomplete {
            Some(popup) => Some(popup.trigger),
            None => None,
        }
    }

    /// The position of the popup's trigger.
    pub fn autocomplete_token_start(&self) -> (start: Option<usize>)
        ensures
            match start {
                Some(s) => self@.popup matches Some(popup) && popup.token_start == s,
                None => self@.popup is None,
            },
    {
        match &self.autocomplete {
            Some(popup) => Some(popup.token_start),
            None => None,
        }
    }

    /// The index of the popup's selected row, 0 without a popup.
    pub fn autocomplete_selected_index(&self) -> (index: usize)
        ensures
            index == (match self@.popup {
                Some(popup) => popup.selected,
                None => 0,
            }),
    {
        match &self.autocomplete {
            Some(popup) => popup.selected_index,
            None => 0,
        }
    }

    /// The popup's selected match, if it has one.
    pub fn autocomplete_selected(&self) -> (selected: Option<&AutocompleteMatch>)
        ensures
            match selected {
                Some(m) => self@.popup matches Some(popup) && popup.selected < popup.matches.len()
                    && popup.matches[popup.selected as int] == m@,
                None => self@.popup is None || self@.popup.unwrap().selected
                    >= self@.popup.unwrap().matches.len(),
            },
    {
        match &self.autocomplete {
            Some(popup) => if popup.selected_index < popup.matches.len() {
                Some(&popup.matches[popup.selected_index])
            } else {
                None
            },
            None => None,
        }
    }

    /// What the user has typed behind the trigger; `None` without a popup.
    pub fn autocomplete_filter(&self) -> (filter: Option<String>)
        ensures
            match filter {
                Some(f) => self@.popup is Some && f@ == self@.filter(),
                None => self@.popup is None,
            },
    {
        match &self.autocomplete {
            Some(popup) => {
                if popup.token_start >= self.cursor {
                    return Some(String::new());
                }
                let clusters = graphemes(self.text.as_str());
                Some(concat_clusters(&clusters, popup.token_start + 1, self.cursor))
            },
            None => None,
        }
    }

    /// The mode.
    pub fn input_mode(&self) -> (mode: InputMode)
        ensures
            mode == self@.mode,
    {
        self.input_mode
    }

    /// Whether the box takes no input.
    pub fn disabled(&self) -> (disabled: bool)
        ensures
            disabled == self@.disabled,
    {
        self.disabled
    }

    /// How many visual lines are scrolled out at the top.
    pub fn scroll_offset(&self) -> (offset: usize)
        ensures
            offset == self@.scroll_offset,
    {
        self.scroll_offset
    }

    /// The cluster at a position.
    pub fn grapheme_at(&self, position: usize) -> (cluster: Option<String>)
        ensures
            match cluster {
                Some(c) => position < self@.clusters().len() && c@
                    == self@.clusters()[position as int],
                None => position >= self@.clusters().len(),
            },
    {
        let clusters = graphemes(self.text.as_str());
        if position < clusters.len() {
            Some(clusters[position].clone())
        } else {
            None
        }
    }

    /// The text in `[lo, hi)`.
    pub fn grapheme_slice(&self, lo: usize, hi: usize) -> (slice: String)
        ensures
            slice@ == text::cluster_text(self@.clusters(), lo as int, hi as int),
    {
        let clusters = graphemes(self.text.as_str());
        concat_clusters(&clusters, lo, hi)
    }

    /// Replaces `[lo, hi)` by `piece` and puts the cursor `advance` positions
    /// behind `lo`.
    fn splice(&mut self, lo: usize, hi: usize, piece: &str, advance: usize)
        requires
            lo <= hi,
        ensures
            final(self)@ == old(self)@.spliced(lo as int, hi as int, piece@, advance as int),
    {
        let (text, cursor) = text::splice(self.text.as_str(), lo, hi, piece, advance);
        self.cursor = 0;
        self.text = text;
        self.cursor = cursor;
    }

    /// Inserts a character at the cursor.
    pub fn insert_grapheme_at_cursor(&mut self, ch: char)
        ensures
            final(self)@ == old(self)@.typed(ch),
            final(self)@.cursor >= 1,
    {
        proof {
            use_type_invariant(&*self);
        }
        let piece = text::char_text(ch);
        let cursor: usize = self.cursor;
        self.splice(cursor, cursor, piece.as_str(), 1);
        let clusters = graphemes(self.text.as_str());
        proof {
            let t = text::texts(clusters@);
            assert forall|i: int| 0 <= i < t.len() implies (#[trigger] t[i]).len() > 0 by {
                assert(clusters@[i]@.len() > 0);
            }
            text::lemma_cluster_count(t);
        }
    }

    /// Inserts a text at the cursor.
    pub fn insert_text(&mut self, piece: &str)
        ensures
            final(self)@ == old(self)@.inserted(piece@),
    {
        proof {
            use_type_invariant(&*self);
        }
        let advance: usize = graphemes(piece).len();
        let cursor: usize = self.cursor;
        self.splice(cursor, cursor, piece, advance);
    }

    /// Deletes the cluster before the cursor.
    pub fn delete_grapheme_before_cursor(&mut self)
        ensures
            final(self)@ == old(self)@.deleted_before(),
    {
        proof {
            use_type_invariant(&*self);
        }
        let cursor: usize = self.cursor;
        if cursor > 0 {
            let empty = String::new();
            self.splice(cursor - 1, cursor, empty.as_str(), 0);
        }
    }

    /// Deletes the cluster behind the cursor.
    pub fn delete_grapheme_after_cursor(&mut self)
        ensures
            final(self)@ == old(self)@.deleted_after(),
    {
        let cursor: usize = self.cursor;
        if cursor < graphemes(self.text.as_str()).len() {
            let empty = String::new();
            self.splice(cursor, cursor + 1, empty.as_str(), 0);
        }
    }

    /// Opens the popup.
    pub fn activate_autocomplete(
        &mut self,
        token_start: usize,
        trigger: AutocompleteTrigger,
        matches: Vec<AutocompleteMatch>,
    )
        ensures
            final(self)@ == old(self)@.opened_popup(
                token_start as int,
                trigger,
                match_views(matches@),
            ),
    {
        proof {
            use_type_invariant(&*self);
        }
        self.autocomplete = Some(
            AutocompleteState { token_start, trigger, matches, selected_index: 0 },
        );
    }

    /// Closes the popup.
    pub fn deactivate_autocomplete(&mut self)
        ensures
            final(self)@ == old(self)@.closed_popup(),
    {
        proof {
            use_type_invariant(&*self);
        }
        self.autocomplete = None;
    }

    /// Replaces the popup's matches.
    pub fn update_autocomplete_matches(&mut self, matches: Vec<AutocompleteMatch>)
        ensures
            final(self)@ == old(self)@.rematched(match_views(matches@)),
    {
        proof {
            use_type_invariant(&*self);
        }
        let (token_start, trigger, selected) = match &self.autocomplete {
            Some(popup) => (popup.token_start, popup.trigger, popup.selected_index),
            None => {
                return;
            },
        };
        let selected_index: usize = if selected < matches.len() {
            selected
        } else {
            0
        };
        self.autocomplete = Some(
            AutocompleteState { token_start, trigger, matches, selected_index },
        );
    }

    /// Selects a row of the popup.
    fn select_row(&mut self, selected_index: usize)
        ensures
            final(self)@ == old(self)@.selecting(selected_index as int),
    {
        proof {
            use_type_invariant(&*self);
        }
        let mut popup: Option<AutocompleteState> = None;
        std::mem::swap(&mut popup, &mut self.autocomplete);
        self.autocomplete = match popup {
            Some(p) => Some(AutocompleteState { selected_index, ..p }),
            None => None,
        };
    }

    /// Selects the row above, if there is one.
    pub fn autocomplete_move_up(&mut self)
        ensures
            final(self)@ == (match old(self)@.popup {
                Some(popup) if popup.selected > 0 => old(self)@.selecting(
                    (popup.selected - 1) as int,
                ),
                _ => old(self)@,
            }),
    {
        if let Some(popup) = &self.autocomplete {
            let selected: usize = popup.selected_index;
            if selected > 0 {
                self.select_row(selected - 1);
            }
        }
    }

    /// Selects the row below, if there is one.
    pub fn autocomplete_move_down(&mut self)
        ensures
            final(self)@ == (match old(self)@.popup {
                Some(popup) if popup.selected + 1 < popup.matches.len() => old(self)@.selecting(
                    popup.selected + 1,
                ),
                _ => old(self)@,
            }),
    {
        if let Some(popup) = &self.autocomplete {
            let selected: usize = popup.selected_index;
            let n: usize = popup.matches.len();
            if n > 0 && selected < n - 1 {
                self.select_row(selected + 1);
            }
        }
    }

    /// Selects the row above among `count` visible ones.
    pub fn autocomplete_move_up_bounded(&mut self, count: usize)
        ensures
            final(self)@ == (match old(self)@.popup {
                Some(popup) => old(self)@.selecting(
                    (if lesser(popup.selected as int, count as int) > 0 {
                        lesser(popup.selected as int, count as int) - 1
                    } else {
                        0
                    }) as int,
                ),
                None => old(self)@,
            }),
    {
        if let Some(popup) = &self.autocomplete {
            let selected: usize = popup.selected_index;
            let from: usize = if selected <= count {
                selected
            } else {
                count
            };
            if from > 0 {
                self.select_row(from - 1);
            } else {
                self.select_row(0);
            }
        }
    }

    /// Selects the row below among `count` visible ones.
    pub fn autocomplete_move_down_bounded(&mut self, count: usize)
        ensures
            final(self)@ == (match old(self)@.popup {
                Some(popup) if popup.selected + 1 < count => old(self)@.selecting(
                    popup.selected + 1,
                ),
                _ => old(self)@,
            }),
    {
        if let Some(popup) = &self.autocomplete {
            let selected: usize = popup.selected_index;
            if count > 0 && selected < count - 1 {
                self.select_row(selected + 1);
            }
        }
    }

    /// Replaces the token by a template's body and closes the popup.
    pub fn expand_autocomplete(&mut self, body: &str)
        ensures
            final(self)@ == old(self)@.expanded(body@),
    {
        proof {
            use_type_invariant(&*self);
        }
        let token_start: usize = match &self.autocomplete {
            Some(popup) => popup.token_start,
            None => {
                return;
            },
        };
        let cursor: usize = self.cursor;
        if token_start <= cursor {
            let advance: usize = graphemes(body).len();
            self.splice(token_start, cursor, body, advance);
        }
        self.deactivate_autocomplete();
    }

    /// Replaces the typed filter by a match's name.
    pub fn complete_autocomplete(&mut self, name: &str)
        ensures
            final(self)@ == old(self)@.completed(name@),
    {
        proof {
            use_type_invariant(&*self);
        }
        let token_start: usize = match &self.autocomplete {
            Some(popup) => popup.token_start,
            None => {
                return;
            },
        };
        let cursor: usize = self.cursor;
        if token_start < cursor {
            let advance: usize = graphemes(name).len();
            self.splice(token_start + 1, cursor, name, advance);
        }
    }

    /// Replaces the last path segment of the filter by a file name.
    pub fn complete_at_entry(&mut self, name: &str, is_dir: bool)
        ensures
            final(self)@ == old(self)@.completed_path(name@, is_dir),
    {
        proof {
            use_type_invariant(&*self);
        }
        let token_start: usize = match &self.autocomplete {
            Some(popup) => popup.token_start,
            None => {
                return;
            },
        };
        let cursor: usize = self.cursor;
        if token_start < cursor {
            let clusters = graphemes(self.text.as_str());
            let lo: usize = token_start + 1;
            let mut keep: usize = cursor;
            while keep > lo && !text_eq(clusters[keep - 1].as_str(), "/")
                invariant
                    lo <= keep <= cursor <= clusters@.len(),
                    behind_slash(text::texts(clusters@), lo as int, cursor as int)
                        == behind_slash(text::texts(clusters@), lo as int, keep as int),
                decreases keep - lo,
            {
                keep -= 1;
            }
            let mut piece = name.to_owned();
            if is_dir {
                piece.append("/");
            }
            let advance: usize = graphemes(piece.as_str()).len();
            self.splice(keep, cursor, piece.as_str(), advance);
        }
        if is_dir {
            self.select_row(0);
        } else {
            self.deactivate_autocomplete();
        }
    }

    /// Moves the cursor one cluster left.
    pub fn move_cursor_left(&mut self)
        ensures
            final(self)@ == old(self)@.at(
                (if old(self)@.cursor > 0 {
                    old(self)@.cursor - 1
                } else {
                    0
                }),
            ),
    {
        proof {
            use_type_invariant(&*self);
        }
        if self.cursor > 0 {
            let cursor: usize = self.cursor - 1;
            self.cursor = cursor;
        }
    }

    /// Moves the cursor one cluster right.
    pub fn move_cursor_right(&mut self)
        ensures
            final(self)@ == old(self)@.at(
                lesser(old(self)@.cursor + 1, old(self)@.clusters().len() as int),
            ),
    {
        proof {
            use_type_invariant(&*self);
        }
        if self.cursor < graphemes(self.text.as_str()).len() {
            let cursor: usize = self.cursor + 1;
            self.cursor = cursor;
        }
    }

    /// Moves the cursor to the start.
    pub fn move_cursor_to_start(&mut self)
        ensures
            final(self)@ == old(self)@.at(0),
    {
        self.cursor = 0;
    }

    /// Moves the cursor to the end.
    pub fn move_cursor_to_end(&mut self)
        ensures
            final(self)@ == old(self)@.at(old(self)@.clusters().len() as int),
    {
        let end: usize = graphemes(self.text.as_str()).len();
        self.cursor = end;
    }

    /// Moves the cursor to the start of the word before it.
    pub fn move_cursor_word_left(&mut self)
        ensures
            final(self)@ == old(self)@.at(
                skip_back(
                    old(self)@.clusters(),
                    skip_back(old(self)@.clusters(), old(self)@.cursor as int, true),
                    false,
                ),
            ),
    {
        proof {
            use_type_invariant(&*self);
        }
        let clusters = graphemes(self.text.as_str());
        let ghost all = text::texts(clusters@);
        let ghost start = self.cursor as int;
        let mut i: usize = self.cursor;
        while i > 0 && is_blank(clusters[i - 1].as_str())
            invariant
                i <= start <= clusters@.len(),
                all == text::texts(clusters@),
                skip_back(all, start, true) == skip_back(all, i as int, true),
            decreases i,
        {
            i -= 1;
        }
        let ghost word_end = i as int;
        while i > 0 && !is_blank(clusters[i - 1].as_str())
            invariant
                i <= word_end <= clusters@.len(),
                all == text::texts(clusters@),
                skip_back(all, word_end, false) == skip_back(all, i as int, false),
            decreases i,
        {
            i -= 1;
        }
        self.cursor = i;
    }

    /// Moves the cursor behind the word after it.
    pub fn move_cursor_word_right(&mut self)
        ensures
            final(self)@ == old(self)@.at(
                skip_ahead(
                    old(self)@.clusters(),
                    skip_ahead(old(self)@.clusters(), old(self)@.cursor as int, true),
                    false,
                ),
            ),
    {
        proof {
            use_type_invariant(&*self);
        }
        let clusters = graphemes(self.text.as_str());
        let ghost all = text::texts(clusters@);
        let ghost start = self.cursor as int;
        let mut i: usize = self.cursor;
        while i < clusters.len() && is_blank(clusters[i].as_str())
            invariant
                start <= i <= clusters@.len(),
                all == text::texts(clusters@),
                skip_ahead(all, start, true) == skip_ahead(all, i as int, true),
            decreases clusters@.len() - i,
        {
            i += 1;
        }
        let ghost word = i as int;
        while i < clusters.len() && !is_blank(clusters[i].as_str())
            invariant
                word <= i <= clusters@.len(),
                all == text::texts(clusters@),
                skip_ahead(all, word, false) == skip_ahead(all, i as int, false),
            decreases clusters@.len() - i,
        {
            i += 1;
        }
        self.cursor = i;
    }

    /// Changes between queueing and steering.
    pub fn toggle_input_mode(&mut self)
        ensures
            final(self)@ == (InputView {
                mode: other_mode(old(self)@.mode),
                ..old(self)@
            }),
    {
        proof {
            use_type_invariant(&*self);
        }
        self.input_mode = match self.input_mode {
            InputMode::Queue => InputMode::Steer,
            InputMode::Steer => InputMode::Queue,
        };
    }

    /// Empties the buffer and closes the popup.
    pub fn reset(&mut self)
        ensures
            final(self)@ == (InputView {
                text: Seq::empty(),
                cursor: 0,
                popup: None,
                scroll_offset: 0,
                ..old(self)@
            }),
    {
        self.cursor = 0;
        self.text = String::new();
        self.autocomplete = None;
        self.scroll_offset = 0;
    }

    /// Sets the width that lines are wrapped at.
    pub fn set_wrap_width(&mut self, width: usize)
        ensures
            final(self)@ == (InputView { wrap_width: width as int, ..old(self)@ }),
    {
        proof {
            use_type_invariant(&*self);
        }
        self.wrap_width = width;
    }

    /// Sets how many visual lines are scrolled out at the top.
    pub fn set_scroll_offset(&mut self, offset: usize)
        ensures
            final(self)@ == (InputView { scroll_offset: offset as int, ..old(self)@ }),
    {
        proof {
            use_type_invariant(&*self);
        }
        self.scroll_offset = offset;
    }

    /// Switches the box off or on.
    pub fn set_disabled(&mut self, disabled: bool)
        ensures
            final(self)@ == (InputView { disabled, ..old(self)@ }),
    {
        proof {
            use_type_invariant(&*self);
        }
        self.disabled = disabled;
    }

    /// The visual lines.
    pub fn wrapped_lines(&self) -> (lines: Vec<WrappedLine>)
        ensures
            wrap::ranges(lines@) == self@.lines(),
            lines@.len() > 0,
    {
        let clusters = graphemes(self.text.as_str());
        wrap_clusters(&clusters, self.wrap_width)
    }

    /// The row that holds a position.
    fn find_row(&self, lines: &Vec<WrappedLine>, position: usize) -> (row: usize)
        requires
            wrap::ranges(lines@) == self@.lines(),
            lines@.len() > 0,
        ensures
            row == self@.row_at(position as int),
            row < lines@.len(),
            lines@[row as int].grapheme_start <= position,
    {
        proof {
            wrap::lemma_lines_from(self@.clusters(), 0, self@.wrap_width);
        }
        let ghost all = self@.lines();
        let mut n: usize = lines.len();
        assert(all[0] == (lines@[0].grapheme_start as int, lines@[0].grapheme_end as int));
        while n > 1 && lines[n - 1].grapheme_start > position
            invariant
                1 <= n <= lines@.len(),
                all == wrap::ranges(lines@),
                all[0].0 == 0,
                row_of(all, all.len() as int, position as int) == row_of(
                    all,
                    n as int,
                    position as int,
                ),
            decreases n,
        {
            n -= 1;
        }
        assert(all[n - 1].0 == lines@[n - 1].grapheme_start);
        n - 1
    }

    /// The cursor's visual row, and its column in clusters.
    pub fn cursor_row_col(&self) -> (position: (usize, usize))
        ensures
            position.0 == self@.row_at(self@.cursor),
            position.1 == self@.cursor - self@.lines()[self@.row_at(self@.cursor)].0,
    {
        let lines = self.wrapped_lines();
        let row: usize = self.find_row(&lines, self.cursor);
        assert(self@.lines()[row as int].0 == lines@[row as int].grapheme_start);
        (row, self.cursor - lines[row].grapheme_start)
    }

    /// The visual row of the popup's trigger and the terminal column where it
    /// stands in that row.
    pub fn autocomplete_token_visual_row_col(&self) -> (position: Option<(usize, usize)>)
        ensures
            match position {
                Some((row, column)) => self@.popup matches Some(popup) && row == self@.row_at(
                    popup.token_start,
                ) && column == text::display_columns(
                    text::cluster_text(
                        self@.clusters(),
                        self@.lines()[row as int].0,
                        popup.token_start,
                    ),
                ),
                None => self@.popup is None,
            },
    {
        match &self.autocomplete {
            Some(popup) => {
                let lines = self.wrapped_lines();
                let row: usize = self.find_row(&lines, popup.token_start);
                assert(self@.lines()[row as int].0 == lines@[row as int].grapheme_start);
                let before = self.grapheme_slice(lines[row].grapheme_start, popup.token_start);
                Some((row, display_width(before.as_str())))
            },
            None => None,
        }
    }

    /// Puts the cursor into another row.
    fn move_to_row(&mut self, lines: &Vec<WrappedLine>, from: usize, to: usize)
        requires
            wrap::ranges(lines@) == old(self)@.lines(),
            from < lines@.len(),
            to < lines@.len(),
            from == old(self)@.row_at(old(self)@.cursor),
            lines@[from as int].grapheme_start <= old(self)@.cursor,
        ensures
            final(self)@ == old(self)@.at(old(self)@.in_row(to as int)),
    {
        proof {
            wrap::lemma_lines_from(self@.clusters(), 0, self@.wrap_width);
            assert forall|k: int| 0 <= k < lines@.len() implies self@.lines()[k] == (
                #[trigger] lines@[k].grapheme_start as int,
                lines@[k].grapheme_end as int,
            ) by {}
        }
        let column: usize = self.cursor - lines[from].grapheme_start;
        let start: usize = lines[to].grapheme_start;
        let end: usize = lines[to].grapheme_end;
        assert(self@.lines()[to as int].0 == start && self@.lines()[to as int].1 == end);
        assert(to < lines.len());
        let last: usize = if to + 1 < lines.len() && lines[to + 1].grapheme_start == end && end
            > start {
            end - 1
        } else {
            end
        };
        assert(last == self@.last_in_row(to as int));
        let position: usize = if column <= last - start {
            start + column
        } else {
            last
        };
        self.cursor = position;
    }

    /// Moves the cursor one visual row up.
    pub fn move_cursor_up(&mut self)
        ensures
            final(self)@ == ({
                let row = old(self)@.row_at(old(self)@.cursor);
                if row > 0 {
                    old(self)@.at(old(self)@.in_row(row - 1))
                } else {
                    old(self)@
                }
            }),
    {
        let lines = self.wrapped_lines();
        let row: usize = self.find_row(&lines, self.cursor);
        if row > 0 {
            self.move_to_row(&lines, row, row - 1);
        }
    }

    /// Moves the cursor one visual row down.
    pub fn move_cursor_down(&mut self)
        ensures
            final(self)@ == ({
                let row = old(self)@.row_at(old(self)@.cursor);
                if row + 1 < old(self)@.lines().len() {
                    old(self)@.at(old(self)@.in_row(row + 1))
                } else {
                    old(self)@
                }
            }),
    {
        let lines = self.wrapped_lines();
        let row: usize = self.find_row(&lines, self.cursor);
        if row < lines.len() - 1 {
            self.move_to_row(&lines, row, row + 1);
        }
    }
}

/// A position is in the last row that begins at or before it.
pub proof fn lemma_row_of_is_last(lines: Seq<(int, int)>, n: int, position: int)
    requires
        1 <= n <= lines.len(),
    ensures
        ({
            let row = row_of(lines, n, position);
            &&& 0 <= row < n
            &&& row > 0 ==> lines[row].0 <= position
            &&& forall|k: int| row < k < n ==> (#[trigger] lines[k]).0 > position
        }),
    decreases n,
{
    if n > 1 && lines[n - 1].0 > position {
        lemma_row_of_is_last(lines, n - 1, position);
    }
}

/// Moving to another row keeps the column as far as that row goes: the cursor
/// stays in the row, and comes before its last cluster where the next row
/// follows without a newline.
pub proof fn lemma_in_row_keeps_column(input: InputView, row: int)
    requires
        0 <= row < input.lines().len(),
        input.lines()[row].0 <= input.lines()[row].1,
        input.lines()[input.row_at(input.cursor)].0 <= input.cursor,
    ensures
        ({
            let (start, end) = input.lines()[row];
            let column = input.cursor - input.lines()[input.row_at(input.cursor)].0;
            let shared = row + 1 < input.lines().len() && input.lines()[row + 1].0 == end && end
                > start;
            let last = if shared {
                end - 1
            } else {
                end
            };
            &&& start <= input.in_row(row) <= last
            &&& input.in_row(row) == start + column || input.in_row(row) == last && last < start
                + column
        }),
{
}

proof fn lemma_skip_back(clusters: Seq<Seq<char>>, i: int, over_blanks: bool)
    requires
        0 <= i <= clusters.len(),
    ensures
        ({
            let at = skip_back(clusters, i, over_blanks);
            &&& 0 <= at <= i
            &&& forall|k: int| at <= k < i ==> text::blank(#[trigger] clusters[k]) == over_blanks
            &&& at > 0 ==> text::blank(clusters[at - 1]) != over_blanks
        }),
    decreases i,
{
    if i > 0 && text::blank(clusters[i - 1]) == over_blanks {
        lemma_skip_back(clusters, i - 1, over_blanks);
    }
}

proof fn lemma_skip_ahead(clusters: Seq<Seq<char>>, i: int, over_blanks: bool)
    requires
        0 <= i <= clusters.len(),
    ensures
        ({
            let at = skip_ahead(clusters, i, over_blanks);
            &&& i <= at <= clusters.len()
            &&& forall|k: int| i <= k < at ==> text::blank(#[trigger] clusters[k]) == over_blanks
            &&& at < clusters.len() ==> text::blank(clusters[at]) != over_blanks
        }),
    decreases clusters.len() - i,
{
    if i < clusters.len() && text::blank(clusters[i]) == over_blanks {
        lemma_skip_ahead(clusters, i + 1, over_blanks);
    }
}

/// The jump to the left passes white space and then one word, and stops at that
/// word's start.
pub proof fn lemma_word_to_the_left(clusters: Seq<Seq<char>>, cursor: int) -> (word_end: int)
    requires
        0 <= cursor <= clusters.len(),
    ensures
        ({
            let at = skip_back(clusters, skip_back(clusters, cursor, true), false);
            &&& 0 <= at <= word_end <= cursor
            &&& forall|k: int| word_end <= k < cursor ==> text::blank(#[trigger] clusters[k])
            &&& forall|k: int| at <= k < word_end ==> !text::blank(#[trigger] clusters[k])
            &&& at > 0 ==> text::blank(clusters[at - 1])
            &&& at == word_end ==> at == 0
        }),
{
    let word_end = skip_back(clusters, cursor, true);
    lemma_skip_back(clusters, cursor, true);
    lemma_skip_back(clusters, word_end, false);
    word_end
}

/// The jump to the right passes white space and then one word, and stops behind
/// that word.
pub proof fn lemma_word_to_the_right(clusters: Seq<Seq<char>>, cursor: int) -> (word_start: int)
    requires
        0 <= cursor <= clusters.len(),
    ensures
        ({
            let at = skip_ahead(clusters, skip_ahead(clusters, cursor, true), false);
            &&& cursor <= word_start <= at <= clusters.len()
            &&& forall|k: int| cursor <= k < word_start ==> text::blank(#[trigger] clusters[k])
            &&& forall|k: int| word_start <= k < at ==> !text::blank(#[trigger] clusters[k])
            &&& at < clusters.len() ==> text::blank(clusters[at])
            &&& at == word_start ==> at == clusters.len()
        }),
{
    let word_start = skip_ahead(clusters, cursor, true);
    lemma_skip_ahead(clusters, cursor, true);
    lemma_skip_ahead(clusters, word_start, false);
    word_start
}

/// New rows keep the selected one selected while there are so many rows, and
/// else select the first.
pub proof fn lemma_rematched_selection(input: InputView, matches: Seq<MatchView>)
    requires
        input.popup matches Some(popup) && 0 <= popup.selected,
    ensures
        input.rematched(matches).popup matches Some(popup) && popup.matches == matches
            && popup.token_start == input.popup.unwrap().token_start && popup.trigger
            == input.popup.unwrap().trigger && (popup.selected == input.popup.unwrap().selected
            && popup.selected < matches.len() || popup.selected == 0 && matches.len()
            <= input.popup.unwrap().selected),
{
}

/// The badge names the mode.
pub proof fn lemma_mode_labels()
    ensures
        mode_label(InputMode::Queue) == "QUEUE"@,
        mode_label(InputMode::Steer) == "STEER"@,
{
}

/// Positions and selections of a box count from zero.
pub proof fn lemma_positions_count_from_zero(input: ChatInputBoxState)
    ensures
        0 <= input@.cursor,
        0 <= input@.scroll_offset,
        0 <= input@.wrap_width,
        input@.popup matches Some(popup) ==> 0 <= popup.token_start && 0 <= popup.selected,
{
}

/// Rows count from zero.
pub proof fn lemma_row_at_counts_from_zero(input: InputView, position: int)
    ensures
        0 <= input.row_at(position),
{
    wrap::lemma_lines_from(input.clusters(), 0, input.wrap_width);
    lemma_row_of(input.lines(), input.lines().len() as int, position);
}

/// The lines of a box are those of its text, wrapped at its width.
pub proof fn lemma_box_lines_are_wrapped(
    input: &ChatInputBoxState,
    lines: Vec<WrappedLine>,
    text: &str,
    width: usize,
    wrapped: Vec<WrappedLine>,
)
    requires
        call_ensures(ChatInputBoxState::wrapped_lines, (input,), lines),
        call_ensures(wrap::wrap_text, (text, width), wrapped),
        text@ == input@.text,
        width == input@.wrap_width,
    ensures
        lines@.len() == wrapped@.len(),
        forall|k: int|
            #![trigger lines@[k]]
            0 <= k < lines@.len() ==> lines@[k].grapheme_start == wrapped@[k].grapheme_start
                && lines@[k].grapheme_end == wrapped@[k].grapheme_end,
{
    let (a, b) = (wrap::ranges(lines@), wrap::ranges(wrapped@));
    assert(a == b);
    assert(a.len() == lines@.len() && b.len() == wrapped@.len());
    assert forall|k: int| #![trigger lines@[k]] 0 <= k < lines@.len() implies lines@[k].grapheme_start
        == wrapped@[k].grapheme_start && lines@[k].grapheme_end == wrapped@[k].grapheme_end by {
        assert(a[k] == b[k]);
    }
}

/// The cursor's row is the last one that starts at or before the cursor, and
/// its column counts from there.
pub proof fn lemma_cursor_row_and_column(
    input: &ChatInputBoxState,
    lines: Vec<WrappedLine>,
    position: (usize, usize),
    k: int,
)
    requires
        call_ensures(ChatInputBoxState::wrapped_lines, (input,), lines),
        call_ensures(ChatInputBoxState::cursor_row_col, (input,), position),
        0 <= k < lines@.len(),
    ensures
        position.0 < lines@.len(),
        lines@[position.0 as int].grapheme_start + position.1 == input@.cursor,
        k > position.0 ==> lines@[k].grapheme_start > input@.cursor,
{
    let ranged = wrap::ranges(lines@);
    assert(ranged.len() == lines@.len());
    lemma_row_of_is_last(input@.lines(), input@.lines().len() as int, input@.cursor);
    assert(ranged[k].0 == lines@[k].grapheme_start);
    assert(ranged[position.0 as int].0 == lines@[position.0 as int].grapheme_start);
}

} // verus!
