//! Where the popup is drawn and what its rows show.

use crate::app_state::AppState;
use crate::chat_input::state;
use crate::chat_input::editing;
use crate::chat_input::state::{AutocompleteMatch, AutocompleteTrigger};
use crate::context::prompt_template::PromptTemplate;
use crate::file_lister::file_picker_state;
use crate::file_lister::FilePickerState;
use crate::text;
use crate::text::chars_of;
use vstd::prelude::*;

verus! {

/// A rectangle of terminal cells.
#[derive(Clone, Copy, Debug, PartialEq, Eq, Structural)]
pub struct Rect {
    pub x: u16,
    pub y: u16,
    pub width: u16,
    pub height: u16,
}

/// The most rows that a popup shows.
pub const AUTOCOMPLETE_MAX_VISIBLE: usize = 20;

/// The least width of a popup.
pub const AUTOCOMPLETE_MIN_WIDTH: u16 = 20;

/// The separator between the name and the description of a row.
pub const AUTOCOMPLETE_NAME_DESC_SEP: &'static str = " - ";

/// The columns before the text of the input box.
pub const PROMPT_INDENT: u16 = 2;

/// The greater number.
pub open spec fn greater(a: int, b: int) -> int {
    if a >= b {
        a
    } else {
        b
    }
}

/// The rows `[start, end)` to show of `total`, where `visible` fit: the
/// selected one is kept in view at the bottom edge.
pub open spec fn window(selected: int, total: int, visible: int) -> (int, int) {
    if total <= visible {
        (0, total)
    } else {
        let start = greater(selected + 1 - visible, 0);
        (start, state::lesser(start + visible, total))
    }
}

/// The window fits, lies within the rows, holds the selected one, and shows as
/// many rows as it can.
pub proof fn lemma_window_shows_selected(selected: int, total: int, visible: int)
    requires
        0 <= selected < total,
        0 < visible,
    ensures
        0 <= window(selected, total, visible).0 <= selected < window(selected, total, visible).1
            <= total,
        window(selected, total, visible).1 - window(selected, total, visible).0 == state::lesser(
            total,
            visible,
        ),
{
}

/// The window trails the selection: it moves on by one row at most when the
/// next row is selected.
pub proof fn lemma_window_trails(selected: int, total: int, visible: int)
    ensures
        window(selected, total, visible).0 <= window(selected + 1, total, visible).0 <= window(
            selected,
            total,
            visible,
        ).0 + 1,
{
}

/// The rows `[start, end)` to show.
pub fn scroll_window(selected: usize, total: usize, visible: usize) -> (shown: (usize, usize))
    requires
        total <= visible || selected < usize::MAX,
    ensures
        (shown.0 as int, shown.1 as int) == window(selected as int, total as int, visible as int),
{
    if total <= visible {
        return (0, total);
    }
    let start: usize = if selected + 1 >= visible {
        selected + 1 - visible
    } else {
        0
    };
    let end: usize = if visible <= total && start <= total - visible {
        start + visible
    } else {
        total
    };
    (start, end)
}

/// The height of a popup above the row `bottom_y`: one row and two borders at
/// least.
pub open spec fn popup_height(raw_height: int, bottom_y: int) -> int {
    greater(state::lesser(raw_height, bottom_y), 3)
}

/// The screen row of the popup's trigger.
pub open spec fn trigger_y(area_y: int, token_row: int, scroll_offset: int) -> int {
    state::lesser(area_y + greater(token_row - scroll_offset, 0) % 0x10000, 0xffff)
}

/// Whether the trigger's column is on the screen.
pub open spec fn anchored(input_area: Rect, token_col: int) -> bool {
    input_area.x + PROMPT_INDENT + token_col % 0x10000 <= 0xffff
}

/// The place of a popup: its left edge at the trigger's column, its bottom
/// edge right above the trigger's line, as wide as its content within the
/// limits, and pushed left where it would leave the terminal.
pub open spec fn popup_area(
    input_area: Rect,
    term_width: u16,
    width_cap: u16,
    token: (int, int),
    scroll_offset: int,
    content_width: int,
    rows: int,
) -> Rect {
    let max_width = state::lesser(
        greater(width_cap as int, AUTOCOMPLETE_MIN_WIDTH as int),
        term_width as int,
    );
    let width = state::lesser(
        greater(state::lesser(content_width + 2, 0xffff), AUTOCOMPLETE_MIN_WIDTH as int),
        max_width,
    );
    let raw_height = if rows <= 1 {
        3
    } else {
        state::lesser(rows, AUTOCOMPLETE_MAX_VISIBLE as int) + 2
    };
    let bottom = trigger_y(input_area.y as int, token.0, scroll_offset);
    let height = popup_height(raw_height, bottom);
    let anchor = input_area.x + PROMPT_INDENT + token.1 % 0x10000;
    Rect {
        x: state::lesser(anchor, greater(term_width - width, 0)) as u16,
        y: greater(bottom - height, 0) as u16,
        width: width as u16,
        height: height as u16,
    }
}

/// A popup that has room above the trigger ends right above the trigger's
/// line, and it never leaves the terminal on the right.
pub proof fn lemma_popup_area(
    input_area: Rect,
    term_width: u16,
    width_cap: u16,
    token: (int, int),
    scroll_offset: int,
    content_width: int,
    rows: int,
)
    requires
        anchored(input_area, token.1),
        0 <= content_width,
        trigger_y(input_area.y as int, token.0, scroll_offset) >= 3,
    ensures
        ({
            let area = popup_area(
                input_area,
                term_width,
                width_cap,
                token,
                scroll_offset,
                content_width,
                rows,
            );
            &&& area.y + area.height == trigger_y(input_area.y as int, token.0, scroll_offset)
            &&& area.x + area.width <= term_width
            &&& 3 <= area.height <= AUTOCOMPLETE_MAX_VISIBLE + 2
        }),
{
}

/// The place of a popup.
pub fn place_popup(
    input_area: Rect,
    term_width: u16,
    width_cap: u16,
    token: (usize, usize),
    scroll_offset: usize,
    content_width: u16,
    rows: usize,
) -> (area: Rect)
    requires
        anchored(input_area, token.1 as int),
    ensures
        area == popup_area(
            input_area,
            term_width,
            width_cap,
            (token.0 as int, token.1 as int),
            scroll_offset as int,
            content_width as int,
            rows as int,
        ),
{
    let anchor: u16 = input_area.x + PROMPT_INDENT + (token.1 % 0x10000) as u16;
    let floor: u16 = if width_cap >= AUTOCOMPLETE_MIN_WIDTH {
        width_cap
    } else {
        AUTOCOMPLETE_MIN_WIDTH
    };
    let max_width: u16 = if floor <= term_width {
        floor
    } else {
        term_width
    };
    let wanted: u16 = if content_width <= 0xffff - 2 {
        content_width + 2
    } else {
        0xffff
    };
    let wide: u16 = if wanted >= AUTOCOMPLETE_MIN_WIDTH {
        wanted
    } else {
        AUTOCOMPLETE_MIN_WIDTH
    };
    let width: u16 = if wide <= max_width {
        wide
    } else {
        max_width
    };
    let raw_height: u16 = if rows <= 1 {
        3
    } else if rows <= AUTOCOMPLETE_MAX_VISIBLE {
        rows as u16 + 2
    } else {
        AUTOCOMPLETE_MAX_VISIBLE as u16 + 2
    };
    let below: usize = if token.0 >= scroll_offset {
        token.0 - scroll_offset
    } else {
        0
    };
    let bottom: u16 = input_area.y.saturating_add((below % 0x10000) as u16);
    let height: u16 = clamp_popup_height(raw_height, bottom);
    let y: u16 = if bottom >= height {
        bottom - height
    } else {
        0
    };
    let right: u16 = if term_width >= width {
        term_width - width
    } else {
        0
    };
    let x: u16 = if anchor <= right {
        anchor
    } else {
        right
    };
    Rect { x, y, width, height }
}

/// The height of a popup above the row `bottom_y`.
fn clamp_popup_height(raw_height: u16, bottom_y: u16) -> (height: u16)
    ensures
        height == popup_height(raw_height as int, bottom_y as int),
{
    let fitting: u16 = if raw_height <= bottom_y {
        raw_height
    } else {
        bottom_y
    };
    if fitting >= 3 {
        fitting
    } else {
        3
    }
}

/// Whether the popup lists files.
pub open spec fn lists_files(trigger: AutocompleteTrigger) -> bool {
    trigger == AutocompleteTrigger::At || trigger == AutocompleteTrigger::AtAt
}

/// What the popup shows where nothing matches.
pub open spec fn no_matches_text(trigger: AutocompleteTrigger) -> Seq<char> {
    if trigger == AutocompleteTrigger::Hash {
        "<no prompts found>"@
    } else if trigger == AutocompleteTrigger::Slash {
        "<no commands found>"@
    } else {
        "<empty>"@
    }
}

/// The row of a match: its name, and its description where it has one.
pub open spec fn match_text(row: state::MatchView) -> Seq<char> {
    if row.description.len() == 0 {
        row.name
    } else {
        row.name + AUTOCOMPLETE_NAME_DESC_SEP@ + row.description
    }
}

/// The row of a file; a directory ends with `/`.
pub open spec fn file_text(entry: file_picker_state::FileEntry) -> Seq<char> {
    if entry.is_dir {
        entry.name@ + "/"@
    } else {
        entry.name@
    }
}

/// All rows of the popup.
pub open spec fn row_texts(
    popup: state::PopupView,
    filter: Seq<char>,
    picker: FilePickerState,
) -> Seq<Seq<char>> {
    if lists_files(popup.trigger) {
        let shown = file_picker_state::visible(picker.entries@, filter);
        if picker.loading {
            seq!["<loading…>"@]
        } else if shown.len() == 0 {
            seq!["<empty>"@]
        } else {
            shown.map_values(|entry: file_picker_state::FileEntry| file_text(entry))
        }
    } else if popup.matches.len() == 0 {
        seq![no_matches_text(popup.trigger)]
    } else {
        popup.matches.map_values(|row: state::MatchView| match_text(row))
    }
}

/// Whether the popup shows the note that nothing matches.
pub open spec fn shows_note(popup: state::PopupView) -> bool {
    !lists_files(popup.trigger) && popup.matches.len() == 0
}

/// Whether the row is shown as selected: not while files are being listed, and
/// not the note that nothing matches.
pub open spec fn marks_row(popup: state::PopupView, picker: FilePickerState, i: int) -> bool {
    i == popup.selected && !(lists_files(popup.trigger) && picker.loading) && !shows_note(popup)
}

/// What is confirmed in a file popup is the row that is shown as selected. A
/// selection that is not shown confirms nothing.
pub proof fn lemma_confirm_takes_shown_row(
    input: state::InputView,
    templates: Seq<PromptTemplate>,
    picker: FilePickerState,
)
    requires
        input.popup matches Some(popup) && popup.trigger == AutocompleteTrigger::At
            && popup.selected >= 0,
        !picker.loading,
    ensures
        ({
            let popup = input.popup.unwrap();
            let shown = file_picker_state::visible(picker.entries@, input.filter());
            let confirmed = editing::after_confirm(input, templates, picker.entries@);
            if popup.selected < shown.len() {
                let entry = shown[popup.selected];
                &&& row_texts(popup, input.filter(), picker)[popup.selected] == file_text(entry)
                &&& marks_row(popup, picker, popup.selected)
                &&& confirmed.input == input.completed_path(entry.name@, entry.is_dir)
            } else {
                confirmed == editing::quiet(input)
            }
        }),
{
}

/// The number of bytes of a text.
pub open spec fn byte_len(text: Seq<char>) -> usize {
    vstd::utf8::encode_utf8(text).len() as usize
}

/// The greatest of the first `n` numbers, 0 for none.
pub open spec fn widest(widths: spec_fn(int) -> int, n: int) -> int
    decreases n,
{
    if n <= 0 {
        0
    } else {
        greater(widest(widths, n - 1), widths(n - 1))
    }
}

/// The width that is reserved for a match: name, separator and description in
/// bytes.
pub open spec fn match_width(row: state::MatchView) -> int {
    byte_len(row.name) + byte_len(AUTOCOMPLETE_NAME_DESC_SEP@) + byte_len(row.description)
}

/// A width as a column count: the least width where it does not fit.
pub open spec fn as_columns(width: int) -> int {
    if width <= 0xffff {
        width
    } else {
        AUTOCOMPLETE_MIN_WIDTH as int
    }
}

/// The width that the popup's content takes.
pub open spec fn content_columns(
    popup: state::PopupView,
    filter: Seq<char>,
    picker: FilePickerState,
) -> int {
    if lists_files(popup.trigger) {
        let rows = row_texts(popup, filter, picker);
        as_columns(widest(|i: int| rows[i].len() as int, rows.len() as int))
    } else if popup.matches.len() == 0 {
        as_columns(byte_len(no_matches_text(popup.trigger)) as int)
    } else {
        as_columns(widest(|i: int| match_width(popup.matches[i]), popup.matches.len() as int))
    }
}

/// One drawn row of a popup.
#[derive(Debug, PartialEq, Eq)]
pub struct PopupRow {
    pub text: String,
    pub selected: bool,
}

/// A popup to draw: a border around its rows.
#[derive(Debug, PartialEq, Eq)]
pub struct PopupLayout {
    pub area: Rect,
    /// The rows inside the border, filled up with empty ones.
    pub rows: Vec<PopupRow>,
    /// Whether the only row is the note that nothing matches.
    pub note: bool,
}

/// Whether the drawn rows are those of the window around the selected one,
/// filled up with empty ones.
pub open spec fn draws_rows(
    rows: Seq<PopupRow>,
    popup: state::PopupView,
    filter: Seq<char>,
    picker: FilePickerState,
    height: int,
) -> bool {
    let texts = row_texts(popup, filter, picker);
    let (start, end) = window(popup.selected, texts.len() as int, height);
    &&& rows.len() == height
    &&& forall|j: int|
        0 <= j < height ==> if start + j < end {
            (#[trigger] rows[j]).text@ == texts[start + j] && rows[j].selected == marks_row(
                popup,
                picker,
                start + j,
            )
        } else {
            rows[j].text@.len() == 0 && !rows[j].selected
        }
}

/// The rows of the popup's matches.
fn match_rows(matches: &Vec<AutocompleteMatch>) -> (rows: Vec<String>)
    ensures
        text::texts(rows@) == state::match_views(matches@).map_values(
            |row: state::MatchView| match_text(row),
        ),
{
    let mut rows: Vec<String> = Vec::new();
    let mut i: usize = 0;
    while i < matches.len()
        invariant
            i <= matches@.len(),
            rows@.len() == i,
            forall|k: int| 0 <= k < i ==> (#[trigger] rows@[k])@ == match_text(matches@[k]@),
        decreases matches@.len() - i,
    {
        let mut row = matches[i].name.clone();
        if !matches[i].description.as_str().is_empty() {
            row.append(AUTOCOMPLETE_NAME_DESC_SEP);
            row.append(matches[i].description.as_str());
        }
        rows.push(row);
        i += 1;
    }
    assert(text::texts(rows@) =~= state::match_views(matches@).map_values(
        |row: state::MatchView| match_text(row),
    ));
    rows
}

/// The rows of the shown files.
fn file_rows(shown: &Vec<&file_picker_state::FileEntry>) -> (rows: Vec<String>)
    ensures
        text::texts(rows@) == shown@.map_values(|entry: &file_picker_state::FileEntry| *entry).map_values(
            |entry: file_picker_state::FileEntry| file_text(entry),
        ),
{
    let mut rows: Vec<String> = Vec::new();
    let mut i: usize = 0;
    while i < shown.len()
        invariant
            i <= shown@.len(),
            rows@.len() == i,
            forall|k: int| 0 <= k < i ==> (#[trigger] rows@[k])@ == file_text(*shown@[k]),
        decreases shown@.len() - i,
    {
        let mut row = shown[i].name.clone();
        if shown[i].is_dir {
            row.append("/");
        }
        rows.push(row);
        i += 1;
    }
    assert(text::texts(rows@) =~= shown@.map_values(
        |entry: &file_picker_state::FileEntry| *entry,
    ).map_values(|entry: file_picker_state::FileEntry| file_text(entry)));
    rows
}

/// One row with this text.
fn single_row(text: &str) -> (rows: Vec<String>)
    ensures
        text::texts(rows@) == seq![text@],
{
    let mut rows: Vec<String> = Vec::new();
    rows.push(text.to_owned());
    assert(text::texts(rows@) =~= seq![text@]);
    rows
}

/// All rows of the popup.
fn popup_rows(
    trigger: AutocompleteTrigger,
    matches: &Vec<AutocompleteMatch>,
    filter: &str,
    picker: &FilePickerState,
    Ghost(popup): Ghost<state::PopupView>,
) -> (rows: Vec<String>)
    requires
        popup.trigger == trigger,
        popup.matches == state::match_views(matches@),
    ensures
        text::texts(rows@) == row_texts(popup, filter@, *picker),
{
    if trigger == AutocompleteTrigger::At || trigger == AutocompleteTrigger::AtAt {
        if picker.loading {
            return single_row("<loading…>");
        }
        let shown = picker.visible_entries(filter);
        let ghost all = file_picker_state::visible(picker.entries@, filter@);
        assert(all.len() == shown@.len());
        if shown.len() == 0 {
            return single_row("<empty>");
        }
        return file_rows(&shown);
    }
    assert(popup.matches.len() == matches@.len());
    if matches.len() > 0 {
        return match_rows(matches);
    }
    single_row(empty_note(trigger))
}

/// What the popup shows where nothing matches.
fn empty_note(trigger: AutocompleteTrigger) -> (note: &'static str)
    ensures
        note@ == no_matches_text(trigger),
{
    if trigger == AutocompleteTrigger::Hash {
        "<no prompts found>"
    } else if trigger == AutocompleteTrigger::Slash {
        "<no commands found>"
    } else {
        "<empty>"
    }
}

/// A width as a column count.
fn to_columns(width: usize) -> (columns: u16)
    ensures
        columns == as_columns(width as int),
{
    if width <= 0xffff {
        width as u16
    } else {
        AUTOCOMPLETE_MIN_WIDTH
    }
}

/// The width that is reserved for the popup's matches.
fn match_columns(matches: &Vec<AutocompleteMatch>) -> (columns: u16)
    ensures
        ({
            let views = state::match_views(matches@);
            columns == as_columns(
                widest(|i: int| match_width(views[i]), views.len() as int),
            )
        }),
{
    let ghost views = state::match_views(matches@);
    let ghost width = |i: int| match_width(views[i]);
    let mut most: usize = 0;
    let mut i: usize = 0;
    while i < matches.len()
        invariant
            i <= matches@.len(),
            views == state::match_views(matches@),
            width == (|i: int| match_width(views[i])),
            most == widest(width, i as int) || (most > 0xffff && widest(width, i as int) > 0xffff),
        decreases matches@.len() - i,
    {
        let row = &matches[i];
        assert(views[i as int] == row@);
        let taken: usize = row.name.as_str().len().saturating_add(
            AUTOCOMPLETE_NAME_DESC_SEP.len(),
        ).saturating_add(row.description.as_str().len());
        assert(taken == width(i as int) || (taken > 0xffff && width(i as int) > 0xffff));
        if taken > most {
            most = taken;
        }
        i += 1;
    }
    to_columns(most)
}

/// The width of the widest of these rows, in characters.
fn row_columns(rows: &Vec<String>) -> (columns: u16)
    ensures
        ({
            let texts = text::texts(rows@);
            columns == as_columns(widest(|i: int| texts[i].len() as int, texts.len() as int))
        }),
{
    let ghost texts = text::texts(rows@);
    let ghost width = |i: int| texts[i].len() as int;
    let mut most: usize = 0;
    let mut i: usize = 0;
    while i < rows.len()
        invariant
            i <= rows@.len(),
            texts == text::texts(rows@),
            width == (|i: int| texts[i].len() as int),
            most == widest(width, i as int),
        decreases rows@.len() - i,
    {
        let chars = chars_of(rows[i].as_str());
        assert(texts[i as int] == chars@);
        assert(width(i as int) == chars@.len());
        if chars.len() > most {
            most = chars.len();
        }
        i += 1;
    }
    to_columns(most)
}

/// The rows in the window around the selected one, filled up with empty ones.
fn window_rows(
    texts: &Vec<String>,
    selected: usize,
    marked: bool,
    height: usize,
    Ghost(popup): Ghost<state::PopupView>,
    Ghost(filter): Ghost<Seq<char>>,
    Ghost(picker): Ghost<FilePickerState>,
) -> (rows: Vec<PopupRow>)
    requires
        text::texts(texts@) == row_texts(popup, filter, picker),
        popup.selected == selected,
        selected < usize::MAX,
        marked == (!(lists_files(popup.trigger) && picker.loading) && !shows_note(popup)),
    ensures
        draws_rows(rows@, popup, filter, picker, height as int),
{
    let ghost all = row_texts(popup, filter, picker);
    let (start, end): (usize, usize) = scroll_window(selected, texts.len(), height);
    let mut rows: Vec<PopupRow> = Vec::new();
    assert(all.len() == texts@.len());
    while rows.len() < height
        invariant
            rows@.len() <= height,
            all == text::texts(texts@),
            all == row_texts(popup, filter, picker),
            end <= texts@.len(),
            popup.selected == selected,
            marked == (!(lists_files(popup.trigger) && picker.loading) && !shows_note(popup)),
            forall|j: int|
                0 <= j < rows@.len() ==> if start + j < end {
                    (#[trigger] rows@[j]).text@ == all[start + j] && rows@[j].selected
                        == marks_row(popup, picker, start + j)
                } else {
                    rows@[j].text@.len() == 0 && !rows@[j].selected
                },
        decreases height - rows@.len(),
    {
        let j: usize = rows.len();
        if start < end && j < end - start {
            let i: usize = start + j;
            assert(all[i as int] == texts@[i as int]@);
            rows.push(PopupRow { text: texts[i].clone(), selected: marked && i == selected });
        } else {
            rows.push(PopupRow { text: String::new(), selected: false });
        }
    }
    rows
}

/// Whether a popup is drawn for the box: one is open, and its trigger's column
/// is on the screen.
pub open spec fn drawn(input: state::InputView, input_area: Rect) -> bool {
    match input.popup {
        Some(popup) => popup.selected < usize::MAX && anchored(input_area, token_column(input)),
        None => false,
    }
}

/// The terminal column of the trigger in its line.
pub open spec fn token_column(input: state::InputView) -> int {
    let start = input.popup.unwrap().token_start;
    text::display_columns(
        text::cluster_text(input.clusters(), input.lines()[input.row_at(start)].0, start),
    ) as int
}

/// The popup of the active session, laid out above the trigger's line. The
/// width is capped at `width_cap` columns.
pub fn render_autocomplete_popup(
    input_area: Rect,
    term_width: u16,
    width_cap: u16,
    state: &AppState,
) -> (layout: Option<PopupLayout>)
    ensures
        match layout {
            Some(l) => {
                &&& state.session.active.input matches Some(input)
                &&& drawn(input@, input_area)
                &&& l.area == popup_area(
                    input_area,
                    term_width,
                    width_cap,
                    (input@.row_at(input@.popup.unwrap().token_start), token_column(input@)),
                    input@.scroll_offset,
                    content_columns(
                        input@.popup.unwrap(),
                        input@.filter(),
                        state.frontend.file_picker,
                    ),
                    row_texts(
                        input@.popup.unwrap(),
                        input@.filter(),
                        state.frontend.file_picker,
                    ).len() as int,
                )
                &&& draws_rows(
                    l.rows@,
                    input@.popup.unwrap(),
                    input@.filter(),
                    state.frontend.file_picker,
                    l.area.height - 2,
                )
                &&& l.note == shows_note(input@.popup.unwrap())
            },
            None => match state.session.active.input {
                Some(input) => !drawn(input@, input_area),
                None => true,
            },
        },
{
    let input = match &state.session.active.input {
        Some(input) => input,
        None => {
            return None;
        },
    };
    let picker = &state.frontend.file_picker;
    let popup = match input.autocomplete() {
        Some(popup) => popup,
        None => {
            return None;
        },
    };
    let token: (usize, usize) = match input.autocomplete_token_visual_row_col() {
        Some(token) => token,
        None => {
            return None;
        },
    };
    let ghost view = popup@;
    assert(token.1 == token_column(input@));
    let selected: usize = popup.selected_index;
    if selected == usize::MAX || (token.1 % 0x10000) as u16 > 0xffff - PROMPT_INDENT || input_area.x
        > 0xffff - PROMPT_INDENT - (token.1 % 0x10000) as u16 {
        return None;
    }
    let filter = match input.autocomplete_filter() {
        Some(filter) => filter,
        None => String::new(),
    };
    let files = popup.trigger == AutocompleteTrigger::At || popup.trigger
        == AutocompleteTrigger::AtAt;
    let texts = popup_rows(popup.trigger, &popup.matches, filter.as_str(), picker, Ghost(view));
    assert(row_texts(view, filter@, *picker).len() == texts@.len());
    assert(view.matches.len() == popup.matches@.len());
    let note = !files && popup.matches.len() == 0;
    let content: u16 = if files {
        row_columns(&texts)
    } else if note {
        to_columns(empty_note(popup.trigger).len())
    } else {
        match_columns(&popup.matches)
    };
    assert(content == content_columns(view, filter@, *picker));
    let area = place_popup(
        input_area,
        term_width,
        width_cap,
        token,
        input.scroll_offset(),
        content,
        texts.len(),
    );
    let marked = !(files && picker.loading) && !note;
    let rows = window_rows(
        &texts,
        selected,
        marked,
        (area.height - 2) as usize,
        Ghost(view),
        Ghost(filter@),
        Ghost(*picker),
    );
    Some(PopupLayout { area, rows, note })
}

/// What the rows of a popup say. A `/` or `#` popup shows each match by its
/// name and, where it has one, its description; a file popup shows each file
/// that fits the path, directories with a `/`. Where there is nothing to show,
/// one row says so.
pub proof fn lemma_row_texts(
    popup: state::PopupView,
    filter: Seq<char>,
    picker: FilePickerState,
)
    ensures
        ({
            let rows = row_texts(popup, filter, picker);
            let shown = file_picker_state::visible(picker.entries@, filter);
            match popup.trigger {
                AutocompleteTrigger::At | AutocompleteTrigger::AtAt => {
                    &&& picker.loading ==> rows == seq!["<loading…>"@]
                    &&& !picker.loading && shown.len() == 0 ==> rows == seq!["<empty>"@]
                    &&& !picker.loading && shown.len() > 0 ==> rows.len() == shown.len() && forall|
                        i: int,
                    |
                        #![trigger rows[i]]
                        0 <= i < rows.len() ==> rows[i] == if shown[i].is_dir {
                            shown[i].name@ + "/"@
                        } else {
                            shown[i].name@
                        }
                },
                AutocompleteTrigger::Hash | AutocompleteTrigger::Slash => {
                    &&& popup.matches.len() == 0 && popup.trigger == AutocompleteTrigger::Hash
                        ==> rows == seq!["<no prompts found>"@]
                    &&& popup.matches.len() == 0 && popup.trigger == AutocompleteTrigger::Slash
                        ==> rows == seq!["<no commands found>"@]
                    &&& popup.matches.len() > 0 ==> rows.len() == popup.matches.len() && forall|
                        i: int,
                    |
                        #![trigger rows[i]]
                        0 <= i < rows.len() ==> rows[i] == if popup.matches[i].description.len()
                            == 0 {
                            popup.matches[i].name
                        } else {
                            popup.matches[i].name + " - "@ + popup.matches[i].description
                        }
                },
            }
        }),
{
}

/// The rows that are drawn are a stretch of all rows with the selected one
/// among them, in order and without gaps; it is the only one that is marked.
/// Where all rows fit, all are drawn, and the rest of the popup stays empty.
pub proof fn lemma_drawn_rows(
    rows: Seq<PopupRow>,
    popup: state::PopupView,
    filter: Seq<char>,
    picker: FilePickerState,
    height: int,
) -> (start: int)
    requires
        draws_rows(rows, popup, filter, picker, height),
        0 < height,
        0 <= popup.selected < row_texts(popup, filter, picker).len(),
    ensures
        ({
            let all = row_texts(popup, filter, picker);
            let count = if all.len() <= height {
                all.len() as int
            } else {
                height
            };
            let files = popup.trigger == AutocompleteTrigger::At || popup.trigger
                == AutocompleteTrigger::AtAt;
            let choice = !(files && picker.loading) && (files || popup.matches.len() > 0);
            &&& rows.len() == height
            &&& 0 <= start <= popup.selected < start + count <= all.len()
            &&& all.len() <= height ==> start == 0
            &&& start == 0 || popup.selected == start + count - 1
            &&& forall|j: int|
                #![trigger rows[j]]
                0 <= j < count ==> rows[j].text@ == all[start + j] && (rows[j].selected <==> choice
                    && start + j == popup.selected)
            &&& forall|j: int|
                #![trigger rows[j]]
                count <= j < height ==> rows[j].text@.len() == 0 && !rows[j].selected
        }),
{
    window(popup.selected, row_texts(popup, filter, picker).len() as int, height).0
}

/// The place of a popup with room above the trigger: two borders and one row
/// for each of up to twenty rows, bottom edge on the trigger's line, left edge
/// at the trigger unless it would leave the terminal, and wide enough for its
/// content between twenty columns and the cap.
pub proof fn lemma_popup_is_placed_above_the_trigger(
    input_area: Rect,
    term_width: u16,
    width_cap: u16,
    token: (int, int),
    scroll_offset: int,
    content_width: int,
    rows: int,
)
    requires
        0 <= token.1,
        input_area.x + 2 + token.1 <= 0xffff,
        0 <= scroll_offset <= token.0,
        input_area.y + token.0 <= 0xffff,
        0 <= content_width <= 0xffff,
        1 <= rows,
    ensures
        ({
            let area = popup_area(
                input_area,
                term_width,
                width_cap,
                token,
                scroll_offset,
                content_width,
                rows,
            );
            let line = input_area.y + token.0 - scroll_offset;
            let column = input_area.x + 2 + token.1;
            let wanted = (if rows <= 20 {
                rows
            } else {
                20
            }) + 2;
            &&& line >= wanted ==> area.height == wanted && area.y + area.height == line
            &&& 3 <= line < wanted ==> area.height == line && area.y == 0
            &&& line < 3 ==> area.height == 3 && area.y == 0
            &&& area.width <= term_width
            &&& column + area.width <= term_width ==> area.x == column
            &&& column + area.width > term_width ==> area.x + area.width == term_width
            &&& term_width >= 20 ==> area.width >= 20
            &&& 20 <= content_width + 2 <= term_width && content_width + 2 <= width_cap
                ==> area.width == content_width + 2
            &&& width_cap >= 20 ==> area.width <= width_cap
        }),
{
}

proof fn lemma_widest(widths: spec_fn(int) -> int, n: int)
    ensures
        forall|i: int| 0 <= i < n ==> #[trigger] widths(i) <= widest(widths, n),
        widest(widths, n) >= 0,
        widest(widths, n) == 0 || exists|i: int|
            0 <= i < n && #[trigger] widths(i) == widest(widths, n),
    decreases n,
{
    if n > 0 {
        lemma_widest(widths, n - 1);
        assert(widths(n - 1) <= widest(widths, n));
        if widest(widths, n) != widths(n - 1) && widest(widths, n) != 0 {
            let i = choose|i: int|
                0 <= i < n - 1 && #[trigger] widths(i) == widest(widths, n - 1);
            assert(widths(i) == widest(widths, n));
        }
    }
}

/// The content of a `/` or `#` popup takes the bytes of the widest name,
/// separator and description together; that of a file popup takes the
/// characters of its widest row.
pub proof fn lemma_content_fits_its_widest_row(
    popup: state::PopupView,
    filter: Seq<char>,
    picker: FilePickerState,
)
    ensures
        ({
            let content = content_columns(popup, filter, picker);
            let rows = row_texts(popup, filter, picker);
            let matches = popup.matches;
            let width = |i: int|
                byte_len(matches[i].name) + byte_len(" - "@) + byte_len(matches[i].description);
            match popup.trigger {
                AutocompleteTrigger::At | AutocompleteTrigger::AtAt => {
                    (forall|i: int| 0 <= i < rows.len() ==> (#[trigger] rows[i]).len() <= 0xffff)
                        ==> {
                        &&& forall|i: int|
                            0 <= i < rows.len() ==> (#[trigger] rows[i]).len() <= content
                        &&& content == 0 || exists|i: int|
                            0 <= i < rows.len() && (#[trigger] rows[i]).len() == content
                    }
                },
                AutocompleteTrigger::Hash | AutocompleteTrigger::Slash => {
                    matches.len() > 0 && (forall|i: int|
                        0 <= i < matches.len() ==> #[trigger] width(i) <= 0xffff) ==> {
                        &&& forall|i: int| 0 <= i < matches.len() ==> #[trigger] width(i) <= content
                        &&& content == 0 || exists|i: int|
                            0 <= i < matches.len() && #[trigger] width(i) == content
                    }
                },
            }
        }),
{
    let rows = row_texts(popup, filter, picker);
    let matches = popup.matches;
    if lists_files(popup.trigger) {
        let widths = |i: int| rows[i].len() as int;
        lemma_widest(widths, rows.len() as int);
        assert forall|i: int| 0 <= i < rows.len() implies (#[trigger] rows[i]).len() <= widest(
            widths,
            rows.len() as int,
        ) by {
            assert(widths(i) <= widest(widths, rows.len() as int));
        }
    } else if matches.len() > 0 {
        let widths = |i: int| match_width(matches[i]);
        let width = |i: int|
            byte_len(matches[i].name) + byte_len(" - "@) + byte_len(matches[i].description);
        lemma_widest(widths, matches.len() as int);
        assert forall|i: int| 0 <= i < matches.len() implies #[trigger] width(i) <= widest(
            widths,
            matches.len() as int,
        ) by {
            assert(widths(i) <= widest(widths, matches.len() as int));
        }
        let w = widest(widths, matches.len() as int);
        if w != 0 {
            let i = choose|i: int| 0 <= i < matches.len() && #[trigger] widths(i) == w;
            assert(width(i) == w);
        }
    }
}

/// A width that no terminal column count can hold is taken as that of the
/// narrowest popup.
pub proof fn lemma_absurd_width_is_narrow(width: int)
    ensures
        width <= 0xffff ==> as_columns(width) == width,
        width > 0xffff ==> as_columns(width) == 20,
{
}

/// A popup is drawn only for a box with one open, and shows a stretch of its
/// rows around the selected one, which alone is marked.
pub proof fn lemma_rendered_popup(
    input_area: Rect,
    term_width: u16,
    width_cap: u16,
    state: &AppState,
    layout: Option<PopupLayout>,
) -> (start: int)
    requires
        call_ensures(
            render_autocomplete_popup,
            (input_area, term_width, width_cap, state),
            layout,
        ),
    ensures
        layout is Some ==> state.session.active.input is Some
            && state.session.active.input.unwrap()@.popup is Some,
        layout is Some ==> {
            let l = layout.unwrap();
            let input = state.session.active.input.unwrap()@;
            let popup = input.popup.unwrap();
            let all = row_texts(popup, input.filter(), state.frontend.file_picker);
            &&& l.rows@.len() == l.area.height - 2
            &&& l.note ==> popup.matches.len() == 0
            &&& 0 <= popup.selected < all.len() && l.area.height > 2 ==> {
                &&& 0 <= start <= popup.selected < start + l.rows@.len()
                &&& forall|j: int|
                    #![trigger l.rows@[j]]
                    0 <= j < l.rows@.len() && start + j < all.len() ==> l.rows@[j].text@
                        == all[start + j] && (l.rows@[j].selected ==> start + j == popup.selected)
            }
        },
{
    if let Some(l) = layout {
        let input = state.session.active.input.unwrap()@;
        let popup = input.popup.unwrap();
        let all = row_texts(popup, input.filter(), state.frontend.file_picker);
        if 0 <= popup.selected < all.len() && l.area.height > 2 {
            lemma_drawn_rows(
                l.rows@,
                popup,
                input.filter(),
                state.frontend.file_picker,
                l.area.height - 2,
            )
        } else {
            0
        }
    } else {
        0
    }
}

} // verus!
