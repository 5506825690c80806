//! What is drawn of the input box: its lines, mode badge, scroll indicators
//! and cursor.

use crate::app_state::{AppState, ChatSessionState};
use crate::chat_input::autocomplete_render::{Rect, PROMPT_INDENT};
use crate::chat_input::state;
use crate::chat_input::state::{ChatInputBoxState, InputMode};
use crate::chat_input::wrap;
use crate::chat_input::wrap::WrappedLine;
use crate::focus::Mode;
use crate::text;
use crate::text::{display_width, to_decimal};
use vstd::prelude::*;

verus! {

/// The input box as an element of the screen.
#[derive(Clone, Copy, Debug, PartialEq, Eq, Structural)]
pub struct ChatInputBoxElement;

/// An element of the screen.
#[derive(Clone, Copy, Debug, PartialEq, Eq, Structural)]
pub enum UiElement {
    ChatInputBox(ChatInputBoxElement),
}

/// The elements of the screen, in the order in which they were registered.
#[derive(Debug, PartialEq, Eq)]
pub struct AppUiRegistry {
    pub elements: Vec<UiElement>,
}

impl AppUiRegistry {
    /// No elements.
    pub fn new() -> (registry: AppUiRegistry)
        ensures
            registry.elements@.len() == 0,
    {
        AppUiRegistry { elements: Vec::new() }
    }

    /// Adds an element.
    pub fn register(&mut self, element: UiElement)
        ensures
            final(self).elements@ == old(self).elements@.push(element),
    {
        self.elements.push(element);
    }
}

/// Registers the input box.
pub fn register(registry: &mut AppUiRegistry)
    ensures
        final(registry).elements@ == old(registry).elements@.push(
            UiElement::ChatInputBox(ChatInputBoxElement),
        ),
{
    registry.register(UiElement::ChatInputBox(ChatInputBoxElement));
}

/// How the prompt sign is drawn.
#[derive(Clone, Copy, Debug, PartialEq, Eq, Structural)]
pub enum PromptStyle {
    Muted,
    /// In the accent colour and bold.
    Focused,
    /// Bold.
    Unfocused,
}

/// How the border is drawn.
#[derive(Clone, Copy, Debug, PartialEq, Eq, Structural)]
pub enum BorderStyle {
    Muted,
    Focused,
    Unfocused,
}

/// The styles of the box.
#[derive(Clone, Copy, Debug, PartialEq, Eq, Structural)]
pub struct InputStyles {
    pub prompt: PromptStyle,
    pub border: BorderStyle,
    /// Whether the text is muted.
    pub muted_text: bool,
}

/// The styles: a disabled box is muted, a focused one accented.
pub open spec fn styles_of(disabled: bool, focused: bool) -> InputStyles {
    if disabled {
        InputStyles {
            prompt: PromptStyle::Muted,
            border: BorderStyle::Muted,
            muted_text: true,
        }
    } else if focused {
        InputStyles {
            prompt: PromptStyle::Focused,
            border: BorderStyle::Focused,
            muted_text: false,
        }
    } else {
        InputStyles {
            prompt: PromptStyle::Unfocused,
            border: BorderStyle::Unfocused,
            muted_text: false,
        }
    }
}

/// The styles of the box.
pub fn input_styles(disabled: bool, focused: bool) -> (styles: InputStyles)
    ensures
        styles == styles_of(disabled, focused),
{
    if disabled {
        InputStyles { prompt: PromptStyle::Muted, border: BorderStyle::Muted, muted_text: true }
    } else if focused {
        InputStyles {
            prompt: PromptStyle::Focused,
            border: BorderStyle::Focused,
            muted_text: false,
        }
    } else {
        InputStyles {
            prompt: PromptStyle::Unfocused,
            border: BorderStyle::Unfocused,
            muted_text: false,
        }
    }
}

/// The colour of a part of the mode badge.
#[derive(Clone, Copy, Debug, PartialEq, Eq, Structural)]
pub enum BadgeColor {
    Muted,
    /// The colour of the mode.
    Mode(InputMode),
    /// The colour of a hotkey.
    Accent,
}

/// The mode badge: `[`, the hotkey `Q`, and the rest.
#[derive(Debug, PartialEq, Eq)]
pub struct ModeBadge {
    /// What follows the hotkey.
    pub rest: String,
    pub word: BadgeColor,
    pub hotkey: BadgeColor,
}

/// What follows the hotkey: the mode, and how many messages wait where there
/// are some.
pub open spec fn badge_rest(mode: InputMode, waiting: nat) -> Seq<char> {
    if waiting > 0 {
        ":"@ + state::mode_label(mode) + " · "@ + text::decimal(waiting) + "]"@
    } else {
        ":"@ + state::mode_label(mode) + "]"@
    }
}

/// How many messages wait where the mode sends them.
pub open spec fn waiting_in(session: ChatSessionState, mode: InputMode) -> nat {
    match mode {
        InputMode::Queue => session.queue_len as nat,
        InputMode::Steer => session.steering_len as nat,
    }
}

/// The mode badge. It is muted while the box has no focus.
pub fn mode_badge(mode: InputMode, waiting: usize, focused: bool) -> (badge: ModeBadge)
    ensures
        badge.rest@ == badge_rest(mode, waiting as nat),
        badge.word == (if focused {
            BadgeColor::Mode(mode)
        } else {
            BadgeColor::Muted
        }),
        badge.hotkey == (if focused {
            BadgeColor::Accent
        } else {
            BadgeColor::Muted
        }),
{
    let mut rest = ":".to_owned();
    rest.append(mode.label());
    if waiting > 0 {
        rest.append(" · ");
        let count = to_decimal(waiting);
        rest.append(count.as_str());
    }
    rest.append("]");
    if focused {
        ModeBadge { rest, word: BadgeColor::Mode(mode), hotkey: BadgeColor::Accent }
    } else {
        ModeBadge { rest, word: BadgeColor::Muted, hotkey: BadgeColor::Muted }
    }
}

/// One drawn line of the box.
#[derive(Debug, PartialEq, Eq)]
pub struct InputLine {
    /// Whether the prompt sign stands before the line; it is indented
    /// otherwise.
    pub first: bool,
    pub content: String,
}

/// The number of lines that are drawn: as many as fit behind those scrolled
/// out, and the prompt line at least.
pub open spec fn drawn_lines(input: state::InputView, max_visible: int) -> int {
    let below = input.lines().len() - input.scroll_offset;
    if input.text.len() == 0 || below <= 0 || max_visible <= 0 {
        1
    } else {
        state::lesser(below, max_visible)
    }
}

/// Whether only an empty prompt line is drawn: nothing is typed, or every line
/// is out of view.
pub open spec fn only_prompt(input: state::InputView, max_visible: int) -> bool {
    input.text.len() == 0 || input.lines().len() <= input.scroll_offset || max_visible <= 0
}

/// Whether the lines are those in view.
pub open spec fn draws_lines(
    lines: Seq<InputLine>,
    input: state::InputView,
    max_visible: int,
) -> bool {
    &&& lines.len() == drawn_lines(input, max_visible)
    &&& if only_prompt(input, max_visible) {
        lines[0].first && lines[0].content@.len() == 0
    } else {
        forall|j: int|
            0 <= j < lines.len() ==> {
                let row = input.scroll_offset + j;
                &&& (#[trigger] lines[j]).first == (row == 0)
                &&& lines[j].content@ == text::cluster_text(
                    input.clusters(),
                    input.lines()[row].0,
                    input.lines()[row].1,
                )
            }
    }
}

/// The lines in view.
pub fn build_wrapped_lines(input: &ChatInputBoxState, max_visible: usize) -> (lines: Vec<InputLine>)
    ensures
        draws_lines(lines@, input@, max_visible as int),
{
    let wrapped = input.wrapped_lines();
    let scroll_offset: usize = input.scroll_offset();
    let mut lines: Vec<InputLine> = Vec::new();
    let ghost all = input@.lines();
    assert(all.len() == wrapped@.len());
    if input.is_empty() || wrapped.len() <= scroll_offset || max_visible == 0 {
        lines.push(InputLine { first: true, content: String::new() });
        return lines;
    }
    while lines.len() < max_visible && scroll_offset < wrapped.len() && lines.len() < wrapped.len()
        - scroll_offset
        invariant
            all == input@.lines(),
            all == wrap::ranges(wrapped@),
            scroll_offset == input@.scroll_offset,
            scroll_offset < wrapped@.len(),
            all.len() == wrapped@.len(),
            lines@.len() <= max_visible,
            lines@.len() <= wrapped@.len() - scroll_offset,
            forall|j: int|
                0 <= j < lines@.len() ==> {
                    let row = input@.scroll_offset + j;
                    &&& (#[trigger] lines@[j]).first == (row == 0)
                    &&& lines@[j].content@ == text::cluster_text(
                        input@.clusters(),
                        all[row].0,
                        all[row].1,
                    )
                },
        decreases wrapped@.len() - lines@.len(),
    {
        let row: usize = scroll_offset + lines.len();
        let line = wrapped[row];
        assert(all[row as int] == (line.grapheme_start as int, line.grapheme_end as int));
        let content = input.grapheme_slice(line.grapheme_start, line.grapheme_end);
        lines.push(InputLine { first: row == 0, content });
    }
    lines
}

/// How many lines are out of view below.
pub open spec fn lines_below(total: int, scroll_offset: int, max_visible: int) -> int {
    let below = total - scroll_offset - max_visible;
    if total < scroll_offset || below < 0 {
        0
    } else {
        below
    }
}

/// A label at the right edge of the box.
#[derive(Debug, PartialEq, Eq)]
pub struct Indicator {
    pub label: String,
    pub area: Rect,
}

/// A width in columns, limited to what there is.
pub open spec fn limited(width: int, otherwise: u16, limit: int) -> int {
    state::lesser(
        if width <= 0xffff {
            width
        } else {
            otherwise as int
        },
        limit,
    )
}

/// The place of a label at the right edge of the row `y`.
pub open spec fn indicator_area(label: Seq<char>, inner: Rect, y: u16) -> Rect {
    let width = limited(text::display_columns(label) as int, inner.width, inner.width as int);
    Rect { x: (inner.x + inner.width - width) as u16, y, width: width as u16, height: 1 }
}

/// Whether the rectangle lies on the screen.
pub open spec fn on_screen(area: Rect) -> bool {
    area.x + area.width <= 0xffff && area.y + area.height <= 0xffff
}

/// Places a label at the right edge of the row `y`.
fn place_indicator(label: String, inner: Rect, y: u16) -> (indicator: Indicator)
    requires
        on_screen(inner),
    ensures
        indicator.label == label,
        indicator.area == indicator_area(label@, inner, y),
{
    let width: usize = display_width(label.as_str());
    let taken: u16 = if width <= 0xffff && width as u16 <= inner.width {
        width as u16
    } else {
        inner.width
    };
    Indicator {
        label,
        area: Rect { x: inner.x + (inner.width - taken), y, width: taken, height: 1 },
    }
}

/// The label of an indicator: an arrow and a number of lines.
fn indicator_label(arrow: &str, lines: usize) -> (label: String)
    ensures
        label@ == arrow@ + text::decimal(lines as nat),
{
    let mut label = arrow.to_owned();
    let count = to_decimal(lines);
    label.append(count.as_str());
    label
}

/// The indicator of the lines out of view above, where there are some.
pub fn indicator_above(inner: Rect, scroll_offset: usize) -> (indicator: Option<Indicator>)
    requires
        on_screen(inner),
    ensures
        match indicator {
            Some(i) => scroll_offset > 0 && i.label@ == "↑ "@ + text::decimal(
                scroll_offset as nat,
            ) && i.area == indicator_area(i.label@, inner, inner.y),
            None => scroll_offset == 0,
        },
{
    if scroll_offset == 0 {
        return None;
    }
    let label = indicator_label("↑ ", scroll_offset);
    Some(place_indicator(label, inner, inner.y))
}

/// The bottom row of a rectangle.
pub open spec fn bottom_row(inner: Rect) -> u16 {
    if inner.height == 0 {
        inner.y
    } else {
        (inner.y + inner.height - 1) as u16
    }
}

/// The indicator of the lines out of view below, where there are some.
pub fn indicator_below(inner: Rect, total: usize, scroll_offset: usize, max_visible: usize) -> (
indicator: Option<Indicator>)
    requires
        on_screen(inner),
    ensures
        ({
            let below = lines_below(total as int, scroll_offset as int, max_visible as int);
            match indicator {
                Some(i) => below > 0 && i.label@ == "↓ "@ + text::decimal(below as nat) && i.area
                    == indicator_area(i.label@, inner, bottom_row(inner)),
                None => below == 0,
            }
        }),
{
    if total < scroll_offset || total - scroll_offset <= max_visible {
        return None;
    }
    let label = indicator_label("↓ ", total - scroll_offset - max_visible);
    let y: u16 = if inner.height == 0 {
        inner.y
    } else {
        inner.y + (inner.height - 1)
    };
    Some(place_indicator(label, inner, y))
}

/// The place of the mode badge: under the text, on the bottom border.
pub open spec fn badge_area(area: Rect, badge: ModeBadge) -> Rect {
    let width = text::display_columns("["@) + text::display_columns("Q"@) + text::display_columns(
        badge.rest@,
    );
    let limit = if area.width >= 2 {
        area.width - 2
    } else {
        0
    };
    Rect {
        x: (area.x + PROMPT_INDENT) as u16,
        y: (if area.y + area.height > 0 {
            area.y + area.height - 1
        } else {
            0
        }) as u16,
        width: limited(width, area.width, limit) as u16,
        height: 1,
    }
}

/// The place of the mode badge.
pub fn place_badge(area: Rect, badge: &ModeBadge) -> (place: Rect)
    requires
        on_screen(area),
        area.x <= 0xffff - PROMPT_INDENT,
    ensures
        place == badge_area(area, *badge),
{
    let width: usize = display_width("[").saturating_add(display_width("Q")).saturating_add(
        display_width(badge.rest.as_str()),
    );
    let limit: u16 = if area.width >= 2 {
        area.width - 2
    } else {
        0
    };
    let wanted: u16 = if width <= 0xffff {
        width as u16
    } else {
        area.width
    };
    let taken: u16 = if wanted <= limit {
        wanted
    } else {
        limit
    };
    let bottom: u16 = area.y + area.height;
    let y: u16 = if bottom > 0 {
        bottom - 1
    } else {
        0
    };
    Rect { x: area.x + PROMPT_INDENT, y, width: taken, height: 1 }
}

/// The terminal column of the cursor in its line.
pub open spec fn cursor_column(input: state::InputView) -> int {
    let start = input.lines()[input.row_at(input.cursor)].0;
    if start >= input.cursor {
        0
    } else {
        text::display_columns(text::cluster_text(input.clusters(), start, input.cursor)) as int
    }
}

/// The terminal column of a position that is `col` clusters into its line.
fn compute_display_col(
    input: &ChatInputBoxState,
    lines: &Vec<WrappedLine>,
    row: usize,
    col: usize,
) -> (column: usize)
    requires
        wrap::ranges(lines@) == input@.lines(),
        row < lines@.len(),
        row == input@.row_at(input@.cursor),
        col == input@.cursor - input@.lines()[row as int].0,
    ensures
        column == cursor_column(input@),
{
    let start: usize = lines[row].grapheme_start;
    assert(input@.lines()[row as int].0 == start);
    let end: usize = input.cursor_pos();
    if start >= end {
        return 0;
    }
    let before = input.grapheme_slice(start, end);
    display_width(before.as_str())
}

/// Whether the cursor's place fits the screen's coordinates.
pub open spec fn placeable(inner: Rect, visual_row: int, column: int) -> bool {
    &&& column <= usize::MAX - PROMPT_INDENT
    &&& inner.x + (PROMPT_INDENT + column) % 0x10000 <= 0xffff
    &&& inner.y + visual_row % 0x10000 <= 0xffff
}

/// The cursor's place on the screen.
pub open spec fn cursor_place(inner: Rect, visual_row: int, column: int) -> (u16, u16) {
    (
        (inner.x + (PROMPT_INDENT + column) % 0x10000) as u16,
        (inner.y + visual_row % 0x10000) as u16,
    )
}

/// The line of the cursor among those in view.
pub open spec fn visual_row(input: state::InputView) -> int {
    let row = input.row_at(input.cursor) - input.scroll_offset;
    if row < 0 {
        0
    } else {
        row
    }
}

/// The cursor's place on the screen, where it fits the screen's coordinates.
pub fn place_cursor(inner: Rect, input: &ChatInputBoxState) -> (place: Option<(u16, u16)>)
    ensures
        match place {
            Some(p) => placeable(inner, visual_row(input@), cursor_column(input@)) && p
                == cursor_place(inner, visual_row(input@), cursor_column(input@)),
            None => !placeable(inner, visual_row(input@), cursor_column(input@)),
        },
{
    let (row, col): (usize, usize) = input.cursor_row_col();
    let lines = input.wrapped_lines();
    assert(lines@.len() == input@.lines().len());
    proof {
        wrap::lemma_lines_from(input@.clusters(), 0, input@.wrap_width);
        state::lemma_row_of(input@.lines(), input@.lines().len() as int, input@.cursor);
    }
    let column: usize = compute_display_col(input, &lines, row, col);
    let scroll_offset: usize = input.scroll_offset();
    let down: usize = if row >= scroll_offset {
        row - scroll_offset
    } else {
        0
    };
    assert(down == visual_row(input@));
    if column > usize::MAX - PROMPT_INDENT as usize {
        return None;
    }
    let right: u16 = ((column + PROMPT_INDENT as usize) % 0x10000) as u16;
    let below: u16 = (down % 0x10000) as u16;
    if right > 0xffff - inner.x || below > 0xffff - inner.y {
        return None;
    }
    Some((inner.x + right, inner.y + below))
}

/// Everything that is drawn of the box.
#[derive(Debug, PartialEq, Eq)]
pub struct InputDrawing {
    pub styles: InputStyles,
    pub lines: Vec<InputLine>,
    pub badge: ModeBadge,
    pub badge_area: Rect,
    pub above: Option<Indicator>,
    pub below: Option<Indicator>,
    /// The cursor, while the box has the keys.
    pub cursor: Option<(u16, u16)>,
}

/// The box without its bottom border.
pub open spec fn inside(area: Rect) -> Rect {
    Rect {
        height: (if area.height == 0 {
            0
        } else {
            area.height - 1
        }) as u16,
        ..area
    }
}

/// Whether the drawing shows the box.
pub open spec fn shows(
    drawing: InputDrawing,
    input: state::InputView,
    waiting: nat,
    focused: bool,
    area: Rect,
) -> bool {
    let inner = inside(area);
    let below = lines_below(
        input.lines().len() as int,
        input.scroll_offset,
        inner.height as int,
    );
    &&& drawing.styles == styles_of(input.disabled, focused)
    &&& draws_lines(drawing.lines@, input, inner.height as int)
    &&& drawing.badge.rest@ == badge_rest(input.mode, waiting)
    &&& drawing.badge.word == if focused {
        BadgeColor::Mode(input.mode)
    } else {
        BadgeColor::Muted
    }
    &&& drawing.badge.hotkey == if focused {
        BadgeColor::Accent
    } else {
        BadgeColor::Muted
    }
    &&& drawing.badge_area == badge_area(area, drawing.badge)
    &&& match drawing.above {
        Some(i) => input.scroll_offset > 0 && i.label@ == "↑ "@ + text::decimal(
            input.scroll_offset as nat,
        ) && i.area == indicator_area(i.label@, inner, inner.y),
        None => input.scroll_offset == 0,
    }
    &&& match drawing.below {
        Some(i) => below > 0 && i.label@ == "↓ "@ + text::decimal(below as nat) && i.area
            == indicator_area(i.label@, inner, bottom_row(inner)),
        None => below == 0,
    }
    &&& drawing.cursor == if focused && placeable(
        inner,
        visual_row(input),
        cursor_column(input),
    ) {
        Some(cursor_place(inner, visual_row(input), cursor_column(input)))
    } else {
        None
    }
}

impl ChatInputBoxElement {
    /// The element's name.
    pub fn name(&self) -> (name: &'static str)
        ensures
            name@ == "chat-input-box"@,
    {
        "chat-input-box"
    }

    /// Lays out the active session's input box in the area. A session without
    /// an input box has nothing to lay out.
    pub fn render(&self, area: Rect, state: &AppState) -> (drawing: Option<InputDrawing>)
        requires
            on_screen(area),
            area.x <= 0xffff - PROMPT_INDENT,
        ensures
            match drawing {
                Some(d) => state.session.active.input matches Some(input) && shows(
                    d,
                    input@,
                    waiting_in(state.session.active, input@.mode),
                    state.frontend.focus().key_mode() == Mode::Input,
                    area,
                ),
                None => state.session.active.input is None,
            },
    {
        let focused = state.frontend.scope().mode() == Mode::Input;
        let input = match &state.session.active.input {
            Some(input) => input,
            None => {
                return None;
            },
        };
        let mode = input.input_mode();
        let waiting: usize = match mode {
            InputMode::Queue => state.session.active.queue_len,
            InputMode::Steer => state.session.active.steering_len,
        };
        let badge = mode_badge(mode, waiting, focused);
        let inner = Rect {
            x: area.x,
            y: area.y,
            width: area.width,
            height: if area.height == 0 {
                0
            } else {
                area.height - 1
            },
        };
        let max_visible: usize = inner.height as usize;
        let scroll_offset: usize = input.scroll_offset();
        let total: usize = input.wrapped_lines().len();
        assert(total == input@.lines().len());
        let badge_place = place_badge(area, &badge);
        Some(
            InputDrawing {
                styles: input_styles(input.disabled(), focused),
                lines: build_wrapped_lines(input, max_visible),
                badge,
                badge_area: badge_place,
                above: indicator_above(inner, scroll_offset),
                below: indicator_below(inner, total, scroll_offset, max_visible),
                cursor: if focused {
                    place_cursor(inner, input)
                } else {
                    None
                },
            },
        )
    }
}

/// The text in view: from the first line that is not scrolled out, as many
/// lines as there is room for above the border. The prompt sign stands before
/// the first line of the buffer alone. An empty box shows the sign alone.
pub proof fn lemma_lines_in_view(
    drawing: InputDrawing,
    input: state::InputView,
    waiting: nat,
    focused: bool,
    area: Rect,
)
    requires
        shows(drawing, input, waiting, focused, area),
        0 <= input.scroll_offset,
    ensures
        ({
            let room = if area.height == 0 {
                0
            } else {
                area.height - 1
            };
            let left = input.lines().len() - input.scroll_offset;
            &&& input.text.len() == 0 ==> drawing.lines@.len() == 1 && drawing.lines@[0].first
                && drawing.lines@[0].content@.len() == 0
            &&& input.text.len() > 0 && left > 0 && room > 0 ==> {
                &&& drawing.lines@.len() == if left <= room {
                    left
                } else {
                    room
                }
                &&& forall|j: int|
                    #![trigger drawing.lines@[j]]
                    0 <= j < drawing.lines@.len() ==> {
                        let (start, end) = input.lines()[input.scroll_offset + j];
                        &&& drawing.lines@[j].first <==> input.scroll_offset + j == 0
                        &&& 0 <= start <= end <= input.clusters().len()
                            ==> drawing.lines@[j].content@ == input.clusters().subrange(
                            start,
                            end,
                        ).flatten()
                    }
            }
        }),
{
}

/// The labels at the right edge count the lines out of view: above in the top
/// row, below in the last row inside the border, and none where nothing is
/// hidden.
pub proof fn lemma_hidden_lines_are_counted(
    drawing: InputDrawing,
    input: state::InputView,
    waiting: nat,
    focused: bool,
    area: Rect,
)
    requires
        shows(drawing, input, waiting, focused, area),
        on_screen(area),
        0 <= input.scroll_offset <= input.lines().len(),
        area.height >= 2,
    ensures
        ({
            let hidden = input.lines().len() - input.scroll_offset - (area.height - 1);
            &&& drawing.above is Some <==> input.scroll_offset > 0
            &&& drawing.above matches Some(i) ==> i.label@ == "↑ "@ + text::decimal(
                input.scroll_offset as nat,
            ) && i.area.y == area.y && i.area.x + i.area.width == area.x + area.width
            &&& drawing.below is Some <==> hidden > 0
            &&& drawing.below matches Some(i) ==> i.label@ == "↓ "@ + text::decimal(hidden as nat)
                && i.area.y == area.y + area.height - 2 && i.area.x + i.area.width == area.x
                + area.width
        }),
{
}

/// The badge names the mode and, where messages wait, how many; it stands on
/// the bottom border behind the indent. A disabled box is drawn muted, a
/// focused one in its colours, and the cursor shows in a focused box alone.
pub proof fn lemma_badge_and_styles(
    drawing: InputDrawing,
    input: state::InputView,
    waiting: nat,
    focused: bool,
    area: Rect,
)
    requires
        shows(drawing, input, waiting, focused, area),
        on_screen(area),
        area.x <= 0xffff - 2,
        area.height >= 1,
    ensures
        ({
            let label = match input.mode {
                InputMode::Queue => "QUEUE"@,
                InputMode::Steer => "STEER"@,
            };
            &&& drawing.badge.rest@ == if waiting == 0 {
                ":"@ + label + "]"@
            } else {
                ":"@ + label + " · "@ + text::decimal(waiting) + "]"@
            }
            &&& focused ==> drawing.badge.word == BadgeColor::Mode(input.mode)
                && drawing.badge.hotkey == BadgeColor::Accent
            &&& !focused ==> drawing.badge.word == BadgeColor::Muted && drawing.badge.hotkey
                == BadgeColor::Muted && drawing.cursor is None
            &&& drawing.badge_area.x == area.x + 2
            &&& drawing.badge_area.y == area.y + area.height - 1
            &&& drawing.badge_area.height == 1
            &&& area.width >= 2 ==> drawing.badge_area.width <= area.width - 2
            &&& input.disabled ==> drawing.styles.muted_text && drawing.styles.prompt
                == PromptStyle::Muted && drawing.styles.border == BorderStyle::Muted
            &&& !input.disabled ==> !drawing.styles.muted_text
            &&& !input.disabled && focused ==> drawing.styles.prompt == PromptStyle::Focused
                && drawing.styles.border == BorderStyle::Focused
            &&& !input.disabled && !focused ==> drawing.styles.prompt == PromptStyle::Unfocused
                && drawing.styles.border == BorderStyle::Unfocused
        }),
{
}

/// The cursor of a focused box stands in the line that holds it, as far right
/// as the text before it in that line is wide, behind the indent.
pub proof fn lemma_cursor_follows_the_text(
    drawing: InputDrawing,
    input: state::InputView,
    waiting: nat,
    area: Rect,
)
    requires
        shows(drawing, input, waiting, true, area),
        0 <= input.cursor <= input.clusters().len(),
        0 <= input.scroll_offset <= input.row_at(input.cursor),
        0 <= input.lines()[input.row_at(input.cursor)].0 <= input.cursor,
        ({
            let start = input.lines()[input.row_at(input.cursor)].0;
            let before = input.clusters().subrange(start, input.cursor).flatten();
            &&& start < input.cursor
            &&& area.x + 2 + text::display_columns(before) <= 0xffff
            &&& area.y + input.row_at(input.cursor) <= 0xffff
        }),
    ensures
        ({
            let row = input.row_at(input.cursor);
            let start = input.lines()[row].0;
            let before = input.clusters().subrange(start, input.cursor).flatten();
            drawing.cursor matches Some((x, y)) && x == area.x + 2 + text::display_columns(before)
                && y == area.y + row - input.scroll_offset
        }),
{
}

/// The badge counts the queue in queue mode and the steering buffer in steering
/// mode.
pub proof fn lemma_waiting(session: ChatSessionState)
    ensures
        waiting_in(session, InputMode::Queue) == session.queue_len,
        waiting_in(session, InputMode::Steer) == session.steering_len,
{
}

/// The box of the active session is drawn with its text from the scrolled line
/// on, as many lines as fit; the badge tells the mode and how many messages
/// wait; and the cursor is drawn only where the box has the keys.
pub proof fn lemma_rendered_box(
    element: &ChatInputBoxElement,
    area: Rect,
    state: &AppState,
    drawing: Option<InputDrawing>,
)
    requires
        call_ensures(ChatInputBoxElement::render, (element, area, state), drawing),
        on_screen(area),
        area.x <= 0xffff - 2,
        area.height >= 2,
    ensures
        state.session.active.input is None ==> drawing is None,
        state.session.active.input matches Some(input) ==> {
            let session = state.session.active;
            let view = input@;
            let drawn = drawing.unwrap();
            let focused = state.frontend.overlays@.len() > 0 && state.frontend.overlays@.last()
                == crate::focus::FocusScope::Input;
            let room = area.height - 1;
            let left = view.lines().len() - view.scroll_offset;
            let waiting = match view.mode {
                InputMode::Queue => session.queue_len,
                InputMode::Steer => session.steering_len,
            };
            let label = match view.mode {
                InputMode::Queue => "QUEUE"@,
                InputMode::Steer => "STEER"@,
            };
            &&& drawing is Some
            &&& view.text.len() > 0 && left > 0 ==> drawn.lines@.len() == if left <= room {
                left
            } else {
                room
            }
            &&& view.text.len() == 0 ==> drawn.lines@.len() == 1
            &&& waiting == 0 ==> drawn.badge.rest@ == ":"@ + label + "]"@
            &&& waiting > 0 ==> drawn.badge.rest@ == ":"@ + label + " · "@ + text::decimal(
                waiting as nat,
            ) + "]"@
            &&& !focused ==> drawn.cursor is None && drawn.badge.word == BadgeColor::Muted
            &&& focused ==> drawn.badge.word == BadgeColor::Mode(view.mode)
            &&& drawn.above is Some <==> view.scroll_offset > 0
            &&& view.scroll_offset <= view.lines().len() ==> (drawn.below is Some <==> left > room)
            &&& drawn.styles.muted_text <==> view.disabled
        },
{
    if let Some(input) = state.session.active.input {
        let view = input@;
        let session = state.session.active;
        let waiting = waiting_in(session, view.mode);
        let focused = state.frontend.focus().key_mode() == Mode::Input;
        let drawn = drawing.unwrap();
        state::lemma_positions_count_from_zero(input);
        lemma_waiting(session);
        lemma_lines_in_view(drawn, view, waiting, focused, area);
        lemma_badge_and_styles(drawn, view, waiting, focused, area);
        if view.scroll_offset <= view.lines().len() {
            lemma_hidden_lines_are_counted(drawn, view, waiting, focused, area);
        }
    }
}

} // verus!
