use jinn_domain::app_state::AppState;
use jinn_domain::chat_entry::SessionId;
use jinn_domain::chat_input::autocomplete_render::Rect;
use jinn_domain::chat_input::element::{
    BadgeColor, BorderStyle, InputDrawing, InputLine, PromptStyle, UiElement,
};
use jinn_domain::chat_input::wrap::{wrap_text, WrappedLine};
use jinn_domain::chat_input::{register, AppUiRegistry, ChatInputBoxElement, ChatInputBoxState};
use jinn_domain::focus::FocusScope;

const AREA: Rect = Rect {
    x: 0,
    y: 20,
    width: 40,
    height: 4,
};

fn new_state() -> AppState {
    AppState::new(SessionId::new(), "/home/u".to_owned())
}

fn input(state: &mut AppState) -> &mut ChatInputBoxState {
    state.session.active.input.as_mut().expect("input box")
}

fn draw(state: &AppState) -> InputDrawing {
    ChatInputBoxElement.render(AREA, state).expect("drawing")
}

fn line(first: bool, content: &str) -> InputLine {
    InputLine {
        first,
        content: content.to_owned(),
    }
}

#[test]
fn register_adds_element_to_registry() {
    // Given an empty registry.
    let mut registry = AppUiRegistry::new();

    // When registering the chat input box.
    register(&mut registry);

    // Then the registry contains one element named "chat-input-box".
    assert_eq!(registry.elements.len(), 1);
    let UiElement::ChatInputBox(element) = registry.elements[0];
    assert_eq!(element.name(), "chat-input-box");
}

#[test]
fn an_empty_box_shows_the_prompt() {
    let drawing = draw(&new_state());
    assert_eq!(drawing.lines, vec![line(true, "")]);
    assert_eq!(drawing.badge.rest, ":QUEUE]");
    assert_eq!(drawing.badge.word, BadgeColor::Muted);
    assert_eq!(drawing.styles.border, BorderStyle::Unfocused);
    assert_eq!(drawing.styles.prompt, PromptStyle::Unfocused);
    // "[Q:QUEUE]" on the bottom border, behind the indent.
    assert_eq!(
        drawing.badge_area,
        Rect {
            x: 2,
            y: 23,
            width: 9,
            height: 1
        }
    );
    assert_eq!(drawing.cursor, None);
    assert_eq!(drawing.above, None);
    assert_eq!(drawing.below, None);
}

#[test]
fn a_focused_box_is_accented_and_has_the_cursor() {
    let mut state = new_state();
    state.frontend.scope_push(FocusScope::Input);
    state.session.active.queue_len = 12;
    input(&mut state).insert_text("漢字a");
    let drawing = draw(&state);
    assert_eq!(drawing.lines, vec![line(true, "漢字a")]);
    assert_eq!(drawing.badge.rest, ":QUEUE · 12]");
    assert_eq!(drawing.badge.hotkey, BadgeColor::Accent);
    assert_eq!(drawing.styles.prompt, PromptStyle::Focused);
    // Two wide characters, one narrow one, and the indent.
    assert_eq!(drawing.cursor, Some((7, 20)));
}

#[test]
fn a_steering_box_counts_its_own_messages() {
    let mut state = new_state();
    state.session.active.queue_len = 3;
    state.session.active.steering_len = 1;
    input(&mut state).toggle_input_mode();
    assert_eq!(draw(&state).badge.rest, ":STEER · 1]");
}

#[test]
fn a_disabled_box_is_muted() {
    let mut state = new_state();
    state.frontend.scope_push(FocusScope::Input);
    input(&mut state).set_disabled(true);
    let drawing = draw(&state);
    assert_eq!(drawing.styles.prompt, PromptStyle::Muted);
    assert_eq!(drawing.styles.border, BorderStyle::Muted);
    assert!(drawing.styles.muted_text);
}

#[test]
fn lines_out_of_view_are_counted() {
    let mut state = new_state();
    state.frontend.scope_push(FocusScope::Input);
    input(&mut state).insert_text("a\nb\nc\nd\ne\nf");
    input(&mut state).set_scroll_offset(1);
    let drawing = draw(&state);
    assert_eq!(
        drawing.lines,
        vec![line(false, "b"), line(false, "c"), line(false, "d")]
    );
    let above = drawing.above.expect("above");
    assert_eq!(above.label, "↑ 1");
    assert_eq!(
        above.area,
        Rect {
            x: 37,
            y: 20,
            width: 3,
            height: 1
        }
    );
    let below = drawing.below.expect("below");
    assert_eq!(below.label, "↓ 2");
    assert_eq!(below.area.y, 22);
}

#[test]
fn a_scroll_offset_behind_the_text_leaves_the_prompt() {
    let mut state = new_state();
    input(&mut state).insert_text("a");
    input(&mut state).set_scroll_offset(7);
    let drawing = draw(&state);
    assert_eq!(drawing.lines, vec![line(true, "")]);
    assert_eq!(drawing.below, None);
}

#[test]
fn a_session_without_a_box_draws_nothing() {
    let mut state = new_state();
    state.session.active.input = None;
    assert!(ChatInputBoxElement.render(AREA, &state).is_none());
}

fn wrapped(text: &str, width: usize) -> Vec<(usize, usize)> {
    wrap_text(text, width)
        .into_iter()
        .map(
            |WrappedLine {
                 grapheme_start,
                 grapheme_end,
             }| (grapheme_start, grapheme_end),
        )
        .collect()
}

#[test]
fn lines_break_behind_white_space() {
    assert_eq!(wrapped("", 10), vec![(0, 0)]);
    assert_eq!(wrapped("hello world", 7), vec![(0, 6), (6, 11)]);
    assert_eq!(wrapped("abcdefgh", 3), vec![(0, 3), (3, 6), (6, 8)]);
    assert_eq!(wrapped("a\n\nb", 10), vec![(0, 1), (2, 2), (3, 4)]);
    // A wide character takes two columns.
    assert_eq!(wrapped("漢字漢", 4), vec![(0, 2), (2, 3)]);
    // One that never fits stands alone.
    assert_eq!(wrapped("漢a", 1), vec![(0, 1), (1, 2)]);
}

#[test]
fn the_cursor_moves_through_wrapped_lines() {
    let mut box_state = ChatInputBoxState::new();
    box_state.insert_text("hello world");
    box_state.set_wrap_width(7);
    assert_eq!(box_state.cursor_row_col(), (1, 5));
    box_state.move_cursor_up();
    assert_eq!(box_state.cursor_row_col(), (0, 5));
    box_state.move_cursor_down();
    assert_eq!(box_state.cursor_row_col(), (1, 5));
    assert_eq!(box_state.wrapped_lines().len(), 2);
}
