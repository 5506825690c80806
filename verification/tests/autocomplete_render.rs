use jinn_domain::app_state::AppState;
use jinn_domain::chat_entry::SessionId;
use jinn_domain::chat_input::autocomplete_render::{
    place_popup, render_autocomplete_popup, scroll_window, PopupLayout, Rect,
    AUTOCOMPLETE_MAX_VISIBLE, AUTOCOMPLETE_MIN_WIDTH,
};
use jinn_domain::chat_input::intent::handle_insert_char;
use jinn_domain::chat_input::{AutocompleteMatch, AutocompleteTrigger, ChatInputBoxState};
use jinn_domain::file_lister::file_picker_state::{FileEntry, FilePickerState};

fn new_state() -> AppState {
    AppState::new(SessionId::new(), "/home/u".to_owned())
}

fn input(state: &mut AppState) -> &mut ChatInputBoxState {
    state.session.active.input.as_mut().expect("input box")
}

/// The widest that a popup gets on a terminal of this width.
fn width_cap(term_width: u16) -> u16 {
    (f32::from(term_width) * 0.60).ceil() as u16
}

/// The input box at the bottom of a terminal of 80 by 24 cells.
const INPUT_AREA: Rect = Rect {
    x: 0,
    y: 20,
    width: 80,
    height: 4,
};

fn layout(state: &AppState) -> PopupLayout {
    render_autocomplete_popup(INPUT_AREA, 80, width_cap(80), state).expect("popup")
}

/// The text of all drawn rows.
fn rendered(state: &AppState) -> String {
    let layout = layout(state);
    let rows: Vec<&str> = layout.rows.iter().map(|row| row.text.as_str()).collect();
    rows.join("\n")
}

#[test]
fn render_at_popup_shows_directory_entry_with_trailing_slash() {
    // Given an active @ popup seeded with a directory entry.
    let mut state = new_state();
    let _ = handle_insert_char('@', &mut state);
    state.frontend.file_picker = FilePickerState::with_entries(vec![
        FileEntry {
            name: "src".into(),
            is_dir: true,
        },
        FileEntry {
            name: "img.png".into(),
            is_dir: false,
        },
    ]);

    // When rendering.
    let rendered = rendered(&state);

    // Then the directory entry shows a trailing slash and the file does not.
    assert!(
        rendered.contains("src/"),
        "dir entry should have trailing slash"
    );
    assert!(
        rendered.contains("img.png"),
        "file entry should render plain"
    );
}

#[test]
fn render_at_popup_shows_loading_state() {
    // Given an active @ popup with a listing in flight.
    let mut state = new_state();
    let _ = handle_insert_char('@', &mut state);
    state.frontend.file_picker = FilePickerState {
        loading: true,
        ..FilePickerState::new()
    };

    // When rendering.
    let rendered = rendered(&state);

    // Then the loading placeholder is shown.
    assert!(
        rendered.contains("loading"),
        "loading state should be rendered"
    );
}

#[test]
fn render_at_popup_shows_empty_state() {
    // Given an active @ popup with an empty listing (not loading).
    let mut state = new_state();
    let _ = handle_insert_char('@', &mut state);
    state.frontend.file_picker = FilePickerState::new(); // empty, not loading

    // When rendering.
    let rendered = rendered(&state);

    // Then the empty placeholder is shown.
    assert!(rendered.contains("empty"), "empty state should be rendered");
}

#[test]
fn render_at_popup_narrows_rows_by_typed_prefix() {
    // Given an active @ popup with several entries and a typed filter 'sr'.
    let mut state = new_state();
    let _ = handle_insert_char('@', &mut state);
    // Type 'sr' so the last path segment (the filename being typed) is 'sr'.
    let _ = handle_insert_char('s', &mut state);
    let _ = handle_insert_char('r', &mut state);
    state.frontend.file_picker = FilePickerState::with_entries(vec![
        FileEntry {
            name: "src".into(),
            is_dir: true,
        },
        FileEntry {
            name: "srv".into(),
            is_dir: true,
        },
        FileEntry {
            name: "static".into(),
            is_dir: true,
        },
        FileEntry {
            name: "img.png".into(),
            is_dir: false,
        },
    ]);

    // When rendering.
    let rendered = rendered(&state);

    // Then only entries starting with 'sr' are shown.
    assert!(rendered.contains("src/"), "src/ should match prefix 'sr'");
    assert!(rendered.contains("srv/"), "srv/ should match prefix 'sr'");
    assert!(
        !rendered.contains("static"),
        "static should be filtered out by prefix 'sr'"
    );
    assert!(
        !rendered.contains("img.png"),
        "img.png should be filtered out by prefix 'sr'"
    );
}

#[test]
fn render_at_popup_shows_empty_when_no_prefix_match() {
    // Given an active @ popup whose entries don't match the typed filter.
    let mut state = new_state();
    let _ = handle_insert_char('@', &mut state);
    // Type 'zzz' which matches nothing.
    for ch in "zzz".chars() {
        let _ = handle_insert_char(ch, &mut state);
    }
    state.frontend.file_picker = FilePickerState::with_entries(vec![FileEntry {
        name: "src".into(),
        is_dir: true,
    }]);

    // When rendering.
    let rendered = rendered(&state);

    // Then the empty placeholder is shown (distinct from a directory that is
    // actually empty — here the directory has entries but none match).
    assert!(
        rendered.contains("empty"),
        "filtered-out entries should render as <empty>"
    );
}

#[test]
fn hash_popup_horizontal_anchor_follows_wrapped_trigger_col() {
    // Given a # popup whose trigger sits on a wrapped continuation line,
    // far from the terminal's right edge.
    let mut state = new_state();
    input(&mut state).set_wrap_width(5);
    input(&mut state).insert_text("aaaa bbbb#");
    input(&mut state).activate_autocomplete(
            9,
            AutocompleteTrigger::Hash,
            vec![AutocompleteMatch {
                name: "tmpl".into(),
                description: String::new(),
            }],
        );

    // When rendering.
    let rect = layout(&state).area;

    // Then the popup's left edge sits near the trigger's wrapped column
    // (prompt_indent 2 + display_col 4 = 6), not clamped to the right edge.
    assert_eq!(
        rect.x, 6,
        "popup left edge should follow the wrapped trigger column"
    );
    assert!(
        rect.x < 70,
        "popup should not be clamped to the terminal's right edge"
    );
}

#[test]
fn hash_popup_sits_above_trigger_visual_line_not_input_top() {
    // Given a # popup whose trigger sits on the second wrapped visual line.
    let mut state = new_state();
    input(&mut state).set_wrap_width(5);
    input(&mut state).insert_text("aaaa bbbb#");
    input(&mut state).activate_autocomplete(
            9,
            AutocompleteTrigger::Hash,
            vec![AutocompleteMatch {
                name: "tmpl".into(),
                description: String::new(),
            }],
        );

    // When rendering (input_area.y=20, trigger on visual row 1 → on-screen y=21).
    let rect = layout(&state).area;

    // Then the popup floats with the trigger: popup bottom (y + height) sits
    // one row above the trigger's on-screen visual line (y=21).
    assert_eq!(
        rect.y + rect.height,
        21,
        "popup bottom should sit one row above the trigger visual line"
    );
}

#[test]
fn hash_popup_follows_cursor_down_through_wrapped_lines() {
    // Given a # popup whose trigger sits on the THIRD wrapped visual line,
    // so the input-box-top anchor (y=20) and the cursor-line anchor diverge.
    let mut state = new_state();
    input(&mut state).set_wrap_width(5);
    // "aaaa aaaa a#" at width 5 → row0 "aaaa ", row1 "aaaa ", row2 "a#".
    input(&mut state).insert_text("aaaa aaaa a#");
    input(&mut state).activate_autocomplete(
            11,
            AutocompleteTrigger::Hash,
            vec![AutocompleteMatch {
                name: "tmpl".into(),
                description: String::new(),
            }],
        );

    // When rendering.
    let rect = layout(&state).area;

    // Then the popup floats with the trigger on visual row 2 (on-screen y=22),
    // not pinned to the input-box top (y=20). Popup height 3.
    assert_eq!(
        rect.y + rect.height,
        22,
        "popup bottom should follow the trigger down to row 2, not the input top"
    );
}

#[test]
fn at_popup_uses_cursor_anchored_vertical_positioning() {
    // Given an @ popup whose trigger sits on a wrapped continuation line,
    // seeded with file-picker entries.
    let mut state = new_state();
    input(&mut state).set_wrap_width(5);
    // "aaaa bbbb@" → row0 "aaaa ", row1 "bbb@"? Use a clean wrap:
    // "aaaa aaaa @" at width 5 → row0 "aaaa ", row1 "aaaa ", row2 "@".
    input(&mut state).insert_text("aaaa aaaa @");
    input(&mut state).activate_autocomplete(11, AutocompleteTrigger::At, vec![]);
    state.frontend.file_picker = FilePickerState::with_entries(vec![FileEntry {
        name: "src".into(),
        is_dir: true,
    }]);

    // When rendering (the @ trigger is on visual row 2 → on-screen y=22).
    let rect = layout(&state).area;

    // Then the @ popup floats with the trigger on row 2 (on-screen y=22),
    // not pinned to the input-box top.
    assert_eq!(
        rect.y + rect.height,
        22,
        "@ popup bottom should follow the trigger down to row 2"
    );
}
#[test]
fn at_popup_horizontal_anchor_follows_wrapped_trigger_col() {
    // Given an @ popup whose trigger sits on a wrapped continuation line,
    // far from the terminal's right edge.
    let mut state = new_state();
    input(&mut state).set_wrap_width(5);
    // "aaaa bbbb@" at width 5 → row0 "aaaa ", row1 "bbbb@" with @ at
    // display col 4 on the wrapped continuation line.
    input(&mut state).insert_text("aaaa bbbb@");
    input(&mut state).activate_autocomplete(9, AutocompleteTrigger::At, vec![]);
    state.frontend.file_picker = FilePickerState::with_entries(vec![FileEntry {
        name: "src".into(),
        is_dir: true,
    }]);

    // When rendering.
    let rect = layout(&state).area;

    // Then the popup's left edge sits near the trigger's wrapped column
    // (prompt_indent 2 + display_col 4 = 6), not clamped to the right edge.
    assert_eq!(
        rect.x, 6,
        "@ popup left edge should follow the wrapped trigger column"
    );
    assert!(
        rect.x < 70,
        "@ popup should not be clamped to the terminal's right edge"
    );
}

#[test]
fn at_popup_keeps_selected_entry_visible_when_scrolled() {
    // Given an @ popup with 30 entries and the selection moved well past
    // the popup's inner height (18 rows on an 80x24 backend).
    let mut state = new_state();
    let _ = handle_insert_char('@', &mut state);
    let entries: Vec<FileEntry> = (0..30)
        .map(|i| FileEntry {
            name: format!("e{i:02}"),
            is_dir: false,
        })
        .collect();
    state.frontend.file_picker = FilePickerState::with_entries(entries);
    for _ in 0..20 {
        input(&mut state).autocomplete_move_down_bounded(30);
    }

    // When rendering.
    let rendered = rendered(&state);

    // Then the selected entry (index 20, "e20") is visible.
    assert!(
        rendered.contains("e20"),
        "selected entry should stay visible after scrolling past the bottom"
    );
}

#[test]
fn at_popup_drops_top_entry_when_selection_scrolls_past() {
    // Given an @ popup with 30 entries and the selection scrolled to index 20.
    let mut state = new_state();
    let _ = handle_insert_char('@', &mut state);
    let entries: Vec<FileEntry> = (0..30)
        .map(|i| FileEntry {
            name: format!("e{i:02}"),
            is_dir: false,
        })
        .collect();
    state.frontend.file_picker = FilePickerState::with_entries(entries);
    for _ in 0..20 {
        input(&mut state).autocomplete_move_down_bounded(30);
    }

    // When rendering.
    let rendered = rendered(&state);

    // Then the top entry (index 0, "e00") is NOT rendered (window scrolled, not
    // clipped-everything).
    assert!(
        !rendered.contains("e00"),
        "top entry should be scrolled out of view once the window advances"
    );
}

#[test]
fn at_popup_shows_top_entry_when_selection_at_zero() {
    // Given an @ popup with 30 entries and the selection at index 0.
    let mut state = new_state();
    let _ = handle_insert_char('@', &mut state);
    let entries: Vec<FileEntry> = (0..30)
        .map(|i| FileEntry {
            name: format!("e{i:02}"),
            is_dir: false,
        })
        .collect();
    state.frontend.file_picker = FilePickerState::with_entries(entries);

    // When rendering (selection stays at the default index 0).
    let rendered = rendered(&state);

    // Then the top entry (index 0, "e00") IS visible — no spurious scroll at
    // the top boundary.
    assert!(
        rendered.contains("e00"),
        "top entry should remain visible when the selection is at index 0"
    );
}

#[test]
fn at_popup_keeps_last_entry_visible_at_tail() {
    // Given an @ popup with 30 entries and the selection at the last entry.
    let mut state = new_state();
    let _ = handle_insert_char('@', &mut state);
    let entries: Vec<FileEntry> = (0..30)
        .map(|i| FileEntry {
            name: format!("e{i:02}"),
            is_dir: false,
        })
        .collect();
    state.frontend.file_picker = FilePickerState::with_entries(entries);
    for _ in 0..30 {
        input(&mut state).autocomplete_move_down_bounded(30);
    }

    // When rendering.
    let rendered = rendered(&state);

    // Then the last entry (index 29, "e29") is visible — the window reaches
    // the tail rather than stopping short.
    assert!(
        rendered.contains("e29"),
        "last entry should stay visible when the selection reaches the tail"
    );
}

#[test]
fn the_scroll_window_follows_the_selection() {
    assert_eq!(scroll_window(0, 5, 10), (0, 5));
    assert_eq!(scroll_window(0, 30, 10), (0, 10));
    assert_eq!(scroll_window(9, 30, 10), (0, 10));
    assert_eq!(scroll_window(10, 30, 10), (1, 11));
    assert_eq!(scroll_window(29, 30, 10), (20, 30));
    for selected in 0..30 {
        let (start, end) = scroll_window(selected, 30, 7);
        assert!(start <= selected && selected < end && end - start == 7);
    }
}

#[test]
fn the_popup_stays_on_the_terminal() {
    // Pushed left at the right edge.
    let area = place_popup(INPUT_AREA, 80, width_cap(80), (0, 75), 0, 30, 5);
    assert_eq!(area, Rect { x: 48, y: 13, width: 32, height: 7 });
    // Cut to the rows above the trigger.
    let top = Rect { x: 0, y: 5, width: 80, height: 4 };
    let area = place_popup(top, 80, width_cap(80), (0, 0), 0, 30, 50);
    assert_eq!(area, Rect { x: 2, y: 0, width: 32, height: 5 });
    // Never less than one row between its borders.
    let above = Rect { x: 0, y: 0, width: 80, height: 4 };
    let area = place_popup(above, 80, width_cap(80), (0, 0), 0, 1, 1);
    assert_eq!(area, Rect { x: 2, y: 0, width: AUTOCOMPLETE_MIN_WIDTH, height: 3 });
    // Never wider than the cap or the terminal.
    let area = place_popup(INPUT_AREA, 80, width_cap(80), (3, 0), 1, 500, 1);
    assert_eq!((area.width, area.y + area.height), (48, 22));
    let area = place_popup(INPUT_AREA, 10, width_cap(10), (0, 0), 0, 500, 1);
    assert_eq!((area.x, area.width), (0, 10));
    // At most so many rows.
    let low = Rect { x: 0, y: 200, width: 80, height: 4 };
    let area = place_popup(low, 80, width_cap(80), (0, 0), 0, 30, 500);
    assert_eq!(area.height as usize, AUTOCOMPLETE_MAX_VISIBLE + 2);
}

#[test]
fn the_popup_shows_names_with_descriptions_and_marks_the_selected_one() {
    let mut state = new_state();
    input(&mut state).insert_text("#");
    input(&mut state).activate_autocomplete(
        0,
        AutocompleteTrigger::Hash,
        vec![
            AutocompleteMatch { name: "plain".to_owned(), description: String::new() },
            AutocompleteMatch { name: "long".to_owned(), description: "described".to_owned() },
        ],
    );
    input(&mut state).autocomplete_move_down();
    let layout = layout(&state);
    let rows: Vec<(&str, bool)> =
        layout.rows.iter().map(|row| (row.text.as_str(), row.selected)).collect();
    assert_eq!(rows, vec![("plain", false), ("long - described", true)]);
    assert!(!layout.note);
    assert_eq!(layout.area, Rect { x: 2, y: 16, width: 20, height: 4 });
}

#[test]
fn a_popup_without_matches_says_so() {
    for (trigger, note) in [
        (AutocompleteTrigger::Hash, "<no prompts found>"),
        (AutocompleteTrigger::Slash, "<no commands found>"),
    ] {
        let mut state = new_state();
        input(&mut state).activate_autocomplete(0, trigger, Vec::new());
        let layout = layout(&state);
        assert!(layout.note);
        assert_eq!(layout.rows.len(), 1);
        assert_eq!(layout.rows[0].text, note);
        assert!(!layout.rows[0].selected);
    }
}

#[test]
fn no_popup_is_drawn_without_one() {
    let mut state = new_state();
    assert!(render_autocomplete_popup(INPUT_AREA, 80, 48, &state).is_none());
    state.session.active.input = None;
    assert!(render_autocomplete_popup(INPUT_AREA, 80, 48, &state).is_none());
}

#[test]
fn wide_characters_move_the_anchor_by_columns() {
    let mut state = new_state();
    input(&mut state).insert_text("日本 #");
    input(&mut state).activate_autocomplete(3, AutocompleteTrigger::Hash, Vec::new());
    assert_eq!(layout(&state).area.x, 2 + 5);
}
