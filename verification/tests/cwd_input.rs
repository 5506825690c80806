use jinn_domain::app_state::AppState;
use jinn_domain::chat_entry::SessionId;
use jinn_domain::cwd_input::intent::{
    cwd_input_candidate, handle_cursor_left, handle_cursor_right, handle_cwd_input_confirm,
    handle_cwd_input_enter, handle_cwd_input_leave, handle_delete, handle_delete_forward,
    handle_insert_char, handle_paste,
};
use jinn_domain::cwd_input::resolve::{resolve_candidate, shorten_path, CwdResolution};
use jinn_domain::focus::FocusScope;
use jinn_domain::intent_result::{IntentMessage, SetSessionCwd};

const HOME: &str = "/home/u";

fn new_state() -> AppState {
    AppState::new(SessionId::new(), HOME.to_owned())
}

/// What a file system with these directories says of the typed path.
fn look_up(state: &AppState, directories: &[&str]) -> CwdResolution {
    match cwd_input_candidate(state) {
        Some(path) if directories.contains(&path.as_str()) => CwdResolution::Directory(path),
        Some(_) => CwdResolution::NotADirectory,
        None => CwdResolution::Empty,
    }
}

fn type_text(state: &mut AppState, text: &str) {
    state.frontend.cwd_input.text.set(text);
}

#[test]
fn enter_pushes_cwd_input_scope_and_seeds_cwd() {
    // Given a state whose active session has a known absolute cwd.
    let mut state = new_state();
    state.session.active.set_cwd("/tmp/some-project".to_owned());

    // When opening the cwd input popup.
    let result = handle_cwd_input_enter(&mut state);

    // Then CwdInput is the current scope and the input is seeded with the
    // session cwd, cursor at the end.
    assert!(matches!(state.frontend.scope(), FocusScope::CwdInput));
    assert_eq!(state.frontend.cwd_input.text.input(), "/tmp/some-project");
    assert_eq!(
        state.frontend.cwd_input.text.cursor_pos(),
        "/tmp/some-project".len()
    );
    assert!(result.messages.is_empty());
}

#[test]
fn enter_seeds_tilde_compressed_path_when_cwd_under_home() {
    // Given a session whose cwd is under the home directory.
    let mut state = new_state();
    state.session.active.set_cwd(format!("{HOME}/projects/my-app"));

    // When opening the cwd input popup.
    handle_cwd_input_enter(&mut state);

    // Then the seeded input is the tilde-compressed form.
    assert_eq!(state.frontend.cwd_input.text.input(), "~/projects/my-app");
}

#[test]
fn enter_leaves_cursor_at_end_of_seeded_text() {
    // Given a session with a known absolute cwd.
    let mut state = new_state();
    state.session.active.set_cwd("/tmp/some-project".to_owned());

    // When opening the cwd input popup.
    handle_cwd_input_enter(&mut state);

    // Then the cursor sits at the end of the seeded text.
    let input = &state.frontend.cwd_input.text;
    assert_eq!(input.cursor_pos(), input.input().len());
}

#[test]
fn enter_seeds_absolute_path_when_cwd_not_under_home() {
    // Given a session whose cwd is not under the home directory.
    let mut state = new_state();
    state.session.active.set_cwd("/tmp/some-project".to_owned());

    // When opening the cwd input popup.
    handle_cwd_input_enter(&mut state);

    // Then the seeded input is the raw absolute path.
    assert_eq!(state.frontend.cwd_input.text.input(), "/tmp/some-project");
}

#[test]
fn leave_pops_scope_and_clears_state() {
    // Given a state with cwd_input scope pushed + some typed text.
    let mut state = new_state();
    state.frontend.scope_push(FocusScope::CwdInput);
    type_text(&mut state, "/some/path");

    // When leaving.
    let result = handle_cwd_input_leave(&mut state);

    // Then the scope is popped and state is cleared.
    assert!(!matches!(state.frontend.scope(), FocusScope::CwdInput));
    assert_eq!(state.frontend.cwd_input.text.input(), "");
    assert!(result.messages.is_empty());
}

#[test]
fn confirm_unchanged_seed_emits_set_session_cwd() {
    // Given the popup opened on the session's cwd.
    let mut state = new_state();
    state.session.active.set_cwd("/tmp/dir".to_owned());
    handle_cwd_input_enter(&mut state);

    // When confirming the unchanged seed.
    let resolution = look_up(&state, &["/tmp/dir"]);
    let result = handle_cwd_input_confirm(&mut state, resolution);

    // Then exactly one SetSessionCwd is emitted for the cwd.
    assert_eq!(result.messages.len(), 1);
    assert_eq!(
        result.messages[0],
        IntentMessage::SetSessionCwd(SetSessionCwd {
            session_id: state.session.active.session_id,
            cwd: "/tmp/dir".to_owned(),
        })
    );
}

#[test]
fn confirm_valid_dir_returns_set_session_cwd_command() {
    // Given a session and a directory below its cwd, typed as a relative path.
    let mut state = new_state();
    state.session.active.set_cwd("/tmp".to_owned());
    type_text(&mut state, "dir");

    // When confirming.
    let resolution = look_up(&state, &["/tmp/dir"]);
    let result = handle_cwd_input_confirm(&mut state, resolution);

    // Then one message is returned for the active session.
    assert_eq!(result.messages.len(), 1);
}

#[test]
fn confirm_valid_dir_pops_scope_and_clears_state() {
    // Given the popup with a directory typed.
    let mut state = new_state();
    state.session.active.set_cwd("/tmp".to_owned());
    state.frontend.scope_push(FocusScope::CwdInput);
    type_text(&mut state, "dir");

    // When confirming.
    let resolution = look_up(&state, &["/tmp/dir"]);
    let _ = handle_cwd_input_confirm(&mut state, resolution);

    // Then the scope was popped and the input state was cleared.
    assert!(!matches!(state.frontend.scope(), FocusScope::CwdInput));
    assert_eq!(state.frontend.cwd_input.text.input(), "");
}

#[test]
fn confirm_nonexistent_path_stays_open_unchanged() {
    // Given a state with cwd_input scope pushed + a bad path.
    let mut state = new_state();
    let original_cwd = state.session.active.cwd.clone();
    state.frontend.scope_push(FocusScope::CwdInput);
    type_text(&mut state, "/this/does/not/exist");

    // When confirming.
    let resolution = look_up(&state, &["/tmp/dir"]);
    let result = handle_cwd_input_confirm(&mut state, resolution);

    // Then nothing changed: scope intact, cwd unchanged, input intact.
    assert!(matches!(state.frontend.scope(), FocusScope::CwdInput));
    assert_eq!(state.session.active.cwd, original_cwd);
    assert_eq!(
        state.frontend.cwd_input.text.input(),
        "/this/does/not/exist"
    );
    assert!(result.messages.is_empty());
}

#[test]
fn confirm_empty_input_is_noop() {
    // Given a state with cwd_input scope pushed + empty input.
    let mut state = new_state();
    let original_cwd = state.session.active.cwd.clone();
    state.frontend.scope_push(FocusScope::CwdInput);

    // When confirming with empty input.
    let resolution = look_up(&state, &["/tmp/dir"]);
    assert_eq!(resolution, CwdResolution::Empty);
    let result = handle_cwd_input_confirm(&mut state, resolution);

    // Then nothing changed.
    assert!(matches!(state.frontend.scope(), FocusScope::CwdInput));
    assert_eq!(state.session.active.cwd, original_cwd);
    assert!(result.messages.is_empty());
}

#[test]
fn a_shown_path_names_the_directory_again() {
    for cwd in [HOME, "/home/u/a/b", "/home/user", "/", "/tmp/x y", "/home/u//a", "/home/u/"] {
        let shown = shorten_path(cwd, HOME);
        assert_eq!(resolve_candidate(&shown, cwd, HOME).as_deref(), Some(cwd));
    }
    assert_eq!(shorten_path(HOME, HOME), "~");
    assert_eq!(shorten_path("/home/user", HOME), "/home/user");
    assert_eq!(shorten_path("/home/u//a", HOME), "/home/u//a");
}

#[test]
fn white_space_around_a_typed_path_is_trimmed() {
    assert_eq!(
        resolve_candidate("  ~/a\t", "/tmp", HOME).as_deref(),
        Some("/home/u/a")
    );
    assert_eq!(resolve_candidate(" \n ", "/tmp", HOME), None);
}

#[test]
fn the_line_is_edited_by_grapheme_clusters() {
    let mut state = new_state();
    handle_paste(&mut state, "ae\u{301}b");
    assert_eq!(state.frontend.cwd_input.text.cursor_pos(), 3);
    handle_cursor_left(&mut state);
    handle_delete(&mut state);
    assert_eq!(state.frontend.cwd_input.text.input(), "ab");
    assert_eq!(state.frontend.cwd_input.text.cursor_pos(), 1);
    handle_insert_char(&mut state, 'x');
    assert_eq!(state.frontend.cwd_input.text.input(), "axb");
    handle_delete_forward(&mut state);
    assert_eq!(state.frontend.cwd_input.text.input(), "ax");
    handle_cursor_right(&mut state);
    assert_eq!(state.frontend.cwd_input.text.cursor_pos(), 2);
    handle_delete_forward(&mut state);
    assert_eq!(state.frontend.cwd_input.text.input(), "ax");
}
