//! What the keys do to the input box and its popup.
//!
//! Each function changes the box and returns the path to list, where the
//! file popup needs a new listing.

use crate::chat_input::slash_command;
use crate::chat_input::slash_command::compute_slash_matches;
use crate::chat_input::state;
use crate::chat_input::state::{AutocompleteMatch, AutocompleteTrigger, ChatInputBoxState};
use crate::chat_input::token;
use crate::chat_input::token::{
    find_slash_token_at_cursor, find_token_at_cursor, is_boundary_before,
    should_deactivate_on_cursor_move,
};
use crate::context::prompt_template;
use crate::context::prompt_template::{PromptTemplate, PromptTemplateStore};
use crate::file_lister::file_picker_state;
use crate::file_lister::FilePickerState;
use crate::text;
use crate::text::{graphemes, starts_with};
use vstd::prelude::*;

verus! {

/// The box after a key, and the path to list.
pub ghost struct Edit {
    pub input: state::InputView,
    pub list: Option<Seq<char>>,
}

/// An edit that lists nothing.
pub open spec fn quiet(input: state::InputView) -> Edit {
    Edit { input, list: None }
}

/// The popup rows of the templates that match a filter.
pub open spec fn template_rows(templates: Seq<PromptTemplate>, filter: Seq<char>) -> Seq<
    state::MatchView,
> {
    prompt_template::matching(templates, filter).map_values(
        |t: PromptTemplate| state::MatchView { name: t.name@, description: t.description@ },
    )
}

/// The rows of a popup for what is typed: commands for `/`, templates
/// otherwise.
pub open spec fn rows_for(
    trigger: AutocompleteTrigger,
    templates: Seq<PromptTemplate>,
    filter: Seq<char>,
) -> Seq<state::MatchView> {
    if trigger == AutocompleteTrigger::Slash {
        slash_command::slash_matches(filter)
    } else {
        template_rows(templates, filter)
    }
}

/// The box with the popup's rows brought up to date.
pub open spec fn refreshed(
    input: state::InputView,
    templates: Seq<PromptTemplate>,
) -> state::InputView {
    match input.popup {
        Some(popup) => input.rematched(rows_for(popup.trigger, templates, input.filter())),
        None => input,
    }
}

/// The box after a character was typed while a popup is open.
pub open spec fn typed_in_popup(
    before: state::InputView,
    templates: Seq<PromptTemplate>,
    ch: char,
) -> Edit {
    let input = before.typed(ch);
    let popup = input.popup.unwrap();
    if popup.trigger == AutocompleteTrigger::At {
        if ch == '@' || ch == ' ' {
            quiet(input.closed_popup())
        } else if ch == '/' {
            Edit { input, list: Some(input.filter()) }
        } else {
            quiet(input)
        }
    } else if ch == ' ' {
        quiet(input.closed_popup())
    } else if ch == '#' && popup.trigger == AutocompleteTrigger::Hash {
        let name = text::cluster_text(input.clusters(), popup.token_start + 1, input.cursor - 1);
        match prompt_template::named(templates, 0, name) {
            Some(i) => quiet(input.expanded(templates[i].body@)),
            None => quiet(input.closed_popup()),
        }
    } else {
        quiet(refreshed(input, templates))
    }
}

/// The box after a character was typed. A trigger in a valid place opens its
/// popup.
pub open spec fn after_char(
    before: state::InputView,
    templates: Seq<PromptTemplate>,
    ch: char,
) -> Edit {
    let input = before.typed(ch);
    let at = input.cursor - 1;
    if before.popup is Some {
        typed_in_popup(before, templates, ch)
    } else if ch == '@' && token::boundary_before(input.clusters(), at) {
        Edit {
            input: input.opened_popup(at, AutocompleteTrigger::At, Seq::empty()),
            list: Some(Seq::empty()),
        }
    } else if ch == '#' && token::boundary_before(input.clusters(), at) {
        quiet(
            input.opened_popup(
                at,
                AutocompleteTrigger::Hash,
                template_rows(templates, Seq::empty()),
            ),
        )
    } else if ch == '/' && at == 0 && "/"@.is_prefix_of(input.text) {
        quiet(
            input.opened_popup(
                at,
                AutocompleteTrigger::Slash,
                slash_command::slash_matches(Seq::empty()),
            ),
        )
    } else {
        quiet(input)
    }
}

/// The box with the popup of the command or template token that the cursor is
/// in, unless a popup is open already.
pub open spec fn reopened(
    input: state::InputView,
    templates: Seq<PromptTemplate>,
) -> state::InputView {
    if input.popup is Some {
        input
    } else if token::in_command(input) {
        input.opened_popup(
            0,
            AutocompleteTrigger::Slash,
            slash_command::slash_matches(text::cluster_text(input.clusters(), 1, input.cursor)),
        )
    } else {
        match token::token_at(input.clusters(), input.cursor, "#"@) {
            Some(start) => input.opened_popup(
                start,
                AutocompleteTrigger::Hash,
                template_rows(
                    templates,
                    text::cluster_text(input.clusters(), start + 1, input.cursor),
                ),
            ),
            None => input,
        }
    }
}

/// The box with the popup of the token that the cursor is in, files included.
pub open spec fn reopened_any(input: state::InputView, templates: Seq<PromptTemplate>) -> Edit {
    let first = reopened(input, templates);
    if first.popup is Some {
        quiet(first)
    } else {
        match token::token_at(first.clusters(), first.cursor, "@"@) {
            Some(start) => Edit {
                input: first.opened_popup(start, AutocompleteTrigger::At, Seq::empty()),
                list: Some(text::cluster_text(first.clusters(), start + 1, first.cursor)),
            },
            None => quiet(first),
        }
    }
}

/// The box after backspace. Deleting back to the trigger starts over.
pub open spec fn after_backspace(before: state::InputView, templates: Seq<PromptTemplate>) -> Edit {
    let input = before.deleted_before();
    match before.popup {
        Some(popup) if before.cursor > popup.token_start + 1 => if popup.trigger
            == AutocompleteTrigger::At {
            Edit { input, list: Some(input.filter()) }
        } else {
            quiet(refreshed(input, templates))
        },
        _ => reopened_any(input.closed_popup(), templates),
    }
}

/// The box after a forward delete.
pub open spec fn after_delete(
    before: state::InputView,
    templates: Seq<PromptTemplate>,
) -> state::InputView {
    let input = before.deleted_after();
    match before.popup {
        Some(popup) => if before.cursor == popup.token_start || token::left_token(input) {
            reopened(input.closed_popup(), templates)
        } else {
            refreshed(input, templates)
        },
        None => reopened(input, templates),
    }
}

/// The box after the cursor moved to its place: a popup whose token it left is
/// closed, and that of the token it is in now is opened.
pub open spec fn after_move(moved: state::InputView, templates: Seq<PromptTemplate>) -> Edit {
    if token::left_token(moved) {
        reopened_any(moved.closed_popup(), templates)
    } else {
        reopened_any(moved, templates)
    }
}

/// The box after the popup's selected row was put into the buffer.
pub open spec fn with_selection(input: state::InputView) -> state::InputView {
    match input.popup {
        Some(popup) if popup.selected < popup.matches.len() => input.completed(
            popup.matches[popup.selected].name,
        ),
        _ => input,
    }
}

/// The box after the selected row of its popup was confirmed.
pub open spec fn after_confirm(
    input: state::InputView,
    templates: Seq<PromptTemplate>,
    files: Seq<file_picker_state::FileEntry>,
) -> Edit {
    match input.popup {
        Some(popup) => if popup.trigger == AutocompleteTrigger::At {
            let shown = file_picker_state::visible(files, input.filter());
            if popup.selected < shown.len() {
                let entry = shown[popup.selected];
                let after = input.completed_path(entry.name@, entry.is_dir);
                if entry.is_dir {
                    Edit { input: after, list: Some(after.filter()) }
                } else {
                    quiet(after)
                }
            } else {
                quiet(input)
            }
        } else if popup.selected < popup.matches.len() {
            quiet(refreshed(with_selection(input), templates))
        } else {
            quiet(input)
        },
        None => quiet(input),
    }
}

/// Whether an edit lists nothing but what is typed behind the `@` of an open
/// file popup.
pub open spec fn lists_typed_path(edit: Edit) -> bool {
    edit.list matches Some(path) ==> {
        &&& edit.input.popup matches Some(popup)
        &&& popup.trigger == AutocompleteTrigger::At
        &&& path == edit.input.filter()
    }
}

/// A listing is only ever asked for the path that is typed in the file popup.
pub proof fn lemma_lists_typed_path(
    input: state::InputView,
    templates: Seq<PromptTemplate>,
    files: Seq<file_picker_state::FileEntry>,
    ch: char,
)
    requires
        0 <= input.cursor,
    ensures
        lists_typed_path(after_char(input, templates, ch)),
        lists_typed_path(after_backspace(input, templates)),
        lists_typed_path(after_move(input, templates)),
        lists_typed_path(after_confirm(input, templates, files)),
{
    let typed = input.typed(ch);
    let at = typed.cursor - 1;
    if input.popup is None && ch == '@' && token::boundary_before(typed.clusters(), at) {
        let open = after_char(input, templates, ch).input;
        assert(open.clusters().subrange(typed.cursor, typed.cursor) =~= Seq::empty());
        assert(open.filter() =~= Seq::<char>::empty());
    }
}

/// A space closes every popup, and so does `@` in the file popup, which keeps
/// `@@` literal.
pub proof fn lemma_closing_characters(
    input: state::InputView,
    templates: Seq<PromptTemplate>,
    ch: char,
)
    requires
        input.popup matches Some(popup) && (ch == ' ' || ch == '@' && popup.trigger
            == AutocompleteTrigger::At),
    ensures
        after_char(input, templates, ch) == quiet(input.typed(ch).closed_popup()),
{
}

/// Opening a popup changes neither the text nor the cursor.
pub proof fn lemma_reopening_keeps_text(input: state::InputView, templates: Seq<PromptTemplate>)
    ensures
        reopened_any(input, templates).input.closed_popup() == input.closed_popup(),
        after_move(input, templates).input.closed_popup() == input.closed_popup(),
{
}

/// A popup that is open after the cursor moved begins at or before the cursor.
pub proof fn lemma_popup_at_cursor(moved: state::InputView, templates: Seq<PromptTemplate>)
    requires
        0 <= moved.cursor,
    ensures
        after_move(moved, templates).input.popup matches Some(popup) ==> popup.token_start
            <= moved.cursor,
{
    token::lemma_token_at(moved.clusters(), moved.cursor, "#"@);
    token::lemma_token_at(moved.clusters(), moved.cursor, "@"@);
}

/// Whether the result is the edit's path to list.
pub open spec fn asks(list: Option<String>, expected: Option<Seq<char>>) -> bool {
    match list {
        Some(path) => expected == Some(path@),
        None => expected is None,
    }
}

/// The popup rows of the templates that match a filter.
pub fn compute_matches(store: &PromptTemplateStore, filter: &str) -> (rows: Vec<AutocompleteMatch>)
    ensures
        state::match_views(rows@) == template_rows(store.templates@, filter@),
{
    let found = store.fuzzy_search(filter);
    let ghost all = prompt_template::matching(store.templates@, filter@);
    let mut rows: Vec<AutocompleteMatch> = Vec::new();
    let mut i: usize = 0;
    while i < found.len()
        invariant
            i <= found@.len(),
            rows@.len() == i,
            all == found@.map_values(|t: &PromptTemplate| *t),
            forall|k: int|
                0 <= k < i ==> (#[trigger] rows@[k])@ == (state::MatchView {
                    name: all[k].name@,
                    description: all[k].description@,
                }),
        decreases found@.len() - i,
    {
        let template = found[i];
        assert(all[i as int] == *template);
        rows.push(
            AutocompleteMatch {
                name: template.name.clone(),
                description: template.description.clone(),
            },
        );
        i += 1;
    }
    assert(state::match_views(rows@) =~= template_rows(store.templates@, filter@));
    rows
}

/// The rows of a popup for what is typed.
pub fn compute_updated_matches(
    store: &PromptTemplateStore,
    trigger: AutocompleteTrigger,
    filter: &str,
) -> (rows: Vec<AutocompleteMatch>)
    ensures
        state::match_views(rows@) == rows_for(trigger, store.templates@, filter@),
{
    if trigger == AutocompleteTrigger::Slash {
        compute_slash_matches(filter)
    } else {
        compute_matches(store, filter)
    }
}

/// Brings the popup's rows up to date.
fn refresh(input: &mut ChatInputBoxState, store: &PromptTemplateStore)
    ensures
        final(input)@ == refreshed(old(input)@, store.templates@),
{
    if let Some(trigger) = input.autocomplete_trigger() {
        if let Some(filter) = input.autocomplete_filter() {
            let rows = compute_updated_matches(store, trigger, filter.as_str());
            input.update_autocomplete_matches(rows);
        }
    }
}

/// What is typed behind the trigger.
fn filter_of(input: &ChatInputBoxState) -> (filter: String)
    ensures
        filter@ == input@.filter(),
{
    match input.autocomplete_filter() {
        Some(filter) => filter,
        None => String::new(),
    }
}

/// Types a character while a popup is open.
fn insert_while_autocomplete_active(
    ch: char,
    input: &mut ChatInputBoxState,
    store: &PromptTemplateStore,
) -> (list: Option<String>)
    requires
        old(input)@.popup is Some,
    ensures
        final(input)@ == typed_in_popup(old(input)@, store.templates@, ch).input,
        asks(list, typed_in_popup(old(input)@, store.templates@, ch).list),
{
    input.insert_grapheme_at_cursor(ch);
    let trigger = match input.autocomplete_trigger() {
        Some(trigger) => trigger,
        None => {
            return None;
        },
    };
    if trigger == AutocompleteTrigger::At {
        if ch == '@' || ch == ' ' {
            input.deactivate_autocomplete();
            return None;
        }
        if ch == '/' {
            return Some(filter_of(input));
        }
        return None;
    }
    if ch == ' ' {
        input.deactivate_autocomplete();
    } else if ch == '#' && trigger == AutocompleteTrigger::Hash {
        let cursor: usize = input.cursor_pos();
        let name = match input.autocomplete_token_start() {
            Some(start) => if start < cursor {
                input.grapheme_slice(start + 1, cursor - 1)
            } else {
                String::new()
            },
            None => String::new(),
        };
        match store.find_by_name(name.as_str()) {
            Some(template) => {
                input.expand_autocomplete(template.body.as_str());
            },
            None => {
                input.deactivate_autocomplete();
            },
        }
    } else {
        refresh(input, store);
    }
    None
}

/// Types a character.
pub fn insert_char(ch: char, input: &mut ChatInputBoxState, store: &PromptTemplateStore) -> (list:
    Option<String>)
    ensures
        final(input)@ == after_char(old(input)@, store.templates@, ch).input,
        asks(list, after_char(old(input)@, store.templates@, ch).list),
{
    if input.autocomplete().is_some() {
        return insert_while_autocomplete_active(ch, input, store);
    }
    input.insert_grapheme_at_cursor(ch);
    let cursor: usize = input.cursor_pos();
    let at: usize = cursor - 1;
    let clusters = graphemes(input.text());
    if ch == '@' && is_boundary_before(&clusters, at) {
        let rows: Vec<AutocompleteMatch> = Vec::new();
        assert(state::match_views(rows@) =~= Seq::empty());
        input.activate_autocomplete(at, AutocompleteTrigger::At, rows);
        let nothing = String::new();
        assert(nothing@ =~= Seq::empty());
        return Some(nothing);
    }
    let nothing = String::new();
    assert(nothing@ =~= Seq::empty());
    if ch == '#' && is_boundary_before(&clusters, at) {
        let rows = compute_matches(store, nothing.as_str());
        input.activate_autocomplete(at, AutocompleteTrigger::Hash, rows);
    } else if ch == '/' && at == 0 && starts_with(input.text(), "/") {
        let rows = compute_slash_matches(nothing.as_str());
        input.activate_autocomplete(at, AutocompleteTrigger::Slash, rows);
    }
    None
}

/// Opens the popup of the command or template token that the cursor is in.
fn try_reactivate_autocomplete(input: &mut ChatInputBoxState, store: &PromptTemplateStore)
    ensures
        final(input)@ == reopened(old(input)@, store.templates@),
{
    if input.autocomplete().is_some() {
        return;
    }
    if let Some(filter) = find_slash_token_at_cursor(input) {
        let rows = compute_slash_matches(filter.as_str());
        input.activate_autocomplete(0, AutocompleteTrigger::Slash, rows);
        return;
    }
    if let Some((start, filter)) = find_token_at_cursor(input, "#") {
        let rows = compute_matches(store, filter.as_str());
        input.activate_autocomplete(start, AutocompleteTrigger::Hash, rows);
    }
}

/// Opens the popup of the token that the cursor is in, files included.
fn try_reactivate_any(input: &mut ChatInputBoxState, store: &PromptTemplateStore) -> (list: Option<
    String,
>)
    ensures
        final(input)@ == reopened_any(old(input)@, store.templates@).input,
        asks(list, reopened_any(old(input)@, store.templates@).list),
{
    try_reactivate_autocomplete(input, store);
    if input.autocomplete().is_some() {
        return None;
    }
    match find_token_at_cursor(input, "@") {
        Some((start, filter)) => {
            let rows: Vec<AutocompleteMatch> = Vec::new();
            assert(state::match_views(rows@) =~= Seq::empty());
            input.activate_autocomplete(start, AutocompleteTrigger::At, rows);
            Some(filter)
        },
        None => None,
    }
}

/// Deletes the cluster before the cursor.
pub fn backspace(input: &mut ChatInputBoxState, store: &PromptTemplateStore) -> (list: Option<
    String,
>)
    ensures
        final(input)@ == after_backspace(old(input)@, store.templates@).input,
        asks(list, after_backspace(old(input)@, store.templates@).list),
{
    let cursor: usize = input.cursor_pos();
    let stays = match input.autocomplete_token_start() {
        Some(start) => cursor > 0 && cursor - 1 > start,
        None => false,
    };
    input.delete_grapheme_before_cursor();
    if !stays {
        input.deactivate_autocomplete();
        return try_reactivate_any(input, store);
    }
    if input.autocomplete_trigger() == Some(AutocompleteTrigger::At) {
        return Some(filter_of(input));
    }
    refresh(input, store);
    None
}

/// Deletes the cluster behind the cursor.
pub fn delete_forward(input: &mut ChatInputBoxState, store: &PromptTemplateStore)
    ensures
        final(input)@ == after_delete(old(input)@, store.templates@),
{
    let cursor: usize = input.cursor_pos();
    let at_token = match input.autocomplete_token_start() {
        Some(start) => cursor == start,
        None => false,
    };
    input.delete_grapheme_after_cursor();
    if at_token || should_deactivate_on_cursor_move(input) {
        input.deactivate_autocomplete();
    } else if input.autocomplete().is_some() {
        refresh(input, store);
        return;
    }
    try_reactivate_autocomplete(input, store);
}

/// Closes the popup whose token the cursor left, and opens that of the token
/// it is in now.
pub fn settle_after_move(input: &mut ChatInputBoxState, store: &PromptTemplateStore) -> (list:
    Option<String>)
    ensures
        final(input)@ == after_move(old(input)@, store.templates@).input,
        asks(list, after_move(old(input)@, store.templates@).list),
{
    if should_deactivate_on_cursor_move(input) {
        input.deactivate_autocomplete();
    }
    try_reactivate_any(input, store)
}

/// Puts the popup's selected row into the buffer; `false` if it has none.
pub fn complete_selected(input: &mut ChatInputBoxState) -> (completed: bool)
    ensures
        final(input)@ == with_selection(old(input)@),
        completed == (old(input)@.popup matches Some(popup) && popup.selected
            < popup.matches.len()),
{
    let name = match input.autocomplete_selected() {
        Some(row) => row.name.clone(),
        None => {
            return false;
        },
    };
    input.complete_autocomplete(name.as_str());
    true
}

/// Confirms the selected row of the popup.
pub fn confirm(
    input: &mut ChatInputBoxState,
    store: &PromptTemplateStore,
    picker: &FilePickerState,
) -> (list: Option<String>)
    ensures
        final(input)@ == after_confirm(old(input)@, store.templates@, picker.entries@).input,
        asks(list, after_confirm(old(input)@, store.templates@, picker.entries@).list),
{
    match input.autocomplete_trigger() {
        Some(trigger) => if trigger == AutocompleteTrigger::At {
            let filter = filter_of(input);
            let selected: usize = input.autocomplete_selected_index();
            let shown = picker.visible_entries(filter.as_str());
            let ghost all = file_picker_state::visible(picker.entries@, filter@);
            assert(all.len() == shown@.len());
            if selected >= shown.len() {
                return None;
            }
            let entry = shown[selected];
            assert(all[selected as int] == *entry);
            input.complete_at_entry(entry.name.as_str(), entry.is_dir);
            if entry.is_dir {
                Some(filter_of(input))
            } else {
                None
            }
        } else {
            if complete_selected(input) {
                refresh(input, store);
            }
            None
        },
        None => None,
    }
}

/// What stands in the buffer between the popup's trigger and the cursor.
pub open spec fn behind_trigger(input: state::InputView) -> Seq<char> {
    match input.popup {
        Some(popup) => if 0 <= popup.token_start < input.cursor <= input.clusters().len() {
            input.clusters().subrange(popup.token_start + 1, input.cursor).flatten()
        } else {
            Seq::empty()
        },
        None => Seq::empty(),
    }
}

/// Whether the open popup shows exactly what fits the text behind its trigger:
/// for `/` the commands, for `#` the templates. File rows are not kept in it.
pub open spec fn rows_up_to_date(
    input: state::InputView,
    templates: Seq<PromptTemplate>,
) -> bool {
    input.popup matches Some(popup) ==> match popup.trigger {
        AutocompleteTrigger::Slash => popup.matches == slash_command::command_list().filter(
            |row: state::MatchView| slash_command::fits(behind_trigger(input), row.name),
        ),
        AutocompleteTrigger::Hash => popup.matches == templates.filter(
            |t: PromptTemplate| slash_command::fits(behind_trigger(input), t.name@),
        ).map_values(
            |t: PromptTemplate| state::MatchView { name: t.name@, description: t.description@ },
        ),
        AutocompleteTrigger::At | AutocompleteTrigger::AtAt => true,
    }
}

proof fn lemma_rows_for(
    input: state::InputView,
    templates: Seq<PromptTemplate>,
    typed: Seq<char>,
)
    requires
        typed == behind_trigger(input),
        input.popup matches Some(popup) && (popup.trigger == AutocompleteTrigger::Slash
            && popup.matches == slash_command::slash_matches(typed) || popup.trigger
            == AutocompleteTrigger::Hash && popup.matches == template_rows(templates, typed)),
    ensures
        rows_up_to_date(input, templates),
{
    slash_command::lemma_slash_rows(typed);
    prompt_template::lemma_search_finds_fitting(templates, typed);
}

/// The filter of a popup is what stands between its trigger and the cursor.
pub proof fn lemma_filter_is_behind_trigger(input: state::InputView)
    requires
        input.popup matches Some(popup) ==> 0 <= popup.token_start,
    ensures
        input.filter() == behind_trigger(input),
{
}

proof fn lemma_refreshed_rows(input: state::InputView, templates: Seq<PromptTemplate>)
    requires
        input.popup matches Some(popup) ==> 0 <= popup.token_start,
    ensures
        rows_up_to_date(refreshed(input, templates), templates),
{
    if let Some(popup) = input.popup {
        let after = refreshed(input, templates);
        lemma_filter_is_behind_trigger(input);
        assert(behind_trigger(after) == behind_trigger(input));
        if popup.trigger == AutocompleteTrigger::Slash || popup.trigger
            == AutocompleteTrigger::Hash {
            lemma_rows_for(after, templates, input.filter());
        }
    }
}

proof fn lemma_reopened_rows(input: state::InputView, templates: Seq<PromptTemplate>)
    requires
        input.popup is None,
        0 <= input.cursor,
    ensures
        rows_up_to_date(reopened(input, templates), templates),
        rows_up_to_date(reopened_any(input, templates).input, templates),
{
    let after = reopened(input, templates);
    token::lemma_token_at(input.clusters(), input.cursor, "#"@);
    if after.popup is Some {
        let popup = after.popup.unwrap();
        lemma_filter_is_behind_trigger(after);
        lemma_rows_for(after, templates, after.filter());
    }
}

/// After every key that changes the text, an open `/` or `#` popup shows
/// exactly the commands or templates that fit what now stands between its
/// trigger and the cursor.
pub proof fn lemma_rows_follow_the_text(
    input: state::InputView,
    templates: Seq<PromptTemplate>,
    ch: char,
)
    requires
        0 <= input.cursor,
        input.typed(ch).cursor >= 1,
        input.popup matches Some(popup) ==> 0 <= popup.token_start,
    ensures
        rows_up_to_date(after_char(input, templates, ch).input, templates),
        rows_up_to_date(after_backspace(input, templates).input, templates),
        rows_up_to_date(after_delete(input, templates), templates),
{
    let typed = input.typed(ch);
    let before = input.deleted_before();
    let after = input.deleted_after();
    lemma_refreshed_rows(typed, templates);
    lemma_refreshed_rows(before, templates);
    lemma_refreshed_rows(after, templates);
    lemma_splice_keeps_cursor(input, ch);
    lemma_reopened_rows(before.closed_popup(), templates);
    lemma_reopened_rows(after.closed_popup(), templates);
    if input.popup is None {
        let open = after_char(input, templates, ch).input;
        assert(after.closed_popup() == after);
        if open.popup is Some {
            lemma_filter_is_behind_trigger(open);
            assert(open.clusters().subrange(open.cursor, open.cursor).flatten()
                =~= Seq::<char>::empty());
            if open.popup.unwrap().trigger != AutocompleteTrigger::At {
                lemma_rows_for(open, templates, Seq::empty());
            }
        }
    }
}

proof fn lemma_splice_keeps_cursor(input: state::InputView, ch: char)
    requires
        0 <= input.cursor,
    ensures
        0 <= input.deleted_before().cursor,
        0 <= input.deleted_after().cursor,
        0 <= input.typed(ch).cursor,
{
}

/// Confirming a row brings the rows up to date as well; where there is no row
/// to confirm, nothing changes.
pub proof fn lemma_rows_follow_the_confirmed_row(
    input: state::InputView,
    templates: Seq<PromptTemplate>,
    files: Seq<file_picker_state::FileEntry>,
)
    requires
        input.popup matches Some(popup) && 0 <= popup.token_start && popup.trigger
            != AutocompleteTrigger::At,
    ensures
        ({
            let popup = input.popup.unwrap();
            let after = after_confirm(input, templates, files);
            &&& after.list is None
            &&& popup.selected < popup.matches.len() ==> rows_up_to_date(after.input, templates)
            &&& popup.selected >= popup.matches.len() ==> after.input == input
        }),
{
    lemma_refreshed_rows(with_selection(input), templates);
}

/// When the cursor moves inside its token, the popup stays as it is; when it
/// comes into another token, the popup of that one opens with fitting rows.
pub proof fn lemma_rows_after_move(moved: state::InputView, templates: Seq<PromptTemplate>)
    requires
        0 <= moved.cursor,
    ensures
        after_move(moved, templates).input == moved || rows_up_to_date(
            after_move(moved, templates).input,
            templates,
        ),
{
    lemma_reopened_rows(moved.closed_popup(), templates);
    if moved.popup is None {
        assert(moved.closed_popup() == moved);
    }
}

/// The clusters of the buffer before position `at`, as text.
pub open spec fn text_before(input: state::InputView, at: int) -> Seq<char> {
    input.clusters().subrange(0, at).flatten()
}

/// The clusters of the buffer from position `at` on, as text.
pub open spec fn text_from(input: state::InputView, at: int) -> Seq<char> {
    input.clusters().subrange(at, input.clusters().len() as int).flatten()
}

/// Whether only text, cursor and popup differ.
pub open spec fn same_settings(a: state::InputView, b: state::InputView) -> bool {
    a.mode == b.mode && a.disabled == b.disabled && a.scroll_offset == b.scroll_offset
        && a.wrap_width == b.wrap_width
}

/// A typed character goes in at the cursor and nothing else changes in the
/// text, unless it closes a `#name#` reference, which becomes the body of the
/// template.
pub proof fn lemma_typing_inserts(
    input: state::InputView,
    templates: Seq<PromptTemplate>,
    ch: char,
)
    requires
        0 <= input.cursor <= input.clusters().len(),
        !(ch == '#' && (input.popup matches Some(popup) && popup.trigger
            == AutocompleteTrigger::Hash)),
    ensures
        ({
            let after = after_char(input, templates, ch).input;
            &&& after.text == text_before(input, input.cursor) + seq![ch] + text_from(
                input,
                input.cursor,
            )
            &&& after.cursor == input.cursor + 1 || after.cursor == after.clusters().len()
                && after.cursor < input.cursor + 1
            &&& same_settings(after, input)
        }),
{
}

/// Backspace takes out the cluster before the cursor, and a forward delete the
/// one behind it; at the end in question nothing is deleted.
pub proof fn lemma_deleting_removes_one(input: state::InputView, templates: Seq<PromptTemplate>)
    requires
        0 <= input.cursor <= input.clusters().len(),
    ensures
        after_backspace(input, templates).input.text == if input.cursor == 0 {
            input.text
        } else {
            text_before(input, input.cursor - 1) + text_from(input, input.cursor)
        },
        after_delete(input, templates).text == if input.cursor == input.clusters().len() {
            input.text
        } else {
            text_before(input, input.cursor) + text_from(input, input.cursor + 1)
        },
        same_settings(after_backspace(input, templates).input, input),
        same_settings(after_delete(input, templates), input),
{
    let before = input.deleted_before();
    let after = input.deleted_after();
    if input.cursor > 0 {
        assert(before.text =~= text_before(input, input.cursor - 1) + text_from(
            input,
            input.cursor,
        ));
    }
    if input.cursor < input.clusters().len() {
        assert(after.text =~= text_before(input, input.cursor) + text_from(
            input,
            input.cursor + 1,
        ));
    }
}

/// Without a popup, a trigger opens its own: `@` and `#` at the start of the
/// buffer or behind a space or newline, `/` at the very start. Nothing else
/// opens one, and only `@` asks for a listing.
pub proof fn lemma_triggers_open_popups(
    input: state::InputView,
    templates: Seq<PromptTemplate>,
    ch: char,
)
    requires
        input.popup is None,
        0 <= input.cursor,
    ensures
        ({
            let after = after_char(input, templates, ch);
            let at = after.input.cursor - 1;
            let clusters = after.input.clusters();
            let word_start = at == 0 || clusters[at - 1] == " "@ || clusters[at - 1] == "\n"@;
            let trigger = if ch == '@' && word_start {
                Some(AutocompleteTrigger::At)
            } else if ch == '#' && word_start {
                Some(AutocompleteTrigger::Hash)
            } else if ch == '/' && at == 0 && "/"@.is_prefix_of(after.input.text) {
                Some(AutocompleteTrigger::Slash)
            } else {
                None
            };
            &&& match trigger {
                Some(t) => after.input.popup matches Some(popup) && popup.trigger == t
                    && popup.token_start == at && popup.selected == 0,
                None => after.input.popup is None,
            }
            &&& after.list is Some <==> trigger == Some(AutocompleteTrigger::At)
        }),
{
}

/// A second `#` behind the exact name of a template replaces the whole
/// reference by the template's body and closes the popup; behind any other
/// text it only closes the popup.
pub proof fn lemma_reference_becomes_body(
    input: state::InputView,
    templates: Seq<PromptTemplate>,
)
    requires
        0 <= input.cursor <= input.clusters().len(),
        input.popup matches Some(popup) && popup.trigger == AutocompleteTrigger::Hash && 0
            <= popup.token_start,
        input.typed('#').cursor == input.cursor + 1,
        input.popup.unwrap().token_start < input.cursor,
    ensures
        ({
            let typed = input.typed('#');
            let start = input.popup.unwrap().token_start;
            let name = typed.clusters().subrange(start + 1, input.cursor).flatten();
            let after = after_char(input, templates, '#');
            &&& after.list is None
            &&& after.input.popup is None
            &&& (forall|i: int|
                0 <= i < templates.len() ==> (#[trigger] templates[i]).name@ != name)
                ==> after.input.text == typed.text
            &&& forall|i: int|
                0 <= i < templates.len() && (#[trigger] templates[i]).name@ == name && (forall|
                    j: int,
                |
                    0 <= j < i ==> (#[trigger] templates[j]).name@ != name) && typed.cursor
                    <= typed.clusters().len() ==> after.input.text == text_before(typed, start)
                    + templates[i].body@ + text_from(typed, typed.cursor) && cursor_stands(
                    after.input,
                    start + text::grapheme_clusters(templates[i].body@).len(),
                )
        }),
{
    let typed = input.typed('#');
    let start = input.popup.unwrap().token_start;
    let name = typed.clusters().subrange(start + 1, input.cursor).flatten();
    prompt_template::lemma_named_is_first(templates, 0, name);
    if typed.cursor <= typed.clusters().len() {
        assert(text::cluster_text(typed.clusters(), start + 1, typed.cursor - 1) == name);
    }
}

/// Confirming a row of a `/` or `#` popup puts its name in the place of what
/// was typed behind the trigger.
pub proof fn lemma_confirming_puts_the_name(
    input: state::InputView,
    templates: Seq<PromptTemplate>,
    files: Seq<file_picker_state::FileEntry>,
)
    requires
        input.popup matches Some(popup) && popup.trigger != AutocompleteTrigger::At && 0
            <= popup.token_start < input.cursor <= input.clusters().len() && 0 <= popup.selected
            < popup.matches.len(),
    ensures
        ({
            let popup = input.popup.unwrap();
            let after = after_confirm(input, templates, files).input;
            &&& after.text == text_before(input, popup.token_start + 1)
                + popup.matches[popup.selected].name + text_from(input, input.cursor)
            &&& after.popup matches Some(p) && p.trigger == popup.trigger && p.token_start
                == popup.token_start
        }),
{
}

/// Confirming a file puts its name in the place of the last segment of the
/// path and closes the popup. A directory gets a `/` behind it, the popup stays
/// open with its first row selected, and the directory is listed.
pub proof fn lemma_confirming_puts_the_path(
    input: state::InputView,
    templates: Seq<PromptTemplate>,
    files: Seq<file_picker_state::FileEntry>,
    segment: int,
)
    requires
        input.popup matches Some(popup) && popup.trigger == AutocompleteTrigger::At && 0
            <= popup.token_start < input.cursor <= input.clusters().len() && 0 <= popup.selected
            < file_picker_state::visible(files, input.filter()).len(),
        input.popup.unwrap().token_start < segment <= input.cursor,
        segment == input.popup.unwrap().token_start + 1 || input.clusters()[segment - 1] == "/"@,
        forall|k: int|
            segment <= k < input.cursor ==> #[trigger] input.clusters()[k] != "/"@,
    ensures
        ({
            let popup = input.popup.unwrap();
            let entry = file_picker_state::visible(files, input.filter())[popup.selected];
            let after = after_confirm(input, templates, files);
            &&& after.input.text == text_before(input, segment) + entry.name@ + if entry.is_dir {
                "/"@
            } else {
                Seq::empty()
            } + text_from(input, input.cursor)
            &&& cursor_stands(
                after.input,
                segment + text::grapheme_clusters(
                    entry.name@ + if entry.is_dir {
                        "/"@
                    } else {
                        Seq::empty()
                    },
                ).len(),
            )
            &&& !entry.is_dir ==> after.input.popup is None && after.list is None
            &&& entry.is_dir ==> after.list is Some && (after.input.popup matches Some(p)
                && p.trigger == AutocompleteTrigger::At && p.token_start == popup.token_start
                && p.selected == 0)
        }),
{
    let popup = input.popup.unwrap();
    let entry = file_picker_state::visible(files, input.filter())[popup.selected];
    let tail = if entry.is_dir {
        "/"@
    } else {
        Seq::empty()
    };
    lemma_behind_slash_is(input.clusters(), popup.token_start + 1, input.cursor, segment);
    assert(text_before(input, segment) + (entry.name@ + tail) + text_from(input, input.cursor)
        =~= text_before(input, segment) + entry.name@ + tail + text_from(input, input.cursor));
    assert(entry.name@ + Seq::<char>::empty() =~= entry.name@);
}

proof fn lemma_behind_slash_is(clusters: Seq<Seq<char>>, lo: int, hi: int, segment: int)
    requires
        lo <= segment <= hi,
        segment == lo || clusters[segment - 1] == "/"@,
        forall|k: int| segment <= k < hi ==> #[trigger] clusters[k] != "/"@,
    ensures
        state::behind_slash(clusters, lo, hi) == segment,
    decreases hi - segment,
{
    if segment < hi {
        assert(clusters[hi - 1] != "/"@);
        lemma_behind_slash_is(clusters, lo, hi - 1, segment);
    }
}

/// A deletion leaves an open `/` or `#` popup with exactly the commands or
/// templates that fit what now stands between its trigger and the cursor.
pub proof fn lemma_deleting_keeps_rows_up_to_date(
    store: &PromptTemplateStore,
    list: Option<String>,
)
    ensures
        forall|input: &mut ChatInputBoxState|
            #[trigger] call_ensures(backspace, (input, store), list) ==> rows_up_to_date(
                (*final(input))@,
                store.templates@,
            ),
        forall|input: &mut ChatInputBoxState|
            #[trigger] call_ensures(delete_forward, (input, store), ()) ==> rows_up_to_date(
                (*final(input))@,
                store.templates@,
            ),
{
    assert forall|input: &mut ChatInputBoxState|
        #[trigger] call_ensures(backspace, (input, store), list) implies rows_up_to_date(
        (*final(input))@,
        store.templates@,
    ) by {
        state::lemma_positions_count_from_zero(*input);
        lemma_rows_after_deleting((*input)@, store.templates@);
    }
    assert forall|input: &mut ChatInputBoxState|
        #[trigger] call_ensures(delete_forward, (input, store), ()) implies rows_up_to_date(
        (*final(input))@,
        store.templates@,
    ) by {
        state::lemma_positions_count_from_zero(*input);
        lemma_rows_after_deleting((*input)@, store.templates@);
    }
}

/// After a deletion, an open `/` or `#` popup shows exactly what fits.
pub proof fn lemma_rows_after_deleting(input: state::InputView, templates: Seq<PromptTemplate>)
    requires
        0 <= input.cursor,
        input.popup matches Some(popup) ==> 0 <= popup.token_start,
    ensures
        rows_up_to_date(after_backspace(input, templates).input, templates),
        rows_up_to_date(after_delete(input, templates), templates),
{
    let before = input.deleted_before();
    let after = input.deleted_after();
    lemma_refreshed_rows(before, templates);
    lemma_refreshed_rows(after, templates);
    lemma_splice_keeps_cursor(input, ' ');
    lemma_reopened_rows(before.closed_popup(), templates);
    lemma_reopened_rows(after.closed_popup(), templates);
    if input.popup is None {
        assert(after.closed_popup() == after);
    }
}

/// A typed character leaves an open `/` or `#` popup with exactly the commands
/// or templates that fit what now stands between its trigger and the cursor.
pub proof fn lemma_typing_keeps_rows_up_to_date(
    ch: char,
    store: &PromptTemplateStore,
    list: Option<String>,
)
    ensures
        forall|input: &mut ChatInputBoxState|
            #[trigger] call_ensures(insert_char, (ch, input, store), list) && (*input)@.typed(
                ch,
            ).cursor >= 1 ==> rows_up_to_date((*final(input))@, store.templates@),
{
    assert forall|input: &mut ChatInputBoxState|
        #[trigger] call_ensures(insert_char, (ch, input, store), list) && (*input)@.typed(ch).cursor
            >= 1 implies rows_up_to_date((*final(input))@, store.templates@) by {
        state::lemma_positions_count_from_zero(*input);
        lemma_rows_follow_the_text((*input)@, store.templates@, ch);
    }
}

/// A deletion takes out the cluster before or behind the cursor and nothing
/// else of the text.
pub proof fn lemma_deleting_takes_one_cluster(store: &PromptTemplateStore, list: Option<String>)
    ensures
        forall|input: &mut ChatInputBoxState|
            #[trigger] call_ensures(backspace, (input, store), list) && (*input)@.cursor
                <= (*input)@.clusters().len() ==> (*final(input))@.text == if (*input)@.cursor
                == 0 {
                (*input)@.text
            } else {
                text_before((*input)@, (*input)@.cursor - 1) + text_from(
                    (*input)@,
                    (*input)@.cursor,
                )
            },
        forall|input: &mut ChatInputBoxState|
            #[trigger] call_ensures(delete_forward, (input, store), ()) && (*input)@.cursor
                <= (*input)@.clusters().len() ==> (*final(input))@.text == if (*input)@.cursor
                == (*input)@.clusters().len() {
                (*input)@.text
            } else {
                text_before((*input)@, (*input)@.cursor) + text_from(
                    (*input)@,
                    (*input)@.cursor + 1,
                )
            },
{
    assert forall|input: &mut ChatInputBoxState|
        #[trigger] call_ensures(backspace, (input, store), list) && (*input)@.cursor
            <= (*input)@.clusters().len() implies (*final(input))@.text == if (*input)@.cursor
        == 0 {
        (*input)@.text
    } else {
        text_before((*input)@, (*input)@.cursor - 1) + text_from((*input)@, (*input)@.cursor)
    } by {
        state::lemma_positions_count_from_zero(*input);
        lemma_deleting_removes_one((*input)@, store.templates@);
    }
    assert forall|input: &mut ChatInputBoxState|
        #[trigger] call_ensures(delete_forward, (input, store), ()) && (*input)@.cursor
            <= (*input)@.clusters().len() implies (*final(input))@.text == if (*input)@.cursor
        == (*input)@.clusters().len() {
        (*input)@.text
    } else {
        text_before((*input)@, (*input)@.cursor) + text_from((*input)@, (*input)@.cursor + 1)
    } by {
        state::lemma_positions_count_from_zero(*input);
        lemma_deleting_removes_one((*input)@, store.templates@);
    }
}

/// A typed character stands between what was before the cursor and what was
/// behind it, unless it closes a `#` reference.
pub proof fn lemma_typing_puts_the_character_in(
    ch: char,
    store: &PromptTemplateStore,
    list: Option<String>,
)
    ensures
        forall|input: &mut ChatInputBoxState|
            #[trigger] call_ensures(insert_char, (ch, input, store), list) && (*input)@.cursor
                <= (*input)@.clusters().len() && !(ch == '#' && (*input)@.popup is Some
                && (*input)@.popup.unwrap().trigger == AutocompleteTrigger::Hash)
                ==> (*final(input))@.text == text_before((*input)@, (*input)@.cursor) + seq![ch]
                + text_from(
                (*input)@,
                (*input)@.cursor,
            ),
{
    assert forall|input: &mut ChatInputBoxState|
        #[trigger] call_ensures(insert_char, (ch, input, store), list) && (*input)@.cursor
            <= (*input)@.clusters().len() && !(ch == '#' && (*input)@.popup is Some
            && (*input)@.popup.unwrap().trigger == AutocompleteTrigger::Hash)
            implies (*final(input))@.text == text_before((*input)@, (*input)@.cursor) + seq![ch]
            + text_from(
        (*input)@,
        (*input)@.cursor,
    ) by {
        state::lemma_positions_count_from_zero(*input);
        lemma_typing_inserts((*input)@, store.templates@, ch);
    }
}

/// Confirming a row of a `/` or `#` popup puts its name behind the trigger and
/// brings the rows up to date; without a row to confirm nothing changes.
pub proof fn lemma_confirming_keeps_rows_up_to_date(
    store: &PromptTemplateStore,
    picker: &FilePickerState,
    list: Option<String>,
)
    ensures
        forall|input: &mut ChatInputBoxState|
            #[trigger] call_ensures(confirm, (input, store, picker), list) && (*input)@.popup is Some
                && (*input)@.popup.unwrap().trigger != AutocompleteTrigger::At ==> {
                let popup = (*input)@.popup.unwrap();
                &&& list is None
                &&& popup.selected >= popup.matches.len() ==> (*final(input))@ == (*input)@
                &&& popup.selected < popup.matches.len() ==> rows_up_to_date(
                    (*final(input))@,
                    store.templates@,
                )
                &&& popup.selected < popup.matches.len() && popup.token_start < (*input)@.cursor
                    <= (*input)@.clusters().len() ==> (*final(input))@.text == text_before(
                    (*input)@,
                    popup.token_start + 1,
                ) + popup.matches[popup.selected].name + text_from((*input)@, (*input)@.cursor)
            },
{
    assert forall|input: &mut ChatInputBoxState|
        #[trigger] call_ensures(confirm, (input, store, picker), list) && (*input)@.popup is Some
            && (*input)@.popup.unwrap().trigger != AutocompleteTrigger::At implies ({
        let popup = (*input)@.popup.unwrap();
        &&& list is None
        &&& popup.selected >= popup.matches.len() ==> (*final(input))@ == (*input)@
        &&& popup.selected < popup.matches.len() ==> rows_up_to_date(
            (*final(input))@,
            store.templates@,
        )
        &&& popup.selected < popup.matches.len() && popup.token_start < (*input)@.cursor
            <= (*input)@.clusters().len() ==> (*final(input))@.text == text_before(
            (*input)@,
            popup.token_start + 1,
        ) + popup.matches[popup.selected].name + text_from((*input)@, (*input)@.cursor)
    }) by {
        state::lemma_positions_count_from_zero(*input);
        lemma_rows_follow_the_confirmed_row((*input)@, store.templates@, picker.entries@);
        let popup = (*input)@.popup.unwrap();
        if popup.selected < popup.matches.len() && popup.token_start < (*input)@.cursor
            <= (*input)@.clusters().len() {
            lemma_confirming_puts_the_name((*input)@, store.templates@, picker.entries@);
        }
    }
}

/// The rows that are computed for a popup are those that fit: the commands for
/// `/`, and otherwise the templates by name and description.
pub proof fn lemma_computed_rows_fit(
    store: &PromptTemplateStore,
    filter: &str,
    commands: Vec<AutocompleteMatch>,
    references: Vec<AutocompleteMatch>,
)
    requires
        call_ensures(
            compute_updated_matches,
            (store, AutocompleteTrigger::Slash, filter),
            commands,
        ),
        call_ensures(
            compute_updated_matches,
            (store, AutocompleteTrigger::Hash, filter),
            references,
        ),
    ensures
        commands@.map_values(|row: AutocompleteMatch| row@)
            == slash_command::command_list().filter(
            |row: state::MatchView| slash_command::fits(filter@, row.name),
        ),
        references@.map_values(|row: AutocompleteMatch| row@) == store.templates@.filter(
            |t: PromptTemplate| slash_command::fits(filter@, t.name@),
        ).map_values(
            |t: PromptTemplate| state::MatchView { name: t.name@, description: t.description@ },
        ),
{
    slash_command::lemma_slash_rows(filter@);
    prompt_template::lemma_search_finds_fitting(store.templates@, filter@);
    assert(commands@.map_values(|row: AutocompleteMatch| row@) =~= state::match_views(commands@));
    assert(references@.map_values(|row: AutocompleteMatch| row@) =~= state::match_views(
        references@,
    ));
}

/// After a move, an open popup is that of a token which the cursor is in: the
/// trigger stands at or before the cursor, and no white space between them.
pub proof fn lemma_popup_is_around_the_cursor(
    moved: state::InputView,
    templates: Seq<PromptTemplate>,
    k: int,
)
    requires
        0 <= moved.cursor <= moved.clusters().len(),
        1 <= moved.clusters().len(),
        moved.popup matches Some(popup) ==> 0 <= popup.token_start < moved.clusters().len(),
        after_move(moved, templates).input.popup is Some,
        after_move(moved, templates).input.popup.unwrap().token_start < k < moved.cursor,
    ensures
        !text::blank(moved.clusters()[k]),
        after_move(moved, templates).input.popup.unwrap().trigger == AutocompleteTrigger::Hash
            ==> moved.clusters()[k] != "#"@,
{
    let after = after_move(moved, templates).input;
    let clusters = moved.clusters();
    token::lemma_token_at(clusters, moved.cursor, "#"@);
    token::lemma_token_at(clusters, moved.cursor, "@"@);
    token::lemma_token_end(clusters, 1, None);
    if let Some(popup) = moved.popup {
        token::lemma_token_end(clusters, popup.token_start + 1, Some("#"@));
    }
    assert(moved.closed_popup().clusters() == clusters);
    assert(after.clusters() == clusters);
}

/// When the cursor comes into a `#` token, its popup opens: the mark stands at
/// the start or behind a space or newline, and neither white space nor another
/// mark up to the cursor and under it.
pub proof fn lemma_move_into_a_reference_opens_it(
    moved: state::InputView,
    templates: Seq<PromptTemplate>,
    start: int,
)
    requires
        moved.popup is None,
        !token::in_command(moved),
        0 <= start < moved.cursor <= moved.clusters().len(),
        moved.clusters()[start] == "#"@,
        start == 0 || moved.clusters()[start - 1] == " "@ || moved.clusters()[start - 1] == "\n"@,
        forall|k: int|
            start < k <= moved.cursor && k < moved.clusters().len() ==> !text::blank(
                #[trigger] moved.clusters()[k],
            ) && moved.clusters()[k] != "#"@,
    ensures
        after_move(moved, templates).input.popup is Some,
        after_move(moved, templates).input.popup.unwrap().trigger == AutocompleteTrigger::Hash,
        after_move(moved, templates).input.popup.unwrap().token_start == start,
        after_move(moved, templates).list is None,
{
    token::lemma_token_is_found(moved.clusters(), start, moved.cursor, "#"@);
}

/// Whether the cursor stands at the position, or at the end of the text where
/// that is shorter.
pub open spec fn cursor_stands(input: state::InputView, position: int) -> bool {
    if position <= input.clusters().len() {
        input.cursor == position
    } else {
        input.cursor == input.clusters().len()
    }
}

/// A deletion leaves the cursor where the cluster was.
pub proof fn lemma_cursor_after_deleting(input: state::InputView, templates: Seq<PromptTemplate>)
    requires
        0 <= input.cursor <= input.clusters().len(),
    ensures
        input.cursor > 0 ==> cursor_stands(
            after_backspace(input, templates).input,
            input.cursor - 1,
        ),
        input.cursor == 0 ==> after_backspace(input, templates).input.cursor == 0,
        cursor_stands(after_delete(input, templates), input.cursor),
{
    lemma_reopening_keeps_text(input.deleted_before().closed_popup(), templates);
    let before = input.deleted_before();
    let after = input.deleted_after();
    assert(after_backspace(input, templates).input.closed_popup() == before.closed_popup());
    assert(after_delete(input, templates).closed_popup() == after.closed_popup());
    assert(after_backspace(input, templates).input.clusters() == before.clusters());
    assert(after_delete(input, templates).clusters() == after.clusters());
}

/// A confirmed name or path leaves the cursor behind it, and so does the body
/// of a template that a reference became.
pub proof fn lemma_cursor_after_completing(
    input: state::InputView,
    templates: Seq<PromptTemplate>,
    files: Seq<file_picker_state::FileEntry>,
)
    requires
        input.popup matches Some(popup) && 0 <= popup.token_start < input.cursor
            <= input.clusters().len() && popup.selected >= 0,
    ensures
        ({
            let popup = input.popup.unwrap();
            let after = after_confirm(input, templates, files).input;
            popup.trigger != AutocompleteTrigger::At && popup.selected < popup.matches.len()
                ==> cursor_stands(
                after,
                popup.token_start + 1 + text::grapheme_clusters(
                    popup.matches[popup.selected].name,
                ).len(),
            )
        }),
{
    let popup = input.popup.unwrap();
    let after = after_confirm(input, templates, files).input;
    if popup.trigger != AutocompleteTrigger::At && popup.selected < popup.matches.len() {
        let done = input.completed(popup.matches[popup.selected].name);
        assert(after.closed_popup() == done.closed_popup());
        assert(after.clusters() == done.clusters());
    }
}

/// The keys that delete leave the cursor where the cluster was, and a popup
/// that a deletion opens starts with its first row.
pub proof fn lemma_deleting_leaves_the_cursor(store: &PromptTemplateStore, list: Option<String>)
    ensures
        forall|input: &mut ChatInputBoxState|
            #[trigger] call_ensures(backspace, (input, store), list) && (*input)@.cursor
                <= (*input)@.clusters().len() ==> if (*input)@.cursor == 0 {
                (*final(input))@.cursor == 0
            } else {
                cursor_stands((*final(input))@, (*input)@.cursor - 1)
            },
        forall|input: &mut ChatInputBoxState|
            #[trigger] call_ensures(delete_forward, (input, store), ()) && (*input)@.cursor
                <= (*input)@.clusters().len() ==> cursor_stands(
                (*final(input))@,
                (*input)@.cursor,
            ),
        forall|input: &mut ChatInputBoxState|
            #[trigger] call_ensures(backspace, (input, store), list) && (*input)@.popup is None
                && (*final(input))@.popup is Some ==> (*final(input))@.popup.unwrap().selected == 0,
{
    assert forall|input: &mut ChatInputBoxState|
        #[trigger] call_ensures(backspace, (input, store), list) && (*input)@.cursor
            <= (*input)@.clusters().len() implies (if (*input)@.cursor == 0 {
        (*final(input))@.cursor == 0
    } else {
        cursor_stands((*final(input))@, (*input)@.cursor - 1)
    }) by {
        state::lemma_positions_count_from_zero(*input);
        lemma_cursor_after_deleting((*input)@, store.templates@);
    }
    assert forall|input: &mut ChatInputBoxState|
        #[trigger] call_ensures(delete_forward, (input, store), ()) && (*input)@.cursor
            <= (*input)@.clusters().len() implies cursor_stands(
        (*final(input))@,
        (*input)@.cursor,
    ) by {
        state::lemma_positions_count_from_zero(*input);
        lemma_cursor_after_deleting((*input)@, store.templates@);
    }
}

/// A popup that opens when the cursor moves starts with its first row, and one
/// that stays keeps its selection.
pub proof fn lemma_selection_after_move(moved: state::InputView, templates: Seq<PromptTemplate>)
    ensures
        after_move(moved, templates).input.popup matches Some(popup) ==> popup.selected == 0
            || moved.popup == Some(popup),
{
}

} // verus!
