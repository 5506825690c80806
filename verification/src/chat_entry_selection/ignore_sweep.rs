//! The sweep: while the key is held, each press sets the same override on one
//! more entry and moves the cursor on.

use crate::app_state::AppState;
use crate::chat_entry::{ChatEntry, ChatEntryId, ContextOverride};
use crate::chat_entry_selection::isolate;
use crate::chat_entry_selection::isolate::save_and_tell;
use crate::intent_result::{IntentMessage, IntentResult};
use crate::session::chat_log;
use vstd::prelude::*;

verus! {

/// Whether a sweep passes over the entry: it is pinned, or hidden in a
/// collapsed block.
pub open spec fn passed_over(
    entries: Seq<ChatEntry>,
    shown: Seq<ChatEntryId>,
    i: int,
) -> bool {
    entries[i].pinned() || chat_log::collapsed(entries, shown, i)
}

/// Where a sweep from `i` ends up: on the first entry that it does not pass
/// over, or at the bottom.
pub open spec fn sweep_stop(entries: Seq<ChatEntry>, shown: Seq<ChatEntryId>, i: int) -> int
    decreases entries.len() - i,
{
    let next = chat_log::step_from(entries, shown, i);
    if 0 <= i < next < entries.len() && passed_over(entries, shown, i) {
        sweep_stop(entries, shown, next)
    } else {
        i
    }
}

/// A sweep stops below where it starts, and passes over what it stops on only
/// at the bottom.
pub proof fn lemma_sweep_stop(entries: Seq<ChatEntry>, shown: Seq<ChatEntryId>, i: int)
    requires
        0 <= i < entries.len(),
    ensures
        i <= sweep_stop(entries, shown, i) < entries.len(),
        passed_over(entries, shown, sweep_stop(entries, shown, i)) ==> chat_log::step_from(
            entries,
            shown,
            sweep_stop(entries, shown, i),
        ) >= entries.len(),
    decreases entries.len() - i,
{
    chat_log::lemma_run_end(entries, i);
    let next = chat_log::step_from(entries, shown, i);
    if 0 <= i < next < entries.len() && passed_over(entries, shown, i) {
        lemma_sweep_stop(entries, shown, next);
    }
}

/// Whether the log and messages are those after a sweep from the entry at `i`.
pub open spec fn swept(
    before: chat_log::ChatLog,
    after: chat_log::ChatLog,
    messages: Seq<IntentMessage>,
    session: crate::chat_entry::SessionId,
    i: int,
    target: ContextOverride,
) -> bool {
    let stop = sweep_stop(before.entries@, before.shown_blocks@, i);
    if passed_over(before.entries@, before.shown_blocks@, stop) {
        &&& after == (chat_log::ChatLog { cursor: Some(stop as usize), ..before })
        &&& messages.len() == 0
    } else {
        &&& chat_log::chunk_set(before.entries@, stop, target, after.entries@)
        &&& after.shown_blocks@ == if target == ContextOverride::ForcedInclude
            && !chat_log::collapsed(after.entries@, before.shown_blocks@, stop) {
            chat_log::shown_after_unignore(after.entries@, before.shown_blocks@, stop)
        } else {
            before.shown_blocks@
        }
        &&& after.cursor == Some(
            chat_log::advanced(after.entries@, after.shown_blocks@, stop) as usize,
        )
        &&& after.ignore_sweep == Some(target)
        &&& isolate::saves_and_tells(
            messages,
            session,
            if chat_log::chunk_changes(before.entries@, stop, target) {
                seq![before.entries@[stop].id]
            } else {
                Seq::empty()
            },
        )
    }
}

/// A sweep leaves pinned entries and collapsed blocks as they are: always when
/// it excludes, and when it includes, unless the entry belongs to the very
/// tool loop that the sweep stops on, which is set as a whole.
pub proof fn lemma_sweep_spares_obstacles(
    before: chat_log::ChatLog,
    after: chat_log::ChatLog,
    messages: Seq<IntentMessage>,
    session: crate::chat_entry::SessionId,
    i: int,
    target: ContextOverride,
    k: int,
)
    requires
        0 <= i < before.entries@.len(),
        0 <= k < before.entries@.len(),
        swept(before, after, messages, session, i, target),
        passed_over(before.entries@, before.shown_blocks@, k),
        target == ContextOverride::ForcedExclude || !({
            let stop = sweep_stop(before.entries@, before.shown_blocks@, i);
            chat_log::chunk_start(before.entries@, stop) <= k < chat_log::chunk_end(
                before.entries@,
                stop,
            )
        }),
    ensures
        after.entries@[k] == before.entries@[k],
{
    lemma_sweep_stop(before.entries@, before.shown_blocks@, i);
}

/// Sweeps on from the cursor: pinned entries and collapsed blocks are passed
/// over, the override is set on the next entry, and the cursor moves one step
/// below it. At most one chunk changes.
pub fn run_sweep(state: &mut AppState, target: ContextOverride) -> (result: IntentResult)
    requires
        old(state).wf(),
    ensures
        final(state).wf(),
        isolate::only_log(*old(state), *final(state)),
        match old(state).session.active.log.cursor {
            Some(i) => swept(
                old(state).session.active.log,
                final(state).session.active.log,
                result.messages@,
                old(state).session.active.session_id,
                i as int,
                target,
            ),
            None => *final(state) == *old(state) && result.messages@.len() == 0,
        },
{
    let session_id = state.session.active.session_id;
    let ghost before = state.session.active.log;
    let ghost (entries, shown) = (before.entries@, before.shown_blocks@);
    let start: usize = match state.session.active.log.cursor {
        Some(i) => i,
        None => {
            return IntentResult::empty();
        },
    };
    let mut at: usize = start;
    while state.session.active.log.entries[at].is_pinned() || state.session.active.log.is_collapsed(
        at,
    )
        invariant
            state.wf(),
            isolate::only_log(*old(state), *state),
            before == old(state).session.active.log,
            (entries, shown) == (before.entries@, before.shown_blocks@),
            state.session.active.log == (chat_log::ChatLog { cursor: Some(at), ..before }),
            at < entries.len(),
            start < entries.len(),
            before.cursor == Some(start),
            sweep_stop(entries, shown, start as int) == sweep_stop(entries, shown, at as int),
        decreases entries.len() - at,
    {
        let count: usize = state.session.active.log.entries.len();
        proof {
            chat_log::lemma_run_end(entries, at as int);
            assert(chat_log::step_from(entries, shown, at as int) <= count);
        }
        if !state.session.active.log.advance_selection_one() {
            return IntentResult::empty();
        }
        at = match state.session.active.log.cursor {
            Some(i) => i,
            None => at,
        };
    }
    let mut changed: Vec<ChatEntryId> = Vec::new();
    if let Some(id) = state.session.active.log.set_entry_context_override_at(at, target) {
        changed.push(id);
    }
    if target == ContextOverride::ForcedInclude && !state.session.active.log.is_collapsed(at) {
        state.session.active.log.propagate_shown_on_unignore(at);
    }
    state.session.active.log.advance_selection_one();
    state.session.active.log.set_ignore_sweep(target);
    assert(changed@ =~= if chat_log::chunk_changes(entries, at as int, target) {
        seq![entries[at as int].id]
    } else {
        Seq::empty()
    });
    save_and_tell(session_id, changed)
}

/// A sweep passes over every entry from its start up to where it stops: each
/// of them is pinned or hidden. It stops on one that is neither, unless it has
/// come to the bottom.
pub proof fn lemma_sweep_passes_obstacles_alone(
    entries: Seq<ChatEntry>,
    shown: Seq<ChatEntryId>,
    i: int,
)
    requires
        0 <= i < entries.len(),
    ensures
        ({
            let stop = sweep_stop(entries, shown, i);
            &&& i <= stop < entries.len()
            &&& forall|k: int|
                #![trigger entries[k]]
                i <= k < stop ==> entries[k].pin_position is Some || chat_log::collapsed(
                    entries,
                    shown,
                    k,
                )
            &&& entries[stop].pin_position is Some || chat_log::collapsed(entries, shown, stop)
                ==> chat_log::step_from(entries, shown, stop) >= entries.len()
        }),
    decreases entries.len() - i,
{
    lemma_sweep_stop(entries, shown, i);
    chat_log::lemma_run_end(entries, i);
    let next = chat_log::step_from(entries, shown, i);
    if 0 <= i < next < entries.len() && passed_over(entries, shown, i) {
        lemma_sweep_passes_obstacles_alone(entries, shown, next);
        if chat_log::collapsed(entries, shown, i) {
            chat_log::lemma_whole_run_is_hidden(entries, shown, i);
        }
    }
}

/// A sweep that stops on an entry sets the override there, remembers it for
/// the next press, and saves the session; one that finds nothing but obstacles
/// only moves the cursor.
pub proof fn lemma_sweep_sets_one_chunk(
    before: chat_log::ChatLog,
    after: chat_log::ChatLog,
    messages: Seq<IntentMessage>,
    session: crate::chat_entry::SessionId,
    i: int,
    target: ContextOverride,
)
    requires
        0 <= i < before.entries@.len(),
        swept(before, after, messages, session, i, target),
    ensures
        ({
            let entries = before.entries@;
            let stop = sweep_stop(entries, before.shown_blocks@, i);
            let blocked = entries[stop].pin_position is Some || chat_log::collapsed(
                entries,
                before.shown_blocks@,
                stop,
            );
            &&& blocked ==> after.entries == before.entries && after.ignore_sweep
                == before.ignore_sweep && after.cursor == Some(stop as usize) && messages.len() == 0
            &&& !blocked ==> {
                &&& chat_log::chunk_set(entries, stop, target, after.entries@)
                &&& after.ignore_sweep == Some(target)
                &&& after.cursor == Some(
                    chat_log::advanced(after.entries@, after.shown_blocks@, stop) as usize,
                )
                &&& messages.len() >= 1
                &&& messages[0] matches IntentMessage::PersistSession(m) && m.session_id == session
                &&& after.entries@ != entries ==> messages.len() == 2 && (messages[1] matches
                    IntentMessage::ContextOverrideChanged(m) && m.session_id == session
                    && m.entry_id == entries[stop].id)
                &&& after.entries@ == entries ==> messages.len() == 1
            }
        }),
{
    lemma_sweep_stop(before.entries@, before.shown_blocks@, i);
    let stop = sweep_stop(before.entries@, before.shown_blocks@, i);
    if !passed_over(before.entries@, before.shown_blocks@, stop) {
        chat_log::lemma_chunk_changes(before.entries@, stop, target, after.entries@);
    }
}

/// A sweep sets the override of the first tool loop, from the cursor on, that
/// is neither pinned nor folded away, and of no other; then it saves, tells of
/// a change, and steps on. Without a cursor nothing happens.
pub proof fn lemma_run_sweep_sets_one_chunk(target: ContextOverride, result: IntentResult)
    ensures
        forall|state: &mut AppState|
            #[trigger] call_ensures(run_sweep, (state, target), result) && (*state).wf() ==> {
                let before = (*state).session.active.log;
                let after = (*final(state)).session.active.log;
                let entries = before.entries@;
                &&& before.cursor is None ==> *final(state) == *state && result.messages@.len()
                    == 0
                &&& before.cursor is Some ==> {
                    let stop = sweep_stop(entries, before.shown_blocks@, before.cursor.unwrap() as int);
                    let blocked = entries[stop].pin_position is Some || chat_log::collapsed(
                        entries,
                        before.shown_blocks@,
                        stop,
                    );
                    &&& before.cursor.unwrap() <= stop < entries.len()
                    &&& forall|k: int|
                        #![trigger entries[k]]
                        before.cursor.unwrap() <= k < stop ==> entries[k].pin_position is Some
                            || chat_log::collapsed(entries, before.shown_blocks@, k)
                    &&& blocked ==> after.entries == before.entries && result.messages@.len() == 0
                    &&& !blocked ==> {
                        &&& chat_log::chunk_set(entries, stop, target, after.entries@)
                        &&& after.ignore_sweep == Some(target)
                        &&& result.messages@.len() >= 1
                        &&& result.messages@[0] matches IntentMessage::PersistSession(m)
                            && m.session_id == (*state).session.active.session_id
                        &&& after.entries@ != entries ==> result.messages@.len() == 2
                        &&& after.entries@ == entries ==> result.messages@.len() == 1
                    }
                }
            },
{
    assert forall|state: &mut AppState|
        #[trigger] call_ensures(run_sweep, (state, target), result) && (*state).wf() implies ({
        let before = (*state).session.active.log;
        let after = (*final(state)).session.active.log;
        let entries = before.entries@;
        &&& before.cursor is None ==> *final(state) == *state && result.messages@.len() == 0
        &&& before.cursor is Some ==> {
            let stop = sweep_stop(entries, before.shown_blocks@, before.cursor.unwrap() as int);
            let blocked = entries[stop].pin_position is Some || chat_log::collapsed(
                entries,
                before.shown_blocks@,
                stop,
            );
            &&& before.cursor.unwrap() <= stop < entries.len()
            &&& forall|k: int|
                #![trigger entries[k]]
                before.cursor.unwrap() <= k < stop ==> entries[k].pin_position is Some
                    || chat_log::collapsed(entries, before.shown_blocks@, k)
            &&& blocked ==> after.entries == before.entries && result.messages@.len() == 0
            &&& !blocked ==> {
                &&& chat_log::chunk_set(entries, stop, target, after.entries@)
                &&& after.ignore_sweep == Some(target)
                &&& result.messages@.len() >= 1
                &&& result.messages@[0] matches IntentMessage::PersistSession(m) && m.session_id
                    == (*state).session.active.session_id
                &&& after.entries@ != entries ==> result.messages@.len() == 2
                &&& after.entries@ == entries ==> result.messages@.len() == 1
            }
        }
    }) by {
        let before = (*state).session.active.log;
        let after = (*final(state)).session.active.log;
        if let Some(i) = before.cursor {
            lemma_sweep_passes_obstacles_alone(before.entries@, before.shown_blocks@, i as int);
            lemma_sweep_sets_one_chunk(
                before,
                after,
                result.messages@,
                (*state).session.active.session_id,
                i as int,
                target,
            );
        }
    }
}

/// A sweep folds no block. It unfolds one only where it includes an entry, and
/// then none but the part of an unfolded block behind that entry.
pub proof fn lemma_sweep_folds_nothing(
    before: chat_log::ChatLog,
    after: chat_log::ChatLog,
    messages: Seq<IntentMessage>,
    session: crate::chat_entry::SessionId,
    i: int,
    target: ContextOverride,
    id: ChatEntryId,
)
    requires
        0 <= i < before.entries@.len(),
        swept(before, after, messages, session, i, target),
    ensures
        before.shown_blocks@.contains(id) ==> after.shown_blocks@.contains(id),
        target != ContextOverride::ForcedInclude ==> after.shown_blocks@ == before.shown_blocks@,
        after.shown_blocks@.contains(id) && !before.shown_blocks@.contains(id) ==> {
            let stop = sweep_stop(before.entries@, before.shown_blocks@, i);
            &&& stop + 1 < after.entries@.len()
            &&& id == after.entries@[stop + 1].id
            &&& after.entries@[stop + 1].context_override == ContextOverride::ForcedExclude
        },
{
    let stop = sweep_stop(before.entries@, before.shown_blocks@, i);
    lemma_sweep_stop(before.entries@, before.shown_blocks@, i);
    if !passed_over(before.entries@, before.shown_blocks@, stop) {
        chat_log::lemma_chunk_set(before.entries@, stop, target, after.entries@, stop);
        chat_log::lemma_unfolding_goes_on(after.entries@, before.shown_blocks@, stop);
    }
}

/// A sweep that includes an entry of an unfolded block keeps the part of the
/// block behind the entry unfolded.
pub proof fn lemma_including_sweep_keeps_blocks_unfolded(
    before: chat_log::ChatLog,
    after: chat_log::ChatLog,
    messages: Seq<IntentMessage>,
    session: crate::chat_entry::SessionId,
    i: int,
)
    requires
        0 <= i < before.entries@.len(),
        swept(before, after, messages, session, i, ContextOverride::ForcedInclude),
    ensures
        ({
            let stop = sweep_stop(before.entries@, before.shown_blocks@, i);
            let blocked = before.entries@[stop].pin_position is Some || chat_log::collapsed(
                before.entries@,
                before.shown_blocks@,
                stop,
            );
            !blocked && before.shown_blocks@.contains(before.entries@[stop].id)
                && chat_log::shown_excluded(after.entries@, stop + 1)
                ==> after.shown_blocks@.contains(after.entries@[stop + 1].id)
        }),
{
    let stop = sweep_stop(before.entries@, before.shown_blocks@, i);
    lemma_sweep_stop(before.entries@, before.shown_blocks@, i);
    if !passed_over(before.entries@, before.shown_blocks@, stop) {
        let target = ContextOverride::ForcedInclude;
        chat_log::lemma_chunk_is_a_tool_loop(before.entries@, stop);
        chat_log::lemma_chunk_set(before.entries@, stop, target, after.entries@, stop);
        chat_log::lemma_unfolding_goes_on(after.entries@, before.shown_blocks@, stop);
    }
}

} // verus!
