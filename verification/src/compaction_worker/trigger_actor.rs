//! Manual compaction: the feedback shown to the user and what is submitted.

use crate::chat_entry::{ChatEntry, ChatEntryKind, ContextOverride, SessionId};
use crate::history::{HistoryMutation, PushChatEntry, SubmitHistoryMutations, TriggerCompaction};
use crate::text;
use vstd::prelude::*;

verus! {

/// Asks the compaction worker to evaluate a session.
#[derive(Clone, Copy, Debug, PartialEq, Eq, Structural)]
pub struct CompactionTrigger {
    pub session_id: SessionId,
    pub compact_all: bool,
}

/// What to publish once the compaction worker has answered.
#[derive(Debug, PartialEq, Eq)]
pub enum CompactionAction {
    Push(PushChatEntry),
    Submit(SubmitHistoryMutations),
}

/// Whether the action shows the system notice `notice` in the session.
pub open spec fn pushes_notice(
    push: PushChatEntry,
    session_id: SessionId,
    notice: Seq<char>,
) -> bool {
    &&& push.session_id == session_id
    &&& push.entry.is_fresh()
    &&& push.entry.kind matches ChatEntryKind::System(shown) && shown@ == notice
}

/// The notice that nothing had to be compacted.
pub open spec fn skipped_notice(reserve_tokens: usize) -> Seq<char> {
    "⚠ Compaction skipped: recent conversation fits within reserve ("@ + text::decimal(
        reserve_tokens as nat,
    ) + " tokens)."@
}

/// Handles manual compaction triggers, one at a time.
pub struct CompactionTriggerActor {
    /// The trigger whose evaluation is awaited.
    pub pending: Option<TriggerCompaction>,
}

impl CompactionTriggerActor {
    /// An actor that awaits nothing.
    pub fn new() -> (actor: CompactionTriggerActor)
        ensures
            actor.pending is None,
    {
        CompactionTriggerActor { pending: None }
    }

    /// Takes a trigger: the queued notice to show at once, and the request to
    /// the worker.
    pub fn handle_trigger_compaction(&mut self, payload: TriggerCompaction) -> (started: (
        PushChatEntry,
        CompactionTrigger,
    ))
        ensures
            final(self).pending == Some(payload),
            pushes_notice(started.0, payload.session_id, "⏳ Compacting context..."@),
            started.1.session_id == payload.session_id,
            started.1.compact_all == payload.compact_all,
    {
        self.pending = Some(payload);
        (
            PushChatEntry {
                session_id: payload.session_id,
                entry: ChatEntry::system("⏳ Compacting context..."),
            },
            CompactionTrigger {
                session_id: payload.session_id,
                compact_all: payload.compact_all,
            },
        )
    }

    /// Takes the worker's answer to the pending trigger: its changes are
    /// submitted as they are; no changes or a failure become a notice.
    pub fn handle_evaluated(
        &mut self,
        outcome: Result<Vec<HistoryMutation>, String>,
        reserve_tokens: usize,
    ) -> (action: Option<CompactionAction>)
        ensures
            final(self).pending is None,
            old(self).pending is None <==> action is None,
            old(self).pending matches Some(payload) ==> match outcome {
                Ok(mutations) if mutations@.len() > 0 => action == Some(
                    CompactionAction::Submit(
                        SubmitHistoryMutations { session_id: payload.session_id, mutations },
                    ),
                ),
                Ok(_) => action matches Some(CompactionAction::Push(push)) && pushes_notice(
                    push,
                    payload.session_id,
                    skipped_notice(reserve_tokens),
                ),
                Err(reason) => action matches Some(CompactionAction::Push(push)) && pushes_notice(
                    push,
                    payload.session_id,
                    "⚠ Compaction failed: "@ + reason@,
                ),
            },
    {
        let payload = match self.pending {
            Some(payload) => payload,
            None => {
                return None;
            },
        };
        self.pending = None;
        match outcome {
            Ok(mutations) => {
                if mutations.len() > 0 {
                    return Some(
                        CompactionAction::Submit(
                            SubmitHistoryMutations { session_id: payload.session_id, mutations },
                        ),
                    );
                }
                let mut notice = "⚠ Compaction skipped: recent conversation fits within reserve ("
                    .to_owned();
                let reserve = text::to_decimal(reserve_tokens);
                notice.append(reserve.as_str());
                notice.append(" tokens).");
                Some(
                    CompactionAction::Push(
                        PushChatEntry {
                            session_id: payload.session_id,
                            entry: ChatEntry::system(notice.as_str()),
                        },
                    ),
                )
            },
            Err(reason) => {
                let mut notice = "⚠ Compaction failed: ".to_owned();
                notice.append(reason.as_str());
                Some(
                    CompactionAction::Push(
                        PushChatEntry {
                            session_id: payload.session_id,
                            entry: ChatEntry::system(notice.as_str()),
                        },
                    ),
                )
            },
        }
    }
}

/// The feedback on a compaction is for the user alone: it is a system notice
/// with the given text in the session, and it never reaches the model.
pub proof fn lemma_feedback_is_not_sent(push: PushChatEntry, session_id: SessionId, notice: Seq<char>)
    requires
        pushes_notice(push, session_id, notice),
    ensures
        push.session_id == session_id,
        push.entry.kind is System,
        push.entry.kind->System_0@ == notice,
        push.entry.pin_position is None,
        push.entry.context_override == ContextOverride::Default,
        !push.entry.in_context(),
{
}

/// The notice of a skipped compaction tells the reserve.
pub proof fn lemma_skipped_notice_tells_the_reserve(reserve_tokens: usize)
    ensures
        exists|digits: Seq<char>|
            #![trigger text::digits_value(digits)]
            text::digits_value(digits) == reserve_tokens && skipped_notice(reserve_tokens)
                == "⚠ Compaction skipped: recent conversation fits within reserve ("@ + digits
                + " tokens)."@,
{
    text::lemma_decimal(reserve_tokens as nat);
    assert(text::digits_value(text::decimal(reserve_tokens as nat)) == reserve_tokens);
}

/// A trigger is awaited from then on. It goes to the worker for the same
/// session and range, and the user sees a notice that never reaches the model.
pub proof fn lemma_trigger_is_awaited(
    payload: TriggerCompaction,
    started: (PushChatEntry, CompactionTrigger),
)
    ensures
        forall|actor: &mut CompactionTriggerActor|
            #[trigger] call_ensures(
                CompactionTriggerActor::handle_trigger_compaction,
                (actor, payload),
                started,
            ) ==> {
                &&& (*final(actor)).pending == Some(payload)
                &&& started.1.session_id == payload.session_id
                &&& started.1.compact_all == payload.compact_all
                &&& started.0.session_id == payload.session_id
                &&& started.0.entry.kind is System
                &&& !started.0.entry.in_context()
            },
{
}

/// An answer is taken once: changes are submitted as they are to the session
/// that asked, and no changes or a failure are told there by a notice that
/// never reaches the model. An answer that nobody awaits is dropped.
pub proof fn lemma_answer_is_taken_once(
    outcome: Result<Vec<HistoryMutation>, String>,
    reserve_tokens: usize,
    action: Option<CompactionAction>,
)
    ensures
        forall|actor: &mut CompactionTriggerActor|
            #[trigger] call_ensures(
                CompactionTriggerActor::handle_evaluated,
                (actor, outcome, reserve_tokens),
                action,
            ) ==> {
                let awaited = (*actor).pending;
                &&& (*final(actor)).pending is None
                &&& awaited is None ==> action is None
                &&& awaited is Some && outcome is Ok && outcome->Ok_0@.len() > 0 ==> (
                action matches Some(CompactionAction::Submit(s)) && s.session_id
                    == awaited.unwrap().session_id && s.mutations == outcome->Ok_0)
                &&& awaited is Some && !(outcome is Ok && outcome->Ok_0@.len() > 0) ==> (
                action matches Some(CompactionAction::Push(p)) && p.session_id
                    == awaited.unwrap().session_id && p.entry.kind is System
                    && !p.entry.in_context())
            },
{
}

} // verus!
