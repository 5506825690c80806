//! A cache of token counts per session and entry.

use crate::chat_entry::{ChatEntryId, SessionId};
use std::collections::HashMap;
use vstd::prelude::*;

verus! {

broadcast use vstd::std_specs::hash::group_hash_axioms;

/// Token counts by session and entry. A count once stored is kept.
pub struct HistoryWorkerChatEntryTokenCache {
    sessions: HashMap<u128, HashMap<u128, u32>>,
}

impl View for HistoryWorkerChatEntryTokenCache {
    type V = Map<(SessionId, ChatEntryId), u32>;

    closed spec fn view(&self) -> Map<(SessionId, ChatEntryId), u32> {
        Map::new(
            |key: (SessionId, ChatEntryId)|
                self.sessions@.contains_key(key.0.0) && self.sessions@[key.0.0]@.contains_key(
                    key.1.0,
                ),
            |key: (SessionId, ChatEntryId)| self.sessions@[key.0.0]@[key.1.0],
        )
    }
}

impl HistoryWorkerChatEntryTokenCache {
    /// A cache without counts.
    pub fn new() -> (cache: HistoryWorkerChatEntryTokenCache)
        ensures
            cache@ == Map::<(SessionId, ChatEntryId), u32>::empty(),
    {
        let cache = HistoryWorkerChatEntryTokenCache { sessions: HashMap::new() };
        assert(cache@ =~= Map::<(SessionId, ChatEntryId), u32>::empty());
        cache
    }

    /// The stored count of an entry.
    pub fn get(&self, session_id: &SessionId, entry_id: &ChatEntryId) -> (count: Option<u32>)
        ensures
            count == (if self@.contains_key((*session_id, *entry_id)) {
                Some(self@[(*session_id, *entry_id)])
            } else {
                None
            }),
    {
        match self.sessions.get(&session_id.0) {
            Some(counts) => match counts.get(&entry_id.0) {
                Some(count) => Some(*count),
                None => None,
            },
            None => None,
        }
    }

    /// Stores the count of an entry.
    pub fn insert(&mut self, session_id: &SessionId, entry_id: &ChatEntryId, count: u32)
        ensures
            final(self)@ == old(self)@.insert((*session_id, *entry_id), count),
    {
        let mut counts = match self.sessions.remove(&session_id.0) {
            Some(counts) => counts,
            None => HashMap::new(),
        };
        counts.insert(entry_id.0, count);
        self.sessions.insert(session_id.0, counts);
        proof {
            let key = (*session_id, *entry_id);
            let expected = old(self)@.insert(key, count);
            assert forall|k: (SessionId, ChatEntryId)|
                self@.contains_key(k) == expected.contains_key(k) && (self@.contains_key(k)
                    ==> self@[k] == expected[k]) by {
                assert(k.0.0 == session_id.0 ==> k.0 == *session_id);
                assert(k.1.0 == entry_id.0 ==> k.1 == *entry_id);
            }
            assert(self@ =~= expected);
        }
    }

    /// The stored count of an entry, or the computed one, which is then
    /// stored.
    pub fn get_or_insert_with<F: FnOnce() -> u32>(
        &mut self,
        session_id: &SessionId,
        entry_id: &ChatEntryId,
        compute: F,
    ) -> (count: u32)
        requires
            compute.requires(()),
        ensures
            old(self)@.contains_key((*session_id, *entry_id)) ==> final(self)@ == old(self)@
                && count == old(self)@[(*session_id, *entry_id)],
            !old(self)@.contains_key((*session_id, *entry_id)) ==> compute.ensures((), count)
                && final(self)@ == old(self)@.insert((*session_id, *entry_id), count),
    {
        match self.get(session_id, entry_id) {
            Some(count) => count,
            None => {
                let count: u32 = compute();
                self.insert(session_id, entry_id, count);
                count
            },
        }
    }
}

/// A stored count is found again under its session and entry, and nowhere
/// else; a count that is known is not computed anew.
pub proof fn lemma_count_is_found_again(
    session_id: &SessionId,
    entry_id: &ChatEntryId,
    count: u32,
    other: (SessionId, ChatEntryId),
)
    ensures
        forall|cache: &mut HistoryWorkerChatEntryTokenCache|
            #[trigger] call_ensures(
                HistoryWorkerChatEntryTokenCache::insert,
                (cache, session_id, entry_id, count),
                (),
            ) ==> {
                let (before, after) = ((*cache)@, (*final(cache))@);
                &&& after.contains_key((*session_id, *entry_id))
                &&& after[(*session_id, *entry_id)] == count
                &&& other != (*session_id, *entry_id) ==> (after.contains_key(other)
                    <==> before.contains_key(other)) && (before.contains_key(other)
                    ==> after[other] == before[other])
            },
{
}

} // verus!
