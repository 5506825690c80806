//! Directory listings: requests, replies, and the guard against stale ones.

use crate::chat_entry::SessionId;
use crate::file_lister::file_picker_state::{FileEntry, FilePickerState};
use crate::text;
use crate::text::text_le;
use vstd::prelude::*;

verus! {

/// Asks to list a directory for a session's file picker.
#[derive(Debug, PartialEq, Eq)]
pub struct ListDirectory {
    pub session_id: SessionId,
    /// The directory to list.
    pub path: String,
    /// Ties the reply to the request that is awaited.
    pub request_id: u64,
}

/// The entries read for a request.
#[derive(Debug, PartialEq, Eq)]
pub struct DirectoryListing {
    pub request_id: u64,
    pub entries: Vec<FileEntry>,
}

/// Takes directory listings into the file picker.
pub struct DirectoryListerActor;

/// Whether the entries are ordered by name.
pub open spec fn sorted_by_name(entries: Seq<FileEntry>) -> bool {
    forall|i: int, j: int|
        0 <= i < j < entries.len() ==> text::le((#[trigger] entries[i]).name@, (
        #[trigger] entries[j]).name@)
}

/// The ordered entries with one more put behind those that are not greater.
pub open spec fn inserted_by_name(entries: Seq<FileEntry>, entry: FileEntry) -> Seq<FileEntry>
    decreases entries.len(),
{
    if entries.len() == 0 || text::le(entries.last().name@, entry.name@) {
        entries.push(entry)
    } else {
        inserted_by_name(entries.drop_last(), entry).push(entries.last())
    }
}

/// The entries ordered by name; entries of one name keep their order.
pub open spec fn by_name(entries: Seq<FileEntry>) -> Seq<FileEntry>
    decreases entries.len(),
{
    if entries.len() == 0 {
        Seq::empty()
    } else {
        inserted_by_name(by_name(entries.drop_last()), entries.last())
    }
}

proof fn lemma_inserted_by_name(entries: Seq<FileEntry>, entry: FileEntry)
    requires
        sorted_by_name(entries),
    ensures
        sorted_by_name(inserted_by_name(entries, entry)),
        inserted_by_name(entries, entry).to_multiset() == entries.to_multiset().insert(entry),
        forall|bound: Seq<char>|
            text::le(entry.name@, bound) && (forall|k: int|
                0 <= k < entries.len() ==> text::le((#[trigger] entries[k]).name@, bound)) ==> (
            forall|k: int|
                0 <= k < inserted_by_name(entries, entry).len() ==> #[trigger] text::le(
                    inserted_by_name(entries, entry)[k].name@,
                    bound,
                )),
    decreases entries.len(),
{
    broadcast use vstd::seq_lib::to_multiset_build;

    let after = inserted_by_name(entries, entry);
    if entries.len() > 0 {
        let init = entries.drop_last();
        let last = entries.last();
        assert(entries =~= init.push(last));
        if text::le(last.name@, entry.name@) {
            assert forall|i: int, j: int| 0 <= i < j < after.len() implies text::le(
                (#[trigger] after[i]).name@,
                (#[trigger] after[j]).name@,
            ) by {
                if j == entries.len() && i < entries.len() - 1 {
                    assert(text::le(entries[i].name@, last.name@));
                    text::lemma_le_transitive(entries[i].name@, last.name@, entry.name@);
                }
            }
        } else {
            text::lemma_le_total(last.name@, entry.name@);
            assert(sorted_by_name(init)) by {
                assert forall|i: int, j: int| 0 <= i < j < init.len() implies text::le(
                    (#[trigger] init[i]).name@,
                    (#[trigger] init[j]).name@,
                ) by {
                    assert(init[i] == entries[i] && init[j] == entries[j]);
                }
            }
            lemma_inserted_by_name(init, entry);
            let part = inserted_by_name(init, entry);
            assert forall|k: int| 0 <= k < init.len() implies text::le(
                (#[trigger] init[k]).name@,
                last.name@,
            ) by {
                assert(init[k] == entries[k] && last == entries[entries.len() - 1]);
            }
            assert forall|i: int, j: int| 0 <= i < j < after.len() implies text::le(
                (#[trigger] after[i]).name@,
                (#[trigger] after[j]).name@,
            ) by {
                if j == part.len() {
                    assert(text::le(part[i].name@, last.name@));
                }
            }
            assert(part.push(last).to_multiset() =~= init.to_multiset().insert(entry).insert(last));
            assert(entries.to_multiset().insert(entry) =~= init.to_multiset().insert(last).insert(
                entry,
            ));
            assert forall|bound: Seq<char>|
                text::le(entry.name@, bound) && (forall|k: int|
                    0 <= k < entries.len() ==> text::le(
                        (#[trigger] entries[k]).name@,
                        bound,
                    )) implies (forall|k: int|
                0 <= k < after.len() ==> #[trigger] text::le(after[k].name@, bound)) by {
                assert forall|k: int| 0 <= k < init.len() implies text::le(
                    (#[trigger] init[k]).name@,
                    bound,
                ) by {
                    assert(init[k] == entries[k]);
                }
                assert(text::le(entries[entries.len() - 1].name@, bound));
                assert forall|k: int| 0 <= k < after.len() implies #[trigger] text::le(
                    after[k].name@,
                    bound,
                ) by {
                    if k < part.len() {
                        assert(text::le(part[k].name@, bound));
                    }
                }
            }
        }
    }
}

/// A listing holds the entries that were read, ordered by name.
pub proof fn lemma_by_name(entries: Seq<FileEntry>)
    ensures
        sorted_by_name(by_name(entries)),
        by_name(entries).to_multiset() == entries.to_multiset(),
    decreases entries.len(),
{
    broadcast use vstd::seq_lib::to_multiset_build;

    if entries.len() > 0 {
        lemma_by_name(entries.drop_last());
        lemma_inserted_by_name(by_name(entries.drop_last()), entries.last());
        assert(entries =~= entries.drop_last().push(entries.last()));
    } else {
        assert(by_name(entries) =~= entries);
    }
}

proof fn lemma_insert_position(entries: Seq<FileEntry>, entry: FileEntry, at: int)
    requires
        0 <= at <= entries.len(),
        at > 0 ==> text::le(entries[at - 1].name@, entry.name@),
        forall|j: int|
            at <= j < entries.len() ==> !text::le((#[trigger] entries[j]).name@, entry.name@),
    ensures
        inserted_by_name(entries, entry) == entries.insert(at, entry),
    decreases entries.len(),
{
    if at == entries.len() {
        assert(entries.insert(at, entry) =~= entries.push(entry));
    } else {
        let init = entries.drop_last();
        let last = entries.last();
        assert(last == entries[entries.len() - 1]);
        assert forall|j: int| at <= j < init.len() implies !text::le(
            (#[trigger] init[j]).name@,
            entry.name@,
        ) by {
            assert(init[j] == entries[j]);
        }
        lemma_insert_position(init, entry, at);
        assert(entries.insert(at, entry) =~= init.insert(at, entry).push(last));
    }
}

/// Orders the entries of a listing by name.
pub fn sort_entries(entries: Vec<FileEntry>) -> (sorted: Vec<FileEntry>)
    ensures
        sorted@ == by_name(entries@),
{
    let ghost all = entries@;
    let mut rest = entries;
    let mut sorted: Vec<FileEntry> = Vec::new();
    let ghost mut taken: int = 0;
    assert(all.skip(0) =~= all);
    while rest.len() > 0
        invariant
            0 <= taken <= all.len(),
            rest@ == all.skip(taken),
            sorted@ == by_name(all.take(taken)),
        decreases rest@.len(),
    {
        let entry = rest.remove(0);
        let mut at: usize = sorted.len();
        while at > 0 && !text_le(sorted[at - 1].name.as_str(), entry.name.as_str())
            invariant
                at <= sorted@.len(),
                forall|j: int|
                    at <= j < sorted@.len() ==> !text::le(
                        (#[trigger] sorted@[j]).name@,
                        entry.name@,
                    ),
            decreases at,
        {
            at -= 1;
        }
        proof {
            lemma_insert_position(sorted@, entry, at as int);
            assert(all.take(taken + 1).drop_last() =~= all.take(taken));
            assert(all.skip(taken).remove(0) =~= all.skip(taken + 1));
            taken = taken + 1;
        }
        sorted.insert(at, entry);
    }
    assert(all.take(taken) =~= all);
    sorted
}

/// The picker after a listing came in: it takes the awaited one and drops any
/// other.
pub open spec fn after_listing(
    picker: FilePickerState,
    listing: DirectoryListing,
) -> FilePickerState {
    if picker.expected_request_id == listing.request_id {
        FilePickerState { entries: listing.entries, loading: false, ..picker }
    } else {
        picker
    }
}

impl DirectoryListerActor {
    /// The reply to a request: the entries read, by name. A directory that
    /// could not be read lists nothing.
    pub fn reply(request: &ListDirectory, read: Option<Vec<FileEntry>>) -> (listing:
        DirectoryListing)
        ensures
            listing.request_id == request.request_id,
            listing.entries@ == (match read {
                Some(entries) => by_name(entries@),
                None => Seq::empty(),
            }),
    {
        match read {
            Some(entries) => DirectoryListing {
                request_id: request.request_id,
                entries: sort_entries(entries),
            },
            None => DirectoryListing { request_id: request.request_id, entries: Vec::new() },
        }
    }

    /// Takes a listing into the picker, unless a newer one is awaited.
    pub fn handle_listing(picker: &mut FilePickerState, listing: DirectoryListing)
        ensures
            *final(picker) == after_listing(*old(picker), listing),
    {
        if picker.expected_request_id == listing.request_id {
            picker.entries = listing.entries;
            picker.loading = false;
        }
    }
}

/// The picker takes the listing that it awaits, and with it stops waiting; any
/// other one changes nothing.
pub proof fn lemma_only_the_awaited_listing_counts(
    picker: FilePickerState,
    listing: DirectoryListing,
)
    ensures
        picker.expected_request_id == listing.request_id ==> after_listing(
            picker,
            listing,
        ).entries@ == listing.entries@ && !after_listing(picker, listing).loading,
        picker.expected_request_id != listing.request_id ==> after_listing(picker, listing)
            == picker,
        after_listing(picker, listing).expected_request_id == picker.expected_request_id,
{
}

/// A reply answers the request it was made for. It lists the entries that were
/// read, each once and by ascending name, and nothing where none could be.
pub proof fn lemma_reply_lists_what_was_read(
    request: &ListDirectory,
    entries: Vec<FileEntry>,
    listing: DirectoryListing,
    failed: DirectoryListing,
)
    requires
        call_ensures(DirectoryListerActor::reply, (request, Some(entries)), listing),
        call_ensures(DirectoryListerActor::reply, (request, None), failed),
    ensures
        listing.request_id == request.request_id,
        listing.entries@.to_multiset() == entries@.to_multiset(),
        forall|i: int, j: int|
            0 <= i < j < listing.entries@.len() ==> text::le(
                (#[trigger] listing.entries@[i]).name@,
                (#[trigger] listing.entries@[j]).name@,
            ),
        failed.request_id == request.request_id,
        failed.entries@.len() == 0,
{
    lemma_by_name(entries@);
}

/// The picker takes the listing that it awaits and stops waiting; a listing
/// with another id changes nothing.
pub proof fn lemma_stale_listings_are_dropped(listing: DirectoryListing)
    ensures
        forall|picker: &mut FilePickerState|
            #[trigger] call_ensures(
                DirectoryListerActor::handle_listing,
                (picker, listing),
                (),
            ) ==> if picker.expected_request_id == listing.request_id {
                &&& (*final(picker)).entries@ == listing.entries@
                &&& !(*final(picker)).loading
                &&& (*final(picker)).expected_request_id == listing.request_id
            } else {
                *final(picker) == *picker
            },
{
}

} // verus!
