//! The listed entries and how a typed path narrows them.

use crate::text;
use crate::text::{chars_of, starts_with, text_eq, to_lowercase};
use vstd::prelude::*;

verus! {

/// One directory entry.
#[derive(Debug, PartialEq, Eq)]
pub struct FileEntry {
    pub name: String,
    pub is_dir: bool,
}

/// The state of the file picker.
#[derive(Debug, PartialEq, Eq)]
pub struct FilePickerState {
    /// The entries of the listed directory.
    pub entries: Vec<FileEntry>,
    /// Whether a listing is awaited.
    pub loading: bool,
    /// The id of the listing that is awaited.
    pub expected_request_id: u64,
}

/// The index behind the last `/` below `n`, or 0.
pub open spec fn segment_start(path: Seq<char>, n: int) -> int
    decreases n,
{
    if n <= 0 {
        0
    } else if path[n - 1] == '/' {
        n
    } else {
        segment_start(path, n - 1)
    }
}

/// The part of a path behind its last `/`.
pub open spec fn last_segment(path: Seq<char>) -> Seq<char> {
    path.skip(segment_start(path, path.len() as int))
}

/// Whether an entry is shown for a typed path: its name begins with the last
/// segment, whatever the case.
pub open spec fn shown_for(entry: FileEntry, path: Seq<char>) -> bool {
    last_segment(path).len() == 0 || text::lowercase(last_segment(path)).is_prefix_of(
        text::lowercase(entry.name@),
    )
}

/// The entries shown for a typed path, in their order.
pub open spec fn visible(entries: Seq<FileEntry>, path: Seq<char>) -> Seq<FileEntry>
    decreases entries.len(),
{
    if entries.len() == 0 {
        Seq::empty()
    } else {
        let before = visible(entries.drop_last(), path);
        if shown_for(entries.last(), path) {
            before.push(entries.last())
        } else {
            before
        }
    }
}

/// Every shown entry is a listed one that matches, and every listed one that
/// matches is shown.
pub proof fn lemma_visible(entries: Seq<FileEntry>, path: Seq<char>, entry: FileEntry)
    ensures
        visible(entries, path).contains(entry) <==> entries.contains(entry) && shown_for(
            entry,
            path,
        ),
    decreases entries.len(),
{
    if entries.len() > 0 {
        let init = entries.drop_last();
        let last = entries.last();
        lemma_visible(init, path, entry);
        assert(entries =~= init.push(last));
        lemma_push_holds(init, last, entry);
        lemma_push_holds(visible(init, path), last, entry);
    }
}

proof fn lemma_push_holds(entries: Seq<FileEntry>, last: FileEntry, entry: FileEntry)
    ensures
        entries.push(last).contains(entry) <==> entries.contains(entry) || entry == last,
{
    let all = entries.push(last);
    if entries.contains(entry) {
        let k = choose|k: int| 0 <= k < entries.len() && entries[k] == entry;
        assert(all[k] == entry);
    }
    if entry == last {
        assert(all[entries.len() as int] == entry);
    }
    if all.contains(entry) && entry != last {
        let k = choose|k: int| 0 <= k < all.len() && all[k] == entry;
        assert(entries[k] == entry);
    }
}

/// The part of a path behind its last `/`.
fn last_segment_of(path: &str) -> (segment: String)
    ensures
        segment@ == last_segment(path@),
{
    let chars = chars_of(path);
    let mut start: usize = chars.len();
    while start > 0 && chars[start - 1] != '/'
        invariant
            start <= chars@.len(),
            chars@ == path@,
            segment_start(path@, path@.len() as int) == segment_start(path@, start as int),
        decreases start,
    {
        start -= 1;
    }
    text::from_chars(&chars, start)
}

impl FilePickerState {
    /// An empty picker that awaits nothing.
    pub fn new() -> (picker: FilePickerState)
        ensures
            picker.entries@.len() == 0,
            !picker.loading,
            picker.expected_request_id == 0,
    {
        FilePickerState { entries: Vec::new(), loading: false, expected_request_id: 0 }
    }

    /// A picker with these entries that awaits nothing.
    pub fn with_entries(entries: Vec<FileEntry>) -> (picker: FilePickerState)
        ensures
            picker == (FilePickerState { entries, loading: false, expected_request_id: 0 }),
    {
        FilePickerState { entries, loading: false, expected_request_id: 0 }
    }

    /// The entries shown for a typed path, in their order.
    pub fn visible_entries(&self, filter: &str) -> (shown: Vec<&FileEntry>)
        ensures
            shown@.map_values(|entry: &FileEntry| *entry) == visible(self.entries@, filter@),
    {
        let segment = last_segment_of(filter);
        let needle = to_lowercase(segment.as_str());
        let all = segment.as_str().is_empty();
        let mut shown: Vec<&FileEntry> = Vec::new();
        let mut i: usize = 0;
        assert(shown@.map_values(|entry: &FileEntry| *entry) =~= Seq::<FileEntry>::empty());
        while i < self.entries.len()
            invariant
                i <= self.entries@.len(),
                segment@ == last_segment(filter@),
                needle@ == text::lowercase(segment@),
                all == (segment@.len() == 0),
                shown@.map_values(|entry: &FileEntry| *entry) == visible(
                    self.entries@.take(i as int),
                    filter@,
                ),
            decreases self.entries@.len() - i,
        {
            let ghost before = shown@;
            let entry = &self.entries[i];
            assert(self.entries@.take(i + 1).drop_last() =~= self.entries@.take(i as int));
            let name = to_lowercase(entry.name.as_str());
            if all || starts_with(name.as_str(), needle.as_str()) {
                shown.push(entry);
                assert(shown@.map_values(|entry: &FileEntry| *entry) =~= before.map_values(
                    |entry: &FileEntry| *entry,
                ).push(*entry));
            }
            i += 1;
        }
        assert(self.entries@.take(i as int) =~= self.entries@);
        shown
    }
}

/// A path below a base directory. An absolute path stands alone.
pub open spec fn joined_path(base: Seq<char>, path: Seq<char>) -> Seq<char> {
    if path.len() > 0 && path[0] == '/' {
        path
    } else if base.len() == 0 || base.last() == '/' {
        base + path
    } else {
        base + "/"@ + path
    }
}

/// The directory that a typed path names: the working directory for nothing,
/// the home directory for `~`, and a path below one of them otherwise.
pub open spec fn list_dir(filter: Seq<char>, cwd: Seq<char>, home: Seq<char>) -> Seq<char> {
    if filter.len() == 0 {
        cwd
    } else if filter == "~"@ {
        home
    } else if "~/"@.is_prefix_of(filter) {
        joined_path(home, filter.skip(2))
    } else {
        joined_path(cwd, filter)
    }
}

/// A path below a base directory. An absolute path stands alone.
pub fn join_path(base: &str, path: &str) -> (joined: String)
    ensures
        joined@ == joined_path(base@, path@),
{
    let path_chars = chars_of(path);
    if path_chars.len() > 0 && path_chars[0] == '/' {
        return path.to_owned();
    }
    let base_chars = chars_of(base);
    let mut joined = base.to_owned();
    if base_chars.len() > 0 && base_chars[base_chars.len() - 1] != '/' {
        joined.append("/");
    }
    joined.append(path);
    joined
}

/// The directory to list for a typed path.
pub fn resolve_list_dir(filter: &str, cwd: &str, home: &str) -> (dir: String)
    ensures
        dir@ == list_dir(filter@, cwd@, home@),
{
    if filter.is_empty() {
        return cwd.to_owned();
    }
    if text_eq(filter, "~") {
        return home.to_owned();
    }
    if starts_with(filter, "~/") {
        let chars = chars_of(filter);
        proof {
            reveal_strlit("~/");
        }
        let rest = text::from_chars(&chars, 2);
        return join_path(home, rest.as_str());
    }
    join_path(cwd, filter)
}

proof fn lemma_segment_start(path: Seq<char>, n: int)
    requires
        0 <= n <= path.len(),
    ensures
        0 <= segment_start(path, n) <= n,
        segment_start(path, n) > 0 ==> path[segment_start(path, n) - 1] == '/',
        forall|k: int| segment_start(path, n) <= k < n ==> #[trigger] path[k] != '/',
    decreases n,
{
    if n > 0 && path[n - 1] != '/' {
        lemma_segment_start(path, n - 1);
    }
}

/// A path is what stands up to its last `/` and the last segment, which holds
/// none.
pub proof fn lemma_last_segment(path: Seq<char>) -> (head: Seq<char>)
    ensures
        path == head + last_segment(path),
        head.len() > 0 ==> head.last() == '/',
        forall|k: int|
            0 <= k < last_segment(path).len() ==> #[trigger] last_segment(path)[k] != '/',
{
    let n = path.len() as int;
    let at = segment_start(path, n);
    lemma_segment_start(path, n);
    let head = path.take(at);
    assert(path =~= head + last_segment(path));
    assert forall|k: int| 0 <= k < last_segment(path).len() implies #[trigger] last_segment(
        path,
    )[k] != '/' by {
        assert(last_segment(path)[k] == path[at + k]);
    }
    head
}

/// The popup shows exactly the entries whose name begins with the typed
/// segment, whatever the case and in their order; all of them where the path
/// ends with `/` or is empty.
pub proof fn lemma_visible_is_filtered(
    entries: Seq<FileEntry>,
    head: Seq<char>,
    segment: Seq<char>,
)
    requires
        head.len() > 0 ==> head.last() == '/',
        forall|k: int| 0 <= k < segment.len() ==> #[trigger] segment[k] != '/',
    ensures
        visible(entries, head + segment) == entries.filter(
            |entry: FileEntry|
                segment.len() == 0 || text::lowercase(segment).is_prefix_of(
                    text::lowercase(entry.name@),
                ),
        ),
    decreases entries.len(),
{
    reveal(Seq::filter);
    let path = head + segment;
    lemma_segment_start(path, path.len() as int);
    let at = segment_start(path, path.len() as int);
    if at < head.len() {
        assert(path[head.len() - 1] == '/');
    }
    if at > head.len() {
        assert(path[at - 1] == segment[at - 1 - head.len()]);
    }
    assert(last_segment(path) =~= segment);
    if entries.len() > 0 {
        lemma_visible_is_filtered(entries.drop_last(), head, segment);
    }
}

/// The listed directory: the working directory for an empty path, the home
/// directory for `~`, what stands below it for `~/`, an absolute path itself,
/// and any other path below the working directory.
pub proof fn lemma_listed_directory(
    path: Seq<char>,
    cwd: Seq<char>,
    home: Seq<char>,
    rest: Seq<char>,
)
    requires
        rest.len() > 0 ==> rest[0] != '/',
    ensures
        list_dir(Seq::empty(), cwd, home) == cwd,
        list_dir("~"@, cwd, home) == home,
        home.len() > 0 && home.last() != '/' ==> list_dir("~/"@ + rest, cwd, home) == home + "/"@
            + rest,
        path.len() > 0 && path[0] == '/' ==> list_dir(path, cwd, home) == path,
        path.len() > 0 && path[0] != '/' && path[0] != '~' && cwd.len() > 0 && cwd.last() != '/'
            ==> list_dir(path, cwd, home) == cwd + "/"@ + path,
        path.len() > 0 && path[0] != '/' && path[0] != '~' && cwd.len() > 0 && cwd.last() == '/'
            ==> list_dir(path, cwd, home) == cwd + path,
{
    reveal_strlit("~");
    reveal_strlit("~/");
    let below = "~/"@ + rest;
    assert(below.subrange(0, 2) =~= "~/"@);
    assert(below.skip(2) =~= rest);
    assert("~"@.len() == 1 && below.len() >= 2);
    if "~/"@.is_prefix_of(path) {
        assert(path.subrange(0, 2)[0] == path[0]);
    }
}

/// What is shown for a typed path are the entries whose name begins with its
/// last segment, whatever the case, in their order.
pub proof fn lemma_shown_entries(
    picker: &FilePickerState,
    filter: &str,
    shown: Vec<&FileEntry>,
    head: Seq<char>,
    segment: Seq<char>,
)
    requires
        call_ensures(FilePickerState::visible_entries, (picker, filter), shown),
        filter@ == head + segment,
        head.len() > 0 ==> head.last() == '/',
        forall|k: int| 0 <= k < segment.len() ==> #[trigger] segment[k] != '/',
    ensures
        shown@.map_values(|entry: &FileEntry| *entry) == picker.entries@.filter(
            |entry: FileEntry|
                segment.len() == 0 || text::lowercase(segment).is_prefix_of(
                    text::lowercase(entry.name@),
                ),
        ),
{
    lemma_visible_is_filtered(picker.entries@, head, segment);
}

/// The directory that is listed for a typed path: the working directory for
/// nothing, the home directory for `~`, an absolute path itself, and any other
/// below the working directory.
pub proof fn lemma_resolved_directory(filter: &str, cwd: &str, home: &str, dir: String)
    requires
        call_ensures(resolve_list_dir, (filter, cwd, home), dir),
        cwd@.len() > 0,
        cwd@.last() != '/',
    ensures
        filter@.len() == 0 ==> dir@ == cwd@,
        filter@ == "~"@ ==> dir@ == home@,
        filter@.len() > 0 && filter@[0] == '/' ==> dir@ == filter@,
        filter@.len() > 0 && filter@[0] != '/' && filter@[0] != '~' ==> dir@ == cwd@ + "/"@
            + filter@,
        home@.len() > 0 && home@.last() != '/' ==> forall|rest: Seq<char>|
            (rest.len() > 0 ==> rest[0] != '/') && filter@ == #[trigger] ("~/"@ + rest) ==> dir@
                == home@ + "/"@ + rest,
{
    lemma_listed_directory(filter@, cwd@, home@, Seq::empty());
    if home@.len() > 0 && home@.last() != '/' {
        assert forall|rest: Seq<char>|
            (rest.len() > 0 ==> rest[0] != '/') && filter@ == #[trigger] (
            "~/"@ + rest) implies dir@ == home@ + "/"@ + rest by {
            lemma_listed_directory(filter@, cwd@, home@, rest);
        }
    }
}

/// A name that merely begins with `~` is one in the working directory.
pub proof fn lemma_tilde_name_is_in_the_working_directory(
    rest: Seq<char>,
    cwd: Seq<char>,
    home: Seq<char>,
)
    requires
        rest.len() > 0,
        rest[0] != '/',
        cwd.len() > 0,
        cwd.last() != '/',
    ensures
        list_dir("~"@ + rest, cwd, home) == cwd + "/"@ + ("~"@ + rest),
{
    reveal_strlit("~");
    reveal_strlit("~/");
    let path = "~"@ + rest;
    assert(path.len() >= 2 && path[0] == '~' && path[1] == rest[0]);
    if "~/"@.is_prefix_of(path) {
        assert(path.subrange(0, 2)[1] == path[1]);
    }
}

/// A path below no directory is the path alone.
pub proof fn lemma_path_below_nothing(base: &str, path: &str, joined: String)
    requires
        call_ensures(join_path, (base, path), joined),
    ensures
        base@.len() == 0 ==> joined@ == path@,
        path@.len() > 0 && path@[0] == '/' ==> joined@ == path@,
        base@.len() > 0 && base@.last() == '/' && (path@.len() == 0 || path@[0] != '/') ==> joined@
            == base@ + path@,
        base@.len() > 0 && base@.last() != '/' && (path@.len() == 0 || path@[0] != '/') ==> joined@
            == base@ + "/"@ + path@,
{
    if base@.len() == 0 {
        assert(base@ + path@ =~= path@);
    }
}

} // verus!
