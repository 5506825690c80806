//! How a working directory is shown for editing, and what an edited one names.

use crate::file_lister::file_picker_state;
use crate::file_lister::resolve_list_dir;
use crate::text;
use crate::text::{chars_of, from_chars, starts_with, text_eq, trim};
use vstd::prelude::*;

verus! {

/// Whether a path lies below the home directory.
pub open spec fn below_home(path: Seq<char>, home: Seq<char>) -> bool {
    &&& home.len() > 0
    &&& home.last() != '/'
    &&& home.len() + 1 < path.len()
    &&& home.is_prefix_of(path)
    &&& path[home.len() as int] == '/'
    &&& path[home.len() as int + 1] != '/'
}

/// A path with the home directory written as `~`.
pub open spec fn shortened(path: Seq<char>, home: Seq<char>) -> Seq<char> {
    if path == home {
        "~"@
    } else if below_home(path, home) {
        "~/"@ + path.skip(home.len() as int + 1)
    } else {
        path
    }
}

/// The directory that an edited path names: nothing for white space alone.
pub open spec fn candidate(typed: Seq<char>, cwd: Seq<char>, home: Seq<char>) -> Option<Seq<char>> {
    let path = text::trimmed(typed);
    if path.len() == 0 {
        None
    } else {
        Some(file_picker_state::list_dir(path, cwd, home))
    }
}

/// The shown form of an absolute working directory names that directory,
/// where its ends hold no white space to trim.
pub proof fn lemma_shortened_names_cwd(cwd: Seq<char>, home: Seq<char>)
    requires
        cwd.len() > 0,
        cwd[0] == '/',
        text::trimmed(shortened(cwd, home)) == shortened(cwd, home),
    ensures
        candidate(shortened(cwd, home), cwd, home) == Some(cwd),
{
    reveal_strlit("~");
    reveal_strlit("~/");
    reveal_strlit("/");
    let shown = shortened(cwd, home);
    if cwd == home {
        assert(shown.len() == 1);
    } else if below_home(cwd, home) {
        let rest = cwd.skip(home.len() as int + 1);
        assert(shown =~= "~/"@ + rest);
        assert(shown.subrange(0, 2) =~= "~/"@);
        assert("~/"@.is_prefix_of(shown));
        assert(shown[1] == '/' && "~"@.len() == 1 && shown.len() >= 2);
        assert(shown.skip(2) =~= rest);
        assert(rest[0] == cwd[home.len() as int + 1]);
        assert(home + "/"@ + rest =~= cwd) by {
            assert(home =~= cwd.subrange(0, home.len() as int));
        }
    } else {
        assert(shown == cwd);
        assert(cwd != "~"@) by {
            assert("~"@[0] == '~');
        }
        assert(!"~/"@.is_prefix_of(cwd)) by {
            assert("~/"@[0] == '~');
        }
    }
}

/// A path with the home directory written as `~`.
pub fn shorten_path(path: &str, home: &str) -> (shown: String)
    ensures
        shown@ == shortened(path@, home@),
{
    if text_eq(path, home) {
        return "~".to_owned();
    }
    let chars = chars_of(path);
    let base = chars_of(home);
    let n: usize = base.len();
    if n > 0 && base[n - 1] != '/' && n < chars.len() && n < chars.len() - 1 && starts_with(
        path,
        home,
    ) && chars[n] == '/' && chars[n + 1] != '/' {
        let mut shown = "~/".to_owned();
        let rest = from_chars(&chars, n + 1);
        shown.append(rest.as_str());
        return shown;
    }
    path.to_owned()
}

/// The directory that an edited path names.
pub fn resolve_candidate(typed: &str, cwd: &str, home: &str) -> (path: Option<String>)
    ensures
        match path {
            Some(p) => candidate(typed@, cwd@, home@) == Some(p@),
            None => candidate(typed@, cwd@, home@) is None,
        },
{
    let inner = trim(typed);
    if inner.as_str().is_empty() {
        None
    } else {
        Some(resolve_list_dir(inner.as_str(), cwd, home))
    }
}

/// What the file system says of an edited path.
#[derive(Debug, PartialEq, Eq)]
pub enum CwdResolution {
    /// It is this directory.
    Directory(String),
    /// It is no directory.
    NotADirectory,
    /// Nothing was typed.
    Empty,
}

/// The home directory is shown as `~`, what lies below it behind `~/`, and a
/// path that does not begin with it as it is.
pub proof fn lemma_home_is_a_tilde(path: Seq<char>, home: Seq<char>, rest: Seq<char>)
    requires
        home.len() > 0,
        home.last() != '/',
        rest.len() > 0,
        rest[0] != '/',
    ensures
        shortened(home, home) == "~"@,
        shortened(home + "/"@ + rest, home) == "~/"@ + rest,
        !home.is_prefix_of(path) ==> shortened(path, home) == path,
{
    reveal_strlit("/");
    let below = home + "/"@ + rest;
    assert(below.subrange(0, home.len() as int) =~= home);
    assert(below[home.len() as int] == '/' && below[home.len() as int + 1] == rest[0]);
    assert(below.skip(home.len() as int + 1) =~= rest);
    assert(below.len() > home.len());
    if path == home {
        assert(path.subrange(0, home.len() as int) =~= home);
    }
}

/// White space around a typed path does not matter, and white space alone names
/// nothing.
pub proof fn lemma_candidate(typed: Seq<char>, cwd: Seq<char>, home: Seq<char>)
    ensures
        text::blank(typed) ==> candidate(typed, cwd, home) is None,
        !text::blank(typed) ==> candidate(typed, cwd, home) == Some(
            file_picker_state::list_dir(text::trimmed(typed), cwd, home),
        ),
{
    let ends = text::lemma_trimmed(typed);
    let inner = text::trimmed(typed);
    if inner.len() == 0 {
        assert forall|i: int| 0 <= i < typed.len() implies text::is_white_space(
            #[trigger] typed[i],
        ) by {
            if i < ends.0.len() {
                assert(ends.0[i] == typed[i]);
            } else {
                assert(ends.1[i - ends.0.len()] == typed[i]);
            }
        }
    } else {
        assert(typed[ends.0.len() as int] == inner[0]);
        assert(!text::is_white_space(typed[ends.0.len() as int]));
    }
}

/// A path in the home directory is shown with `~`, and any other as it is.
pub proof fn lemma_shown_path(path: &str, home: &str, shown: String, rest: Seq<char>)
    requires
        call_ensures(shorten_path, (path, home), shown),
        home@.len() > 0,
        home@.last() != '/',
        rest.len() > 0,
        rest[0] != '/',
    ensures
        path@ == home@ ==> shown@ == "~"@,
        path@ == home@ + "/"@ + rest ==> shown@ == "~/"@ + rest,
        !home@.is_prefix_of(path@) ==> shown@ == path@,
{
    lemma_home_is_a_tilde(path@, home@, rest);
}

/// What is typed names a directory as it does in the file picker, without the
/// white space around it; white space alone names none.
pub proof fn lemma_named_directory(typed: &str, cwd: &str, home: &str, path: Option<String>)
    requires
        call_ensures(resolve_candidate, (typed, cwd, home), path),
    ensures
        text::blank(typed@) ==> path is None,
        !text::blank(typed@) ==> path is Some && path.unwrap()@ == file_picker_state::list_dir(
            text::trimmed(typed@),
            cwd@,
            home@,
        ),
{
    lemma_candidate(typed@, cwd@, home@);
}

/// A path that merely begins like the home directory is no path in it.
pub proof fn lemma_sibling_of_home_is_shown_whole(home: Seq<char>, rest: Seq<char>)
    requires
        home.len() > 0,
        rest.len() > 0,
        rest[0] != '/',
    ensures
        shortened(home + rest, home) == home + rest,
{
    let path = home + rest;
    assert(path.len() > home.len());
    assert(path[home.len() as int] == rest[0]);
}

} // verus!
