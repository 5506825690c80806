//! A one-line text field.

use crate::text;
use crate::text::{char_text, cluster_count};
use vstd::prelude::*;

verus! {

/// The value of a [`LineInput`].
pub ghost struct LineView {
    pub text: Seq<char>,
    /// Counts grapheme clusters.
    pub cursor: int,
}

impl LineView {
    /// The field after `[lo, hi)` was replaced by `piece` and the cursor put
    /// `advance` positions behind `lo`, but not past the end.
    pub open spec fn spliced(self, lo: int, hi: int, piece: Seq<char>, advance: int) -> LineView {
        let text = text::spliced(self.text, lo, hi, piece);
        LineView { text, cursor: text::clamped(text, lo + advance) }
    }

    /// The number of clusters.
    pub open spec fn len(self) -> int {
        text::grapheme_clusters(self.text).len() as int
    }
}

/// A one-line text field.
pub struct LineInput {
    input: String,
    cursor_pos: usize,
}

impl View for LineInput {
    type V = LineView;

    closed spec fn view(&self) -> LineView {
        LineView { text: self.input@, cursor: self.cursor_pos as int }
    }
}

impl LineInput {
    #[verifier::type_invariant]
    spec fn cursor_in_text(self) -> bool {
        self.cursor_pos <= text::grapheme_clusters(self.input@).len()
    }

    /// An empty field.
    pub fn new() -> (line: LineInput)
        ensures
            line@ == (LineView { text: Seq::empty(), cursor: 0 }),
    {
        LineInput { input: String::new(), cursor_pos: 0 }
    }

    /// The text.
    pub fn input(&self) -> (text: &str)
        ensures
            text@ == self@.text,
    {
        self.input.as_str()
    }

    /// The cursor's position.
    pub fn cursor_pos(&self) -> (cursor: usize)
        ensures
            cursor == self@.cursor,
    {
        self.cursor_pos
    }

    /// Replaces the text and puts the cursor at its end.
    pub fn set(&mut self, text: &str)
        ensures
            final(self)@.text == text@,
            final(self)@.cursor == final(self)@.len(),
    {
        let end: usize = cluster_count(text);
        self.cursor_pos = 0;
        self.input = text.to_owned();
        self.cursor_pos = end;
    }

    fn splice(&mut self, lo: usize, hi: usize, piece: &str, advance: usize)
        requires
            lo <= hi,
        ensures
            final(self)@ == old(self)@.spliced(lo as int, hi as int, piece@, advance as int),
    {
        let (text, cursor) = text::splice(self.input.as_str(), lo, hi, piece, advance);
        self.cursor_pos = 0;
        self.input = text;
        self.cursor_pos = cursor;
    }

    /// Inserts a character at the cursor.
    pub fn insert_char(&mut self, ch: char)
        ensures
            final(self)@ == old(self)@.spliced(
                old(self)@.cursor,
                old(self)@.cursor,
                seq![ch],
                1,
            ),
    {
        let piece = char_text(ch);
        let cursor: usize = self.cursor_pos;
        self.splice(cursor, cursor, piece.as_str(), 1);
    }

    /// Inserts a text at the cursor.
    pub fn paste(&mut self, piece: &str)
        ensures
            final(self)@ == old(self)@.spliced(
                old(self)@.cursor,
                old(self)@.cursor,
                piece@,
                text::grapheme_clusters(piece@).len() as int,
            ),
    {
        let advance: usize = cluster_count(piece);
        let cursor: usize = self.cursor_pos;
        self.splice(cursor, cursor, piece, advance);
    }

    /// Deletes the cluster before the cursor.
    pub fn delete(&mut self)
        ensures
            final(self)@ == (if old(self)@.cursor == 0 {
                old(self)@
            } else {
                old(self)@.spliced(old(self)@.cursor - 1, old(self)@.cursor, Seq::empty(), 0)
            }),
    {
        let cursor: usize = self.cursor_pos;
        if cursor > 0 {
            let empty = String::new();
            self.splice(cursor - 1, cursor, empty.as_str(), 0);
        }
    }

    /// Deletes the cluster behind the cursor.
    pub fn delete_forward(&mut self)
        ensures
            final(self)@ == (if old(self)@.cursor >= old(self)@.len() {
                old(self)@
            } else {
                old(self)@.spliced(old(self)@.cursor, old(self)@.cursor + 1, Seq::empty(), 0)
            }),
    {
        let cursor: usize = self.cursor_pos;
        if cursor < cluster_count(self.input.as_str()) {
            let empty = String::new();
            self.splice(cursor, cursor + 1, empty.as_str(), 0);
        }
    }

    /// Moves the cursor one cluster left.
    pub fn cursor_left(&mut self)
        ensures
            final(self)@ == (LineView {
                cursor: (if old(self)@.cursor > 0 {
                    old(self)@.cursor - 1
                } else {
                    0
                }),
                ..old(self)@
            }),
    {
        proof {
            use_type_invariant(&*self);
        }
        if self.cursor_pos > 0 {
            let cursor: usize = self.cursor_pos - 1;
            self.cursor_pos = cursor;
        }
    }

    /// Moves the cursor one cluster right.
    pub fn cursor_right(&mut self)
        ensures
            final(self)@ == (LineView {
                cursor: text::clamped(old(self)@.text, old(self)@.cursor + 1),
                ..old(self)@
            }),
    {
        proof {
            use_type_invariant(&*self);
        }
        if self.cursor_pos < cluster_count(self.input.as_str()) {
            let cursor: usize = self.cursor_pos + 1;
            self.cursor_pos = cursor;
        }
    }
}

/// A piece put in stands between what was before the cursor and what was
/// behind it, and the cursor does not leave the text.
pub proof fn lemma_piece_is_put_in(line: LineView, piece: Seq<char>, advance: int)
    requires
        0 <= line.cursor <= line.len(),
        0 <= advance,
    ensures
        ({
            let clusters = text::grapheme_clusters(line.text);
            let after = line.spliced(line.cursor, line.cursor, piece, advance);
            &&& after.text == clusters.take(line.cursor).flatten() + piece + clusters.skip(
                line.cursor,
            ).flatten()
            &&& 0 <= after.cursor <= after.len()
            &&& line.cursor + advance <= after.len() ==> after.cursor == line.cursor + advance
            &&& line.cursor + advance > after.len() ==> after.cursor == after.len()
        }),
{
    let clusters = text::grapheme_clusters(line.text);
    assert(clusters.subrange(0, line.cursor) =~= clusters.take(line.cursor));
    assert(clusters.subrange(line.cursor, clusters.len() as int) =~= clusters.skip(line.cursor));
}

/// Taking out one cluster leaves the text before it and behind it.
pub proof fn lemma_cluster_is_taken_out(line: LineView, at: int)
    requires
        0 <= at < line.len(),
    ensures
        ({
            let clusters = text::grapheme_clusters(line.text);
            let after = line.spliced(at, at + 1, Seq::empty(), 0);
            &&& after.text == clusters.take(at).flatten() + clusters.skip(at + 1).flatten()
            &&& after.cursor == at || after.cursor == after.len() && after.cursor < at
        }),
{
    let clusters = text::grapheme_clusters(line.text);
    assert(clusters.subrange(0, at) =~= clusters.take(at));
    assert(clusters.subrange(at + 1, clusters.len() as int) =~= clusters.skip(at + 1));
    assert(line.spliced(at, at + 1, Seq::empty(), 0).text =~= clusters.take(at).flatten()
        + clusters.skip(at + 1).flatten());
}

/// A typed or pasted piece stands at the cursor, between what was before it
/// and what was behind it.
pub proof fn lemma_typing_and_pasting(ch: char, piece: &str)
    ensures
        forall|line: &mut LineInput|
            #[trigger] call_ensures(LineInput::insert_char, (line, ch), ()) && 0 <= (*line)@.cursor
                <= (*line)@.len() ==> {
                let clusters = text::grapheme_clusters((*line)@.text);
                (*final(line))@.text == clusters.take((*line)@.cursor).flatten() + seq![ch]
                    + clusters.skip((*line)@.cursor).flatten()
            },
        forall|line: &mut LineInput|
            #[trigger] call_ensures(LineInput::paste, (line, piece), ()) && 0 <= (*line)@.cursor
                <= (*line)@.len() ==> {
                let clusters = text::grapheme_clusters((*line)@.text);
                (*final(line))@.text == clusters.take((*line)@.cursor).flatten() + piece@
                    + clusters.skip((*line)@.cursor).flatten()
            },
{
    assert forall|line: &mut LineInput|
        #[trigger] call_ensures(LineInput::insert_char, (line, ch), ()) && 0 <= (*line)@.cursor
            <= (*line)@.len() implies ({
        let clusters = text::grapheme_clusters((*line)@.text);
        (*final(line))@.text == clusters.take((*line)@.cursor).flatten() + seq![ch] + clusters.skip(
            (*line)@.cursor,
        ).flatten()
    }) by {
        lemma_piece_is_put_in((*line)@, seq![ch], 1);
    }
    assert forall|line: &mut LineInput|
        #[trigger] call_ensures(LineInput::paste, (line, piece), ()) && 0 <= (*line)@.cursor
            <= (*line)@.len() implies ({
        let clusters = text::grapheme_clusters((*line)@.text);
        (*final(line))@.text == clusters.take((*line)@.cursor).flatten() + piece@ + clusters.skip(
            (*line)@.cursor,
        ).flatten()
    }) by {
        lemma_piece_is_put_in(
            (*line)@,
            piece@,
            text::grapheme_clusters(piece@).len() as int,
        );
    }
}

/// The cursor moves by one cluster and stays within the text, which it leaves
/// as it is.
pub proof fn lemma_cursor_moves_by_one()
    ensures
        forall|line: &mut LineInput|
            #[trigger] call_ensures(LineInput::cursor_left, (line,), ()) ==> (*final(line))@.text
                == (*line)@.text && ((*line)@.cursor > 0 ==> (*final(line))@.cursor
                == (*line)@.cursor - 1) && ((*line)@.cursor == 0 ==> (*final(line))@.cursor == 0),
        forall|line: &mut LineInput|
            #[trigger] call_ensures(LineInput::cursor_right, (line,), ()) && (*line)@.cursor
                <= (*line)@.len() ==> (*final(line))@.text == (*line)@.text && (*final(line))@.cursor
                == if (*line)@.cursor < (*line)@.len() {
                (*line)@.cursor + 1
            } else {
                (*line)@.cursor
            },
{
}

} // verus!
