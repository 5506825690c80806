//! Text primitives: comparison, prefixes, grapheme clusters and display width.
//!
//! A text is modelled by its sequence of characters (`@` of a `str` or a
//! `String`). Cursor positions elsewhere in the crate count grapheme clusters.

use unicode_segmentation::UnicodeSegmentation;
use unicode_width::UnicodeWidthStr;
use vstd::prelude::*;

verus! {

/// The texts of a sequence of strings.
pub open spec fn texts(strings: Seq<String>) -> Seq<Seq<char>> {
    strings.map_values(|s: String| s@)
}

/// `String::push` appends the character to the end of the string.
pub assume_specification[ String::push ](s: &mut String, ch: char)
    ensures
        final(s)@ == old(s)@.push(ch),
;

/// The extended grapheme clusters of a text, in order.
pub uninterp spec fn grapheme_clusters(text: Seq<char>) -> Seq<Seq<char>>;

/// Splits `text` with `UnicodeSegmentation::graphemes(text, true)`.
///
/// Trusted: the clusters are a function of the text alone, each one is the
/// non-empty slice between two neighbouring boundaries, and in order they
/// make up the whole text.
#[verifier::external_body]
pub(crate) fn graphemes(text: &str) -> (clusters: Vec<String>)
    ensures
        texts(clusters@) == grapheme_clusters(text@),
        texts(clusters@).flatten() == text@,
        forall|i: int| 0 <= i < clusters@.len() ==> (#[trigger] clusters@[i])@.len() > 0,
{
    UnicodeSegmentation::graphemes(text, true).map(str::to_owned).collect()
}

/// The number of terminal columns that a text takes.
pub uninterp spec fn display_columns(text: Seq<char>) -> usize;

/// Measures `text` with `UnicodeWidthStr::width`.
///
/// Trusted: the width is a function of the text alone.
#[verifier::external_body]
pub(crate) fn display_width(text: &str) -> (columns: usize)
    ensures
        columns == display_columns(text@),
{
    UnicodeWidthStr::width(text)
}

/// Whether a character has the Unicode `White_Space` property.
pub open spec fn is_white_space(ch: char) -> bool {
    ||| '\u{9}' <= ch <= '\u{d}'
    ||| ch == ' '
    ||| ch == '\u{85}'
    ||| ch == '\u{a0}'
    ||| ch == '\u{1680}'
    ||| '\u{2000}' <= ch <= '\u{200a}'
    ||| ch == '\u{2028}'
    ||| ch == '\u{2029}'
    ||| ch == '\u{202f}'
    ||| ch == '\u{205f}'
    ||| ch == '\u{3000}'
}

/// Calls `char::is_whitespace`.
///
/// Trusted: the answer is the character's `White_Space` property, as
/// [`is_white_space`] lists it from the Unicode Character Database.
#[verifier::external_body]
pub(crate) fn char_is_whitespace(ch: char) -> (white: bool)
    ensures
        white == is_white_space(ch),
{
    ch.is_whitespace()
}

/// The lowercase form of a text.
pub uninterp spec fn lowercase(text: Seq<char>) -> Seq<char>;

/// Calls `str::to_lowercase`.
///
/// Trusted: the lowercase form is a function of the text alone.
#[verifier::external_body]
pub(crate) fn to_lowercase(text: &str) -> (lower: String)
    ensures
        lower@ == lowercase(text@),
{
    text.to_lowercase()
}

/// An equal copy of the strings.
pub fn copy_strings(strings: &Vec<String>) -> (copy: Vec<String>)
    ensures
        copy@ == strings@,
{
    let mut copy: Vec<String> = Vec::new();
    let mut i: usize = 0;
    while i < strings.len()
        invariant
            i <= strings@.len(),
            copy@ == strings@.take(i as int),
        decreases strings@.len() - i,
    {
        copy.push(strings[i].clone());
        assert(strings@.take(i + 1) =~= strings@.take(i as int).push(strings@[i as int]));
        i += 1;
    }
    assert(strings@.take(i as int) =~= strings@);
    copy
}

/// An equal copy of the string, if there is one.
pub fn copy_option(string: &Option<String>) -> (copy: Option<String>)
    ensures
        copy == *string,
{
    match string {
        Some(s) => Some(s.clone()),
        None => None,
    }
}

/// The characters of a text.
pub fn chars_of(text: &str) -> (chars: Vec<char>)
    ensures
        chars@ == text@,
{
    let mut chars: Vec<char> = Vec::new();
    for ch in it: text.chars()
        invariant
            it.seq() == text@,
            chars@ == text@.take(it.index()),
    {
        assert(text@.take(it.index() + 1) =~= text@.take(it.index()).push(ch));
        chars.push(ch);
    }
    assert(text@.take(text@.len() as int) =~= text@);
    chars
}

/// Whether two texts hold the same characters.
pub fn text_eq(a: &str, b: &str) -> (same: bool)
    ensures
        same == (a@ == b@),
{
    let left = chars_of(a);
    let right = chars_of(b);
    if left.len() != right.len() {
        return false;
    }
    let mut i: usize = 0;
    while i < left.len()
        invariant
            i <= left.len(),
            left@ == a@,
            right@ == b@,
            left.len() == right.len(),
            forall|j: int| 0 <= j < i ==> a@[j] == b@[j],
        decreases left.len() - i,
    {
        if left[i] != right[i] {
            return false;
        }
        i += 1;
    }
    assert(a@ =~= b@);
    true
}

/// Whether a text begins with a prefix.
pub fn starts_with(text: &str, prefix: &str) -> (yes: bool)
    ensures
        yes == prefix@.is_prefix_of(text@),
{
    let whole = chars_of(text);
    let start = chars_of(prefix);
    if start.len() > whole.len() {
        return false;
    }
    let mut i: usize = 0;
    while i < start.len()
        invariant
            i <= start.len() <= whole.len(),
            whole@ == text@,
            start@ == prefix@,
            forall|j: int| 0 <= j < i ==> prefix@[j] == text@[j],
        decreases start.len() - i,
    {
        if start[i] != whole[i] {
            assert(text@.subrange(0, prefix@.len() as int)[i as int] == text@[i as int]);
            return false;
        }
        i += 1;
    }
    assert(prefix@ =~= text@.subrange(0, prefix@.len() as int));
    true
}

/// The lines in order, with the separator between each two.
pub open spec fn joined(lines: Seq<Seq<char>>, separator: Seq<char>) -> Seq<char>
    decreases lines.len(),
{
    if lines.len() == 0 {
        Seq::empty()
    } else if lines.len() == 1 {
        lines[0]
    } else {
        joined(lines.drop_last(), separator) + separator + lines.last()
    }
}

/// The lines of two lists joined are the two joined texts with a separator
/// between them.
pub proof fn lemma_joined_append(
    first: Seq<Seq<char>>,
    second: Seq<Seq<char>>,
    separator: Seq<char>,
)
    requires
        first.len() > 0,
        second.len() > 0,
    ensures
        joined(first + second, separator) == joined(first, separator) + separator + joined(
            second,
            separator,
        ),
    decreases second.len(),
{
    let all = first + second;
    assert(all.drop_last() =~= first + second.drop_last());
    if second.len() == 1 {
        assert(all.drop_last() =~= first);
    } else {
        lemma_joined_append(first, second.drop_last(), separator);
    }
    assert(joined(all, separator) =~= joined(first, separator) + separator + joined(
        second,
        separator,
    ));
}

/// Joins lines with a separator between each two.
pub fn join(lines: &[String], separator: &str) -> (text: String)
    ensures
        text@ == joined(texts(lines@), separator@),
{
    let mut text = String::new();
    let mut i: usize = 0;
    while i < lines.len()
        invariant
            i <= lines.len(),
            text@ == joined(texts(lines@).take(i as int), separator@),
        decreases lines.len() - i,
    {
        proof {
            let prefix = texts(lines@).take(i + 1);
            assert(prefix.drop_last() =~= texts(lines@).take(i as int));
            assert(prefix.last() == lines@[i as int]@);
        }
        if i > 0 {
            text.append(separator);
        }
        text.append(lines[i].as_str());
        proof {
            if i == 0 {
                assert(text@ =~= lines@[0]@);
            }
        }
        i += 1;
    }
    assert(texts(lines@).take(i as int) =~= texts(lines@));
    text
}

/// The decimal digit of a number below ten.
pub open spec fn digit(d: nat) -> char {
    if d == 0 {
        '0'
    } else if d == 1 {
        '1'
    } else if d == 2 {
        '2'
    } else if d == 3 {
        '3'
    } else if d == 4 {
        '4'
    } else if d == 5 {
        '5'
    } else if d == 6 {
        '6'
    } else if d == 7 {
        '7'
    } else if d == 8 {
        '8'
    } else {
        '9'
    }
}

/// The decimal notation of a number.
pub open spec fn decimal(n: nat) -> Seq<char>
    decreases n,
{
    if n < 10 {
        seq![digit(n)]
    } else {
        decimal(n / 10).push(digit(n % 10))
    }
}

/// Writes a number in decimal notation.
pub fn to_decimal(n: usize) -> (text: String)
    ensures
        text@ == decimal(n as nat),
    decreases n,
{
    let last: usize = n % 10;
    let ch = if last == 0 {
        '0'
    } else if last == 1 {
        '1'
    } else if last == 2 {
        '2'
    } else if last == 3 {
        '3'
    } else if last == 4 {
        '4'
    } else if last == 5 {
        '5'
    } else if last == 6 {
        '6'
    } else if last == 7 {
        '7'
    } else if last == 8 {
        '8'
    } else {
        '9'
    };
    let mut text = if n < 10 {
        String::new()
    } else {
        to_decimal(n / 10)
    };
    text.push(ch);
    assert(n < 10 ==> text@ =~= seq![digit(n as nat)]);
    text
}

/// The text of the clusters in `[lo, hi)`, empty where there is no such range.
pub open spec fn cluster_text(clusters: Seq<Seq<char>>, lo: int, hi: int) -> Seq<char> {
    if 0 <= lo <= hi <= clusters.len() {
        clusters.subrange(lo, hi).flatten()
    } else {
        Seq::empty()
    }
}

proof fn lemma_flatten_grows(parts: Seq<Seq<char>>, part: Seq<char>)
    ensures
        parts.push(part).flatten() == parts.flatten() + part,
{
    parts.lemma_flatten_and_flatten_alt_are_equivalent();
    parts.push(part).lemma_flatten_and_flatten_alt_are_equivalent();
    assert(parts.push(part).drop_last() =~= parts);
}

/// The text of the clusters in `[lo, hi)`.
pub fn concat_clusters(clusters: &Vec<String>, lo: usize, hi: usize) -> (text: String)
    ensures
        text@ == cluster_text(texts(clusters@), lo as int, hi as int),
{
    let mut text = String::new();
    if lo > hi || hi > clusters.len() {
        return text;
    }
    let ghost all = texts(clusters@);
    assert(all.subrange(lo as int, lo as int).flatten() =~= Seq::<char>::empty());
    let mut i: usize = lo;
    while i < hi
        invariant
            lo <= i <= hi <= clusters@.len(),
            all == texts(clusters@),
            text@ == all.subrange(lo as int, i as int).flatten(),
        decreases hi - i,
    {
        proof {
            let before = all.subrange(lo as int, i as int);
            assert(all.subrange(lo as int, i + 1) =~= before.push(all[i as int]));
            lemma_flatten_grows(before, all[i as int]);
        }
        text.append(clusters[i].as_str());
        i += 1;
    }
    text
}

/// Whether a text is made of white space alone.
pub open spec fn blank(text: Seq<char>) -> bool {
    forall|i: int| 0 <= i < text.len() ==> is_white_space(#[trigger] text[i])
}

/// Whether a text is made of white space alone.
pub fn is_blank(text: &str) -> (yes: bool)
    ensures
        yes == blank(text@),
{
    let chars = chars_of(text);
    let mut i: usize = 0;
    while i < chars.len()
        invariant
            chars@ == text@,
            forall|j: int| 0 <= j < i ==> is_white_space(#[trigger] text@[j]),
        decreases chars@.len() - i,
    {
        if !char_is_whitespace(chars[i]) {
            assert(!is_white_space(text@[i as int]));
            return false;
        }
        i += 1;
    }
    true
}

/// The text of one character.
pub fn char_text(ch: char) -> (text: String)
    ensures
        text@ == seq![ch],
{
    let mut text = String::new();
    text.push(ch);
    assert(text@ =~= seq![ch]);
    text
}

/// A non-empty text has a cluster, and a text of one character only one.
pub proof fn lemma_cluster_count(clusters: Seq<Seq<char>>)
    requires
        forall|i: int| 0 <= i < clusters.len() ==> (#[trigger] clusters[i]).len() > 0,
    ensures
        clusters.len() <= clusters.flatten().len(),
        clusters.flatten().len() > 0 ==> clusters.len() > 0,
    decreases clusters.len(),
{
    if clusters.len() > 0 {
        let rest = clusters.drop_first();
        assert forall|i: int| 0 <= i < rest.len() implies (#[trigger] rest[i]).len() > 0 by {
            assert(rest[i] == clusters[i + 1]);
        }
        lemma_cluster_count(rest);
        assert(clusters[0].len() > 0);
    }
}

/// The text of the characters from `lo` on.
pub fn from_chars(chars: &Vec<char>, lo: usize) -> (text: String)
    requires
        lo <= chars@.len(),
    ensures
        text@ == chars@.skip(lo as int),
{
    let mut text = String::new();
    let mut i: usize = lo;
    assert(text@ =~= chars@.subrange(lo as int, lo as int));
    while i < chars.len()
        invariant
            lo <= i <= chars@.len(),
            text@ == chars@.subrange(lo as int, i as int),
        decreases chars@.len() - i,
    {
        assert(chars@.subrange(lo as int, i + 1) =~= chars@.subrange(lo as int, i as int).push(
            chars@[i as int],
        ));
        text.push(chars[i]);
        i += 1;
    }
    assert(chars@.subrange(lo as int, i as int) =~= chars@.skip(lo as int));
    text
}

/// Whether a text comes before another or is equal to it, character by
/// character.
pub open spec fn le(a: Seq<char>, b: Seq<char>) -> bool
    decreases a.len(),
{
    if a.len() == 0 {
        true
    } else if b.len() == 0 {
        false
    } else if a[0] == b[0] {
        le(a.skip(1), b.skip(1))
    } else {
        a[0] < b[0]
    }
}

/// Of two texts, one comes first.
pub proof fn lemma_le_total(a: Seq<char>, b: Seq<char>)
    ensures
        le(a, b) || le(b, a),
    decreases a.len(),
{
    if a.len() > 0 && b.len() > 0 && a[0] == b[0] {
        lemma_le_total(a.skip(1), b.skip(1));
    }
}

/// The order of texts is transitive.
pub proof fn lemma_le_transitive(a: Seq<char>, b: Seq<char>, c: Seq<char>)
    requires
        le(a, b),
        le(b, c),
    ensures
        le(a, c),
    decreases a.len(),
{
    if a.len() > 0 && b.len() > 0 && c.len() > 0 && a[0] == b[0] && b[0] == c[0] {
        lemma_le_transitive(a.skip(1), b.skip(1), c.skip(1));
    }
}

/// Texts that come before each other are equal.
pub proof fn lemma_le_antisymmetric(a: Seq<char>, b: Seq<char>)
    requires
        le(a, b),
        le(b, a),
    ensures
        a == b,
    decreases a.len(),
{
    if a.len() > 0 && b.len() > 0 {
        lemma_le_antisymmetric(a.skip(1), b.skip(1));
        assert(a =~= seq![a[0]] + a.skip(1));
        assert(b =~= seq![b[0]] + b.skip(1));
    } else {
        assert(a =~= b);
    }
}

/// Whether a text comes before another or is equal to it.
pub fn text_le(a: &str, b: &str) -> (yes: bool)
    ensures
        yes == le(a@, b@),
{
    let left = chars_of(a);
    let right = chars_of(b);
    let mut i: usize = 0;
    assert(a@.skip(0) =~= a@);
    assert(b@.skip(0) =~= b@);
    while i < left.len() && i < right.len()
        invariant
            left@ == a@,
            right@ == b@,
            i <= left@.len(),
            i <= right@.len(),
            le(a@, b@) == le(a@.skip(i as int), b@.skip(i as int)),
        decreases left@.len() - i,
    {
        if left[i] != right[i] {
            return left[i] < right[i];
        }
        assert(a@.skip(i as int).skip(1) =~= a@.skip(i + 1));
        assert(b@.skip(i as int).skip(1) =~= b@.skip(i + 1));
        i += 1;
    }
    i >= left.len()
}

/// The text with the clusters in `[lo, hi)` replaced by `piece`.
pub open spec fn spliced(text: Seq<char>, lo: int, hi: int, piece: Seq<char>) -> Seq<char> {
    let clusters = grapheme_clusters(text);
    cluster_text(clusters, 0, lo) + piece + cluster_text(clusters, hi, clusters.len() as int)
}

/// A position, but not past the end of the text.
pub open spec fn clamped(text: Seq<char>, position: int) -> int {
    if position <= grapheme_clusters(text).len() {
        position
    } else {
        grapheme_clusters(text).len() as int
    }
}

/// Replaces the clusters in `[lo, hi)` by `piece`. Returns the text and the
/// position `advance` behind `lo` in it.
pub fn splice(text: &str, lo: usize, hi: usize, piece: &str, advance: usize) -> (edited: (
    String,
    usize,
))
    requires
        lo <= hi,
    ensures
        edited.0@ == spliced(text@, lo as int, hi as int, piece@),
        edited.1 == clamped(edited.0@, lo + advance),
{
    let clusters = graphemes(text);
    let mut whole = concat_clusters(&clusters, 0, lo);
    whole.append(piece);
    let tail = concat_clusters(&clusters, hi, clusters.len());
    whole.append(tail.as_str());
    let count: usize = graphemes(whole.as_str()).len();
    let position: usize = if lo <= count && advance <= count - lo {
        lo + advance
    } else {
        count
    };
    (whole, position)
}

/// The number of grapheme clusters of a text.
pub fn cluster_count(text: &str) -> (count: usize)
    ensures
        count == grapheme_clusters(text@).len(),
{
    let clusters = graphemes(text);
    assert(texts(clusters@).len() == clusters@.len());
    clusters.len()
}

/// The index of the first character at or after `i` that is no white space.
pub open spec fn ink_start(text: Seq<char>, i: int) -> int
    decreases text.len() - i,
{
    if 0 <= i < text.len() && is_white_space(text[i]) {
        ink_start(text, i + 1)
    } else {
        i
    }
}

/// The index behind the last character in `[lo, hi)` that is no white space.
pub open spec fn ink_end(text: Seq<char>, lo: int, hi: int) -> int
    decreases hi - lo,
{
    if lo < hi && is_white_space(text[hi - 1]) {
        ink_end(text, lo, hi - 1)
    } else {
        hi
    }
}

/// The text without white space at its ends.
pub open spec fn trimmed(text: Seq<char>) -> Seq<char> {
    let lo = ink_start(text, 0);
    text.subrange(lo, ink_end(text, lo, text.len() as int))
}

/// The text without white space at its ends.
pub fn trim(text: &str) -> (inner: String)
    ensures
        inner@ == trimmed(text@),
{
    let mut chars = chars_of(text);
    let mut lo: usize = 0;
    while lo < chars.len() && char_is_whitespace(chars[lo])
        invariant
            chars@ == text@,
            lo <= chars@.len(),
            ink_start(text@, 0) == ink_start(text@, lo as int),
        decreases chars@.len() - lo,
    {
        lo += 1;
    }
    let mut hi: usize = chars.len();
    while lo < hi && char_is_whitespace(chars[hi - 1])
        invariant
            chars@ == text@,
            lo <= hi <= chars@.len(),
            ink_end(text@, lo as int, text@.len() as int) == ink_end(
                text@,
                lo as int,
                hi as int,
            ),
        decreases hi - lo,
    {
        hi -= 1;
    }
    chars.truncate(hi);
    let inner = from_chars(&chars, lo);
    assert(text@.subrange(0, hi as int).skip(lo as int) =~= text@.subrange(lo as int, hi as int));
    inner
}

/// The first word of a text: its characters from `i` up to white space.
pub open spec fn word_end(text: Seq<char>, i: int) -> int
    decreases text.len() - i,
{
    if 0 <= i < text.len() && !is_white_space(text[i]) {
        word_end(text, i + 1)
    } else {
        i
    }
}

/// The first word of a text, empty if it has none.
pub open spec fn first_word(text: Seq<char>) -> Seq<char> {
    let lo = ink_start(text, 0);
    text.subrange(lo, word_end(text, lo))
}

/// The first word of a text, empty if it has none.
pub fn first_word_of(text: &str) -> (word: String)
    ensures
        word@ == first_word(text@),
{
    let mut chars = chars_of(text);
    let mut lo: usize = 0;
    while lo < chars.len() && char_is_whitespace(chars[lo])
        invariant
            chars@ == text@,
            lo <= chars@.len(),
            ink_start(text@, 0) == ink_start(text@, lo as int),
        decreases chars@.len() - lo,
    {
        lo += 1;
    }
    let mut hi: usize = lo;
    while hi < chars.len() && !char_is_whitespace(chars[hi])
        invariant
            chars@ == text@,
            lo <= hi <= chars@.len(),
            word_end(text@, lo as int) == word_end(text@, hi as int),
        decreases chars@.len() - hi,
    {
        hi += 1;
    }
    chars.truncate(hi);
    let word = from_chars(&chars, lo);
    assert(text@.subrange(0, hi as int).skip(lo as int) =~= text@.subrange(lo as int, hi as int));
    word
}

/// Whether the characters of `needle` occur in `text` in order.
pub open spec fn occurs_in_order(needle: Seq<char>, text: Seq<char>) -> bool
    decreases text.len(),
{
    if needle.len() == 0 {
        true
    } else if text.len() == 0 {
        false
    } else if needle[0] == text[0] {
        occurs_in_order(needle.skip(1), text.skip(1))
    } else {
        occurs_in_order(needle, text.skip(1))
    }
}

/// Whether the characters of `needle` occur in `text` in order.
pub fn is_in_order(needle: &str, text: &str) -> (yes: bool)
    ensures
        yes == occurs_in_order(needle@, text@),
{
    let wanted = chars_of(needle);
    let chars = chars_of(text);
    let mut w: usize = 0;
    let mut i: usize = 0;
    assert(needle@.skip(0) =~= needle@);
    assert(text@.skip(0) =~= text@);
    while i < chars.len() && w < wanted.len()
        invariant
            wanted@ == needle@,
            chars@ == text@,
            w <= wanted@.len(),
            i <= chars@.len(),
            occurs_in_order(needle@, text@) == occurs_in_order(
                needle@.skip(w as int),
                text@.skip(i as int),
            ),
        decreases chars@.len() - i,
    {
        assert(needle@.skip(w as int).skip(1) =~= needle@.skip(w + 1));
        assert(text@.skip(i as int).skip(1) =~= text@.skip(i + 1));
        if chars[i] == wanted[w] {
            w += 1;
        }
        i += 1;
    }
    w >= wanted.len()
}

/// Whether `at` are ascending indices of the text that hold the characters of
/// `needle`, one after the other.
pub open spec fn embeds(needle: Seq<char>, text: Seq<char>, at: Seq<int>) -> bool {
    &&& at.len() == needle.len()
    &&& forall|i: int|
        0 <= i < at.len() ==> 0 <= #[trigger] at[i] < text.len() && text[at[i]] == needle[i]
    &&& forall|i: int, j: int| 0 <= i < j < at.len() ==> at[i] < at[j]
}

/// Whether the text becomes `needle` when some of its characters are left out.
pub open spec fn subsequence(needle: Seq<char>, text: Seq<char>) -> bool {
    exists|at: Seq<int>| embeds(needle, text, at)
}

/// Characters occur in order exactly if the text becomes them when the others
/// are left out.
pub proof fn lemma_in_order_is_subsequence(needle: Seq<char>, text: Seq<char>)
    ensures
        occurs_in_order(needle, text) <==> subsequence(needle, text),
    decreases text.len(),
{
    if needle.len() == 0 {
        assert(embeds(needle, text, Seq::empty()));
    } else if text.len() == 0 {
        if subsequence(needle, text) {
            let at = choose|at: Seq<int>| embeds(needle, text, at);
            assert(0 <= at[0] < text.len());
        }
    } else {
        let rest = text.skip(1);
        let first = needle[0] == text[0];
        let tail = if first {
            needle.skip(1)
        } else {
            needle
        };
        lemma_in_order_is_subsequence(tail, rest);
        if subsequence(tail, rest) {
            let at = choose|at: Seq<int>| embeds(tail, rest, at);
            let shifted = at.map_values(|i: int| i + 1);
            let whole = if first {
                seq![0int] + shifted
            } else {
                shifted
            };
            assert forall|i: int| 0 <= i < whole.len() implies 0 <= #[trigger] whole[i]
                < text.len() && text[whole[i]] == needle[i] by {
                if first {
                    if i > 0 {
                        assert(0 <= at[i - 1] < rest.len() && rest[at[i - 1]] == tail[i - 1]);
                    }
                } else {
                    assert(0 <= at[i] < rest.len() && rest[at[i]] == tail[i]);
                }
            }
            assert forall|i: int, j: int| 0 <= i < j < whole.len() implies whole[i] < whole[j] by {
                if first {
                    assert(0 <= at[j - 1]);
                    if i > 0 {
                        assert(at[i - 1] < at[j - 1]);
                    }
                } else {
                    assert(at[i] < at[j]);
                }
            }
            assert(embeds(needle, text, whole));
        }
        if subsequence(needle, text) {
            let at = choose|at: Seq<int>| embeds(needle, text, at);
            assert(0 <= at[0]);
            let part = if first {
                at.skip(1)
            } else {
                at
            };
            let shifted = part.map_values(|i: int| i - 1);
            let skipped: int = if first {
                1
            } else {
                0
            };
            assert forall|i: int| 0 <= i < shifted.len() implies 0 <= #[trigger] shifted[i]
                < rest.len() && rest[shifted[i]] == tail[i] by {
                let j = i + skipped;
                assert(0 <= at[j] < text.len() && text[at[j]] == needle[j]);
                if j > 0 {
                    assert(at[0] < at[j]);
                }
            }
            assert forall|i: int, j: int| 0 <= i < j < shifted.len() implies shifted[i]
                < shifted[j] by {
                assert(at[i + skipped] < at[j + skipped]);
            }
            assert(embeds(tail, rest, shifted));
        }
    }
}

proof fn lemma_ink_start(text: Seq<char>, i: int)
    requires
        0 <= i <= text.len(),
    ensures
        i <= ink_start(text, i) <= text.len(),
        forall|j: int| i <= j < ink_start(text, i) ==> is_white_space(#[trigger] text[j]),
        ink_start(text, i) < text.len() ==> !is_white_space(text[ink_start(text, i)]),
    decreases text.len() - i,
{
    if i < text.len() && is_white_space(text[i]) {
        lemma_ink_start(text, i + 1);
    }
}

proof fn lemma_ink_end(text: Seq<char>, lo: int, hi: int)
    requires
        0 <= lo <= hi <= text.len(),
    ensures
        lo <= ink_end(text, lo, hi) <= hi,
        forall|j: int| ink_end(text, lo, hi) <= j < hi ==> is_white_space(#[trigger] text[j]),
        lo < ink_end(text, lo, hi) ==> !is_white_space(text[ink_end(text, lo, hi) - 1]),
    decreases hi - lo,
{
    if lo < hi && is_white_space(text[hi - 1]) {
        lemma_ink_end(text, lo, hi - 1);
    }
}

proof fn lemma_word_end(text: Seq<char>, i: int)
    requires
        0 <= i <= text.len(),
    ensures
        i <= word_end(text, i) <= text.len(),
        forall|j: int| i <= j < word_end(text, i) ==> !is_white_space(#[trigger] text[j]),
        word_end(text, i) < text.len() ==> is_white_space(text[word_end(text, i)]),
    decreases text.len() - i,
{
    if i < text.len() && !is_white_space(text[i]) {
        lemma_word_end(text, i + 1);
    }
}

/// Trimming takes white space off both ends and nothing else: the text is the
/// trimmed one between two blanks, and that neither begins nor ends with white
/// space.
pub proof fn lemma_trimmed(text: Seq<char>) -> (ends: (Seq<char>, Seq<char>))
    ensures
        text == ends.0 + trimmed(text) + ends.1,
        blank(ends.0),
        blank(ends.1),
        trimmed(text).len() > 0 ==> !is_white_space(trimmed(text)[0]) && !is_white_space(
            trimmed(text).last(),
        ),
{
    let lo = ink_start(text, 0);
    lemma_ink_start(text, 0);
    lemma_ink_end(text, lo, text.len() as int);
    let hi = ink_end(text, lo, text.len() as int);
    let ends = (text.subrange(0, lo), text.skip(hi));
    assert(text =~= ends.0 + trimmed(text) + ends.1);
    ends
}

/// The first word is a run of characters without white space: only white space
/// stands before it, white space or the end behind it, and it is empty only
/// where the text is blank.
pub proof fn lemma_first_word(text: Seq<char>) -> (around: (Seq<char>, Seq<char>))
    ensures
        text == around.0 + first_word(text) + around.1,
        blank(around.0),
        forall|i: int|
            0 <= i < first_word(text).len() ==> !is_white_space(#[trigger] first_word(text)[i]),
        around.1.len() > 0 ==> is_white_space(around.1[0]),
        first_word(text).len() == 0 ==> blank(text),
{
    let lo = ink_start(text, 0);
    lemma_ink_start(text, 0);
    lemma_word_end(text, lo);
    let hi = word_end(text, lo);
    let around = (text.subrange(0, lo), text.skip(hi));
    assert(text =~= around.0 + first_word(text) + around.1);
    assert forall|i: int| 0 <= i < first_word(text).len() implies !is_white_space(
        #[trigger] first_word(text)[i],
    ) by {
        assert(first_word(text)[i] == text[lo + i]);
    }
    around
}

/// The number that a sequence of decimal digits stands for.
pub open spec fn digits_value(digits: Seq<char>) -> int
    decreases digits.len(),
{
    if digits.len() == 0 {
        0
    } else {
        10 * digits_value(digits.drop_last()) + (digits.last() as int - '0' as int)
    }
}

/// Decimal notation consists of digits that stand for the number, and begins
/// with a zero for 0 alone.
pub proof fn lemma_decimal(n: nat)
    ensures
        decimal(n).len() > 0,
        forall|i: int| 0 <= i < decimal(n).len() ==> '0' <= #[trigger] decimal(n)[i] <= '9',
        digits_value(decimal(n)) == n,
        n > 0 ==> decimal(n)[0] != '0',
        n == 0 ==> decimal(n).len() == 1,
    decreases n,
{
    if n < 10 {
        let one = seq![digit(n)];
        assert(one.drop_last() =~= Seq::empty());
        assert(digits_value(one.drop_last()) == 0);
        assert(one.last() == digit(n));
    } else {
        lemma_decimal(n / 10);
        let all = decimal(n);
        assert(all.drop_last() =~= decimal(n / 10));
        assert(all.last() == digit(n % 10));
        assert(all[0] == decimal(n / 10)[0]);
        assert forall|i: int| 0 <= i < all.len() implies '0' <= #[trigger] all[i] <= '9' by {
            if i < all.len() - 1 {
                assert(all[i] == decimal(n / 10)[i]);
            }
        }
    }
}

/// A text comes before another exactly if it is a beginning of it, or holds
/// the smaller character where the two first differ.
pub proof fn lemma_le_by_first_difference(a: Seq<char>, b: Seq<char>)
    ensures
        le(a, b) <==> a.is_prefix_of(b) || exists|k: int|
            0 <= k < a.len() && k < b.len() && a.take(k) == b.take(k) && #[trigger] a[k] < b[k],
    decreases a.len(),
{
    if a.len() == 0 {
        assert(a =~= b.subrange(0, 0));
    } else if b.len() > 0 {
        let (at, bt) = (a.skip(1), b.skip(1));
        if a[0] == b[0] {
            lemma_le_by_first_difference(at, bt);
            if at.is_prefix_of(bt) {
                assert(a =~= seq![a[0]] + at);
                assert forall|i: int| 0 <= i < a.len() implies a[i] == b.subrange(
                    0,
                    a.len() as int,
                )[i] by {
                    if i > 0 {
                        assert(at[i - 1] == bt.subrange(0, at.len() as int)[i - 1]);
                    }
                }
                assert(a =~= b.subrange(0, a.len() as int));
            }
            if a.is_prefix_of(b) {
                assert forall|i: int| 0 <= i < at.len() implies at[i] == bt.subrange(
                    0,
                    at.len() as int,
                )[i] by {
                    assert(a[i + 1] == b.subrange(0, a.len() as int)[i + 1]);
                }
                assert(at =~= bt.subrange(0, at.len() as int));
            }
            if exists|k: int|
                0 <= k < at.len() && k < bt.len() && at.take(k) == bt.take(k) && #[trigger] at[k]
                    < bt[k] {
                let k = choose|k: int|
                    0 <= k < at.len() && k < bt.len() && at.take(k) == bt.take(k)
                        && #[trigger] at[k] < bt[k];
                assert forall|i: int| 0 <= i < k + 1 implies #[trigger] a.take(k + 1)[i] == b.take(
                    k + 1,
                )[i] by {
                    if i > 0 {
                        assert(at.take(k)[i - 1] == bt.take(k)[i - 1]);
                    }
                }
                assert(a.take(k + 1) =~= b.take(k + 1));
                assert(a[k + 1] < b[k + 1]);
            }
            if exists|k: int|
                0 <= k < a.len() && k < b.len() && a.take(k) == b.take(k) && #[trigger] a[k]
                    < b[k] {
                let k = choose|k: int|
                    0 <= k < a.len() && k < b.len() && a.take(k) == b.take(k) && #[trigger] a[k]
                        < b[k];
                assert forall|i: int| 0 <= i < k - 1 implies #[trigger] at.take(k - 1)[i] == bt.take(
                    k - 1,
                )[i] by {
                    assert(a.take(k)[i + 1] == b.take(k)[i + 1]);
                }
                assert(at.take(k - 1) =~= bt.take(k - 1));
                assert(at[k - 1] < bt[k - 1]);
            }
        } else {
            if a.is_prefix_of(b) {
                assert(a[0] == b.subrange(0, a.len() as int)[0]);
            }
            if a[0] < b[0] {
                assert(a.take(0) =~= b.take(0));
            }
            if exists|k: int|
                0 <= k < a.len() && k < b.len() && a.take(k) == b.take(k) && #[trigger] a[k]
                    < b[k] {
                let k = choose|k: int|
                    0 <= k < a.len() && k < b.len() && a.take(k) == b.take(k) && #[trigger] a[k]
                        < b[k];
                if k > 0 {
                    assert(a.take(k)[0] == b.take(k)[0]);
                }
            }
        }
    }
}

/// A word between white space, with nothing but white space before it, is the
/// first word.
pub proof fn lemma_first_word_is(gap: Seq<char>, word: Seq<char>, rest: Seq<char>)
    requires
        blank(gap),
        word.len() > 0,
        forall|i: int| 0 <= i < word.len() ==> !is_white_space(#[trigger] word[i]),
        rest.len() > 0 ==> is_white_space(rest[0]),
    ensures
        first_word(gap + word + rest) == word,
{
    let text = gap + word + rest;
    let lo = ink_start(text, 0);
    lemma_ink_start(text, 0);
    if lo < gap.len() {
        assert(is_white_space(gap[lo]));
    }
    if lo > gap.len() {
        assert(text[gap.len() as int] == word[0]);
        assert(is_white_space(text[gap.len() as int]));
    }
    let hi = word_end(text, lo);
    lemma_word_end(text, lo);
    let end = gap.len() + word.len();
    if hi < end {
        assert(text[hi] == word[hi - gap.len()]);
        assert(!is_white_space(word[hi - gap.len()]));
    }
    if hi > end {
        assert(text[end as int] == rest[0]);
        assert(!is_white_space(text[end as int]));
    }
    assert(first_word(text) =~= word);
}

/// A trimmed text is the text without the white space at its ends.
pub proof fn lemma_trim_result(text: &str, inner: String) -> (ends: (Seq<char>, Seq<char>))
    requires
        call_ensures(trim, (text,), inner),
    ensures
        text@ == ends.0 + inner@ + ends.1,
        blank(ends.0),
        blank(ends.1),
        inner@.len() > 0 ==> !is_white_space(inner@[0]) && !is_white_space(inner@.last()),
{
    lemma_trimmed(text@)
}

/// A number in decimal notation has the number's value.
pub proof fn lemma_decimal_result(n: usize, text: String)
    requires
        call_ensures(to_decimal, (n,), text),
    ensures
        text@.len() > 0,
        digits_value(text@) == n,
        text@.len() > 1 ==> text@[0] != '0',
{
    lemma_decimal(n as nat);
}

/// Characters are found in their order exactly where they are a subsequence.
pub proof fn lemma_in_order_result(needle: &str, text: &str, yes: bool)
    requires
        call_ensures(is_in_order, (needle, text), yes),
    ensures
        yes <==> subsequence(needle@, text@),
{
    lemma_in_order_is_subsequence(needle@, text@);
}

/// A text is blank exactly where each of its characters is white space.
pub proof fn lemma_blank_result(text: &str, yes: bool)
    requires
        call_ensures(is_blank, (text,), yes),
    ensures
        yes <==> forall|i: int| 0 <= i < text@.len() ==> is_white_space(#[trigger] text@[i]),
{
}

/// The first word has only white space before it, white space or the end
/// behind it, and none in it.
pub proof fn lemma_first_word_result(text: &str, word: String) -> (around: (Seq<char>, Seq<char>))
    requires
        call_ensures(first_word_of, (text,), word),
    ensures
        text@ == around.0 + word@ + around.1,
        blank(around.0),
        forall|i: int| 0 <= i < word@.len() ==> !is_white_space(#[trigger] word@[i]),
        around.1.len() > 0 ==> is_white_space(around.1[0]),
        word@.len() == 0 ==> blank(text@),
{
    lemma_first_word(text@)
}

/// A text that is spliced keeps the clusters before and behind the range, with
/// the piece between them, and the position does not leave it.
pub proof fn lemma_splice_result(
    text: &str,
    lo: usize,
    hi: usize,
    piece: &str,
    advance: usize,
    edited: (String, usize),
)
    requires
        call_ensures(splice, (text, lo, hi, piece, advance), edited),
        lo <= hi <= grapheme_clusters(text@).len(),
    ensures
        ({
            let clusters = grapheme_clusters(text@);
            let count = grapheme_clusters(edited.0@).len();
            &&& edited.0@ == clusters.take(lo as int).flatten() + piece@ + clusters.skip(
                hi as int,
            ).flatten()
            &&& lo + advance <= count ==> edited.1 == lo + advance
            &&& lo + advance > count ==> edited.1 == count
        }),
{
    let clusters = grapheme_clusters(text@);
    assert(clusters.subrange(0, lo as int) =~= clusters.take(lo as int));
    assert(clusters.subrange(hi as int, clusters.len() as int) =~= clusters.skip(hi as int));
}

} // verus!
