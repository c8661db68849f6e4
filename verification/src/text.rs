//! Looking into a string, one character at a time.

use std::str::Lines;
use std::str::SplitWhitespace;
use vstd::prelude::*;
use vstd::string::StrSliceExecFns;

verus! {

/// The first place at which `s` holds `c`, or the length of `s` where it does not.
pub open spec fn first_index_of(s: Seq<char>, c: char) -> int
    decreases s.len(),
{
    if s.len() == 0 {
        0
    } else if s[0] == c {
        0
    } else {
        1 + first_index_of(s.skip(1), c)
    }
}

/// The first place of `c` is a place at which `c` stands, before which it
/// does not stand, or it is the end.
pub proof fn lemma_first_index_of(s: Seq<char>, c: char)
    ensures
        0 <= first_index_of(s, c) <= s.len(),
        first_index_of(s, c) < s.len() ==> s[first_index_of(s, c)] == c,
        forall|j: int| 0 <= j < first_index_of(s, c) ==> s[j] != c,
    decreases s.len(),
{
    if s.len() > 0 && s[0] != c {
        let rest = s.skip(1);
        lemma_first_index_of(rest, c);
        assert forall|j: int| 0 <= j < first_index_of(s, c) implies s[j] != c by {
            if j > 0 {
                assert(rest[j - 1] == s[j]);
            }
        }
    }
}

/// A place at which `c` stands and before which it does not is the first.
pub proof fn lemma_first_index_is(s: Seq<char>, c: char, at: int)
    requires
        0 <= at <= s.len(),
        at < s.len() ==> s[at] == c,
        forall|j: int| 0 <= j < at ==> s[j] != c,
    ensures
        first_index_of(s, c) == at,
{
    lemma_first_index_of(s, c);
    let first = first_index_of(s, c);
    if first < at {
        assert(s[first] == c);
    }
}

/// The first place at which `s` holds `c`, or the number of its characters.
pub fn find_char(s: &str, c: char) -> (at: usize)
    ensures
        at == first_index_of(s@, c),
{
    let n = s.unicode_len();
    let mut i: usize = 0;
    for x in it: s.chars()
        invariant
            i == it.index(),
            it.seq() == s@,
            i <= n,
            n == s@.len(),
            forall|j: int| 0 <= j < i ==> s@[j] != c,
    {
        if x == c {
            proof {
                lemma_first_index_is(s@, c, i as int);
            }
            return i;
        }
        i = i + 1;
    }
    proof {
        lemma_first_index_is(s@, c, i as int);
    }
    i
}

/// What a sequence of string slices reads, slice by slice.
pub open spec fn views(slices: Seq<&str>) -> Seq<Seq<char>> {
    slices.map_values(|slice: &str| slice@)
}

/// Whether `needle` stands somewhere in `hay`, character by character.
pub open spec fn occurs_in(needle: Seq<char>, hay: Seq<char>) -> bool {
    exists|at: int|
        0 <= at && at + needle.len() <= hay.len() && #[trigger] hay.subrange(
            at,
            at + needle.len(),
        ) == needle
}

/// A line without the carriage return that stands at its end, if one does.
pub open spec fn without_return(line: Seq<char>) -> Seq<char> {
    if line.len() > 0 && line.last() == '\r' {
        line.drop_last()
    } else {
        line
    }
}

/// The lines of a text.
///
/// A line ends with a line feed, or with a carriage return and a line feed;
/// neither belongs to the line. The last line may go without: what follows
/// the last line feed is a line if it is not empty, and keeps a carriage
/// return that stands at its end.
pub open spec fn lines(text: Seq<char>) -> Seq<Seq<char>>
    decreases text.len(),
{
    if text.len() == 0 {
        Seq::empty()
    } else {
        let end = first_index_of(text, '\n');
        if 0 <= end < text.len() {
            seq![without_return(text.take(end))] + lines(text.skip(end + 1))
        } else {
            seq![text]
        }
    }
}

/// What `str::to_lowercase` makes of a text: the text with every letter in
/// lower case, by the tables of the Unicode standard.
pub uninterp spec fn lowercase(text: Seq<char>) -> Seq<char>;

/// What `str::split_whitespace` finds in a text: the words that white space
/// sets apart, in their order. What counts as white space is a matter of the
/// tables of the Unicode standard.
pub uninterp spec fn words(text: Seq<char>) -> Seq<Seq<char>>;

/// `std::str::SplitWhitespace`, the iterator that `str::split_whitespace`
/// returns, declared so that it can be handed from one call to the next.
#[verifier::external_type_specification]
#[verifier::external_body]
pub struct ExSplitWhitespace<'a>(SplitWhitespace<'a>);

/// The words that an iterator over the words of a text has still to hand out.
pub uninterp spec fn words_left(iter: SplitWhitespace<'_>) -> Seq<Seq<char>>;

/// `str::split_whitespace`: an iterator that has the words of `text` to hand
/// out, which are [`words`] of it.
#[verifier::external_body]
pub(crate) fn word_iter<'a>(text: &'a str) -> (iter: SplitWhitespace<'a>)
    ensures
        words_left(iter) == words(text@),
{
    text.split_whitespace()
}

/// `Iterator::next` of `std::str::SplitWhitespace`: the first of the words
/// that are left, which is then no longer left, or `None` when none is.
#[verifier::external_body]
pub(crate) fn next_word<'a>(iter: &mut SplitWhitespace<'a>) -> (word: Option<&'a str>)
    ensures
        match word {
            Some(found) => {
                &&& words_left(*old(iter)).len() > 0
                &&& found@ == words_left(*old(iter))[0]
                &&& words_left(*final(iter)) == words_left(*old(iter)).skip(1)
            },
            None => words_left(*old(iter)).len() == 0 && words_left(*final(iter)) == words_left(
                *old(iter),
            ),
        },
{
    iter.next()
}

/// The words of `text`, each a slice of it.
pub fn split_whitespace<'a>(text: &'a str) -> (found: Vec<&'a str>)
    ensures
        views(found@) == words(text@),
{
    let mut iter = word_iter(text);
    let mut found: Vec<&'a str> = Vec::new();
    assert(views(found@) =~= Seq::empty());
    loop
        invariant
            views(found@) + words_left(iter) == words(text@),
        decreases words_left(iter).len(),
    {
        let ghost before = found@;
        let ghost left = words_left(iter);
        match next_word(&mut iter) {
            Some(word) => {
                found.push(word);
                assert(views(found@) =~= views(before).push(word@));
                assert(views(found@) + left.skip(1) =~= views(before) + left);
            },
            None => {
                assert(views(found@) + left =~= views(found@));
                return found;
            },
        }
    }
}

/// `std::str::Lines`, the iterator that `str::lines` returns, declared so
/// that it can be handed from one call to the next.
#[verifier::external_type_specification]
#[verifier::external_body]
pub struct ExLines<'a>(Lines<'a>);

/// The lines that an iterator over the lines of a text has still to hand out.
pub uninterp spec fn lines_left(iter: Lines<'_>) -> Seq<Seq<char>>;

/// `str::lines`: an iterator that has the lines of `text` to hand out, as
/// [`lines`] states them.
#[verifier::external_body]
pub(crate) fn line_iter<'a>(text: &'a str) -> (iter: Lines<'a>)
    ensures
        lines_left(iter) == lines(text@),
{
    text.lines()
}

/// `Iterator::next` of `std::str::Lines`: the first of the lines that are
/// left, which is then no longer left, or `None` when none is.
#[verifier::external_body]
pub(crate) fn next_line<'a>(iter: &mut Lines<'a>) -> (line: Option<&'a str>)
    ensures
        match line {
            Some(found) => {
                &&& lines_left(*old(iter)).len() > 0
                &&& found@ == lines_left(*old(iter))[0]
                &&& lines_left(*final(iter)) == lines_left(*old(iter)).skip(1)
            },
            None => lines_left(*old(iter)).len() == 0 && lines_left(*final(iter)) == lines_left(
                *old(iter),
            ),
        },
{
    iter.next()
}

/// The lines of `text`, each a slice of it.
pub fn split_lines<'a>(text: &'a str) -> (found: Vec<&'a str>)
    ensures
        views(found@) == lines(text@),
{
    let mut iter = line_iter(text);
    let mut found: Vec<&'a str> = Vec::new();
    assert(views(found@) =~= Seq::empty());
    loop
        invariant
            views(found@) + lines_left(iter) == lines(text@),
        decreases lines_left(iter).len(),
    {
        let ghost before = found@;
        let ghost left = lines_left(iter);
        match next_line(&mut iter) {
            Some(line) => {
                found.push(line);
                assert(views(found@) =~= views(before).push(line@));
                assert(views(found@) + left.skip(1) =~= views(before) + left);
            },
            None => {
                assert(views(found@) + left =~= views(found@));
                return found;
            },
        }
    }
}

/// `str::contains` with a string for a pattern: whether `needle` matches a
/// part of `hay`.
#[verifier::external_body]
pub(crate) fn contains(hay: &str, needle: &str) -> (found: bool)
    ensures
        found == occurs_in(needle@, hay@),
{
    hay.contains(needle)
}

/// `str::to_lowercase`: the text in lower case, which is [`lowercase`] of it.
#[verifier::external_body]
pub(crate) fn to_lowercase(text: &str) -> (lower: String)
    ensures
        lower@ == lowercase(text@),
{
    text.to_lowercase()
}

} // verus!
