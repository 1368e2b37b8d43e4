//! Keyword completion for the interactive shell: the word at the cursor is
//! found by `rustyline`, and the keywords that begin with it are offered.

use crate::display::strings_view;
use crate::text::{chars_of, starts_with};
use std::collections::BTreeSet;
use vstd::prelude::*;
use vstd::string::*;
use vstd::utf8::*;

verus! {

/// The keywords that are offered, in the order in which they are offered.
pub open spec fn keywords() -> Seq<Seq<char>> {
    seq![
        "ASC"@,
        "CASE"@,
        "COALESCE"@,
        "COUNT"@,
        "DESC"@,
        "DESCRIBE"@,
        "ELSE"@,
        "END"@,
        "FROM"@,
        "GROUP BY"@,
        "HAVING"@,
        "IF"@,
        "IN"@,
        "IS"@,
        "LIMIT"@,
        "MAX"@,
        "MIN"@,
        "NOT"@,
        "NULL"@,
        "ORDER BY"@,
        "SELECT"@,
        "THEN"@,
        "WHEN"@,
    ]
}

/// The characters that end a word.
pub open spec fn break_chars() -> Seq<char> {
    seq![' ', '\t', '\n', '"', '\'', '>', '<', '=', ';', '(', ')']
}

/// The views of a list of string slices.
pub open spec fn strs_view(strs: Seq<&'static str>) -> Seq<Seq<char>> {
    Seq::new(strs.len(), |i: int| strs[i]@)
}

/// `c` with the ASCII letters `a` to `z` mapped to `A` to `Z`.
pub open spec fn ascii_upper(c: char) -> char {
    if 'a' <= c <= 'z' {
        ((c as u8) - 32) as char
    } else {
        c
    }
}

/// `s` with every ASCII lower-case letter in upper case.
pub open spec fn to_ascii_uppercase(s: Seq<char>) -> Seq<char> {
    Seq::new(s.len(), |i: int| ascii_upper(s[i]))
}

/// The words of `words` that begin with `prefix`, in order.
pub open spec fn matching(words: Seq<Seq<char>>, prefix: Seq<char>) -> Seq<Seq<char>>
    decreases words.len(),
{
    if words.len() == 0 {
        Seq::empty()
    } else {
        let earlier = matching(words.drop_last(), prefix);
        if prefix.is_prefix_of(words.last()) {
            earlier.push(words.last())
        } else {
            earlier
        }
    }
}

/// Whether the word in front of the cursor begins at byte `start`, for a
/// line of the bytes `line` with the cursor at byte `pos`: `start` is a
/// character boundary at or before the cursor, no break character stands
/// between it and the cursor, and a break character stands right before
/// it unless it is the start of the line.
pub open spec fn is_word_start(line: Seq<u8>, pos: int, breaks: Set<char>, start: int) -> bool {
    &&& 0 <= start <= pos
    &&& is_char_boundary(line, start)
    &&& forall|i: int|
        0 <= i < decode_utf8(line.subrange(start, pos)).len() ==> !breaks.contains(
            #[trigger] decode_utf8(line.subrange(start, pos))[i],
        )
    &&& start > 0 ==> breaks.contains(decode_utf8(line.subrange(0, start)).last())
}

/// Two character boundaries of a line stay boundaries of the part of the
/// line between any earlier boundary and any later one.
proof fn lemma_boundary_within(line: Seq<u8>, from: int, at: int, to: int)
    requires
        valid_utf8(line),
        is_char_boundary(line, from),
        is_char_boundary(line, at),
        is_char_boundary(line, to),
        0 <= from <= at <= to <= line.len(),
    ensures
        valid_utf8(line.subrange(from, to)),
        is_char_boundary(line.subrange(from, to), at - from),
        line.subrange(from, to).subrange(0, at - from) == line.subrange(from, at),
        line.subrange(from, to).subrange(at - from, to - from) == line.subrange(at, to),
{
    let head = line.subrange(0, to);
    valid_utf8_split(line, to);
    if from < to {
        is_char_boundary_iff_not_is_continuation_byte(line, from);
        is_char_boundary_iff_not_is_continuation_byte(head, from);
    } else {
        is_char_boundary_start_end_of_seq(head);
    }
    valid_utf8_split(head, from);
    let part = line.subrange(from, to);
    assert(head.subrange(from, head.len() as int) =~= part);
    if at < to {
        is_char_boundary_iff_not_is_continuation_byte(line, at);
        is_char_boundary_iff_not_is_continuation_byte(part, at - from);
    } else {
        is_char_boundary_start_end_of_seq(part);
    }
    assert(part.subrange(0, at - from) =~= line.subrange(from, at));
    assert(part.subrange(at - from, to - from) =~= line.subrange(at, to));
}

/// A word start lies at or before any other: a break character stands
/// right in front of a word start, so none that begins earlier reaches the
/// cursor without one.
proof fn lemma_word_start_first(line: Seq<u8>, pos: int, breaks: Set<char>, a: int, b: int)
    requires
        valid_utf8(line),
        is_char_boundary(line, pos),
        is_word_start(line, pos, breaks, a),
        is_word_start(line, pos, breaks, b),
    ensures
        b <= a,
{
    if a < b {
        let word = line.subrange(a, pos);
        let before = line.subrange(0, b);
        let gap = line.subrange(a, b);
        lemma_boundary_within(line, a, b, pos);
        lemma_boundary_within(line, 0, a, b);
        lemma_boundary_within(line, a, b, b);
        decode_utf8_split(word, b - a);
        decode_utf8_split(before, a);
        assert(word.subrange(b - a, word.len() as int) =~= line.subrange(b, pos));
        assert(before.subrange(a, before.len() as int) =~= gap);
        assert(valid_utf8(gap));
        assert(decode_utf8(gap).len() > 0);
        let k = decode_utf8(gap).len() - 1;
        assert(decode_utf8(before).last() == decode_utf8(gap)[k]);
        assert(decode_utf8(word)[k] == decode_utf8(gap)[k]);
        assert(!breaks.contains(decode_utf8(word)[k]));
    }
}

/// The start of the word in front of the cursor is unique: `is_word_start`
/// holds of one byte index only.
pub proof fn lemma_word_start_unique(line: Seq<u8>, pos: int, breaks: Set<char>, a: int, b: int)
    requires
        valid_utf8(line),
        is_char_boundary(line, pos),
        is_word_start(line, pos, breaks, a),
        is_word_start(line, pos, breaks, b),
    ensures
        a == b,
{
    lemma_word_start_first(line, pos, breaks, a, b);
    lemma_word_start_first(line, pos, breaks, b, a);
}

/// The set of the characters in `chars`.
///
/// Trusted: calls `BTreeSet::from_iter`, which std documents as making a
/// set from what an iterator yields. The contract says that the set holds
/// the characters of the list and no others.
#[verifier::external_body]
pub(crate) fn set_of(chars: Vec<char>) -> (set: BTreeSet<char>)
    ensures
        set@ == chars@.to_set(),
{
    BTreeSet::from_iter(chars)
}

/// The word in front of the cursor and the byte at which it begins.
///
/// Trusted: calls `rustyline::completion::extract_word`. That function
/// searches `line[..pos]` backwards for the last character of
/// `break_chars`; it returns the index behind that character, or 0 when
/// there is none, and the rest of `line[..pos]` from that index on. The
/// contract says this as `is_word_start`, and that the slice returned holds
/// the bytes from there to the cursor. The slicing in it panics unless
/// `pos` is a character boundary of `line`, which `requires` demands.
#[verifier::external_body]
pub(crate) fn extract_word<'l>(line: &'l str, pos: usize, break_chars: &BTreeSet<char>) -> (found:
    (usize, &'l str))
    requires
        is_char_boundary(line.spec_bytes(), pos as int),
    ensures
        is_word_start(line.spec_bytes(), pos as int, break_chars@, found.0 as int),
        found.1.spec_bytes() == line.spec_bytes().subrange(found.0 as int, pos as int),
{
    rustyline::completion::extract_word(line, pos, break_chars)
}

/// The keywords that are offered.
pub fn presto_keywords() -> (words: Vec<&'static str>)
    ensures
        strs_view(words@) == keywords(),
{
    let words = vec![
        "ASC",
        "CASE",
        "COALESCE",
        "COUNT",
        "DESC",
        "DESCRIBE",
        "ELSE",
        "END",
        "FROM",
        "GROUP BY",
        "HAVING",
        "IF",
        "IN",
        "IS",
        "LIMIT",
        "MAX",
        "MIN",
        "NOT",
        "NULL",
        "ORDER BY",
        "SELECT",
        "THEN",
        "WHEN",
    ];
    assert(strs_view(words@) =~= keywords());
    words
}

/// `c` in upper case if it is an ASCII lower-case letter.
pub fn upper(c: char) -> (u: char)
    ensures
        u == ascii_upper(c),
{
    if 'a' <= c && c <= 'z' {
        ((c as u8) - 32) as char
    } else {
        c
    }
}

/// Completes SQL keywords. Holds the set of the break characters.
#[derive(Debug)]
pub struct VeloceCompleter(pub BTreeSet<char>);

impl VeloceCompleter {
    /// A completer with the usual break characters.
    pub fn new() -> (completer: VeloceCompleter)
        ensures
            completer.0@ == break_chars().to_set(),
    {
        let breaks = vec![' ', '\t', '\n', '"', '\'', '>', '<', '=', ';', '(', ')'];
        assert(breaks@ =~= break_chars());
        VeloceCompleter(set_of(breaks))
    }

    /// The start of the word in front of the cursor, and the keywords that
    /// begin with that word in upper case.
    ///
    /// `pos` is the cursor as a byte index into `line` and has to be a
    /// character boundary.
    pub fn complete(&self, line: &str, pos: usize) -> (found: (usize, Vec<String>))
        requires
            is_char_boundary(line.spec_bytes(), pos as int),
        ensures
            is_word_start(line.spec_bytes(), pos as int, self.0@, found.0 as int),
            strings_view(found.1@) == matching(
                keywords(),
                to_ascii_uppercase(
                    decode_utf8(line.spec_bytes().subrange(found.0 as int, pos as int)),
                ),
            ),
    {
        let (start, word) = extract_word(line, pos, &self.0);
        proof {
            encode_utf8_decode_utf8(word@);
        }
        let typed = chars_of(word);
        let mut prefix: Vec<char> = Vec::new();
        for i in 0..typed.len()
            invariant
                prefix@.len() == i,
                forall|j: int| 0 <= j < i ==> prefix@[j] == ascii_upper(typed@[j]),
        {
            prefix.push(upper(typed[i]));
        }
        assert(prefix@ =~= to_ascii_uppercase(typed@));
        let words = presto_keywords();
        let mut completions: Vec<String> = Vec::new();
        for i in 0..words.len()
            invariant
                strs_view(words@) == keywords(),
                strings_view(completions@) == matching(keywords().take(i as int), prefix@),
        {
            assert(keywords().take(i + 1).drop_last() =~= keywords().take(i as int));
            assert(strs_view(words@)[i as int] == words@[i as int]@);
            let word_chars = chars_of(words[i]);
            if starts_with(&word_chars, &prefix) {
                let ghost earlier = completions@;
                completions.push(String::from_str(words[i]));
                assert(strings_view(completions@) =~= strings_view(earlier).push(
                    words@[i as int]@,
                ));
            }
        }
        assert(keywords().take(words.len() as int) =~= keywords());
        (start, completions)
    }
}

} // verus!
