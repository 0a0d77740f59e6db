//! Texts as sequences of characters: taking them apart and putting them together.

use vstd::prelude::*;
use vstd::string::StringExecFns;

verus! {

/// Appends one character to a text, by `String::push`.
#[verifier::external_body]
fn push_char(text: &mut String, character: char)
    ensures
        final(text)@ == old(text)@.push(character),
{
    text.push(character)
}

/// The characters of `text`.
pub fn chars_of(text: &str) -> (chars: Vec<char>)
    ensures
        chars@ == text@,
{
    let mut chars: Vec<char> = Vec::new();
    for character in iter: text.chars()
        invariant
            iter.seq() == text@,
            chars@ == text@.take(iter.index() as int),
    {
        chars.push(character);
        assert(chars@ =~= text@.take(iter.index() + 1));
    }
    assert(text@.take(text@.len() as int) =~= text@);
    chars
}

/// The text that `chars` spell.
pub fn text_of(chars: &Vec<char>) -> (text: String)
    ensures
        text@ == chars@,
{
    let mut text = String::new();
    let mut index: usize = 0;
    while index < chars.len()
        invariant
            index <= chars.len(),
            text@ == chars@.take(index as int),
        decreases chars.len() - index,
    {
        push_char(&mut text, chars[index]);
        index += 1;
        assert(text@ =~= chars@.take(index as int));
    }
    assert(chars@.take(index as int) =~= chars@);
    text
}


/// Whether `pattern` stands in `text` at position `at`.
pub open spec fn occurs_at(text: Seq<char>, at: int, pattern: Seq<char>) -> bool {
    0 <= at && at + pattern.len() <= text.len() && text.subrange(at, at + pattern.len())
        == pattern
}

/// `text` with each occurrence of `pattern` replaced by `value`, from left to
/// right; an occurrence that overlaps one already replaced is not counted. An
/// empty pattern occurs nowhere.
pub open spec fn replaced(text: Seq<char>, pattern: Seq<char>, value: Seq<char>) -> Seq<char>
    decreases text.len(),
{
    if pattern.len() == 0 || text.len() == 0 {
        text
    } else if occurs_at(text, 0, pattern) {
        value + replaced(text.skip(pattern.len() as int), pattern, value)
    } else {
        seq![text[0]] + replaced(text.skip(1), pattern, value)
    }
}

/// Whether `pattern` stands in `text` at position `at`.
pub fn starts_at(text: &Vec<char>, at: usize, pattern: &Vec<char>) -> (found: bool)
    ensures
        found == occurs_at(text@, at as int, pattern@),
{
    if at > text.len() || pattern.len() > text.len() - at {
        return false;
    }
    let mut index: usize = 0;
    while index < pattern.len()
        invariant
            at + pattern.len() <= text.len(),
            index <= pattern.len(),
            forall|earlier: int| 0 <= earlier < index ==> text@[at + earlier] == pattern@[earlier],
        decreases pattern.len() - index,
    {
        if text[at + index] != pattern[index] {
            assert(text@.subrange(at as int, at + pattern.len())[index as int] != pattern@[index as int]);
            return false;
        }
        index += 1;
    }
    assert(text@.subrange(at as int, at + pattern.len()) =~= pattern@);
    true
}

/// Replaces each occurrence of `pattern` in `text` by `value`.
pub fn replace_all(text: &String, pattern: &str, value: &String) -> (result: String)
    ensures
        result@ == replaced(text@, pattern@, value@),
{
    let source = chars_of(text.as_str());
    let sought = chars_of(pattern);
    let inserted = chars_of(value.as_str());
    if sought.len() == 0 {
        return text.clone();
    }
    let mut written: Vec<char> = Vec::new();
    let mut at: usize = 0;
    assert(source@.skip(0) =~= source@);
    while at < source.len()
        invariant
            at <= source.len(),
            sought.len() > 0,
            written@ + replaced(source@.skip(at as int), sought@, inserted@) == replaced(
                source@,
                sought@,
                inserted@,
            ),
        decreases source.len() - at,
    {
        let ghost rest = source@.skip(at as int);
        let ghost before = written@;
        assert(rest.len() > 0 && rest[0] == source@[at as int]);
        assert(occurs_at(rest, 0, sought@) == occurs_at(source@, at as int, sought@)) by {
            if at + sought.len() <= source.len() {
                assert(rest.subrange(0, sought.len() as int) =~= source@.subrange(
                    at as int,
                    at + sought.len(),
                ));
            }
        }
        if starts_at(&source, at, &sought) {
            let mut index: usize = 0;
            while index < inserted.len()
                invariant
                    index <= inserted.len(),
                    written@ == before + inserted@.take(index as int),
                decreases inserted.len() - index,
            {
                written.push(inserted[index]);
                index += 1;
                assert(written@ =~= before + inserted@.take(index as int));
            }
            assert(inserted@.take(index as int) =~= inserted@);
            at += sought.len();
            assert(rest.skip(sought.len() as int) =~= source@.skip(at as int));
            assert(written@ + replaced(source@.skip(at as int), sought@, inserted@) =~= before
                + replaced(rest, sought@, inserted@));
        } else {
            written.push(source[at]);
            at += 1;
            assert(rest.skip(1) =~= source@.skip(at as int));
            assert(written@ + replaced(source@.skip(at as int), sought@, inserted@) =~= before
                + replaced(rest, sought@, inserted@));
        }
    }
    assert(written@ =~= written@ + replaced(source@.skip(at as int), sought@, inserted@));
    text_of(&written)
}

/// `path` seen from `base`, for paths whose parts are separated by `/`: a path
/// that starts at the root stands for itself; any other follows `base`, after a
/// separator unless `base` is empty or ends with one.
pub open spec fn joined_path(base: Seq<char>, path: Seq<char>) -> Seq<char> {
    if path.len() > 0 && path[0] == '/' {
        path
    } else if base.len() == 0 || base.last() == '/' {
        base + path
    } else {
        base + seq!['/'] + path
    }
}

/// `path` seen from `base`.
pub fn join_path(base: &String, path: &String) -> (joined: String)
    ensures
        joined@ == joined_path(base@, path@),
{
    let base_chars = chars_of(base.as_str());
    let path_chars = chars_of(path.as_str());
    if path_chars.len() > 0 && path_chars[0] == '/' {
        return path.clone();
    }
    let mut joined = base.clone();
    if base_chars.len() > 0 && base_chars[base_chars.len() - 1] != '/' {
        push_char(&mut joined, '/');
    }
    joined.append(path.as_str());
    joined
}


/// The pieces of `text` between the occurrences of `separator`, in order. There
/// is always at least one piece, and a piece may be empty.
pub open spec fn split_on(text: Seq<char>, separator: char) -> Seq<Seq<char>>
    decreases text.len(),
{
    if text.len() == 0 {
        seq![Seq::empty()]
    } else {
        let before = split_on(text.drop_last(), separator);
        if text.last() == separator {
            before.push(Seq::empty())
        } else {
            before.drop_last().push(before.last().push(text.last()))
        }
    }
}

/// Cuts `text` at each occurrence of `separator`.
pub fn split(text: &str, separator: char) -> (pieces: Vec<String>)
    ensures
        pieces.deep_view() == split_on(text@, separator),
        pieces.len() >= 1,
{
    let chars = chars_of(text);
    let mut pieces: Vec<String> = Vec::new();
    let mut current: Vec<char> = Vec::new();
    let mut index: usize = 0;
    assert(pieces.deep_view().push(current@) =~= split_on(chars@.take(0), separator));
    while index < chars.len()
        invariant
            index <= chars.len(),
            pieces.deep_view().push(current@) == split_on(chars@.take(index as int), separator),
        decreases chars.len() - index,
    {
        let ghost seen = chars@.take(index as int + 1);
        let ghost before = split_on(chars@.take(index as int), separator);
        let ghost closed = pieces.deep_view();
        assert(seen.drop_last() =~= chars@.take(index as int));
        assert(before.last() == current@);
        assert(before.drop_last() =~= closed);
        if chars[index] == separator {
            let piece = text_of(&current);
            pieces.push(piece);
            current = Vec::new();
            assert(pieces.deep_view() =~= closed.push(before.last()));
            assert(pieces.deep_view().push(current@) =~= before.push(Seq::empty()));
        } else {
            current.push(chars[index]);
        }
        index += 1;
    }
    assert(chars@.take(index as int) =~= chars@);
    let ghost closed = pieces.deep_view();
    let piece = text_of(&current);
    pieces.push(piece);
    assert(pieces.deep_view() =~= closed.push(current@));
    pieces
}


/// The pieces in order, with `separator` between each two neighbours.
pub open spec fn joined_by(pieces: Seq<Seq<char>>, separator: Seq<char>) -> Seq<char>
    decreases pieces.len(),
{
    if pieces.len() == 0 {
        Seq::empty()
    } else if pieces.len() == 1 {
        pieces[0]
    } else {
        joined_by(pieces.drop_last(), separator) + separator + pieces.last()
    }
}

/// Puts the pieces together, with `separator` between each two neighbours.
pub fn join(pieces: &Vec<String>, separator: &str) -> (text: String)
    ensures
        text@ == joined_by(pieces.deep_view(), separator@),
{
    let mut text = String::new();
    let mut done: usize = 0;
    while done < pieces.len()
        invariant
            done <= pieces.len(),
            text@ == joined_by(pieces.deep_view().take(done as int), separator@),
        decreases pieces.len() - done,
    {
        let ghost before = pieces.deep_view().take(done as int);
        let ghost after = pieces.deep_view().take(done as int + 1);
        assert(after.drop_last() =~= before);
        assert(after.last() == pieces[done as int]@);
        if done > 0 {
            text.append(separator);
        }
        text.append(pieces[done].as_str());
        done += 1;
        assert(text@ =~= joined_by(after, separator@));
    }
    assert(pieces.deep_view().take(done as int) =~= pieces.deep_view());
    text
}


/// Whether a character is white space as Unicode defines it.
pub uninterp spec fn white_space(character: char) -> bool;

/// Whether a character is white space, by `char::is_whitespace`: whether it has
/// the Unicode property White_Space.
#[verifier::external_body]
fn is_white_space(character: char) -> (white: bool)
    ensures
        white == white_space(character),
{
    character.is_whitespace()
}

/// `text` without the white space it starts with.
pub open spec fn trimmed_start(text: Seq<char>) -> Seq<char>
    decreases text.len(),
{
    if text.len() > 0 && white_space(text[0]) {
        trimmed_start(text.skip(1))
    } else {
        text
    }
}

/// `text` without the white space it ends with.
pub open spec fn trimmed_end(text: Seq<char>) -> Seq<char>
    decreases text.len(),
{
    if text.len() > 0 && white_space(text.last()) {
        trimmed_end(text.drop_last())
    } else {
        text
    }
}

/// `text` without the white space around it.
pub open spec fn trimmed(text: Seq<char>) -> Seq<char> {
    trimmed_end(trimmed_start(text))
}

/// Takes the white space at both ends of `text` away.
pub fn trim(text: &str) -> (inner: String)
    ensures
        inner@ == trimmed(text@),
{
    let chars = chars_of(text);
    let mut start: usize = 0;
    assert(chars@.skip(0) =~= chars@);
    while start < chars.len() && is_white_space(chars[start])
        invariant
            start <= chars.len(),
            trimmed_start(chars@.skip(start as int)) == trimmed_start(chars@),
        decreases chars.len() - start,
    {
        assert(chars@.skip(start as int).skip(1) =~= chars@.skip(start as int + 1));
        start += 1;
    }
    assert(trimmed_start(chars@) == chars@.skip(start as int));
    let mut end: usize = chars.len();
    assert(chars@.subrange(start as int, end as int) =~= chars@.skip(start as int));
    while end > start && is_white_space(chars[end - 1])
        invariant
            start <= end <= chars.len(),
            trimmed_end(chars@.subrange(start as int, end as int)) == trimmed(chars@),
        decreases end,
    {
        assert(chars@.subrange(start as int, end as int).drop_last() =~= chars@.subrange(
            start as int,
            end - 1,
        ));
        end -= 1;
    }
    assert(trimmed(chars@) == chars@.subrange(start as int, end as int));
    let mut inner: Vec<char> = Vec::new();
    let mut index: usize = start;
    while index < end
        invariant
            start <= index <= end <= chars.len(),
            inner@ == chars@.subrange(start as int, index as int),
        decreases end - index,
    {
        inner.push(chars[index]);
        index += 1;
        assert(inner@ =~= chars@.subrange(start as int, index as int));
    }
    text_of(&inner)
}

/// `text` in upper case as Unicode defines it.
pub uninterp spec fn uppercased(text: Seq<char>) -> Seq<char>;

/// The upper case of `text`, by `str::to_uppercase`: each character replaced by
/// its upper case equivalent, which may be several characters.
#[verifier::external_body]
pub(crate) fn to_uppercase(text: &String) -> (upper: String)
    ensures
        upper@ == uppercased(text@),
{
    text.to_uppercase()
}

} // verus!
