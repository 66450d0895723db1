//! The configuration file: one `key=value` to a line.
use vstd::prelude::*;
use vstd::slice::slice_subrange;
use vstd::utf8::{
    char_is_scalar, char_u32_cast, decode_utf8, encode_scalar, encode_utf8,
    encode_utf8_decode_utf8, encode_utf8_valid_utf8, valid_utf8,
};

use crate::text::{decode_text, same_text, text_of_bytes};

verus! {

/// The place of the first `c` in a sequence, or the length of the sequence where there is
/// none.
pub open spec fn find<A>(text: Seq<A>, c: A) -> int
    decreases text.len(),
{
    if text.len() == 0 || text[0] == c {
        0
    } else {
        1 + find(text.skip(1), c)
    }
}

/// A line without the carriage return at its end.
pub open spec fn strip_return(line: Seq<char>) -> Seq<char> {
    if line.len() > 0 && line.last() == '\r' {
        line.drop_last()
    } else {
        line
    }
}

/// The lines of a text. A line ends at a line feed, and a carriage return before the line
/// feed belongs to the end of the line; what follows the last line feed is a line too,
/// unless it is empty.
pub open spec fn lines(text: Seq<char>) -> Seq<Seq<char>>
    decreases text.len(),
{
    let end = find(text, '\n');
    if 0 <= end < text.len() {
        seq![strip_return(text.take(end))] + lines(text.skip(end + 1))
    } else if text.len() > 0 {
        seq![text]
    } else {
        Seq::empty()
    }
}

/// The text made of some lines, each followed by a line feed.
pub open spec fn unlines(lines: Seq<Seq<char>>) -> Seq<char>
    decreases lines.len(),
{
    if lines.len() == 0 {
        Seq::empty()
    } else {
        lines[0].push('\n') + unlines(lines.skip(1))
    }
}

/// The line that gives `key` the value `value`.
pub open spec fn entry(key: Seq<char>, value: Seq<char>) -> Seq<char> {
    key.push('=') + value
}

/// The line gives a value to `key`.
pub open spec fn is_entry(line: Seq<char>, key: Seq<char>) -> bool {
    key.push('=').is_prefix_of(line)
}

/// One of the lines gives a value to `key`.
pub open spec fn has_entry(lines: Seq<Seq<char>>, key: Seq<char>) -> bool {
    exists|i: int| 0 <= i < lines.len() && #[trigger] is_entry(lines[i], key)
}

/// The lines after `key` was given the value `value`: in place of every line that gave it
/// one, or else at the end.
pub open spec fn updated(lines: Seq<Seq<char>>, key: Seq<char>, value: Seq<char>) -> Seq<
    Seq<char>,
> {
    let replaced = lines.map_values(
        |line: Seq<char>|
            if is_entry(line, key) {
                entry(key, value)
            } else {
                line
            },
    );
    if has_entry(lines, key) {
        replaced
    } else {
        replaced.push(entry(key, value))
    }
}

/// The part of a line between its first and its second `=`.
pub open spec fn value_part(line: Seq<char>) -> Seq<char> {
    let rest = line.skip(find(line, '=') + 1);
    rest.take(find(rest, '='))
}

/// The value that the first of the lines for `key` gives it.
pub open spec fn value_in(lines: Seq<Seq<char>>, key: Seq<char>) -> Option<Seq<char>>
    decreases lines.len(),
{
    if lines.len() == 0 {
        None
    } else if is_entry(lines[0], key) {
        Some(value_part(lines[0]))
    } else {
        value_in(lines.skip(1), key)
    }
}

/// What the text of the configuration becomes when `key` is given the value `value`.
pub open spec fn written(text: Seq<char>, key: Seq<char>, value: Seq<char>) -> Seq<char> {
    unlines(updated(lines(text), key, value))
}

/// The characters of some texts.
pub open spec fn views(texts: Seq<String>) -> Seq<Seq<char>> {
    texts.map_values(|text: String| text@)
}

/// What `find` finds.
proof fn lemma_find<A>(text: Seq<A>, c: A)
    ensures
        0 <= find(text, c) <= text.len(),
        forall|i: int| 0 <= i < find(text, c) ==> text[i] != c,
        find(text, c) < text.len() ==> text[find(text, c)] == c,
    decreases text.len(),
{
    if text.len() > 0 && text[0] != c {
        lemma_find(text.skip(1), c);
        assert forall|i: int| 0 <= i < find(text, c) implies text[i] != c by {
            if i > 0 {
                assert(text[i] == text.skip(1)[i - 1]);
            }
        }
    }
}

/// The first `c` is where a `c` is and none before it.
proof fn lemma_find_is<A>(text: Seq<A>, c: A, place: int)
    requires
        0 <= place <= text.len(),
        forall|i: int| 0 <= i < place ==> text[i] != c,
        place < text.len() ==> text[place] == c,
    ensures
        find(text, c) == place,
{
    lemma_find(text, c);
}

/// One more line makes the text longer by that line.
proof fn lemma_unlines_push(lines: Seq<Seq<char>>, line: Seq<char>)
    ensures
        unlines(lines.push(line)) == unlines(lines) + line.push('\n'),
    decreases lines.len(),
{
    let all = lines.push(line);
    if lines.len() == 0 {
        assert(all.skip(1).len() == 0);
        assert(unlines(all.skip(1)) =~= Seq::<char>::empty());
        assert(unlines(all) =~= unlines(lines) + line.push('\n'));
    } else {
        assert(all.skip(1) =~= lines.skip(1).push(line));
        lemma_unlines_push(lines.skip(1), line);
        assert(unlines(all) =~= unlines(lines) + line.push('\n'));
    }
}

/// The characters of a text.
fn chars_of(text: &str) -> (chars: Vec<char>)
    ensures
        chars@ == text@,
{
    let mut chars: Vec<char> = Vec::new();
    for c in iter: text.chars()
        invariant
            chars@ == iter.seq().take(iter.index()),
            iter.seq() == text@,
    {
        chars.push(c);
    }
    chars
}

/// The place of the first `c` at `from` or after it, or the number of characters where
/// there is none.
fn find_from(chars: &Vec<char>, c: char, from: usize) -> (place: usize)
    requires
        from <= chars@.len(),
    ensures
        from <= place <= chars@.len(),
        place - from == find(chars@.skip(from as int), c),
{
    let mut place: usize = from;
    while place < chars.len() && chars[place] != c
        invariant
            from <= place <= chars@.len(),
            forall|i: int| from <= i < place ==> chars@[i] != c,
        decreases chars@.len() - place,
    {
        place = place + 1;
    }
    proof {
        lemma_find_is(chars@.skip(from as int), c, place - from);
    }
    place
}

/// The lines of a text.
fn split_lines(text: &str) -> (found: Vec<String>)
    ensures
        views(found@) == lines(text@),
{
    let chars = chars_of(text);
    let mut found: Vec<String> = Vec::new();
    let mut start: usize = 0;
    proof {
        assert(text@.skip(0) =~= text@);
        assert(views(found@) + lines(text@) =~= lines(text@));
    }
    while start < chars.len()
        invariant
            chars@ == text@,
            start <= chars@.len(),
            views(found@) + lines(text@.skip(start as int)) == lines(text@),
        decreases chars@.len() - start,
    {
        let end = find_from(&chars, '\n', start);
        let ghost rest = text@.skip(start as int);
        let ghost before = views(found@);
        let line_end: usize = if end < chars.len() && end > start && chars[end - 1] == '\r' {
            end - 1
        } else {
            end
        };
        let line = text.substring_char(start, line_end).to_owned();
        found.push(line);
        assert(views(found@) =~= before.push(line@));
        if end < chars.len() {
            start = end + 1;
            proof {
                assert(line@ =~= strip_return(rest.take(find(rest, '\n'))));
                assert(rest.skip(find(rest, '\n') + 1) =~= text@.skip(start as int));
            }
        } else {
            start = chars.len();
            proof {
                assert(line@ =~= rest);
                assert(lines(text@.skip(start as int)) =~= Seq::<Seq<char>>::empty());
            }
        }
        assert(views(found@) + lines(text@.skip(start as int)) =~= before + lines(rest));
    }
    proof {
        assert(lines(text@.skip(start as int)) =~= Seq::<Seq<char>>::empty());
        assert(views(found@) + lines(text@.skip(start as int)) =~= views(found@));
    }
    found
}

/// Whether the line gives a value to `key`.
fn is_entry_of(line: &str, key: &str) -> (entry: bool)
    ensures
        entry == is_entry(line@, key@),
{
    let n: usize = key.unicode_len();
    let found = line.unicode_len() > n && line.get_char(n) == '=' && same_text(
        line.substring_char(0, n),
        key,
    );
    proof {
        if line@.len() > n {
            let start = line@.subrange(0, n + 1);
            assert(start =~= line@.subrange(0, n as int).push(line@[n as int]));
            if key@.push('=') == start {
                assert(start[n as int] == '=');
                assert(key@ =~= start.drop_last());
                assert(line@.subrange(0, n as int) =~= start.drop_last());
            }
        }
    }
    found
}

/// Gives `key` the value `value` in the text of a configuration: in every line that gives
/// it one already, or else in a line of its own at the end. Every line ends in a line feed
/// afterwards.
pub fn write_to_config(key: &str, value: &str, contents: &str) -> (text: String)
    ensures
        text@ == written(contents@, key@, value@),
{
    let old_lines = split_lines(contents);
    let ghost all = lines(contents@);
    let ghost replaced = all.map_values(
        |line: Seq<char>|
            if is_entry(line, key@) {
                entry(key@, value@)
            } else {
                line
            },
    );
    let mut text = String::new();
    let mut key_found = false;
    let mut i: usize = 0;
    proof {
        assert(replaced.take(0) =~= Seq::<Seq<char>>::empty());
    }
    while i < old_lines.len()
        invariant
            i <= old_lines@.len(),
            all == lines(contents@),
            views(old_lines@) == all,
            replaced == all.map_values(
                |line: Seq<char>|
                    if is_entry(line, key@) {
                        entry(key@, value@)
                    } else {
                        line
                    },
            ),
            key_found == has_entry(all.take(i as int), key@),
            text@ == unlines(replaced.take(i as int)),
        decreases old_lines@.len() - i,
    {
        let line = old_lines[i].as_str();
        assert(line@ == all[i as int]);
        let ghost before = text@;
        if is_entry_of(line, key) {
            text.append(key);
            text.append("=");
            text.append(value);
            key_found = true;
        } else {
            text.append(line);
        }
        text.append("\n");
        proof {
            reveal_strlit("=");
            reveal_strlit("\n");
            assert(replaced.take(i + 1) =~= replaced.take(i as int).push(replaced[i as int]));
            lemma_unlines_push(replaced.take(i as int), replaced[i as int]);
            assert(text@ =~= before + replaced[i as int].push('\n'));
            lemma_has_entry_push(all, key@, i as int);
        }
        i = i + 1;
    }
    proof {
        assert(all.take(i as int) =~= all);
        assert(replaced.take(i as int) =~= replaced);
    }
    if !key_found {
        let ghost before = text@;
        text.append(key);
        text.append("=");
        text.append(value);
        text.append("\n");
        proof {
            reveal_strlit("=");
            reveal_strlit("\n");
            lemma_unlines_push(replaced, entry(key@, value@));
            assert(text@ =~= before + entry(key@, value@).push('\n'));
        }
    }
    text
}

/// A key has an entry among the first lines if it had one before the last of them, or has
/// it there.
proof fn lemma_has_entry_push(lines: Seq<Seq<char>>, key: Seq<char>, n: int)
    requires
        0 <= n < lines.len(),
    ensures
        has_entry(lines.take(n + 1), key) == (has_entry(lines.take(n), key) || is_entry(
            lines[n],
            key,
        )),
{
    let more = lines.take(n + 1);
    let fewer = lines.take(n);
    if has_entry(fewer, key) {
        let i = choose|i: int| 0 <= i < fewer.len() && #[trigger] is_entry(fewer[i], key);
        assert(is_entry(more[i], key));
    }
    if is_entry(lines[n], key) {
        assert(is_entry(more[n], key));
    }
    if has_entry(more, key) {
        let i = choose|i: int| 0 <= i < more.len() && #[trigger] is_entry(more[i], key);
        if i < n {
            assert(is_entry(fewer[i], key));
        }
    }
}

/// The value that the text of a configuration gives to `key`, in the first line that gives
/// it one. The value ends where the line has a second `=`.
pub fn read_from_config(key: &str, contents: &str) -> (value: Option<String>)
    ensures
        match value {
            Some(value) => value_in(lines(contents@), key@) == Some(value@),
            None => value_in(lines(contents@), key@) is None,
        },
{
    let all = split_lines(contents);
    let mut i: usize = 0;
    proof {
        assert(lines(contents@).skip(0) =~= lines(contents@));
    }
    while i < all.len()
        invariant
            i <= all@.len(),
            views(all@) == lines(contents@),
            value_in(lines(contents@).skip(i as int), key@) == value_in(lines(contents@), key@),
        decreases all@.len() - i,
    {
        let line = all[i].as_str();
        let ghost rest = lines(contents@).skip(i as int);
        assert(rest[0] == line@);
        if is_entry_of(line, key) {
            proof {
                lemma_entry_has_equals(line@, key@);
            }
            return Some(value_of_line(line));
        }
        assert(rest.skip(1) =~= lines(contents@).skip(i + 1));
        i = i + 1;
    }
    None
}

/// A line of a configuration is not UTF-8.
#[derive(Debug, Clone, Copy, PartialEq, Eq, Structural)]
pub struct NotText;

/// The line feed.
pub const LINE_FEED: u8 = 10;

/// The value that the bytes of a configuration give to `key`. The lines are looked at one
/// after another: the first line for the key gives the value, and a line before it that is
/// not UTF-8 is an error.
pub open spec fn value_in_bytes(bytes: Seq<u8>, key: Seq<char>) -> Result<
    Option<Seq<char>>,
    NotText,
>
    decreases bytes.len(),
{
    if bytes.len() == 0 {
        Ok(None)
    } else {
        let end = find(bytes, LINE_FEED);
        match text_of_bytes(bytes.take(end)) {
            None => Err(NotText),
            Some(text) => {
                let line = if end < bytes.len() {
                    strip_return(text)
                } else {
                    text
                };
                if is_entry(line, key) {
                    Ok(Some(value_part(line)))
                } else if 0 <= end < bytes.len() {
                    value_in_bytes(bytes.skip(end + 1), key)
                } else {
                    Ok(None)
                }
            },
        }
    }
}

/// The value that the bytes of a configuration give to `key`, in the first line that gives
/// it one. A line before it that is not UTF-8 is an error, one after it is not looked at.
pub fn read_from_bytes(key: &str, bytes: &[u8]) -> (value: Result<Option<String>, NotText>)
    ensures
        match value {
            Ok(Some(value)) => value_in_bytes(bytes@, key@) == Ok::<_, NotText>(Some(value@)),
            Ok(None) => value_in_bytes(bytes@, key@) == Ok::<Option<Seq<char>>, NotText>(None),
            Err(error) => value_in_bytes(bytes@, key@) == Err::<Option<Seq<char>>, _>(error),
        },
{
    let mut start: usize = 0;
    proof {
        assert(bytes@.skip(0) =~= bytes@);
    }
    while start < bytes.len()
        invariant
            start <= bytes@.len(),
            value_in_bytes(bytes@.skip(start as int), key@) == value_in_bytes(bytes@, key@),
        decreases bytes@.len() - start,
    {
        let end = find_byte_from(bytes, LINE_FEED, start);
        let ghost rest = bytes@.skip(start as int);
        assert(rest.take(end - start) =~= bytes@.subrange(start as int, end as int));
        let text = match decode_text(slice_subrange(bytes, start, end)) {
            Some(text) => text,
            None => return Err(NotText),
        };
        let ended = end < bytes.len();
        let line = if ended {
            without_return(text.as_str())
        } else {
            text.as_str()
        };
        if is_entry_of(line, key) {
            proof {
                lemma_entry_has_equals(line@, key@);
            }
            return Ok(Some(value_of_line(line)));
        }
        if !ended {
            return Ok(None);
        }
        assert(rest.skip(end - start + 1) =~= bytes@.skip(end + 1));
        start = end + 1;
    }
    Ok(None)
}

/// The place of the first `byte` at `from` or after it, or the number of bytes where there
/// is none.
fn find_byte_from(bytes: &[u8], byte: u8, from: usize) -> (place: usize)
    requires
        from <= bytes@.len(),
    ensures
        from <= place <= bytes@.len(),
        place - from == find(bytes@.skip(from as int), byte),
{
    let mut place: usize = from;
    while place < bytes.len() && bytes[place] != byte
        invariant
            from <= place <= bytes@.len(),
            forall|i: int| from <= i < place ==> bytes@[i] != byte,
        decreases bytes@.len() - place,
    {
        place = place + 1;
    }
    proof {
        lemma_find_is(bytes@.skip(from as int), byte, place - from);
    }
    place
}

/// A line without the carriage return at its end.
fn without_return(line: &str) -> (stripped: &str)
    ensures
        stripped@ == strip_return(line@),
{
    let n: usize = line.unicode_len();
    if n > 0 && line.get_char(n - 1) == '\r' {
        line.substring_char(0, n - 1)
    } else {
        line
    }
}

/// A line for a key has an `=`.
proof fn lemma_entry_has_equals(line: Seq<char>, key: Seq<char>)
    requires
        is_entry(line, key),
    ensures
        find(line, '=') < line.len(),
{
    lemma_find(line, '=');
    assert(key.push('=')[key.len() as int] == line[key.len() as int]);
}

/// The part of a line between its first and its second `=`.
fn value_of_line(line: &str) -> (value: String)
    requires
        find(line@, '=') < line@.len(),
    ensures
        value@ == value_part(line@),
{
    let chars = chars_of(line);
    proof {
        assert(chars@.skip(0) =~= line@);
    }
    let first = find_from(&chars, '=', 0);
    assert(first < chars.len());
    let second = find_from(&chars, '=', first + 1);
    assert(line@.skip(first + 1).take(second - first - 1) =~= line@.subrange(
        first + 1,
        second as int,
    ));
    line.substring_char(first + 1, second).to_owned()
}

/// No line holds a line feed.
pub open spec fn are_lines(lines: Seq<Seq<char>>) -> bool {
    forall|i: int| 0 <= i < lines.len() ==> !(#[trigger] lines[i]).contains('\n')
}

/// The lines of a text hold no line feed.
proof fn lemma_lines_are_lines(text: Seq<char>)
    ensures
        are_lines(lines(text)),
    decreases text.len(),
{
    let end = find(text, '\n');
    lemma_find(text, '\n');
    if 0 <= end < text.len() {
        let first = strip_return(text.take(end));
        assert forall|i: int| 0 <= i < first.len() implies first[i] != '\n' by {
            assert(first[i] == text[i]);
        }
        lemma_lines_are_lines(text.skip(end + 1));
        let rest = lines(text.skip(end + 1));
        assert forall|i: int| 0 <= i < lines(text).len() implies !(#[trigger] lines(
            text,
        )[i]).contains('\n') by {
            if i > 0 {
                assert(lines(text)[i] == rest[i - 1]);
            }
        }
    }
}

/// The lines of a text that was made of lines are those lines, but for carriage returns at
/// their ends.
proof fn lemma_lines_of_unlines(all: Seq<Seq<char>>)
    requires
        are_lines(all),
    ensures
        lines(unlines(all)) == all.map_values(|line: Seq<char>| strip_return(line)),
    decreases all.len(),
{
    let text = unlines(all);
    let stripped = all.map_values(|line: Seq<char>| strip_return(line));
    if all.len() > 0 {
        let first = all[0];
        let rest = all.skip(1);
        assert forall|i: int| 0 <= i < first.len() implies text[i] != '\n' by {
            assert(text[i] == first[i]);
            assert(first.contains(first[i]));
        }
        assert(text[first.len() as int] == '\n');
        lemma_find_is(text, '\n', first.len() as int);
        assert(text.take(first.len() as int) =~= first);
        assert(text.skip(first.len() as int + 1) =~= unlines(rest));
        assert forall|i: int| 0 <= i < rest.len() implies !(#[trigger] rest[i]).contains(
            '\n',
        ) by {
            assert(rest[i] == all[i + 1]);
        }
        lemma_lines_of_unlines(rest);
        assert(lines(text) =~= stripped);
    } else {
        assert(lines(text) =~= stripped);
    }
}

/// Where all lines for a key are the same, that line gives the value.
proof fn lemma_value_of_same_entries(all: Seq<Seq<char>>, key: Seq<char>, line: Seq<char>)
    requires
        has_entry(all, key),
        forall|i: int|
            0 <= i < all.len() && #[trigger] is_entry(all[i], key) ==> all[i] == line,
    ensures
        value_in(all, key) == Some(value_part(line)),
    decreases all.len(),
{
    if !is_entry(all[0], key) {
        let rest = all.skip(1);
        let i = choose|i: int| 0 <= i < all.len() && #[trigger] is_entry(all[i], key);
        assert(rest[i - 1] == all[i]);
        assert(is_entry(rest[i - 1], key));
        assert forall|j: int| 0 <= j < rest.len() && #[trigger] is_entry(rest[j], key) implies rest[j]
            == line by {
            assert(rest[j] == all[j + 1]);
            assert(is_entry(all[j + 1], key));
        }
        lemma_value_of_same_entries(rest, key, line);
    }
}

/// Lines that agree on a key, and further lines that say nothing of it, give it the same
/// value.
proof fn lemma_value_of_agreeing(a: Seq<Seq<char>>, b: Seq<Seq<char>>, key: Seq<char>)
    requires
        a.len() <= b.len(),
        forall|i: int|
            0 <= i < a.len() ==> (is_entry(#[trigger] a[i], key) <==> is_entry(b[i], key)) && (
            is_entry(a[i], key) ==> value_part(a[i]) == value_part(b[i])),
        forall|i: int| a.len() <= i < b.len() ==> !is_entry(#[trigger] b[i], key),
    ensures
        value_in(a, key) == value_in(b, key),
    decreases b.len(),
{
    if b.len() > 0 {
        if a.len() == 0 {
            assert(!is_entry(b[0], key));
            assert forall|i: int| 0 <= i < b.skip(1).len() implies !is_entry(
                #[trigger] b.skip(1)[i],
                key,
            ) by {
                assert(b.skip(1)[i] == b[i + 1]);
            }
            lemma_value_of_agreeing(a, b.skip(1), key);
        } else if !is_entry(a[0], key) {
            assert forall|i: int| 0 <= i < a.skip(1).len() implies (is_entry(
                #[trigger] a.skip(1)[i],
                key,
            ) <==> is_entry(b.skip(1)[i], key)) && (is_entry(a.skip(1)[i], key) ==> value_part(
                a.skip(1)[i],
            ) == value_part(b.skip(1)[i])) by {
                assert(a.skip(1)[i] == a[i + 1]);
                assert(b.skip(1)[i] == b[i + 1]);
            }
            assert forall|i: int| a.skip(1).len() <= i < b.skip(1).len() implies !is_entry(
                #[trigger] b.skip(1)[i],
                key,
            ) by {
                assert(b.skip(1)[i] == b[i + 1]);
            }
            lemma_value_of_agreeing(a.skip(1), b.skip(1), key);
        } else {
            assert(is_entry(b[0], key));
        }
    }
}

/// A carriage return at the end of a line does not matter to which key the line is for.
proof fn lemma_strip_keeps_key(line: Seq<char>, key: Seq<char>)
    ensures
        is_entry(strip_return(line), key) == is_entry(line, key),
{
    let start = key.push('=');
    if is_entry(line, key) {
        assert(line[key.len() as int] == start[key.len() as int]);
        assert(start =~= strip_return(line).subrange(0, start.len() as int));
    }
    if is_entry(strip_return(line), key) {
        assert(strip_return(line).subrange(0, start.len() as int) =~= line.subrange(
            0,
            start.len() as int,
        ));
    }
}

/// The line that gives a key a value is a line for that key.
proof fn lemma_entry(key: Seq<char>, value: Seq<char>)
    ensures
        is_entry(entry(key, value), key),
{
    assert(entry(key, value).subrange(0, key.len() as int + 1) =~= key.push('='));
}

/// The lines of a text after it was written to.
proof fn lemma_lines_of_written(text: Seq<char>, key: Seq<char>, value: Seq<char>)
    requires
        !key.contains('\n'),
        !value.contains('\n'),
    ensures
        lines(written(text, key, value)) == updated(lines(text), key, value).map_values(
            |line: Seq<char>| strip_return(line),
        ),
{
    lemma_lines_are_lines(text);
    let line = entry(key, value);
    assert forall|i: int| 0 <= i < line.len() implies line[i] != '\n' by {
        if i < key.len() {
            assert(key.contains(key[i]));
        } else if i > key.len() {
            assert(line[i] == value[i - key.len() - 1]);
            assert(value.contains(value[i - key.len() - 1]));
        }
    }
    lemma_lines_of_unlines(updated(lines(text), key, value));
}

/// A value is read back as it was written, whatever the configuration held before. It has
/// to fit on a line, which a value with a line feed in it or a carriage return at its end
/// does not, and to be what `value_part` finds in that line, as
/// `law_plain_values_are_found` says of every value and key without `=`.
pub proof fn law_read_gives_back_what_was_written(
    text: Seq<char>,
    key: Seq<char>,
    value: Seq<char>,
)
    requires
        !key.contains('\n'),
        !value.contains('\n'),
        value.len() > 0 ==> value.last() != '\r',
        value_part(entry(key, value)) == value,
    ensures
        value_in(lines(written(text, key, value)), key) == Some(value),
{
    let before = lines(text);
    let line = entry(key, value);
    let after = updated(before, key, value);
    let stripped = after.map_values(|line: Seq<char>| strip_return(line));
    lemma_lines_of_written(text, key, value);
    lemma_entry(key, value);
    assert(line.last() != '\r');
    if has_entry(before, key) {
        let i = choose|i: int| 0 <= i < before.len() && #[trigger] is_entry(before[i], key);
        assert(is_entry(stripped[i], key));
    } else {
        assert(is_entry(stripped[before.len() as int], key));
    }
    assert forall|i: int| 0 <= i < stripped.len() && #[trigger] is_entry(
        stripped[i],
        key,
    ) implies stripped[i] == line by {
        lemma_strip_keeps_key(after[i], key);
        if i < before.len() {
            lemma_strip_keeps_key(before[i], key);
        }
    }
    lemma_value_of_same_entries(stripped, key, line);
}

/// Of two values that are written for a key, one after the other, the last one stands, as if
/// the first had never been written: no line is left of the first, and none is added. A line
/// for something else must not end in a carriage return, which is lost with the first write.
pub proof fn law_last_write_stands(
    text: Seq<char>,
    key: Seq<char>,
    first: Seq<char>,
    last: Seq<char>,
)
    requires
        !key.contains('\n'),
        !first.contains('\n'),
        forall|i: int|
            0 <= i < lines(text).len() && !is_entry(#[trigger] lines(text)[i], key) ==> strip_return(
                lines(text)[i],
            ) == lines(text)[i],
    ensures
        written(written(text, key, first), key, last) == written(text, key, last),
{
    let before = lines(text);
    let between = lines(written(text, key, first));
    let once = updated(before, key, first);
    lemma_lines_of_written(text, key, first);
    lemma_entry(key, first);
    lemma_strip_keeps_key(entry(key, first), key);
    assert forall|i: int| 0 <= i < between.len() implies #[trigger] between[i] == strip_return(
        once[i],
    ) by {}
    if has_entry(before, key) {
        let i = choose|i: int| 0 <= i < before.len() && #[trigger] is_entry(before[i], key);
        assert(is_entry(between[i], key));
    } else {
        assert(is_entry(between[before.len() as int], key));
        assert forall|i: int| 0 <= i < before.len() implies !is_entry(
            #[trigger] before[i],
            key,
        ) by {}
    }
    assert(updated(between, key, last) =~= updated(before, key, last));
}

/// In a line for a key without `=`, a value without `=` is found whole.
pub proof fn law_plain_values_are_found(key: Seq<char>, value: Seq<char>)
    requires
        !key.contains('='),
        !value.contains('='),
    ensures
        value_part(entry(key, value)) == value,
{
    let line = entry(key, value);
    assert forall|i: int| 0 <= i < key.len() implies line[i] != '=' by {
        assert(line[i] == key[i]);
        assert(key.contains(key[i]));
    }
    lemma_find_is(line, '=', key.len() as int);
    assert(line.skip(key.len() as int + 1) =~= value);
    assert forall|i: int| 0 <= i < value.len() implies value[i] != '=' by {
        assert(value.contains(value[i]));
    }
    lemma_find_is(value, '=', value.len() as int);
    assert(value.take(value.len() as int) =~= value);
}

/// Neither of two keys, with the `=` that follows it, begins the other.
pub open spec fn unrelated(a: Seq<char>, b: Seq<char>) -> bool {
    &&& !a.push('=').is_prefix_of(b.push('='))
    &&& !b.push('=').is_prefix_of(a.push('='))
}

/// Two different keys without `=` are unrelated.
pub proof fn law_plain_keys_are_unrelated(a: Seq<char>, b: Seq<char>)
    requires
        a != b,
        !a.contains('='),
        !b.contains('='),
    ensures
        unrelated(a, b),
{
    lemma_plain_key_begins_no_other(a, b);
    lemma_plain_key_begins_no_other(b, a);
}

/// A key begins no other key without `=`.
proof fn lemma_plain_key_begins_no_other(a: Seq<char>, b: Seq<char>)
    requires
        a != b,
        !b.contains('='),
    ensures
        !a.push('=').is_prefix_of(b.push('=')),
{
    if a.push('=').is_prefix_of(b.push('=')) {
        assert(a.push('=')[a.len() as int] == b.push('=')[a.len() as int]);
        if a.len() < b.len() {
            assert(b.contains(b[a.len() as int]));
        } else {
            assert forall|i: int| 0 <= i < a.len() implies a[i] == b[i] by {
                assert(a.push('=')[i] == b.push('=')[i]);
            }
            assert(a =~= b);
        }
    }
}

/// No line is for two unrelated keys.
proof fn lemma_line_is_for_one_key(line: Seq<char>, a: Seq<char>, b: Seq<char>)
    requires
        unrelated(a, b),
        is_entry(line, a),
    ensures
        !is_entry(line, b),
{
    if is_entry(line, b) {
        if a.len() <= b.len() {
            assert(a.push('=') =~= b.push('=').subrange(0, a.len() as int + 1));
        } else {
            assert(b.push('=') =~= a.push('=').subrange(0, b.len() as int + 1));
        }
    }
}

/// Writing the value of one key leaves the value of an unrelated key as it was. Only a
/// carriage return at the end of that value, where the value ends its line, may be lost.
pub proof fn law_write_keeps_other_keys(
    text: Seq<char>,
    key: Seq<char>,
    value: Seq<char>,
    other: Seq<char>,
)
    requires
        !key.contains('\n'),
        !value.contains('\n'),
        unrelated(key, other),
    ensures
        value_in(lines(written(text, key, value)), other) == value_in(
            lines(text).map_values(|line: Seq<char>| strip_return(line)),
            other,
        ),
        (value_in(lines(text), other) matches Some(kept) ==> kept.len() == 0 || kept.last()
            != '\r') ==> value_in(lines(written(text, key, value)), other) == value_in(
            lines(text),
            other,
        ),
{
    let before = lines(text);
    let after = updated(before, key, value);
    let before_stripped = before.map_values(|line: Seq<char>| strip_return(line));
    let after_stripped = after.map_values(|line: Seq<char>| strip_return(line));
    lemma_lines_of_written(text, key, value);
    lemma_entry(key, value);
    lemma_line_is_for_one_key(entry(key, value), key, other);
    lemma_strip_keeps_key(entry(key, value), other);
    assert forall|i: int| 0 <= i < before_stripped.len() implies (is_entry(
        #[trigger] before_stripped[i],
        other,
    ) <==> is_entry(after_stripped[i], other)) && (is_entry(before_stripped[i], other)
        ==> value_part(before_stripped[i]) == value_part(after_stripped[i])) by {
        lemma_strip_keeps_key(before[i], other);
        if is_entry(before[i], key) {
            lemma_line_is_for_one_key(before[i], key, other);
            assert(after[i] == entry(key, value));
        } else {
            assert(after[i] == before[i]);
        }
    }
    lemma_value_of_agreeing(before_stripped, after_stripped, other);
    if value_in(before, other) matches Some(kept) ==> kept.len() == 0 || kept.last() != '\r' {
        lemma_strip_keeps_value(before, other);
    }
}

/// Carriage returns at the ends of lines do not matter to a value that ends in none.
proof fn lemma_strip_keeps_value(all: Seq<Seq<char>>, key: Seq<char>)
    requires
        value_in(all, key) matches Some(kept) ==> kept.len() == 0 || kept.last() != '\r',
    ensures
        value_in(all.map_values(|line: Seq<char>| strip_return(line)), key) == value_in(all, key),
    decreases all.len(),
{
    let stripped = all.map_values(|line: Seq<char>| strip_return(line));
    if all.len() > 0 {
        lemma_strip_keeps_key(all[0], key);
        if is_entry(all[0], key) {
            lemma_strip_keeps_value_part(all[0], key);
        } else {
            assert(all.skip(1).map_values(|line: Seq<char>| strip_return(line))
                =~= stripped.skip(1));
            lemma_strip_keeps_value(all.skip(1), key);
        }
    }
}

/// A carriage return at the end of a line does not matter to the value in it, where the
/// value ends in none.
proof fn lemma_strip_keeps_value_part(line: Seq<char>, key: Seq<char>)
    requires
        is_entry(line, key),
        value_part(line).len() == 0 || value_part(line).last() != '\r',
    ensures
        value_part(strip_return(line)) == value_part(line),
{
    let short = strip_return(line);
    lemma_find(line, '=');
    assert(line[key.len() as int] == key.push('=')[key.len() as int]);
    let first = find(line, '=');
    assert forall|i: int| 0 <= i < short.len() implies short[i] == line[i] by {}
    if short != line {
        lemma_find_is(short, '=', first);
        let rest = line.skip(first + 1);
        let short_rest = short.skip(first + 1);
        lemma_find(rest, '=');
        let second = find(rest, '=');
        assert(rest.len() > 0 ==> rest.last() == line.last());
        if second == rest.len() && rest.len() > 0 {
            assert(value_part(line) =~= rest);
        }
        assert forall|i: int| 0 <= i < short_rest.len() implies short_rest[i] == rest[i] by {}
        lemma_find_is(short_rest, '=', second);
        assert(short_rest.take(second) =~= rest.take(second));
    }
}

/// The bytes of a configuration that is text give a key the value that the text gives it.
pub proof fn law_bytes_of_text_read_as_text(text: Seq<char>, key: Seq<char>)
    ensures
        value_in_bytes(encode_utf8(text), key) == Ok::<_, NotText>(value_in(lines(text), key)),
    decreases text.len(),
{
    let bytes = encode_utf8(text);
    let end = find(text, '\n');
    lemma_find(text, '\n');
    if text.len() > 0 {
        let first = text.take(end);
        let line = encode_utf8(first);
        assert forall|i: int| 0 <= i < first.len() implies first[i] != '\n' by {
            assert(first[i] == text[i]);
        }
        lemma_no_line_feed(first);
        encode_utf8_valid_utf8(first);
        encode_utf8_decode_utf8(first);
        if end < text.len() {
            let after = text.skip(end + 1);
            assert(text =~= first + seq!['\n'] + after);
            lemma_encode_concat(first + seq!['\n'], after);
            lemma_encode_concat(first, seq!['\n']);
            lemma_encode_line_feed();
            assert(bytes =~= line + seq![LINE_FEED] + encode_utf8(after));
            lemma_find_is(bytes, LINE_FEED, line.len() as int);
            assert(bytes.take(line.len() as int) =~= line);
            assert(bytes.skip(line.len() as int + 1) =~= encode_utf8(after));
            law_bytes_of_text_read_as_text(after, key);
            assert(lines(text)[0] == strip_return(first));
            assert(lines(text).skip(1) =~= lines(after));
        } else {
            assert(first =~= text);
            lemma_find_is(bytes, LINE_FEED, bytes.len() as int);
            assert(bytes.take(bytes.len() as int) =~= bytes);
            lemma_encode_is_not_empty(text);
            assert(lines(text) =~= seq![text]);
            assert(lines(text).skip(1) =~= Seq::<Seq<char>>::empty());
            assert(value_in(lines(text).skip(1), key) is None);
        }
    } else {
        assert(lines(text) =~= Seq::<Seq<char>>::empty());
    }
}

/// The bytes of two texts follow each other.
proof fn lemma_encode_concat(a: Seq<char>, b: Seq<char>)
    ensures
        encode_utf8(a + b) == encode_utf8(a) + encode_utf8(b),
    decreases a.len(),
{
    if a.len() == 0 {
        assert(a + b =~= b);
        assert(encode_utf8(a) + encode_utf8(b) =~= encode_utf8(b));
    } else {
        assert((a + b).drop_first() =~= a.drop_first() + b);
        lemma_encode_concat(a.drop_first(), b);
        assert(encode_utf8(a + b) =~= encode_utf8(a) + encode_utf8(b));
    }
}

/// A text that is not empty has bytes.
proof fn lemma_encode_is_not_empty(text: Seq<char>)
    requires
        text.len() > 0,
    ensures
        encode_utf8(text).len() > 0,
{
    char_is_scalar(text[0]);
}

/// The line feed is one byte.
proof fn lemma_encode_line_feed()
    ensures
        encode_utf8(seq!['\n']) == seq![LINE_FEED],
{
    let text = seq!['\n'];
    assert(10u32 & 0x7f == 10u32) by (bit_vector);
    assert(text.drop_first() =~= Seq::<char>::empty());
    assert(encode_scalar('\n' as u32) =~= seq![LINE_FEED]);
    assert(encode_utf8(text.drop_first()) =~= Seq::<u8>::empty());
    assert(encode_utf8(text) =~= seq![LINE_FEED]);
}

/// The byte of the line feed stands for nothing else.
proof fn lemma_no_line_feed(text: Seq<char>)
    requires
        forall|i: int| 0 <= i < text.len() ==> text[i] != '\n',
    ensures
        forall|i: int| 0 <= i < encode_utf8(text).len() ==> encode_utf8(text)[i] != LINE_FEED,
    decreases text.len(),
{
    if text.len() > 0 {
        let scalar = text[0] as u32;
        char_is_scalar(text[0]);
        lemma_no_line_feed(text.drop_first());
        assert(text[0] != '\n');
        if scalar == 10 {
            char_u32_cast(text[0], scalar);
            char_u32_cast('\n', scalar);
        }
        let first = encode_scalar(scalar);
        let rest = encode_utf8(text.drop_first());
        assert(encode_utf8(text) == first + rest);
        assert(scalar <= 0x7f ==> (scalar & 0x7f) as u8 == scalar) by (bit_vector);
        assert(0xc0u8 | ((scalar >> 6) & 0x1f) as u8 >= 0x80) by (bit_vector);
        assert(0xe0u8 | ((scalar >> 12) & 0x0f) as u8 >= 0x80) by (bit_vector);
        assert(0xf0u8 | ((scalar >> 18) & 0x07) as u8 >= 0x80) by (bit_vector);
        assert(0x80u8 | (scalar & 0x3f) as u8 >= 0x80) by (bit_vector);
        assert(0x80u8 | ((scalar >> 6) & 0x3f) as u8 >= 0x80) by (bit_vector);
        assert(0x80u8 | ((scalar >> 12) & 0x3f) as u8 >= 0x80) by (bit_vector);
        assert forall|i: int| 0 <= i < encode_utf8(text).len() implies encode_utf8(text)[i]
            != LINE_FEED by {
            if i >= first.len() {
                assert(encode_utf8(text)[i] == rest[i - first.len()]);
            }
        }
    }
}

/// The first line of a text ends at its first line feed.
proof fn lemma_first_line<A>(line: Seq<A>, rest: Seq<A>, feed: A)
    requires
        !line.contains(feed),
    ensures
        ({
            let text = line.push(feed) + rest;
            &&& find(text, feed) == line.len()
            &&& text.take(line.len() as int) == line
            &&& text.skip(line.len() as int + 1) == rest
        }),
        find(line, feed) == line.len(),
{
    let text = line.push(feed) + rest;
    assert forall|i: int| 0 <= i < line.len() implies text[i] != feed && line[i] != feed by {
        assert(text[i] == line[i]);
        assert(line.contains(line[i]));
    }
    assert(text[line.len() as int] == feed);
    lemma_find_is(text, feed, line.len() as int);
    lemma_find_is(line, feed, line.len() as int);
    assert(text.take(line.len() as int) =~= line);
    assert(text.skip(line.len() as int + 1) =~= rest);
}

/// What stands before the first line feed is the first line, but for a carriage return at its
/// end, and what follows are the other lines. A text without a line feed is one line, as it
/// is, and no text is no line.
pub proof fn law_lines_end_at_line_feeds(line: Seq<char>, rest: Seq<char>)
    requires
        !line.contains('\n'),
    ensures
        lines(line.push('\n') + rest) == seq![
            if line.len() > 0 && line[line.len() - 1] == '\r' {
                line.subrange(0, line.len() - 1)
            } else {
                line
            },
        ] + lines(rest),
        line.len() > 0 ==> lines(line) == seq![line],
        lines(Seq::<char>::empty()) == Seq::<Seq<char>>::empty(),
{
    lemma_first_line(line, rest, '\n');
    assert(line.len() > 0 ==> line.drop_last() =~= line.subrange(0, line.len() - 1));
}

/// Whether a key has a line is decided line by line.
proof fn lemma_has_entry_first(first: Seq<char>, others: Seq<Seq<char>>, key: Seq<char>)
    ensures
        has_entry(seq![first] + others, key) == (is_entry(first, key) || has_entry(others, key)),
{
    let all = seq![first] + others;
    if is_entry(first, key) {
        assert(is_entry(all[0], key));
    }
    if has_entry(others, key) {
        let i = choose|i: int| 0 <= i < others.len() && #[trigger] is_entry(others[i], key);
        assert(is_entry(all[i + 1], key));
    }
    if has_entry(all, key) {
        let i = choose|i: int| 0 <= i < all.len() && #[trigger] is_entry(all[i], key);
        if i > 0 {
            assert(is_entry(others[i - 1], key));
        }
    }
}

/// Writing goes line by line. A line for something else stays as it is; a line for the key
/// becomes the new one, and so does every further line for the key; where no line is for the
/// key, the new one comes at the end.
pub proof fn law_writing_line_by_line(
    line: Seq<char>,
    rest: Seq<char>,
    key: Seq<char>,
    value: Seq<char>,
)
    requires
        !line.contains('\n'),
    ensures
        ({
            let new_line = key + seq!['='] + value + seq!['\n'];
            let kept = if line.len() > 0 && line[line.len() - 1] == '\r' {
                line.subrange(0, line.len() - 1)
            } else {
                line
            };
            let text = line.push('\n') + rest;
            &&& !(key + seq!['=']).is_prefix_of(kept) ==> written(text, key, value) == kept
                + seq!['\n'] + written(rest, key, value)
            &&& (key + seq!['=']).is_prefix_of(kept) && (exists|i: int|
                0 <= i < lines(rest).len() && (key + seq!['=']).is_prefix_of(
                    #[trigger] lines(rest)[i],
                )) ==> written(text, key, value) == new_line + written(rest, key, value)
            &&& (key + seq!['=']).is_prefix_of(kept) && (forall|i: int|
                0 <= i < lines(rest).len() ==> !(key + seq!['=']).is_prefix_of(
                    #[trigger] lines(rest)[i],
                )) ==> written(text, key, value) + new_line == new_line + written(rest, key, value)
            &&& line.len() > 0 && (key + seq!['=']).is_prefix_of(line) ==> written(line, key, value)
                == new_line
            &&& line.len() > 0 && !(key + seq!['=']).is_prefix_of(line) ==> written(
                line,
                key,
                value,
            ) == line + seq!['\n'] + new_line
            &&& written(Seq::empty(), key, value) == new_line
        }),
{
    let start = key + seq!['='];
    let new_line = start + value + seq!['\n'];
    let kept = if line.len() > 0 && line[line.len() - 1] == '\r' {
        line.subrange(0, line.len() - 1)
    } else {
        line
    };
    let text = line.push('\n') + rest;
    let none = Seq::<Seq<char>>::empty();
    assert(start =~= key.push('='));
    assert(new_line =~= entry(key, value).push('\n'));
    law_lines_end_at_line_feeds(line, rest);
    lemma_has_entry_first(kept, lines(rest), key);
    lemma_updated_first(kept, lines(rest), key, value);
    assert(kept + seq!['\n'] =~= kept.push('\n'));
    if exists|i: int| 0 <= i < lines(rest).len() && start.is_prefix_of(#[trigger] lines(rest)[i]) {
        let i = choose|i: int|
            0 <= i < lines(rest).len() && start.is_prefix_of(#[trigger] lines(rest)[i]);
        assert(is_entry(lines(rest)[i], key));
    } else if has_entry(lines(rest), key) {
        let i = choose|i: int| 0 <= i < lines(rest).len() && #[trigger] is_entry(lines(rest)[i], key);
        assert(start.is_prefix_of(lines(rest)[i]));
    }
    assert(!has_entry(none, key));
    assert(updated(none, key, value) =~= seq![entry(key, value)]);
    assert(none.push(entry(key, value)) =~= seq![entry(key, value)]);
    lemma_unlines_push(none, entry(key, value));
    assert(written(Seq::empty(), key, value) =~= new_line);
    lemma_has_entry_first(line, none, key);
    lemma_updated_first(line, none, key, value);
    assert(seq![line] + none =~= seq![line]);
    assert(line + seq!['\n'] =~= line.push('\n'));
    assert(unlines(none) =~= Seq::<char>::empty());
    assert(new_line + Seq::<char>::empty() =~= new_line);
    assert(entry(key, value).push('\n') + unlines(none) =~= new_line);
}

/// What becomes of the lines, by what becomes of the first one and of the others.
proof fn lemma_updated_first(
    first: Seq<char>,
    others: Seq<Seq<char>>,
    key: Seq<char>,
    value: Seq<char>,
)
    ensures
        ({
            let line = entry(key, value);
            let text = unlines(updated(seq![first] + others, key, value));
            &&& !is_entry(first, key) ==> text == first.push('\n') + unlines(
                updated(others, key, value),
            )
            &&& is_entry(first, key) && has_entry(others, key) ==> text == line.push('\n') + unlines(
                updated(others, key, value),
            )
            &&& is_entry(first, key) && !has_entry(others, key) ==> {
                &&& text == line.push('\n') + unlines(others)
                &&& unlines(updated(others, key, value)) == unlines(others) + line.push('\n')
            }
        }),
{
    let line = entry(key, value);
    let all = seq![first] + others;
    let after = updated(all, key, value);
    lemma_has_entry_first(first, others, key);
    if is_entry(first, key) {
        assert(after[0] == line);
    } else {
        assert(after[0] == first);
    }
    if is_entry(first, key) && !has_entry(others, key) {
        assert forall|i: int| 0 <= i < others.len() implies !is_entry(#[trigger] others[i], key) by {}
        assert(after.skip(1) =~= others);
        assert(updated(others, key, value) =~= others.push(line));
        lemma_unlines_push(others, line);
    } else {
        assert(after.skip(1) =~= updated(others, key, value));
    }
}

/// The value in a line stands between its first and its second `=`, or its end.
pub proof fn law_values_stand_between_equals(
    before: Seq<char>,
    value: Seq<char>,
    after: Seq<char>,
)
    requires
        !before.contains('='),
        !value.contains('='),
    ensures
        value_part(before + seq!['='] + value) == value,
        value_part(before + seq!['='] + value + seq!['='] + after) == value,
{
    law_plain_values_are_found(before, value);
    assert(before + seq!['='] + value =~= entry(before, value));
    let line = before + seq!['='] + value + seq!['='] + after;
    let rest = value.push('=') + after;
    lemma_first_line(before, rest, '=');
    assert(line =~= before.push('=') + rest);
    lemma_first_line(value, after, '=');
}

/// Reading goes line by line: the first line for the key gives the value, and nothing else
/// does.
pub proof fn law_reading_line_by_line(line: Seq<char>, rest: Seq<char>, key: Seq<char>)
    requires
        !line.contains('\n'),
    ensures
        ({
            let kept = if line.len() > 0 && line[line.len() - 1] == '\r' {
                line.subrange(0, line.len() - 1)
            } else {
                line
            };
            let text = line.push('\n') + rest;
            &&& (key + seq!['=']).is_prefix_of(kept) ==> value_in(lines(text), key) == Some(
                value_part(kept),
            )
            &&& !(key + seq!['=']).is_prefix_of(kept) ==> value_in(lines(text), key) == value_in(
                lines(rest),
                key,
            )
            &&& (key + seq!['=']).is_prefix_of(line) ==> value_in(lines(line), key) == Some(
                value_part(line),
            )
            &&& !(key + seq!['=']).is_prefix_of(line) ==> value_in(lines(line), key) is None
        }),
{
    let kept = if line.len() > 0 && line[line.len() - 1] == '\r' {
        line.subrange(0, line.len() - 1)
    } else {
        line
    };
    assert(key + seq!['='] =~= key.push('='));
    law_lines_end_at_line_feeds(line, rest);
    assert((seq![kept] + lines(rest)).skip(1) =~= lines(rest));
    assert(seq![line].skip(1) =~= Seq::<Seq<char>>::empty());
    assert(value_in(seq![line].skip(1), key) is None);
    if line.len() == 0 {
        assert(line =~= Seq::<char>::empty());
    }
}

/// Reading bytes goes line by line too: a line that is not UTF-8 is an error unless a line
/// before it gave the value.
pub proof fn law_reading_bytes_line_by_line(line: Seq<u8>, rest: Seq<u8>, key: Seq<char>)
    requires
        !line.contains(10u8),
    ensures
        ({
            let text = decode_utf8(line);
            let kept = if text.len() > 0 && text[text.len() - 1] == '\r' {
                text.subrange(0, text.len() - 1)
            } else {
                text
            };
            let first = value_in_bytes(line.push(10u8) + rest, key);
            let only = value_in_bytes(line, key);
            &&& !valid_utf8(line) ==> first == Err::<Option<Seq<char>>, NotText>(NotText)
            &&& valid_utf8(line) && (key + seq!['=']).is_prefix_of(kept) ==> first == Ok::<
                Option<Seq<char>>,
                NotText,
            >(Some(value_part(kept)))
            &&& valid_utf8(line) && !(key + seq!['=']).is_prefix_of(kept) ==> first
                == value_in_bytes(rest, key)
            &&& line.len() > 0 && !valid_utf8(line) ==> only == Err::<Option<Seq<char>>, NotText>(
                NotText,
            )
            &&& line.len() > 0 && valid_utf8(line) && (key + seq!['=']).is_prefix_of(text) ==> only
                == Ok::<Option<Seq<char>>, NotText>(Some(value_part(text)))
            &&& line.len() > 0 && valid_utf8(line) && !(key + seq!['=']).is_prefix_of(text) ==> only
                == Ok::<Option<Seq<char>>, NotText>(None)
            &&& line.len() == 0 ==> only == Ok::<Option<Seq<char>>, NotText>(None)
        }),
{
    let text = decode_utf8(line);
    assert(key + seq!['='] =~= key.push('='));
    lemma_first_line(line, rest, 10u8);
    assert(line.take(line.len() as int) =~= line);
    assert(text.len() > 0 ==> text.drop_last() =~= text.subrange(0, text.len() - 1));
}

/// What is said of some texts is what they hold.
pub proof fn law_texts_are_seen_whole(texts: Seq<String>)
    ensures
        views(texts).len() == texts.len(),
        forall|i: int| 0 <= i < texts.len() ==> #[trigger] views(texts)[i] == texts[i]@,
{
}

} // verus!
