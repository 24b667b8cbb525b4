//! Editing one line of text.

use vstd::prelude::*;
use vstd::string::*;
use vstd::utf8::encode_utf8;

use crate::text::{chars_of, is_space, is_white, string_of};

verus! {

broadcast use vstd::string::group_string_axioms;

/// A key that was pressed.
#[derive(Debug, Clone, Copy, PartialEq, Eq, Structural)]
pub enum Key {
    Char(char),
    Enter,
    Esc,
    Tab,
    BackTab,
    Backspace,
    Delete,
    Left,
    Right,
    Home,
    End,
    Up,
    Down,
    PageUp,
    PageDown,
    Other,
}

/// How many bytes a character takes.
pub open spec fn width(c: char) -> int {
    if (c as u32) <= 0x7f {
        1
    } else if (c as u32) <= 0x7ff {
        2
    } else if (c as u32) <= 0xffff {
        3
    } else {
        4
    }
}

/// How many bytes a line takes.
pub open spec fn bytes_of(line: Seq<char>) -> int
    decreases line.len(),
{
    if line.len() == 0 {
        0
    } else {
        bytes_of(line.drop_last()) + width(line.last())
    }
}

/// Whether a character of a line begins at a byte, or the line ends there.
pub open spec fn is_boundary(line: Seq<char>, at: int) -> bool {
    exists|n: int| 0 <= n <= line.len() && #[trigger] bytes_of(line.take(n)) == at
}

/// How many characters of a line stand before a byte.
pub open spec fn place(line: Seq<char>, at: int) -> int {
    choose|n: int| 0 <= n <= line.len() && #[trigger] bytes_of(line.take(n)) == at
}

/// Whether a key can be pressed in a line: what it puts in or takes out has to stand
/// between characters.
pub open spec fn editable(line: Seq<char>, cursor: int, key: Key) -> bool {
    match key {
        Key::Char(_) => is_boundary(line, cursor),
        Key::Backspace => cursor > 0 ==> cursor <= bytes_of(line) && is_boundary(line, cursor - 1),
        Key::Delete => cursor < bytes_of(line) ==> is_boundary(line, cursor),
        _ => true,
    }
}

/// A line and its cursor after a key was pressed. The cursor goes byte by byte.
pub open spec fn edited(line: Seq<char>, cursor: int, key: Key) -> (Seq<char>, int) {
    match key {
        Key::Char(c) => (line.insert(place(line, cursor), c), cursor + 1),
        Key::Backspace => if cursor > 0 {
            (line.remove(place(line, cursor - 1)), cursor - 1)
        } else {
            (line, cursor)
        },
        Key::Delete => if cursor < bytes_of(line) {
            (line.remove(place(line, cursor)), cursor)
        } else {
            (line, cursor)
        },
        Key::Left => (
            line,
            if cursor > 0 {
                cursor - 1
            } else {
                0
            },
        ),
        Key::Right => (
            line,
            if cursor < bytes_of(line) {
                cursor + 1
            } else {
                cursor
            },
        ),
        Key::Home => (line, 0),
        Key::End => (line, bytes_of(line)),
        _ => (line, cursor),
    }
}

/// Every character takes a byte or more, so that what is longer takes more.
proof fn lemma_grows(line: Seq<char>, m: int, n: int)
    requires
        0 <= m <= n <= line.len(),
    ensures
        bytes_of(line.take(m)) + (n - m) <= bytes_of(line.take(n)),
    decreases n - m,
{
    if m < n {
        lemma_grows(line, m, n - 1);
        assert(line.take(n).drop_last() =~= line.take(n - 1));
    }
}

/// One more character takes its width.
proof fn lemma_step(line: Seq<char>, n: int)
    requires
        0 <= n < line.len(),
    ensures
        bytes_of(line.take(n + 1)) == bytes_of(line.take(n)) + width(line[n]),
{
    assert(line.take(n + 1).drop_last() =~= line.take(n));
}

/// No two places of a line are at one byte.
proof fn lemma_place(line: Seq<char>, n: int)
    requires
        0 <= n <= line.len(),
    ensures
        is_boundary(line, bytes_of(line.take(n))),
        place(line, bytes_of(line.take(n))) == n,
{
    let at = bytes_of(line.take(n));
    let m = place(line, at);
    assert(0 <= m <= line.len() && bytes_of(line.take(m)) == at);
    if m < n {
        lemma_grows(line, m, n);
    } else {
        lemma_grows(line, n, m);
    }
}

/// The bytes of a line are those of its text in UTF-8.
proof fn lemma_bytes(line: Seq<char>)
    ensures
        bytes_of(line) == encode_utf8(line).len(),
    decreases line.len(),
{
    if line.len() > 0 {
        let rest = line.drop_first();
        lemma_bytes(rest);
        lemma_front(line);
        vstd::utf8::char_is_scalar(line[0]);
    }
}

/// The bytes of a line, from the front.
proof fn lemma_front(line: Seq<char>)
    requires
        line.len() > 0,
    ensures
        bytes_of(line) == width(line[0]) + bytes_of(line.drop_first()),
    decreases line.len(),
{
    if line.len() == 1 {
        assert(line.drop_first() =~= Seq::empty());
        assert(line.drop_last() =~= Seq::empty());
    } else {
        lemma_front(line.drop_last());
        assert(line.drop_first().drop_last() =~= line.drop_last().drop_first());
        assert(line.drop_first().last() == line.last());
    }
}

fn char_width(c: char) -> (r: usize)
    ensures
        r == width(c),
{
    if (c as u32) <= 0x7f {
        1
    } else if (c as u32) <= 0x7ff {
        2
    } else if (c as u32) <= 0xffff {
        3
    } else {
        4
    }
}

/// How many bytes a line takes.
fn byte_count(line: &str) -> (r: usize)
    ensures
        r == bytes_of(line@),
{
    proof {
        lemma_bytes(line@);
    }
    line.as_bytes().len()
}

/// How many characters stand before a byte, if one begins there or the line ends.
fn find_place(chars: &Vec<char>, at: usize) -> (r: Option<usize>)
    ensures
        match r {
            Some(n) => n <= chars@.len() && is_boundary(chars@, at as int) && n == place(
                chars@,
                at as int,
            ) && bytes_of(chars@.take(n as int)) == at,
            None => !is_boundary(chars@, at as int),
        },
{
    let mut n: usize = 0;
    let mut sum: usize = 0;
    proof {
        assert(chars@.take(0) =~= Seq::empty());
    }
    while n < chars.len() && sum < at
        invariant
            n <= chars@.len(),
            sum <= at,
            sum == bytes_of(chars@.take(n as int)),
        decreases chars@.len() - n,
    {
        let w: usize = char_width(chars[n]);
        proof {
            lemma_step(chars@, n as int);
        }
        if w > at - sum {
            proof {
                assert forall|m: int| 0 <= m <= chars@.len() implies #[trigger] bytes_of(
                    chars@.take(m),
                ) != at by {
                    if m <= n {
                        lemma_grows(chars@, m, n as int);
                    } else {
                        lemma_grows(chars@, n + 1, m);
                    }
                }
            }
            return None;
        }
        sum = sum + w;
        n = n + 1;
    }
    if sum == at {
        proof {
            lemma_place(chars@, n as int);
        }
        Some(n)
    } else {
        proof {
            assert forall|m: int| 0 <= m <= chars@.len() implies #[trigger] bytes_of(
                chars@.take(m),
            ) != at by {
                lemma_grows(chars@, m, n as int);
            }
        }
        None
    }
}

/// Whether a key can be pressed in a line.
pub fn is_editable(line: &String, cursor: usize, key: Key) -> (r: bool)
    ensures
        r == editable(line@, cursor as int, key),
{
    match key {
        Key::Char(_) => find_place(&chars_of(line.as_str()), cursor).is_some(),
        Key::Backspace => cursor == 0 || (cursor <= byte_count(line.as_str()) && find_place(
            &chars_of(line.as_str()),
            cursor - 1,
        ).is_some()),
        Key::Delete => cursor >= byte_count(line.as_str()) || find_place(
            &chars_of(line.as_str()),
            cursor,
        ).is_some(),
        _ => true,
    }
}

/// A line of characters as text.
fn text_of(chars: &Vec<char>) -> (r: String)
    ensures
        r@ == chars@,
{
    let end: usize = chars.len();
    proof {
        assert(chars@.subrange(0, end as int) =~= chars@);
    }
    string_of(chars, 0, end)
}

/// Edits a line by a key.
pub fn edit_text(line: &String, cursor: usize, key: Key) -> (r: (String, usize))
    requires
        editable(line@, cursor as int, key),
    ensures
        r.0@ == edited(line@, cursor as int, key).0,
        r.1 == edited(line@, cursor as int, key).1,
{
    let mut chars = chars_of(line.as_str());
    match key {
        Key::Char(c) => {
            if let Some(n) = find_place(&chars, cursor) {
                chars.insert(n, c);
                let text = text_of(&chars);
                proof {
                    lemma_insert(line@, n as int, c);
                }
                let _more: usize = byte_count(text.as_str());
                return (text, cursor + 1);
            }
        },
        Key::Backspace => {
            if cursor > 0 {
                if let Some(n) = find_place(&chars, cursor - 1) {
                    proof {
                        lemma_inside(line@, n as int);
                    }
                    chars.remove(n);
                    return (text_of(&chars), cursor - 1);
                }
            }
        },
        Key::Delete => {
            if cursor < byte_count(line.as_str()) {
                if let Some(n) = find_place(&chars, cursor) {
                    proof {
                        lemma_inside(line@, n as int);
                    }
                    chars.remove(n);
                    return (text_of(&chars), cursor);
                }
            }
        },
        Key::Left => {
            if cursor > 0 {
                return (line.clone(), cursor - 1);
            }
        },
        Key::Right => {
            if cursor < byte_count(line.as_str()) {
                return (line.clone(), cursor + 1);
            }
        },
        Key::Home => {
            return (line.clone(), 0);
        },
        Key::End => {
            return (line.clone(), byte_count(line.as_str()));
        },
        _ => {},
    }
    (line.clone(), cursor)
}

/// A place before the end of the bytes is one before the end of the line.
proof fn lemma_inside(line: Seq<char>, n: int)
    requires
        0 <= n <= line.len(),
        bytes_of(line.take(n)) < bytes_of(line),
    ensures
        n < line.len(),
{
    if n == line.len() {
        assert(line.take(n) =~= line);
    }
}

/// What stands before a place that is typed at takes the bytes that it took, and the
/// line gets longer.
proof fn lemma_insert(line: Seq<char>, n: int, c: char)
    requires
        0 <= n <= line.len(),
    ensures
        line.insert(n, c).take(n) == line.take(n),
        bytes_of(line.take(n)) < bytes_of(line.insert(n, c)),
{
    let longer = line.insert(n, c);
    assert(longer.take(n) =~= line.take(n));
    assert(longer.take(longer.len() as int) =~= longer);
    lemma_grows(longer, n, longer.len() as int);
}

/// Where one comes to from a place going back over spaces, or over what is no
/// space.
pub open spec fn back_over(line: Seq<char>, at: int, space: bool) -> int
    decreases at,
{
    if 0 < at <= line.len() && is_space(line[at - 1]) == space {
        back_over(line, at - 1, space)
    } else {
        at
    }
}

/// Where the word before a place begins.
pub open spec fn word_start(line: Seq<char>, at: int) -> int {
    back_over(line, back_over(line, at, true), false)
}

proof fn lemma_back_over(line: Seq<char>, at: int, space: bool)
    requires
        0 <= at <= line.len(),
    ensures
        0 <= back_over(line, at, space) <= at,
    decreases at,
{
    if 0 < at && is_space(line[at - 1]) == space {
        lemma_back_over(line, at - 1, space);
    }
}

fn go_back(chars: &Vec<char>, from: usize, space: bool) -> (r: usize)
    requires
        from <= chars@.len(),
    ensures
        r == back_over(chars@, from as int, space),
        r <= from,
{
    let mut c: usize = from;
    while c > 0 && is_white(chars[c - 1]) == space
        invariant
            c <= from,
            from <= chars@.len(),
            back_over(chars@, from as int, space) == back_over(chars@, c as int, space),
        decreases c,
    {
        c = c - 1;
    }
    c
}

/// Deletes the word before the cursor, with the space behind it.
pub fn delete_word(line: &String, cursor: usize) -> (r: (String, usize))
    requires
        cursor <= line@.len(),
    ensures
        r.1 == word_start(line@, cursor as int),
        r.1 <= cursor,
        r.0@ == line@.take(word_start(line@, cursor as int)) + line@.skip(cursor as int),
{
    let chars = chars_of(line.as_str());
    let word_end: usize = go_back(&chars, cursor, true);
    let start: usize = go_back(&chars, word_end, false);
    let mut text = string_of(&chars, 0, start);
    let end: usize = chars.len();
    let rest = string_of(&chars, cursor, end);
    text.append(rest.as_str());
    proof {
        assert(text@ =~= line@.take(start as int) + line@.skip(cursor as int));
    }
    (text, start)
}

/// Only the word before the cursor goes: what stands before the word and what
/// stands behind the cursor stays.
pub proof fn law_delete_word(line: Seq<char>, cursor: int)
    requires
        0 <= cursor <= line.len(),
    ensures
        0 <= word_start(line, cursor) <= cursor,
        forall|i: int|
            back_over(line, cursor, true) <= i < cursor ==> is_space(#[trigger] line[i]),
        forall|i: int|
            word_start(line, cursor) <= i < back_over(line, cursor, true) ==> !is_space(
                #[trigger] line[i],
            ),
        word_start(line, cursor) == 0 || is_space(line[word_start(line, cursor) - 1]),
{
    lemma_back_over(line, cursor, true);
    let e = back_over(line, cursor, true);
    lemma_back_over(line, e, false);
    lemma_over(line, cursor, true);
    lemma_over(line, e, false);
}

proof fn lemma_over(line: Seq<char>, at: int, space: bool)
    requires
        0 <= at <= line.len(),
    ensures
        0 <= back_over(line, at, space) <= at,
        forall|i: int|
            back_over(line, at, space) <= i < at ==> is_space(#[trigger] line[i]) == space,
        back_over(line, at, space) > 0 ==> is_space(line[back_over(line, at, space) - 1]) != space,
    decreases at,
{
    if 0 < at && is_space(line[at - 1]) == space {
        lemma_over(line, at - 1, space);
    }
}

/// A typed character can be taken back.
pub proof fn law_backspace_undoes_typing(line: Seq<char>, cursor: int, c: char)
    requires
        editable(line, cursor, Key::Char(c)),
    ensures
        ({
            let (typed, at) = edited(line, cursor, Key::Char(c));
            editable(typed, at, Key::Backspace) && edited(typed, at, Key::Backspace) == (
                line,
                cursor,
            )
        }),
{
    let n = place(line, cursor);
    let typed = line.insert(n, c);
    lemma_insert(line, n, c);
    lemma_place(typed, n);
    lemma_grows(line, 0, n);
    assert(line.take(0) =~= Seq::empty());
    assert(typed.remove(n) =~= line);
}

/// Whether every character of a line takes one byte.
pub open spec fn narrow(line: Seq<char>) -> bool {
    forall|i: int| 0 <= i < line.len() ==> width(#[trigger] line[i]) == 1
}

proof fn lemma_narrow(line: Seq<char>, n: int)
    requires
        narrow(line),
        0 <= n <= line.len(),
    ensures
        bytes_of(line.take(n)) == n,
        bytes_of(line) == line.len(),
        is_boundary(line, n),
        place(line, n) == n,
    decreases n,
{
    lemma_narrow_sum(line, n);
    lemma_narrow_sum(line, line.len() as int);
    assert(line.take(line.len() as int) =~= line);
    lemma_place(line, n);
}

proof fn lemma_narrow_sum(line: Seq<char>, n: int)
    requires
        narrow(line),
        0 <= n <= line.len(),
    ensures
        bytes_of(line.take(n)) == n,
    decreases n,
{
    if n > 0 {
        lemma_narrow_sum(line, n - 1);
        lemma_step(line, n - 1);
    }
}

/// In a line of which every character takes one byte, every key can be pressed while
/// the cursor stands in it; and it goes on so, as long as what is typed takes one byte.
pub proof fn law_narrow_lines_can_be_edited(line: Seq<char>, cursor: int, key: Key)
    requires
        narrow(line),
        0 <= cursor <= line.len(),
        key matches Key::Char(c) ==> width(c) == 1,
    ensures
        editable(line, cursor, key),
        ({
            let (after, at) = edited(line, cursor, key);
            narrow(after) && 0 <= at <= after.len()
        }),
{
    lemma_narrow(line, cursor);
    if cursor > 0 {
        lemma_narrow(line, cursor - 1);
    }
    let (after, _) = edited(line, cursor, key);
    assert forall|i: int| 0 <= i < after.len() implies width(#[trigger] after[i]) == 1 by {
        match key {
            Key::Char(_) => {
                if i < cursor {
                    assert(after[i] == line[i]);
                } else if i > cursor {
                    assert(after[i] == line[i - 1]);
                }
            },
            Key::Backspace => {
                if cursor > 0 {
                    assert(after[i] == line[if i < cursor - 1 { i } else { i + 1 }]);
                }
            },
            Key::Delete => {
                if cursor < line.len() {
                    assert(after[i] == line[if i < cursor { i } else { i + 1 }]);
                }
            },
            _ => {},
        }
    }
}

/// What a key does to a line that the cursor parts in two: a character goes between the
/// parts, the delete key takes the first character of the second part, the backspace key
/// takes the last of the first, and the other keys only move the cursor.
pub proof fn law_keys_edit(a: Seq<char>, b: Seq<char>, c: char)
    ensures
        editable(a + b, bytes_of(a), Key::Char(c)),
        edited(a + b, bytes_of(a), Key::Char(c)) == (a + seq![c] + b, bytes_of(a) + 1),
        editable(a + seq![c] + b, bytes_of(a), Key::Delete),
        edited(a + seq![c] + b, bytes_of(a), Key::Delete) == (a + b, bytes_of(a)),
        (c as u32) <= 0x7f ==> edited(a + seq![c] + b, bytes_of(a) + 1, Key::Backspace) == (
            a + b,
            bytes_of(a),
        ),
        edited(a, bytes_of(a), Key::Delete) == (a, bytes_of(a)),
        edited(a, 0, Key::Backspace) == (a, 0int),
        edited(a, 0, Key::Left) == (a, 0int),
        bytes_of(a) > 0 ==> edited(a, bytes_of(a), Key::Left) == (a, bytes_of(a) - 1),
        edited(a, bytes_of(a), Key::Right) == (a, bytes_of(a)),
        bytes_of(a) > 0 ==> edited(a, 0, Key::Right) == (a, 1int),
        edited(a + b, bytes_of(a), Key::Home) == (a + b, 0int),
        edited(a + b, bytes_of(a), Key::End) == (a + b, bytes_of(a + b)),
        edited(a + b, bytes_of(a), Key::Other) == (a + b, bytes_of(a)),
{
    let n = a.len() as int;
    let both = a + b;
    let three = a + seq![c] + b;
    assert(both.take(n) =~= a);
    lemma_place(both, n);
    assert(both.insert(n, c) =~= three);
    assert(three.take(n) =~= a);
    lemma_place(three, n);
    lemma_step(three, n);
    assert(three[n] == c);
    lemma_grows(three, n + 1, three.len() as int);
    assert(three.take(three.len() as int) =~= three);
    lemma_grows(three, 0, n);
    assert(three.take(0) =~= Seq::empty());
    assert(three.remove(n) =~= both);
    assert(a.take(n) =~= a);
    lemma_grows(a, 0, n);
}

/// The bytes of a line are those of its characters, from one for the plainest to four.
pub proof fn law_bytes(line: Seq<char>, c: char)
    ensures
        bytes_of(Seq::empty()) == 0,
        bytes_of(line.push(c)) == bytes_of(line) + encode_utf8(seq![c]).len(),
        (c as u32) <= 0x7f ==> bytes_of(line.push(c)) == bytes_of(line) + 1,
{
    assert(line.push(c).drop_last() =~= line);
    lemma_bytes(seq![c]);
    assert(seq![c].drop_last() =~= Seq::empty());
    assert(bytes_of(seq![c].drop_last()) == 0);
}

} // verus!
