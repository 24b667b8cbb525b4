//! What the operations on texts promise of every text.

use vstd::prelude::*;

use crate::text::{
    begins, decimal, digit, digits_value, is_space, join, lower, lowered, number_value, occurs,
    precedes, split, strip_all, strip_end, trim, trim_end, trim_start,
};

verus! {

/// White space among the first characters is the blank and the five controls from the
/// tab to the carriage return; no letter, digit or sign is.
pub proof fn law_white_space(c: char)
    ensures
        (c as u32) <= 0x7f ==> (is_space(c) <==> c == ' ' || c == '\t' || c == '\n' || c == '\r'
            || c as u32 == 0xb || c as u32 == 0xc),
        (c as u32) > 0x3000 ==> !is_space(c),
{
}

/// What is trimmed at the front is white space, all of it and nothing else.
pub proof fn law_trim_start(s: Seq<char>)
    ensures
        trim_start(s).len() <= s.len(),
        trim_start(s) == s.skip(s.len() - trim_start(s).len()),
        forall|i: int| 0 <= i < s.len() - trim_start(s).len() ==> is_space(#[trigger] s[i]),
        trim_start(s).len() > 0 ==> !is_space(trim_start(s)[0]),
    decreases s.len(),
{
    if s.len() > 0 && is_space(s[0]) {
        let rest = s.drop_first();
        law_trim_start(rest);
        assert(rest.skip(rest.len() - trim_start(rest).len()) =~= s.skip(
            s.len() - trim_start(s).len(),
        ));
        assert forall|i: int| 0 <= i < s.len() - trim_start(s).len() implies is_space(
            #[trigger] s[i],
        ) by {
            if i > 0 {
                assert(rest[i - 1] == s[i]);
            }
        }
    } else {
        assert(s.skip(0) =~= s);
    }
}

/// What is trimmed at the end is white space, all of it and nothing else.
pub proof fn law_trim_end(s: Seq<char>)
    ensures
        trim_end(s).len() <= s.len(),
        trim_end(s) == s.take(trim_end(s).len() as int),
        forall|i: int| trim_end(s).len() <= i < s.len() ==> is_space(#[trigger] s[i]),
        trim_end(s).len() > 0 ==> !is_space(trim_end(s).last()),
    decreases s.len(),
{
    if s.len() > 0 && is_space(s.last()) {
        let rest = s.drop_last();
        law_trim_end(rest);
        assert(rest.take(trim_end(rest).len() as int) =~= s.take(trim_end(s).len() as int));
        assert forall|i: int| trim_end(s).len() <= i < s.len() implies is_space(#[trigger] s[i]) by {
            if i < s.len() - 1 {
                assert(rest[i] == s[i]);
            }
        }
    } else {
        assert(s.take(s.len() as int) =~= s);
    }
}

/// A trimmed text is the text from its first to its last character that is not white
/// space.
pub proof fn law_trim(s: Seq<char>)
    ensures
        trim(s).len() > 0 ==> !is_space(trim(s)[0]) && !is_space(trim(s).last()),
        exists|i: int, j: int|
            {
                &&& 0 <= i <= j <= s.len()
                &&& #[trigger] s.subrange(i, j) == trim(s)
                &&& forall|k: int| 0 <= k < i || j <= k < s.len() ==> is_space(#[trigger] s[k])
            },
{
    let t = trim_start(s);
    law_trim_start(s);
    law_trim_end(t);
    let i = s.len() - t.len();
    let j = i + trim(s).len();
    assert(s.subrange(i, j) =~= trim(s));
    assert forall|k: int| 0 <= k < i || j <= k < s.len() implies is_space(#[trigger] s[k]) by {
        if k >= j {
            assert(t[k - i] == s[k]);
        }
    }
    if trim(s).len() > 0 {
        assert(trim(s)[0] == t[0]);
    }
}

/// What is stripped at the end is the character given, all of it and nothing else.
pub proof fn law_strip_end(s: Seq<char>, c: char)
    ensures
        strip_end(s, c).len() <= s.len(),
        strip_end(s, c) == s.take(strip_end(s, c).len() as int),
        forall|i: int| strip_end(s, c).len() <= i < s.len() ==> #[trigger] s[i] == c,
        strip_end(s, c).len() > 0 ==> strip_end(s, c).last() != c,
    decreases s.len(),
{
    if s.len() > 0 && s.last() == c {
        let rest = s.drop_last();
        law_strip_end(rest, c);
        assert(rest.take(strip_end(rest, c).len() as int) =~= s.take(
            strip_end(s, c).len() as int,
        ));
        assert forall|i: int| strip_end(s, c).len() <= i < s.len() implies #[trigger] s[i] == c by {
            if i < s.len() - 1 {
                assert(rest[i] == s[i]);
            }
        }
    } else {
        assert(s.take(s.len() as int) =~= s);
    }
}

/// A text begins with another where the other and something more make it up.
pub proof fn law_begins(s: Seq<char>, p: Seq<char>)
    ensures
        begins(p + s, p),
        begins(s, p) ==> s == p + s.skip(p.len() as int),
{
    assert((p + s).subrange(0, p.len() as int) =~= p);
    if begins(s, p) {
        assert(s =~= s.subrange(0, p.len() as int) + s.skip(p.len() as int));
    }
}

/// A text occurs in another where it stands between two others.
pub proof fn law_occurs(a: Seq<char>, p: Seq<char>, b: Seq<char>)
    ensures
        occurs(a + p + b, p),
        occurs(a, p) ==> exists|x: Seq<char>, y: Seq<char>| a == #[trigger] (x + p + y),
{
    let s = a + p + b;
    assert(s.subrange(a.len() as int, a.len() as int + p.len()) =~= p);
    if occurs(a, p) {
        let i = choose|i: int|
            0 <= i && i + p.len() <= a.len() && #[trigger] a.subrange(i, i + p.len()) == p;
        assert(a =~= a.take(i) + p + a.skip(i + p.len())) by {
            assert(a =~= a.take(i) + a.subrange(i, i + p.len()) + a.skip(i + p.len()));
        }
    }
}

/// A beginning is stripped as often as it stands there, and never from further on.
pub proof fn law_strip_all(s: Seq<char>, p: Seq<char>)
    requires
        p.len() > 0,
    ensures
        strip_all(p + s, p) == strip_all(s, p),
        !begins(s, p) ==> strip_all(s, p) == s,
        !begins(strip_all(s, p), p),
    decreases s.len(),
{
    law_begins(s, p);
    assert((p + s).skip(p.len() as int) =~= s);
    if begins(s, p) {
        law_strip_all(s.skip(p.len() as int), p);
    }
}

/// In lower case the letters A to Z become a to z, and nothing else changes.
pub proof fn law_lowered(s: Seq<char>, i: int)
    requires
        0 <= i < s.len(),
    ensures
        lowered(s).len() == s.len(),
        'A' <= s[i] <= 'Z' ==> lowered(s)[i] as u32 == s[i] as u32 + ('a' as u32 - 'A' as u32)
            && 'a' <= lowered(s)[i] <= 'z',
        !('A' <= s[i] <= 'Z') ==> lowered(s)[i] == s[i],
        !('A' <= lowered(s)[i] <= 'Z'),
{
}

/// Parts are put together with the separator between every two of them.
pub proof fn law_join(parts: Seq<Seq<char>>, p: Seq<char>, sep: Seq<char>)
    ensures
        join(Seq::empty(), sep).len() == 0,
        join(seq![p], sep) == p,
        parts.len() > 0 ==> join(parts.push(p), sep) == join(parts, sep) + sep + p,
{
    assert(parts.push(p).drop_last() =~= parts);
}

/// One more character in the last part.
proof fn lemma_join_last(parts: Seq<Seq<char>>, c: char, sep: Seq<char>)
    requires
        parts.len() > 0,
    ensures
        join(parts.update(parts.len() - 1, parts.last().push(c)), sep) == join(parts, sep).push(c),
{
    let more = parts.update(parts.len() - 1, parts.last().push(c));
    if parts.len() > 1 {
        assert(more.drop_last() =~= parts.drop_last());
        assert(join(parts.drop_last(), sep) + sep + parts.last().push(c) =~= (join(
            parts.drop_last(),
            sep,
        ) + sep + parts.last()).push(c));
    }
}

/// A text that is split at a character has it in no part, and put together again with
/// the character between the parts it is the text.
pub proof fn law_split(s: Seq<char>, c: char)
    ensures
        split(s, c).len() > 0,
        join(split(s, c), seq![c]) == s,
        forall|i: int, j: int|
            0 <= i < split(s, c).len() && 0 <= j < split(s, c)[i].len()
                ==> #[trigger] split(s, c)[i][j] != c,
    decreases s.len(),
{
    if s.len() == 0 {
        assert(join(split(s, c), seq![c]) =~= s);
    } else {
        let front = s.drop_last();
        let rest = split(front, c);
        law_split(front, c);
        assert(front.push(s.last()) =~= s);
        if s.last() == c {
            law_join(rest, Seq::empty(), seq![c]);
            assert(front + seq![c] + Seq::<char>::empty() =~= s);
            assert forall|i: int, j: int|
                0 <= i < split(s, c).len() && 0 <= j < split(s, c)[i].len() implies
                #[trigger] split(s, c)[i][j] != c by {
                if i < rest.len() {
                    assert(rest[i][j] != c);
                }
            }
        } else {
            lemma_join_last(rest, s.last(), seq![c]);
            assert forall|i: int, j: int|
                0 <= i < split(s, c).len() && 0 <= j < split(s, c)[i].len() implies
                #[trigger] split(s, c)[i][j] != c by {
                if i < rest.len() - 1 || j < rest.last().len() {
                    assert(rest[i][j] != c);
                }
            }
        }
    }
}

/// A number is written in decimal digits, without zeros in front, and is read back.
pub proof fn law_decimal(n: nat, max: nat)
    ensures
        decimal(n).len() > 0,
        forall|i: int| 0 <= i < decimal(n).len() ==> '0' <= #[trigger] decimal(n)[i] <= '9',
        n > 0 ==> decimal(n)[0] != '0',
        n == 0 ==> decimal(n) == seq!['0'],
        digits_value(decimal(n)) == Some(n),
        n <= max ==> number_value(decimal(n), max) == Some(n),
        n > max ==> number_value(decimal(n), max) is None,
    decreases n,
{
    if n < 10 {
        let s = decimal(n);
        assert(s.drop_last() =~= Seq::empty());
        assert(digits_value(s.drop_last()) == Some(0nat));
    } else {
        law_decimal(n / 10, max);
        let s = decimal(n);
        assert(s.drop_last() =~= decimal(n / 10));
        assert(s[0] == decimal(n / 10)[0]);
        assert forall|i: int| 0 <= i < s.len() implies '0' <= #[trigger] s[i] <= '9' by {
            if i < s.len() - 1 {
                assert(s[i] == decimal(n / 10)[i]);
            }
        }
    }
}

/// Digits are read from the left, each ten times the next; nothing else is read.
pub proof fn law_digits(s: Seq<char>, c: char, v: nat)
    ensures
        digits_value(s) == Some(v) && '0' <= c <= '9' ==> digits_value(s.push(c)) == Some(
            (10 * v + (c as u32 - '0' as u32)) as nat,
        ),
        !('0' <= c <= '9') ==> digits_value(s.push(c)) is None,
        digits_value(s) is None ==> digits_value(s.push(c)) is None,
        digits_value(Seq::empty()) == Some(0nat),
{
    assert(s.push(c).drop_last() =~= s);
}

/// A number may have one sign in front; without digits there is no number.
pub proof fn law_number(s: Seq<char>, max: nat)
    ensures
        number_value(Seq::empty(), max) is None,
        number_value(seq!['+'], max) is None,
        s.len() > 0 && s[0] != '+' ==> number_value(seq!['+'] + s, max) == number_value(s, max),
        s.len() > 0 && s[0] != '+' ==> (number_value(s, max) matches Some(v) ==> digits_value(s)
            == Some(v) && v <= max),
{
    assert((seq!['+'] + s).drop_first() =~= s);
    assert(seq!['+'].drop_first() =~= Seq::<char>::empty());
}

/// Texts are ordered by the first character in which they differ; a beginning of a text
/// comes before it.
pub proof fn law_order(x: Seq<char>, c: char, y: Seq<char>, d: char, z: Seq<char>)
    ensures
        c < d ==> precedes(x + seq![c] + y, x + seq![d] + z),
        precedes(x, x + seq![c] + y),
        !precedes(x + seq![c] + y, x),
    decreases x.len(),
{
    let a = x + seq![c] + y;
    let b = x + seq![d] + z;
    if x.len() == 0 {
        assert(a[0] == c);
        assert(b[0] == d);
    } else {
        let w = x.drop_first();
        law_order(w, c, y, d, z);
        assert(a.drop_first() =~= w + seq![c] + y);
        assert(b.drop_first() =~= w + seq![d] + z);
        assert(a[0] == x[0] && b[0] == x[0]);
    }
}

} // verus!
