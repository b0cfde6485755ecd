//! What holds of reading and writing JSON, said without the definitions.

use crate::json::{
    escaped, escaped_char, field, hex_number, hex_value, literal, needle, unescaped,
};
use crate::text::{
    is_cc, is_white, lemma_position_of, occurs_at, occurs_first_at, position_of, position_of_char,
};
use crate::text_laws::{all_white, law_trimming_the_front, lemma_first};
use vstd::prelude::*;

verus! {

/// `more` is `read` with `text` in front of the value; where one cannot be
/// read, neither can the other.
pub open spec fn reads_more(
    more: Option<(Seq<char>, Seq<char>)>,
    text: Seq<char>,
    read: Option<(Seq<char>, Seq<char>)>,
) -> bool {
    match read {
        Some((value, rest)) => more == Some((text + value, rest)),
        None => more is None,
    }
}

/// How a string is read: it ends at a quotation mark, and it is broken where
/// it ends without one; a character stands for itself; and behind a backslash
/// `b`, `f`, `n`, `r` and `t` stand for control characters and all others but
/// `u` for themselves.
pub proof fn law_strings_are_read(c: char, tail: Seq<char>)
    ensures
        unescaped(Seq::<char>::empty()) is None,
        unescaped(seq!['\\']) is None,
        unescaped(seq!['"'] + tail) == Some((Seq::<char>::empty(), tail)),
        c != '"' && c != '\\' ==> reads_more(unescaped(seq![c] + tail), seq![c], unescaped(tail)),
        reads_more(unescaped(seq!['\\', 'b'] + tail), seq!['\x08'], unescaped(tail)),
        reads_more(unescaped(seq!['\\', 'f'] + tail), seq!['\x0c'], unescaped(tail)),
        reads_more(unescaped(seq!['\\', 'n'] + tail), seq!['\n'], unescaped(tail)),
        reads_more(unescaped(seq!['\\', 'r'] + tail), seq!['\r'], unescaped(tail)),
        reads_more(unescaped(seq!['\\', 't'] + tail), seq!['\t'], unescaped(tail)),
        c != 'b' && c != 'f' && c != 'n' && c != 'r' && c != 't' && c != 'u' ==> reads_more(
            unescaped(seq!['\\', c] + tail),
            seq![c],
            unescaped(tail),
        ),
{
    assert((seq!['"'] + tail).skip(1) == tail);
    assert((seq![c] + tail).skip(1) == tail);
    assert((seq!['\\', 'b'] + tail).skip(2) == tail);
    assert((seq!['\\', 'f'] + tail).skip(2) == tail);
    assert((seq!['\\', 'n'] + tail).skip(2) == tail);
    assert((seq!['\\', 'r'] + tail).skip(2) == tail);
    assert((seq!['\\', 't'] + tail).skip(2) == tail);
    assert((seq!['\\', c] + tail).skip(2) == tail);
}

/// `c` is a hexadecimal digit, small or capital, of value `d`.
pub open spec fn is_hex(c: char, d: int) -> bool {
    ||| 0 <= d < 10 && c as int == '0' as int + d
    ||| 10 <= d < 16 && c as int == 'a' as int + (d - 10)
    ||| 10 <= d < 16 && c as int == 'A' as int + (d - 10)
}

/// What a code in hexadecimal digits reads as: its character, and nothing for
/// a surrogate.
pub open spec fn coded(n: int) -> Seq<char> {
    if 0xD800 <= n && n <= 0xDFFF {
        seq![]
    } else {
        seq![n as char]
    }
}

proof fn lemma_three(a: char, b: char, c: char)
    ensures
        hex_number(seq![a, b, c]) == match (hex_value(a), hex_value(b), hex_value(c)) {
            (Some(x), Some(y), Some(z)) => Some(16 * (16 * x + y) + z),
            _ => None::<int>,
        },
{
    let s3 = seq![a, b, c];
    let s2 = seq![a, b];
    let s1 = seq![a];
    assert(s3.drop_last() == s2);
    assert(s2.drop_last() == s1);
    assert(s1.drop_last() == Seq::<char>::empty());
    reveal_with_fuel(hex_number, 4);
}

/// Behind `\u` four hexadecimal digits, or a plus sign and three, are the code
/// of a character. Other characters there, or too few, break the string.
pub proof fn law_codes_are_read(
    h: Seq<char>,
    d0: int,
    d1: int,
    d2: int,
    d3: int,
    tail: Seq<char>,
)
    requires
        h.len() == 4,
    ensures
        is_hex(h[0], d0) && is_hex(h[1], d1) && is_hex(h[2], d2) && is_hex(h[3], d3)
            ==> reads_more(
            unescaped(seq!['\\', 'u'] + h + tail),
            coded(4096 * d0 + 256 * d1 + 16 * d2 + d3),
            unescaped(tail),
        ),
        h[0] == '+' && is_hex(h[1], d1) && is_hex(h[2], d2) && is_hex(h[3], d3) ==> reads_more(
            unescaped(seq!['\\', 'u'] + h + tail),
            coded(256 * d1 + 16 * d2 + d3),
            unescaped(tail),
        ),
        (exists|i: int|
            0 <= i < 4 && (forall|d: int| !is_hex(#[trigger] h[i], d)) && !(i == 0 && h[0]
                == '+')) ==> unescaped(seq!['\\', 'u'] + h + tail) is None,
        tail.len() < 4 ==> unescaped(seq!['\\', 'u'] + tail) is None,
{
    let s = seq!['\\', 'u'] + h + tail;
    assert(s.subrange(2, 6) == h);
    assert(s.skip(6) == tail);
    assert(h.drop_last() == seq![h[0], h[1], h[2]]);
    lemma_three(h[0], h[1], h[2]);
    assert(h.skip(1) == seq![h[1], h[2], h[3]]);
    lemma_three(h[1], h[2], h[3]);
    assert(hex_number(h) == match (hex_number(h.drop_last()), hex_value(h[3])) {
        (Some(high), Some(low)) => Some(16 * high + low),
        _ => None::<int>,
    });
    assert forall|c: char| (forall|d: int| !is_hex(c, d)) implies hex_value(c) is None by {
        if let Some(d) = hex_value(c) {
            assert(is_hex(c, d));
        }
    }
    assert forall|c: char, d: int| is_hex(c, d) implies hex_value(c) == Some(d) by {}
    if exists|i: int|
        0 <= i < 4 && (forall|d: int| !is_hex(#[trigger] h[i], d)) && !(i == 0 && h[0] == '+') {
        let i = choose|i: int|
            0 <= i < 4 && (forall|d: int| !is_hex(#[trigger] h[i], d)) && !(i == 0 && h[0] == '+');
        assert(hex_value(h[i]) is None);
        assert(hex_value('+') is None);
    }
}

/// A field is read where its key, between quotation marks, is followed by a
/// colon and a string: the first place of the key counts, and the first colon
/// behind it. Otherwise the line has no such field.
pub proof fn law_fields_are_read(
    head: Seq<char>,
    key: Seq<char>,
    gap: Seq<char>,
    space: Seq<char>,
    rest: Seq<char>,
    line: Seq<char>,
)
    requires
        !gap.contains(':'),
        all_white(space),
        rest.len() > 0 ==> !is_white(rest[0]),
        line == head + (seq!['"'] + key + seq!['"']) + gap + seq![':'] + space + rest,
        forall|j: int|
            0 <= j < head.len() ==> #[trigger] line.subrange(j, j + key.len() + 2) != seq!['"']
                + key + seq!['"'],
    ensures
        rest.len() == 0 ==> field(line, key) is None,
        rest.len() > 0 && rest[0] != '"' ==> field(line, key) is None,
        rest.len() > 0 && rest[0] == '"' ==> match unescaped(rest.skip(1)) {
            Some((value, _)) => field(line, key) == Some(value),
            None => field(line, key) is None,
        },
{
    let n = seq!['"'] + key + seq!['"'];
    assert(needle(key) == n);
    let at = head.len() as int;
    assert(occurs_first_at(line, n, at)) by {
        assert(line.subrange(at, at + n.len()) == n);
        assert forall|j: int| 0 <= j < at implies !occurs_at(line, n, j) by {
            assert(line.subrange(j, j + key.len() + 2) != n);
        }
    }
    lemma_position_of(line, n, at);
    let after = line.skip(at + n.len());
    assert(after == gap + seq![':'] + (space + rest));
    let c = gap.len() as int;
    assert(occurs_first_at(after, seq![':'], c)) by {
        assert(after.subrange(c, c + 1) == seq![':']);
        assert forall|j: int| 0 <= j < c implies !occurs_at(after, seq![':'], j) by {
            assert(after.subrange(j, j + 1)[0] == gap[j]);
        }
    }
    lemma_position_of(after, seq![':'], c);
    assert(after.skip(c + 1) == space + rest);
    law_trimming_the_front(space, rest);
}

/// A line in which the key does not stand between quotation marks has no such
/// field, nor has one in which no colon follows the key.
pub proof fn law_missing_fields(line: Seq<char>, key: Seq<char>)
    ensures
        (forall|j: int|
            0 <= j <= line.len() - key.len() - 2 ==> #[trigger] line.subrange(
                j,
                j + key.len() + 2,
            ) != seq!['"'] + key + seq!['"']) ==> field(line, key) is None,
        !line.contains(':') ==> field(line, key) is None,
{
    let n = seq!['"'] + key + seq!['"'];
    assert(needle(key) == n);
    if forall|j: int|
        0 <= j <= line.len() - key.len() - 2 ==> #[trigger] line.subrange(j, j + key.len() + 2)
            != n {
        assert forall|j: int| !occurs_at(line, n, j) by {
            if occurs_at(line, n, j) {
                assert(line.subrange(j, j + key.len() + 2) == n);
            }
        }
    }
    if !line.contains(':') {
        if let Some(i) = position_of(line, n) {
            let after = line.skip(i + n.len());
            assert forall|j: int| !occurs_at(after, seq![':'], j) by {
                if occurs_at(after, seq![':'], j) {
                    assert(after.subrange(j, j + 1)[0] == ':');
                    let k = choose|k: int| occurs_at(line, n, k);
                    let f = lemma_first(line, n, k);
                    lemma_position_of(line, n, f);
                    assert(line[i + n.len() + j] == ':');
                }
            }
            assert(position_of_char(after, ':') is None);
        }
    }
}

/// What is written holds no control characters, and its only quotation marks
/// that no backslash stands in front of are the first and the last character.
/// Texts without quotation marks, backslashes and control characters are
/// written as they are.
pub proof fn law_literals_are_safe(s: Seq<char>)
    ensures
        literal(s).len() >= 2,
        literal(s)[0] == '"' && literal(s).last() == '"',
        forall|i: int| 0 <= i < literal(s).len() ==> !is_cc(#[trigger] literal(s)[i]),
        forall|i: int|
            1 <= i < literal(s).len() - 1 && #[trigger] literal(s)[i] == '"' ==> literal(s)[i - 1]
                == '\\',
        (forall|i: int| 0 <= i < s.len() ==> s[i] != '"' && s[i] != '\\' && !is_cc(s[i]))
            ==> literal(s) == seq!['"'] + s + seq!['"'],
{
    lemma_escaped_is_safe(s);
    let e = escaped(s);
    let l = literal(s);
    assert forall|i: int| 0 <= i < l.len() implies !is_cc(#[trigger] l[i]) by {
        if 1 <= i < l.len() - 1 {
            assert(l[i] == e[i - 1]);
        }
    }
    assert forall|i: int| 1 <= i < l.len() - 1 && #[trigger] l[i] == '"' implies l[i - 1]
        == '\\' by {
        assert(l[i] == e[i - 1]);
        assert(l[i - 1] == e[i - 2]);
    }
}

proof fn lemma_escaped_is_safe(s: Seq<char>)
    ensures
        forall|i: int| 0 <= i < escaped(s).len() ==> !is_cc(#[trigger] escaped(s)[i]),
        forall|i: int|
            0 <= i < escaped(s).len() && #[trigger] escaped(s)[i] == '"' ==> i > 0 && escaped(
                s,
            )[i - 1] == '\\',
        (forall|i: int| 0 <= i < s.len() ==> s[i] != '"' && s[i] != '\\' && !is_cc(s[i]))
            ==> escaped(s) == s,
    decreases s.len(),
{
    if s.len() > 0 {
        let first = escaped_char(s[0]);
        let rest = escaped(s.skip(1));
        lemma_escaped_is_safe(s.skip(1));
        let e = escaped(s);
        assert(e == first + rest);
        assert forall|i: int| 0 <= i < e.len() implies !is_cc(#[trigger] e[i]) by {
            if i >= first.len() {
                assert(e[i] == rest[i - first.len()]);
            } else {
                assert(e[i] == first[i]);
            }
        }
        assert forall|i: int| 0 <= i < e.len() && #[trigger] e[i] == '"' implies i > 0 && e[i - 1]
            == '\\' by {
            if i >= first.len() {
                let k = i - first.len();
                assert(rest[k] == '"');
                assert(e[i - 1] == rest[k - 1]);
            } else {
                assert(e[i] == first[i]);
                assert(e[i - 1] == first[i - 1]);
            }
        }
        assert(seq![s[0]] + s.skip(1) == s);
    }
}

} // verus!
