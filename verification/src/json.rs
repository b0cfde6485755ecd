//! The JSON that goes over the bridge: string literals are written with
//! [`json_string`], and string fields of a line are read with [`json_field`].

use crate::text::{
    chars_of, find, is_cc, is_control, is_white, lemma_position_of, occurs_at, occurs_first_at,
    position_of, position_of_char, skip_white, trimmed_start,
};
use vstd::prelude::*;

verus! {

/// `char::from_u32`: the character with the given code, for the codes that
/// are Unicode scalar values, and `None` for every other number.
pub assume_specification[ char::from_u32 ](i: u32) -> (r: Option<char>)
    ensures
        r == (if i <= 0xD7FF || 0xE000 <= i <= 0x10FFFF {
            Some(i as char)
        } else {
            None
        }),
;

// ---------------------------------------------------------------------------
// Writing
// ---------------------------------------------------------------------------

/// The small hexadecimal digit of value `d`.
pub open spec fn hex_digit(d: int) -> char {
    if d < 10 {
        ('0' as int + d) as char
    } else {
        ('a' as int + d - 10) as char
    }
}

/// `n` as four hexadecimal digits.
pub open spec fn hex4(n: int) -> Seq<char> {
    seq![
        hex_digit(n / 4096 % 16),
        hex_digit(n / 256 % 16),
        hex_digit(n / 16 % 16),
        hex_digit(n % 16),
    ]
}

/// How a character stands inside a string literal.
pub open spec fn escaped_char(c: char) -> Seq<char> {
    if c == '"' {
        seq!['\\', '"']
    } else if c == '\\' {
        seq!['\\', '\\']
    } else if c == '\n' {
        seq!['\\', 'n']
    } else if c == '\r' {
        seq!['\\', 'r']
    } else if c == '\t' {
        seq!['\\', 't']
    } else if c == '\u{08}' {
        seq!['\\', 'b']
    } else if c == '\u{0C}' {
        seq!['\\', 'f']
    } else if is_cc(c) {
        seq!['\\', 'u'] + hex4(c as int)
    } else {
        seq![c]
    }
}

/// How a text stands inside a string literal.
pub open spec fn escaped(s: Seq<char>) -> Seq<char>
    decreases s.len(),
{
    if s.len() == 0 {
        seq![]
    } else {
        escaped_char(s[0]) + escaped(s.skip(1))
    }
}

/// The string literal that stands for `s`.
pub open spec fn literal(s: Seq<char>) -> Seq<char> {
    seq!['"'] + escaped(s) + seq!['"']
}

proof fn lemma_escaped_push(s: Seq<char>, c: char)
    ensures
        escaped(s.push(c)) == escaped(s) + escaped_char(c),
    decreases s.len(),
{
    if s.len() == 0 {
        assert(s.push(c).skip(1) == s);
        assert(escaped(s.push(c)) == escaped_char(c) + escaped(s));
    } else {
        assert(s.push(c).skip(1) == s.skip(1).push(c));
        lemma_escaped_push(s.skip(1), c);
    }
}

/// The small hexadecimal digit of value `d`.
fn hex_char(d: u32) -> (c: char)
    requires
        d < 16,
    ensures
        c == hex_digit(d as int),
{
    if d < 10 {
        ('0' as u8 + d as u8) as char
    } else {
        ('a' as u8 + (d - 10) as u8) as char
    }
}

/// Appends a backslash and `c`.
fn push_escape(out: &mut String, c: char)
    ensures
        final(out)@ == old(out)@ + seq!['\\', c],
{
    out.push('\\');
    out.push(c);
}

/// Appends `ch` as it stands inside a string literal.
fn push_escaped(out: &mut String, ch: char)
    ensures
        final(out)@ == old(out)@ + escaped_char(ch),
{
    if ch == '"' {
        push_escape(out, '"');
    } else if ch == '\\' {
        push_escape(out, '\\');
    } else if ch == '\n' {
        push_escape(out, 'n');
    } else if ch == '\r' {
        push_escape(out, 'r');
    } else if ch == '\t' {
        push_escape(out, 't');
    } else if ch == '\u{08}' {
        push_escape(out, 'b');
    } else if ch == '\u{0C}' {
        push_escape(out, 'f');
    } else if is_control(ch) {
        let code = ch as u32;
        push_escape(out, 'u');
        out.push(hex_char(code / 4096 % 16));
        out.push(hex_char(code / 256 % 16));
        out.push(hex_char(code / 16 % 16));
        out.push(hex_char(code % 16));
        assert(out@ == old(out)@ + (seq!['\\', 'u'] + hex4(ch as int)));
    } else {
        out.push(ch);
        assert(out@ == old(out)@ + seq![ch]);
    }
}

/// The JSON string literal for `value`: quotation marks, backslashes and
/// control characters are escaped, everything else stands for itself.
pub fn json_string(value: &str) -> (r: String)
    ensures
        r@ == literal(value@),
{
    let mut out = String::new();
    out.push('"');
    let chars = chars_of(value);
    let mut i: usize = 0;
    assert(out@ == seq!['"'] + escaped(value@.take(0)));
    while i < chars.len()
        invariant
            chars@ == value@,
            i <= chars@.len(),
            out@ == seq!['"'] + escaped(value@.take(i as int)),
        decreases chars.len() - i,
    {
        let ch = chars[i];
        proof {
            assert(value@.take(i + 1) == value@.take(i as int).push(ch));
            lemma_escaped_push(value@.take(i as int), ch);
        }
        push_escaped(&mut out, ch);
        assert(out@ == seq!['"'] + escaped(value@.take(i as int)) + escaped_char(ch));
        i += 1;
    }
    assert(value@.take(i as int) == value@);
    out.push('"');
    out
}

// ---------------------------------------------------------------------------
// Reading
// ---------------------------------------------------------------------------

/// The value of a hexadecimal digit, small or capital.
pub open spec fn hex_value(c: char) -> Option<int> {
    if '0' <= c && c <= '9' {
        Some(c as int - '0' as int)
    } else if 'a' <= c && c <= 'f' {
        Some(c as int - 'a' as int + 10)
    } else if 'A' <= c && c <= 'F' {
        Some(c as int - 'A' as int + 10)
    } else {
        None
    }
}

/// The number that a row of hexadecimal digits stands for.
pub open spec fn hex_number(s: Seq<char>) -> Option<int>
    decreases s.len(),
{
    if s.len() == 0 {
        Some(0)
    } else {
        match (hex_number(s.drop_last()), hex_value(s.last())) {
            (Some(high), Some(low)) => Some(16 * high + low),
            _ => None,
        }
    }
}

/// The number that four characters after `\u` stand for: hexadecimal digits,
/// the first of which may be replaced by a plus sign.
pub open spec fn code_unit(code: Seq<char>) -> Option<int> {
    if code[0] == '+' {
        hex_number(code.skip(1))
    } else {
        hex_number(code)
    }
}

/// What a character after a backslash stands for, where it is not `u`.
pub open spec fn unescaped_char(c: char) -> char {
    if c == 'b' {
        '\u{08}'
    } else if c == 'f' {
        '\u{0C}'
    } else if c == 'n' {
        '\n'
    } else if c == 'r' {
        '\r'
    } else if c == 't' {
        '\t'
    } else {
        c
    }
}

/// The text of a code unit: its character, and nothing for a surrogate.
pub open spec fn code_text(n: int) -> Seq<char> {
    if 0xD800 <= n <= 0xDFFF {
        seq![]
    } else {
        seq![n as char]
    }
}

/// Puts `head` in front of the value that was read.
pub open spec fn after_text(
    head: Seq<char>,
    read: Option<(Seq<char>, Seq<char>)>,
) -> Option<(Seq<char>, Seq<char>)> {
    match read {
        Some((value, rest)) => Some((head + value, rest)),
        None => None,
    }
}

/// Reads the inside of a string literal up to its closing quotation mark:
/// the value, and what follows the mark. There is no value where the mark is
/// missing or an escape is cut off or has a wrong digit.
pub open spec fn unescaped(s: Seq<char>) -> Option<(Seq<char>, Seq<char>)>
    decreases s.len(),
{
    if s.len() == 0 {
        None
    } else if s[0] == '"' {
        Some((seq![], s.skip(1)))
    } else if s[0] != '\\' {
        after_text(seq![s[0]], unescaped(s.skip(1)))
    } else if s.len() < 2 {
        None
    } else if s[1] != 'u' {
        after_text(seq![unescaped_char(s[1])], unescaped(s.skip(2)))
    } else if s.len() < 6 {
        None
    } else {
        match code_unit(s.subrange(2, 6)) {
            Some(n) => after_text(code_text(n), unescaped(s.skip(6))),
            None => None,
        }
    }
}

/// What `json_field` looks for: the key between quotation marks.
pub open spec fn needle(key: Seq<char>) -> Seq<char> {
    seq!['"'] + key + seq!['"']
}

/// The string that a line holds after a colon, white space aside.
pub open spec fn string_after_colon(s: Seq<char>) -> Option<Seq<char>> {
    match position_of_char(s, ':') {
        Some(i) => {
            let rest = trimmed_start(s.skip(i + 1));
            if rest.len() > 0 && rest[0] == '"' {
                match unescaped(rest.skip(1)) {
                    Some((value, _)) => Some(value),
                    None => None,
                }
            } else {
                None
            }
        },
        None => None,
    }
}

/// The string field `key` of a line: the string behind the first colon that
/// follows the first place where the key stands between quotation marks.
pub open spec fn field(line: Seq<char>, key: Seq<char>) -> Option<Seq<char>> {
    match position_of(line, needle(key)) {
        Some(i) => string_after_colon(line.skip(i + needle(key).len())),
        None => None,
    }
}

/// The text of an optional string.
pub open spec fn opt_text(s: Option<String>) -> Option<Seq<char>> {
    match s {
        Some(t) => Some(t@),
        None => None,
    }
}

/// The value of a hexadecimal digit.
fn digit_value(c: char) -> (r: Option<u16>)
    ensures
        match r {
            Some(d) => hex_value(c) == Some(d as int) && d < 16,
            None => hex_value(c) is None,
        },
{
    if '0' <= c && c <= '9' {
        Some((c as u32 - '0' as u32) as u16)
    } else if 'a' <= c && c <= 'f' {
        Some((c as u32 - 'a' as u32 + 10) as u16)
    } else if 'A' <= c && c <= 'F' {
        Some((c as u32 - 'A' as u32 + 10) as u16)
    } else {
        None
    }
}

/// Reads the four characters of `s` from position `at` on as a code unit.
fn read_code_unit(s: &Vec<char>, at: usize) -> (r: Option<u16>)
    requires
        at + 4 <= s@.len(),
    ensures
        match r {
            Some(n) => code_unit(s@.subrange(at as int, at + 4)) == Some(n as int),
            None => code_unit(s@.subrange(at as int, at + 4)) is None,
        },
{
    let len: usize = s.len();
    let first: usize = if s[at] == '+' {
        1
    } else {
        0
    };
    let ghost digits = s@.subrange(at + first, at + 4);
    assert(digits == if first == 1 {
        s@.subrange(at as int, at + 4).skip(1)
    } else {
        s@.subrange(at as int, at + 4)
    });
    let mut i: usize = first;
    let mut n: u16 = 0;
    assert(digits.take(0) == Seq::<char>::empty());
    while i < 4
        invariant
            first <= i <= 4,
            len == s@.len(),
            at + 4 <= len,
            code_unit(s@.subrange(at as int, at + 4)) == hex_number(digits),
            digits == s@.subrange(at + first, at + 4),
            hex_number(digits.take(i - first)) == Some(n as int),
            i == 0 ==> n == 0,
            i == 1 ==> n < 16,
            i == 2 ==> n < 256,
            i == 3 ==> n < 4096,
        decreases 4 - i,
    {
        let ghost part = digits.take(i + 1 - first);
        assert(part.drop_last() == digits.take(i - first));
        assert(part.last() == s@[at + i]);
        match digit_value(s[at + i]) {
            Some(d) => {
                n = 16 * n + d;
            },
            None => {
                proof {
                    lemma_hex_number_prefix(digits, i + 1 - first);
                }
                return None;
            },
        }
        i += 1;
    }
    assert(digits.take(i - first) == digits);
    Some(n)
}

/// Where the first digits stand for no number, all of them do not.
proof fn lemma_hex_number_prefix(s: Seq<char>, n: int)
    requires
        0 <= n <= s.len(),
        hex_number(s.take(n)) is None,
    ensures
        hex_number(s) is None,
    decreases s.len(),
{
    if n == s.len() {
        assert(s.take(n) == s);
    } else {
        assert(s.drop_last().take(n) == s.take(n));
        lemma_hex_number_prefix(s.drop_last(), n);
    }
}

/// Reads the inside of a string literal, from position `from` on.
fn read_string(s: &Vec<char>, from: usize) -> (r: Option<String>)
    requires
        from <= s@.len(),
    ensures
        opt_text(r) == (match unescaped(s@.skip(from as int)) {
            Some((value, _)) => Some(value),
            None => None,
        }),
{
    let mut out = String::new();
    let mut i: usize = from;
    let ghost all = unescaped(s@.skip(from as int));
    assert(after_text(out@, all) == all) by {
        if let Some((value, _)) = all {
            assert(out@ + value == value);
        }
    }
    while i < s.len()
        invariant
            from <= i <= s@.len(),
            all == unescaped(s@.skip(from as int)),
            after_text(out@, unescaped(s@.skip(i as int))) == all,
        decreases s.len() - i,
    {
        let ch = s[i];
        let ghost here = s@.skip(i as int);
        let ghost before = out@;
        if ch == '"' {
            assert(out@ + Seq::<char>::empty() == out@);
            return Some(out);
        }
        if ch == '\\' {
            if s.len() - i < 2 {
                return None;
            }
            let escape = s[i + 1];
            if escape == 'u' {
                if s.len() - i < 6 {
                    return None;
                }
                assert(here.subrange(2, 6) == s@.subrange(i + 2, i + 6));
                match read_code_unit(s, i + 2) {
                    Some(n) => {
                        if let Some(decoded) = char::from_u32(n as u32) {
                            out.push(decoded);
                        }
                        assert(out@ == before + code_text(n as int));
                        assert(here.skip(6) == s@.skip(i + 6));
                        proof {
                            lemma_after_text(before, code_text(n as int), unescaped(here.skip(6)));
                        }
                    },
                    None => {
                        return None;
                    },
                }
                i += 6;
            } else {
                if escape == 'b' {
                    out.push('\u{08}');
                } else if escape == 'f' {
                    out.push('\u{0C}');
                } else if escape == 'n' {
                    out.push('\n');
                } else if escape == 'r' {
                    out.push('\r');
                } else if escape == 't' {
                    out.push('\t');
                } else {
                    out.push(escape);
                }
                assert(out@ == before + seq![unescaped_char(escape)]);
                assert(here.skip(2) == s@.skip(i + 2));
                proof {
                    lemma_after_text(
                        before,
                        seq![unescaped_char(escape)],
                        unescaped(here.skip(2)),
                    );
                }
                i += 2;
            }
        } else {
            out.push(ch);
            assert(out@ == before + seq![ch]);
            assert(here.skip(1) == s@.skip(i + 1));
            proof {
                lemma_after_text(before, seq![ch], unescaped(here.skip(1)));
            }
            i += 1;
        }
    }
    None
}

proof fn lemma_after_text(a: Seq<char>, b: Seq<char>, read: Option<(Seq<char>, Seq<char>)>)
    ensures
        after_text(a, after_text(b, read)) == after_text(a + b, read),
{
    if let Some((value, _)) = read {
        assert(a + (b + value) == a + b + value);
    }
}

/// The string field `key` of `line`, decoded. `None` where the key does not
/// stand in the line, where no colon follows it or no string follows the
/// colon, and where the string is not closed or holds a broken `\u` escape.
pub fn json_field(line: &str, key: &str) -> (r: Option<String>)
    ensures
        opt_text(r) == field(line@, key@),
{
    let chars = chars_of(line);
    let mut quoted = String::new();
    quoted.push('"');
    quoted.append(key);
    quoted.push('"');
    assert(quoted@ == needle(key@));
    let pattern = chars_of(quoted.as_str());
    let len: usize = chars.len();
    let start: usize = match find(&chars, &pattern) {
        Some(i) => i + pattern.len(),
        None => {
            return None;
        },
    };
    let after_key = chars_of(line.substring_char(start, len));
    assert(after_key@ == line@.skip(start as int));
    let mut colon: Vec<char> = Vec::new();
    colon.push(':');
    assert(colon@ == seq![':']);
    let behind: usize = match find(&after_key, &colon) {
        Some(i) => i + 1,
        None => {
            return None;
        },
    };
    let at = skip_white(&after_key, behind);
    if at == after_key.len() || after_key[at] != '"' {
        return None;
    }
    assert(after_key@.skip(at as int).skip(1) == after_key@.skip(at + 1));
    read_string(&after_key, at + 1)
}

// ---------------------------------------------------------------------------
// Laws
// ---------------------------------------------------------------------------

/// Each character is read back from its escape.
proof fn lemma_escaped_char_reads_back(c: char, tail: Seq<char>)
    ensures
        unescaped(escaped_char(c) + tail) == after_text(seq![c], unescaped(tail)),
{
    let e = escaped_char(c);
    let s = e + tail;
    if c == '"' || c == '\\' || c == '\n' || c == '\r' || c == '\t' || c == '\u{08}' || c
        == '\u{0C}' {
        assert(s.skip(2) == tail);
        assert(s[0] == '\\' && s[1] == e[1]);
    } else if is_cc(c) {
        let n = c as int;
        assert(e == seq!['\\', 'u'] + hex4(n));
        assert(s.skip(6) == tail);
        assert(s.subrange(2, 6) == hex4(n));
        lemma_hex4_reads_back(n);
        assert(hex4(n)[0] == '0');
    } else {
        assert(s.skip(1) == tail);
        assert(s[0] == c);
    }
}

proof fn lemma_hex_digit(d: int)
    requires
        0 <= d < 16,
    ensures
        hex_value(hex_digit(d)) == Some(d),
        d == 0 ==> hex_digit(d) == '0',
{
}

proof fn lemma_hex4_reads_back(n: int)
    requires
        0 <= n < 4096,
    ensures
        hex_number(hex4(n)) == Some(n),
        hex4(n)[0] == '0',
{
    let s = hex4(n);
    lemma_hex_digit(n / 4096 % 16);
    lemma_hex_digit(n / 256 % 16);
    lemma_hex_digit(n / 16 % 16);
    lemma_hex_digit(n % 16);
    let s3 = s.drop_last();
    let s2 = s3.drop_last();
    let s1 = s2.drop_last();
    assert(s1.drop_last() == Seq::<char>::empty());
    assert(hex_number(s1.drop_last()) == Some(0int));
    assert(s1.last() == s[0] && s2.last() == s[1] && s3.last() == s[2]);
    assert(hex_number(s1) == Some(n / 4096 % 16));
    assert(hex_number(s2) == Some(16 * (n / 4096 % 16) + n / 256 % 16));
    assert(hex_number(s3) == Some(16 * (16 * (n / 4096 % 16) + n / 256 % 16) + n / 16 % 16));
}

/// What is written as a string literal is read back whole, and reading stops
/// at the closing quotation mark, whatever follows it.
pub proof fn law_literal_reads_back(s: Seq<char>, tail: Seq<char>)
    ensures
        unescaped(escaped(s) + seq!['"'] + tail) == Some((s, tail)),
        literal(s) + tail == seq!['"'] + (escaped(s) + seq!['"'] + tail),
    decreases s.len(),
{
    assert(literal(s) + tail == seq!['"'] + (escaped(s) + seq!['"'] + tail));
    if s.len() == 0 {
        let t = escaped(s) + seq!['"'] + tail;
        assert(t == seq!['"'] + tail);
        assert(t.skip(1) == tail);
        assert(s == Seq::<char>::empty());
    } else {
        law_literal_reads_back(s.skip(1), tail);
        let t = escaped(s.skip(1)) + seq!['"'] + tail;
        lemma_escaped_char_reads_back(s[0], t);
        assert(escaped_char(s[0]) + t == escaped(s) + seq!['"'] + tail);
        assert(seq![s[0]] + s.skip(1) == s);
    }
}

/// No two texts share a string literal, and none is the beginning of another:
/// where two lines begin with literals, equal lines have equal texts and equal
/// remainders.
pub proof fn law_literals_are_distinct(a: Seq<char>, x: Seq<char>, b: Seq<char>, y: Seq<char>)
    requires
        literal(a) + x == literal(b) + y,
    ensures
        a == b,
        x == y,
{
    law_literal_reads_back(a, x);
    law_literal_reads_back(b, y);
    assert((literal(a) + x).skip(1) == escaped(a) + seq!['"'] + x);
    assert((literal(b) + y).skip(1) == escaped(b) + seq!['"'] + y);
}

/// White space in front of a text that begins otherwise is trimmed away.
proof fn lemma_trimmed_gap(gap: Seq<char>, s: Seq<char>)
    requires
        forall|i: int| 0 <= i < gap.len() ==> is_white(gap[i]),
        s.len() > 0,
        !is_white(s[0]),
    ensures
        trimmed_start(gap + s) == s,
    decreases gap.len(),
{
    if gap.len() == 0 {
        assert(gap + s == s);
    } else {
        assert((gap + s).skip(1) == gap.skip(1) + s);
        lemma_trimmed_gap(gap.skip(1), s);
    }
}

/// A string field is read back from every line in which the key is followed
/// by a colon and a string literal, with white space around the colon, and in
/// which the key stands nowhere earlier.
pub proof fn law_field_reads_back(
    head: Seq<char>,
    key: Seq<char>,
    gap: Seq<char>,
    space: Seq<char>,
    value: Seq<char>,
    tail: Seq<char>,
)
    requires
        forall|i: int| 0 <= i < gap.len() ==> is_white(gap[i]),
        forall|i: int| 0 <= i < space.len() ==> is_white(space[i]),
        occurs_first_at(
            head + needle(key) + gap + seq![':'] + space + literal(value) + tail,
            needle(key),
            head.len() as int,
        ),
    ensures
        field(head + needle(key) + gap + seq![':'] + space + literal(value) + tail, key) == Some(
            value,
        ),
{
    let line = head + needle(key) + gap + seq![':'] + space + literal(value) + tail;
    lemma_position_of(line, needle(key), head.len() as int);
    let after = line.skip((head.len() + needle(key).len()) as int);
    assert(after == gap + seq![':'] + (space + (literal(value) + tail)));
    let c = gap.len() as int;
    assert(occurs_first_at(after, seq![':'], c)) by {
        assert(after.subrange(c, c + 1) == seq![':']);
        assert forall|j: int| 0 <= j < c implies !occurs_at(after, seq![':'], j) by {
            assert(is_white(gap[j]));
            assert(after.subrange(j, j + 1)[0] == gap[j]);
        }
    }
    lemma_position_of(after, seq![':'], c);
    assert(after.skip(c + 1) == space + (literal(value) + tail));
    let lit = literal(value) + tail;
    assert(lit[0] == '"');
    lemma_trimmed_gap(space, lit);
    law_literal_reads_back(value, tail);
    assert(lit.skip(1) == escaped(value) + seq!['"'] + tail);
}

/// The first field of an object is read back, whatever its key and value are
/// and whatever follows them.
pub proof fn law_first_field_reads_back(key: Seq<char>, value: Seq<char>, tail: Seq<char>)
    ensures
        field(seq!['{'] + needle(key) + seq![':'] + literal(value) + tail, key) == Some(value),
{
    let none = Seq::<char>::empty();
    let head = seq!['{'];
    let line = head + needle(key) + none + seq![':'] + none + literal(value) + tail;
    assert(line == head + needle(key) + seq![':'] + literal(value) + tail);
    assert(occurs_first_at(line, needle(key), 1)) by {
        assert(line.subrange(1, 1 + needle(key).len() as int) == needle(key));
        if occurs_at(line, needle(key), 0) {
            assert(line.subrange(0, needle(key).len() as int)[0] == '{');
        }
    }
    law_field_reads_back(head, key, none, none, value, tail);
}

} // verus!
