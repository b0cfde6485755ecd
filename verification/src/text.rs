//! Character classes and string operations, over sequences of characters.

use vstd::prelude::*;

verus! {

/// `String::push`: the string afterwards is the string before with `c` at its
/// end.
pub assume_specification[ String::push ](s: &mut String, c: char)
    ensures
        final(s)@ == old(s)@.push(c),
;

/// The lowercase equivalent of a string, as `str::to_lowercase` gives it.
pub uninterp spec fn lowercase(s: Seq<char>) -> Seq<char>;

/// The lowercase equivalent of an ASCII character.
pub open spec fn ascii_lower(c: char) -> char {
    if 'A' <= c && c <= 'Z' {
        ((c as u32) + 32) as char
    } else {
        c
    }
}

/// `s` holds ASCII characters only.
pub open spec fn is_ascii(s: Seq<char>) -> bool {
    forall|i: int| 0 <= i < s.len() ==> s[i] <= '\x7f'
}

/// A string in small letters: for ASCII characters letter by letter, and
/// otherwise as the Unicode tables of the standard library have it.
pub open spec fn lowered(s: Seq<char>) -> Seq<char> {
    if is_ascii(s) {
        s.map_values(|c: char| ascii_lower(c))
    } else {
        lowercase(s)
    }
}

/// `str::to_lowercase`. The result is a function of the string, and on a
/// string of ASCII characters it replaces each of `A` to `Z` by the small
/// letter and keeps the rest. How other characters change is given by the
/// Unicode tables of the standard library and is left unsaid.
#[verifier::external_body]
fn unicode_lowercase(s: &str) -> (r: String)
    ensures
        r@ == lowercase(s@),
        is_ascii(s@) ==> r@ == s@.map_values(|c: char| ascii_lower(c)),
{
    s.to_lowercase()
}

/// `s` in small letters.
pub fn to_lowercase(s: &str) -> (r: String)
    ensures
        r@ == lowered(s@),
{
    unicode_lowercase(s)
}

// ---------------------------------------------------------------------------
// Character classes
// ---------------------------------------------------------------------------

/// The characters with the Unicode property `White_Space`.
pub open spec fn is_white(c: char) -> bool {
    ||| '\t' <= c && c <= '\r'
    ||| c == ' '
    ||| c == '\u{85}'
    ||| c == '\u{A0}'
    ||| c == '\u{1680}'
    ||| '\u{2000}' <= c && c <= '\u{200A}'
    ||| c == '\u{2028}'
    ||| c == '\u{2029}'
    ||| c == '\u{202F}'
    ||| c == '\u{205F}'
    ||| c == '\u{3000}'
}

/// The characters of the Unicode category `Cc`.
pub open spec fn is_cc(c: char) -> bool {
    c <= '\u{1F}' || ('\u{7F}' <= c && c <= '\u{9F}')
}

/// The ASCII decimal digits.
pub open spec fn is_digit(c: char) -> bool {
    '0' <= c && c <= '9'
}

/// Whether `c` is white space.
pub fn is_whitespace(c: char) -> (r: bool)
    ensures
        r == is_white(c),
{
    ('\t' <= c && c <= '\r') || c == ' ' || c == '\u{85}' || c == '\u{A0}' || c == '\u{1680}' || (
    '\u{2000}' <= c && c <= '\u{200A}') || c == '\u{2028}' || c == '\u{2029}' || c == '\u{202F}'
        || c == '\u{205F}' || c == '\u{3000}'
}

/// Whether `c` is a control character.
pub fn is_control(c: char) -> (r: bool)
    ensures
        r == is_cc(c),
{
    c <= '\u{1F}' || ('\u{7F}' <= c && c <= '\u{9F}')
}

/// Whether `c` is an ASCII decimal digit.
pub fn is_ascii_digit(c: char) -> (r: bool)
    ensures
        r == is_digit(c),
{
    '0' <= c && c <= '9'
}

// ---------------------------------------------------------------------------
// Whole strings
// ---------------------------------------------------------------------------

/// The characters of `s`.
pub fn chars_of(s: &str) -> (v: Vec<char>)
    ensures
        v@ == s@,
{
    let mut v: Vec<char> = Vec::new();
    for c in it: s.chars()
        invariant
            it.seq() == s@,
            v@ == s@.take(it.index()),
    {
        v.push(c);
    }
    v
}

/// Whether `a` and `b` hold the same characters.
pub fn same(a: &str, b: &str) -> (r: bool)
    ensures
        r == (a@ == b@),
{
    a.to_owned() == b.to_owned()
}

/// Whether `s` begins with `p`.
pub fn starts_with(s: &str, p: &str) -> (r: bool)
    ensures
        r == p@.is_prefix_of(s@),
{
    let n = p.unicode_len();
    if n > s.unicode_len() {
        return false;
    }
    same(s.substring_char(0, n), p)
}

/// Whether `s` ends with `p`.
pub fn ends_with(s: &str, p: &str) -> (r: bool)
    ensures
        r == p@.is_suffix_of(s@),
{
    let n = p.unicode_len();
    let m = s.unicode_len();
    if n > m {
        return false;
    }
    same(s.substring_char(m - n, m), p)
}

/// `s` without the copies of `p` that it begins with.
pub open spec fn without_prefixes(s: Seq<char>, p: Seq<char>) -> Seq<char>
    decreases s.len(),
{
    if p.len() > 0 && p.is_prefix_of(s) {
        without_prefixes(s.skip(p.len() as int), p)
    } else {
        s
    }
}

/// `s` without the copies of `p` that it ends with.
pub open spec fn without_suffixes(s: Seq<char>, p: Seq<char>) -> Seq<char>
    decreases s.len(),
{
    if p.len() > 0 && p.is_suffix_of(s) {
        without_suffixes(s.take(s.len() - p.len()), p)
    } else {
        s
    }
}

/// No copy of `p` is left in front.
pub proof fn lemma_without_prefixes(s: Seq<char>, p: Seq<char>)
    requires
        p.len() > 0,
    ensures
        !p.is_prefix_of(without_prefixes(s, p)),
    decreases s.len(),
{
    if p.is_prefix_of(s) {
        lemma_without_prefixes(s.skip(p.len() as int), p);
    }
}

/// Removes every copy of `p` from the front of `s`.
pub fn trim_start_matches(s: &str, p: &str) -> (r: String)
    ensures
        r@ == without_prefixes(s@, p@),
{
    let n = p.unicode_len();
    let mut rest = s.to_owned();
    if n == 0 {
        return rest;
    }
    while starts_with(rest.as_str(), p)
        invariant
            n == p@.len(),
            n > 0,
            without_prefixes(rest@, p@) == without_prefixes(s@, p@),
        decreases rest@.len(),
    {
        let m = rest.as_str().unicode_len();
        let shorter = rest.as_str().substring_char(n, m).to_owned();
        assert(shorter@ == rest@.skip(n as int));
        rest = shorter;
    }
    rest
}

/// Removes every copy of `p` from the end of `s`.
pub fn trim_end_matches(s: &str, p: &str) -> (r: String)
    ensures
        r@ == without_suffixes(s@, p@),
{
    let n = p.unicode_len();
    let mut rest = s.to_owned();
    if n == 0 {
        return rest;
    }
    while ends_with(rest.as_str(), p)
        invariant
            n == p@.len(),
            n > 0,
            without_suffixes(rest@, p@) == without_suffixes(s@, p@),
        decreases rest@.len(),
    {
        let m = rest.as_str().unicode_len();
        let shorter = rest.as_str().substring_char(0, m - n).to_owned();
        assert(shorter@ == rest@.take(m - n));
        rest = shorter;
    }
    rest
}

// ---------------------------------------------------------------------------
// Searching
// ---------------------------------------------------------------------------

/// `p` stands in `s` at position `i`.
pub open spec fn occurs_at(s: Seq<char>, p: Seq<char>, i: int) -> bool {
    0 <= i && i + p.len() <= s.len() && s.subrange(i, i + p.len()) == p
}

/// `i` is the first position at which `p` stands in `s`.
pub open spec fn occurs_first_at(s: Seq<char>, p: Seq<char>, i: int) -> bool {
    occurs_at(s, p, i) && forall|j: int| 0 <= j < i ==> !occurs_at(s, p, j)
}

/// The first position at which `p` stands in `s`, if there is one.
pub open spec fn position_of(s: Seq<char>, p: Seq<char>) -> Option<int> {
    if exists|i: int| occurs_at(s, p, i) {
        Some(choose|i: int| occurs_first_at(s, p, i))
    } else {
        None
    }
}

/// The first position at which `c` stands in `s`, if there is one.
pub open spec fn position_of_char(s: Seq<char>, c: char) -> Option<int> {
    position_of(s, seq![c])
}

/// There is at most one first position.
pub proof fn lemma_position_of(s: Seq<char>, p: Seq<char>, i: int)
    requires
        occurs_first_at(s, p, i),
    ensures
        position_of(s, p) == Some(i),
{
    let k = choose|k: int| occurs_first_at(s, p, k);
    assert(occurs_first_at(s, p, k));
    if k < i {
        assert(!occurs_at(s, p, k));
    } else if i < k {
        assert(!occurs_at(s, p, i));
    }
}

/// Where `p` first stands in `s`.
pub fn find(s: &Vec<char>, p: &Vec<char>) -> (r: Option<usize>)
    ensures
        match r {
            Some(i) => position_of(s@, p@) == Some(i as int) && occurs_first_at(s@, p@, i as int),
            None => position_of(s@, p@) is None,
        },
{
    if p.len() > s.len() {
        assert forall|k: int| !occurs_first_at(s@, p@, k) by {}
        return None;
    }
    let len: usize = s.len();
    let last: usize = len - p.len();
    let mut i: usize = 0;
    loop
        invariant
            len == s@.len(),
            last == len - p@.len(),
            i <= last,
            forall|j: int| 0 <= j < i ==> !occurs_at(s@, p@, j),
        decreases last - i,
    {
        let mut k: usize = 0;
        while k < p.len() && s[i + k] == p[k]
            invariant
                len == s@.len(),
                last == len - p@.len(),
                i <= last,
                k <= p@.len(),
                forall|j: int| 0 <= j < k ==> s@[i + j] == p@[j],
            decreases p.len() - k,
        {
            k += 1;
        }
        if k == p.len() {
            assert(s@.subrange(i as int, i + p@.len()) == p@);
            proof {
                lemma_position_of(s@, p@, i as int);
            }
            return Some(i);
        }
        assert(!occurs_at(s@, p@, i as int)) by {
            if occurs_at(s@, p@, i as int) {
                assert(s@.subrange(i as int, i + p@.len())[k as int] == p@[k as int]);
            }
        }
        if i == last {
            assert(forall|j: int| !occurs_at(s@, p@, j));
            return None;
        }
        i += 1;
    }
}

/// The part of `s` in front of its first `c`, or all of `s` if it holds none.
pub open spec fn before_char(s: Seq<char>, c: char) -> Seq<char> {
    match position_of_char(s, c) {
        Some(i) => s.take(i),
        None => s,
    }
}

/// Cuts `s` off at its first `c`.
pub fn cut_at(s: &str, c: char) -> (r: String)
    ensures
        r@ == before_char(s@, c),
{
    let mut one: Vec<char> = Vec::new();
    one.push(c);
    assert(one@ == seq![c]);
    match find(&chars_of(s), &one) {
        Some(i) => s.substring_char(0, i).to_owned(),
        None => s.to_owned(),
    }
}

// ---------------------------------------------------------------------------
// White space
// ---------------------------------------------------------------------------

/// `s` without the white space that it begins with.
pub open spec fn trimmed_start(s: Seq<char>) -> Seq<char>
    decreases s.len(),
{
    if s.len() > 0 && is_white(s[0]) {
        trimmed_start(s.skip(1))
    } else {
        s
    }
}

/// `s` without the white space that it ends with.
pub open spec fn trimmed_end(s: Seq<char>) -> Seq<char>
    decreases s.len(),
{
    if s.len() > 0 && is_white(s.last()) {
        trimmed_end(s.drop_last())
    } else {
        s
    }
}

/// `s` without the white space around it.
pub open spec fn trimmed(s: Seq<char>) -> Seq<char> {
    trimmed_end(trimmed_start(s))
}

/// The first position of `s` at or after `from` that holds no white space.
pub fn skip_white(s: &Vec<char>, from: usize) -> (i: usize)
    requires
        from <= s@.len(),
    ensures
        from <= i <= s@.len(),
        s@.skip(i as int) == trimmed_start(s@.skip(from as int)),
        i < s@.len() ==> !is_white(s@[i as int]),
        forall|j: int| from <= j < i ==> is_white(s@[j]),
{
    let mut i: usize = from;
    while i < s.len() && is_whitespace(s[i])
        invariant
            from <= i <= s@.len(),
            trimmed_start(s@.skip(i as int)) == trimmed_start(s@.skip(from as int)),
            forall|j: int| from <= j < i ==> is_white(s@[j]),
        decreases s.len() - i,
    {
        assert(s@.skip(i as int).skip(1) == s@.skip(i + 1));
        i += 1;
    }
    i
}

/// `s` without the white space around it.
pub fn trim(s: &str) -> (r: String)
    ensures
        r@ == trimmed(s@),
{
    let v = chars_of(s);
    let start = skip_white(&v, 0);
    assert(v@.skip(0) == v@);
    let mut end: usize = v.len();
    assert(v@.subrange(start as int, end as int) == v@.skip(start as int));
    while start < end && is_whitespace(v[end - 1])
        invariant
            start <= end <= v@.len(),
            trimmed_end(v@.subrange(start as int, end as int)) == trimmed(v@),
        decreases end,
    {
        assert(v@.subrange(start as int, end as int).drop_last() == v@.subrange(
            start as int,
            end - 1,
        ));
        end -= 1;
    }
    s.substring_char(start, end).to_owned()
}

/// How many characters `s` begins with that are no white space.
pub open spec fn word_len(s: Seq<char>) -> nat
    decreases s.len(),
{
    if s.len() > 0 && !is_white(s[0]) {
        1 + word_len(s.skip(1))
    } else {
        0
    }
}

/// A word is no longer than what it is cut from.
pub proof fn lemma_word_len(s: Seq<char>)
    ensures
        word_len(s) <= s.len(),
        s.len() > 0 && !is_white(s[0]) ==> word_len(s) > 0,
    decreases s.len(),
{
    if s.len() > 0 && !is_white(s[0]) {
        lemma_word_len(s.skip(1));
    }
}

/// Trimming removes characters or nothing.
pub proof fn lemma_trimmed_start(s: Seq<char>)
    ensures
        trimmed_start(s).len() <= s.len(),
        trimmed_start(s).len() > 0 ==> !is_white(trimmed_start(s)[0]),
    decreases s.len(),
{
    if s.len() > 0 && is_white(s[0]) {
        lemma_trimmed_start(s.skip(1));
    }
}

/// The words of `s`: its longest stretches without white space, in order.
pub open spec fn words(s: Seq<char>) -> Seq<Seq<char>>
    decreases s.len(),
{
    let t = trimmed_start(s);
    if t.len() == 0 {
        seq![]
    } else {
        proof {
            lemma_trimmed_start(s);
            lemma_word_len(t);
        }
        seq![t.take(word_len(t) as int)] + words(t.skip(word_len(t) as int))
    }
}

/// The texts that a vector of strings holds.
pub open spec fn texts(v: Seq<String>) -> Seq<Seq<char>> {
    v.map_values(|s: String| s@)
}

/// Cuts `s` into its words.
pub fn split_whitespace(s: &str) -> (r: Vec<String>)
    ensures
        texts(r@) == words(s@),
{
    let v = chars_of(s);
    let mut r: Vec<String> = Vec::new();
    let mut i = skip_white(&v, 0);
    assert(v@.skip(0) == v@);
    proof {
        lemma_words_trimmed(v@);
    }
    assert(texts(r@) + words(v@.skip(i as int)) == words(v@));
    while i < v.len()
        invariant
            v@ == s@,
            i <= v@.len(),
            i < v@.len() ==> !is_white(v@[i as int]),
            texts(r@) + words(v@.skip(i as int)) == words(v@),
        decreases v.len() - i,
    {
        let mut j: usize = i;
        while j < v.len() && !is_whitespace(v[j])
            invariant
                i <= j <= v@.len(),
                i < v@.len(),
                j == i ==> !is_white(v@[i as int]),
                word_len(v@.skip(i as int)) == (j - i) + word_len(v@.skip(j as int)),
            decreases v.len() - j,
        {
            assert(v@.skip(j as int).skip(1) == v@.skip(j + 1));
            j += 1;
        }
        let word = s.substring_char(i, j).to_owned();
        let next = skip_white(&v, j);
        proof {
            let t = v@.skip(i as int);
            assert(trimmed_start(t) == t);
            assert(word_len(t) == j - i);
            assert(t.take(j - i) == word@);
            assert(t.skip(j - i) == v@.skip(j as int));
            lemma_words_trimmed(v@.skip(j as int));
            assert(words(t) == seq![word@] + words(v@.skip(next as int)));
            assert(texts(r@.push(word)) == texts(r@).push(word@));
            assert(texts(r@) + (seq![word@] + words(v@.skip(next as int))) == texts(r@.push(word))
                + words(v@.skip(next as int)));
        }
        r.push(word);
        i = next;
    }
    proof {
        assert(v@.skip(i as int).len() == 0);
        assert(words(v@.skip(i as int)) == Seq::<Seq<char>>::empty());
        assert(texts(r@) == words(v@));
    }
    r
}

/// White space in front of a text does not change its words.
pub proof fn lemma_words_trimmed(s: Seq<char>)
    ensures
        words(trimmed_start(s)) == words(s),
{
    lemma_trimmed_start(s);
    assert(trimmed_start(trimmed_start(s)) == trimmed_start(s));
}

/// The texts one after another, with `sep` between them.
pub open spec fn joined(list: Seq<Seq<char>>, sep: Seq<char>) -> Seq<char>
    decreases list.len(),
{
    if list.len() == 0 {
        seq![]
    } else if list.len() == 1 {
        list[0]
    } else {
        joined(list.drop_last(), sep) + sep + list.last()
    }
}

/// Joins the strings of `list` from position `from` on.
pub fn join_from(list: &Vec<String>, from: usize, sep: &str) -> (r: String)
    requires
        from <= list@.len(),
    ensures
        r@ == joined(texts(list@).skip(from as int), sep@),
{
    let mut r = String::new();
    let mut i: usize = from;
    let ghost all = texts(list@).skip(from as int);
    assert(all.take(0) == Seq::<Seq<char>>::empty());
    while i < list.len()
        invariant
            from <= i <= list@.len(),
            all == texts(list@).skip(from as int),
            r@ == joined(all.take(i - from), sep@),
        decreases list.len() - i,
    {
        let ghost part = all.take(i + 1 - from);
        assert(part.drop_last() == all.take(i - from));
        assert(part.last() == list@[i as int]@);
        if i > from {
            r.append(sep);
        }
        r.append(list[i].as_str());
        i += 1;
    }
    assert(all.take(i - from) == all);
    r
}

} // verus!
