//! What holds of the string operations, said without their definitions.

use crate::text::{
    ascii_lower, before_char, is_ascii, is_white, joined, lemma_position_of, lowercase, lowered,
    occurs_at, occurs_first_at, position_of, texts, trimmed, trimmed_end, trimmed_start,
    without_prefixes, without_suffixes, word_len, words,
};
use vstd::prelude::*;

verus! {

/// `s` holds white space only.
pub open spec fn all_white(s: Seq<char>) -> bool {
    forall|i: int| 0 <= i < s.len() ==> is_white(s[i])
}

/// `s` holds no white space.
pub open spec fn no_white(s: Seq<char>) -> bool {
    forall|i: int| 0 <= i < s.len() ==> !is_white(s[i])
}

/// Trimming the front removes exactly the white space there.
pub proof fn law_trimming_the_front(a: Seq<char>, t: Seq<char>)
    requires
        all_white(a),
        t.len() > 0 ==> !is_white(t[0]),
    ensures
        trimmed_start(a + t) == t,
    decreases a.len(),
{
    if a.len() == 0 {
        assert(a + t == t);
    } else {
        assert((a + t)[0] == a[0]);
        assert((a + t).skip(1) == a.skip(1) + t);
        law_trimming_the_front(a.skip(1), t);
    }
}

proof fn lemma_trimming_the_end(t: Seq<char>, b: Seq<char>)
    requires
        all_white(b),
        t.len() > 0 ==> !is_white(t.last()),
    ensures
        trimmed_end(t + b) == t,
    decreases b.len(),
{
    if b.len() == 0 {
        assert(t + b == t);
    } else {
        assert((t + b).last() == b[b.len() - 1]);
        assert((t + b).drop_last() == t + b.drop_last());
        lemma_trimming_the_end(t, b.drop_last());
    }
}

/// Trimming removes exactly the white space around a text, whatever the text
/// holds inside.
pub proof fn law_trimming(a: Seq<char>, t: Seq<char>, b: Seq<char>)
    requires
        all_white(a),
        all_white(b),
        t.len() > 0 ==> !is_white(t[0]) && !is_white(t.last()),
    ensures
        trimmed(a + t + b) == t,
{
    if t.len() == 0 {
        let none = Seq::<char>::empty();
        assert(a + t + b == (a + b) + none);
        assert(all_white(a + b));
        law_trimming_the_front(a + b, none);
    } else {
        assert(a + t + b == a + (t + b));
        assert((t + b)[0] == t[0]);
        law_trimming_the_front(a, t + b);
        lemma_trimming_the_end(t, b);
    }
}

proof fn lemma_word_len_is(w: Seq<char>, rest: Seq<char>)
    requires
        no_white(w),
        rest.len() > 0 ==> is_white(rest[0]),
    ensures
        word_len(w + rest) == w.len(),
    decreases w.len(),
{
    if w.len() == 0 {
        assert(w + rest == rest);
    } else {
        assert((w + rest)[0] == w[0]);
        assert((w + rest).skip(1) == w.skip(1) + rest);
        lemma_word_len_is(w.skip(1), rest);
    }
}

/// A text that begins with white space, a word, and white space or nothing has
/// that word first and then the words of what follows; white space alone has
/// no words.
pub proof fn law_words(a: Seq<char>, w: Seq<char>, rest: Seq<char>)
    requires
        all_white(a),
        w.len() > 0,
        no_white(w),
        rest.len() > 0 ==> is_white(rest[0]),
    ensures
        words(a + w + rest) == seq![w] + words(rest),
        words(a) == Seq::<Seq<char>>::empty(),
{
    let none = Seq::<char>::empty();
    assert(a + none == a);
    law_trimming_the_front(a, none);
    let t = w + rest;
    assert(a + w + rest == a + t);
    assert(t[0] == w[0]);
    law_trimming_the_front(a, t);
    lemma_word_len_is(w, rest);
    assert(t.take(w.len() as int) == w);
    assert(t.skip(w.len() as int) == rest);
}

/// Joining puts the separator behind the first text and in front of the rest.
pub proof fn law_joining(first: Seq<char>, rest: Seq<Seq<char>>, sep: Seq<char>)
    ensures
        joined(Seq::<Seq<char>>::empty(), sep) == Seq::<char>::empty(),
        rest.len() == 0 ==> joined(seq![first] + rest, sep) == first,
        rest.len() > 0 ==> joined(seq![first] + rest, sep) == first + sep + joined(rest, sep),
    decreases rest.len(),
{
    let all = seq![first] + rest;
    if rest.len() > 0 {
        assert(all.last() == rest.last());
        assert(all.drop_last() == seq![first] + rest.drop_last());
        law_joining(first, rest.drop_last(), sep);
        if rest.len() == 1 {
            assert(rest.last() == rest[0]);
        } else {
            let mid = joined(rest.drop_last(), sep);
            assert(first + sep + mid + sep + rest.last() == first + sep + (mid + sep
                + rest.last()));
        }
    }
}

/// Small letters: of ASCII characters each of `A` to `Z` becomes the letter 32
/// places on and all others stay; texts that differ only in that come out
/// alike; and other texts are left to the Unicode tables.
pub proof fn law_small_letters(s: Seq<char>, t: Seq<char>)
    ensures
        is_ascii(s) ==> lowered(s).len() == s.len(),
        forall|i: int|
            is_ascii(s) && 0 <= i < s.len() ==> #[trigger] lowered(s)[i] as int == s[i] as int + (
            if 'A' <= s[i] && s[i] <= 'Z' {
                32int
            } else {
                0int
            }),
        is_ascii(s) ==> is_ascii(lowered(s)) && lowered(lowered(s)) == lowered(s),
        is_ascii(s) && is_ascii(t) && s.len() == t.len() && (forall|i: int|
            0 <= i < s.len() ==> ascii_lower(#[trigger] s[i]) == ascii_lower(t[i])) ==> lowered(s)
            == lowered(t),
        !is_ascii(s) ==> lowered(s) == lowercase(s),
        is_ascii(s) == (forall|i: int| 0 <= i < s.len() ==> s[i] as int <= 127),
{
    if is_ascii(s) {
        assert(lowered(lowered(s)) == lowered(s));
    }
}

/// One copy of a prefix more in front changes nothing, and without a copy in
/// front nothing is removed. The same holds of suffixes.
pub proof fn law_removing_copies(s: Seq<char>, p: Seq<char>)
    requires
        p.len() > 0,
    ensures
        without_prefixes(p + s, p) == without_prefixes(s, p),
        !p.is_prefix_of(s) ==> without_prefixes(s, p) == s,
        without_suffixes(s + p, p) == without_suffixes(s, p),
        !p.is_suffix_of(s) ==> without_suffixes(s, p) == s,
{
    assert(p.is_prefix_of(p + s));
    assert((p + s).skip(p.len() as int) == s);
    assert(p.is_suffix_of(s + p));
    assert((s + p).take((s + p).len() - p.len()) == s);
}

/// The position of a text is where it stands with no copy of it before, and
/// there is none where it stands nowhere.
pub proof fn law_positions(s: Seq<char>, p: Seq<char>, i: int)
    ensures
        position_of(s, p) == Some(i) <==> {
            &&& 0 <= i <= s.len() - p.len()
            &&& s.subrange(i, i + p.len()) == p
            &&& forall|j: int| 0 <= j < i ==> #[trigger] s.subrange(j, j + p.len()) != p
        },
        position_of(s, p) is None <==> forall|j: int|
            0 <= j <= s.len() - p.len() ==> #[trigger] s.subrange(j, j + p.len()) != p,
{
    if 0 <= i <= s.len() - p.len() && s.subrange(i, i + p.len()) == p && (forall|j: int|
        0 <= j < i ==> #[trigger] s.subrange(j, j + p.len()) != p) {
        assert(occurs_at(s, p, i));
        assert forall|j: int| 0 <= j < i implies !occurs_at(s, p, j) by {
            assert(s.subrange(j, j + p.len()) != p);
        }
        lemma_position_of(s, p, i);
    }
    if exists|k: int| occurs_at(s, p, k) {
        let k = choose|k: int| occurs_at(s, p, k);
        let f = lemma_first(s, p, k);
        lemma_position_of(s, p, f);
        assert(s.subrange(f, f + p.len()) == p);
        assert forall|j: int| 0 <= j < f implies #[trigger] s.subrange(j, j + p.len()) != p by {
            assert(!occurs_at(s, p, j));
        }
    } else {
        assert forall|j: int| 0 <= j <= s.len() - p.len() implies #[trigger] s.subrange(
            j,
            j + p.len(),
        ) != p by {
            assert(!occurs_at(s, p, j));
        }
    }
}

/// Where a text stands somewhere, it stands somewhere first.
pub proof fn lemma_first(s: Seq<char>, p: Seq<char>, i: int) -> (f: int)
    requires
        occurs_at(s, p, i),
    ensures
        occurs_first_at(s, p, f),
        f <= i,
    decreases i,
{
    if forall|j: int| 0 <= j < i ==> !occurs_at(s, p, j) {
        i
    } else {
        let j = choose|j: int| 0 <= j < i && occurs_at(s, p, j);
        lemma_first(s, p, j)
    }
}

/// Cutting off keeps what stands in front of the first such character, and
/// everything where there is none.
pub proof fn law_cutting_off(a: Seq<char>, c: char, b: Seq<char>)
    requires
        !a.contains(c),
    ensures
        before_char(a + seq![c] + b, c) == a,
        before_char(a, c) == a,
{
    let s = a + seq![c] + b;
    let i = a.len() as int;
    assert(occurs_first_at(s, seq![c], i)) by {
        assert(s.subrange(i, i + 1) == seq![c]);
        assert forall|j: int| 0 <= j < i implies !occurs_at(s, seq![c], j) by {
            assert(s.subrange(j, j + 1)[0] == a[j]);
        }
    }
    lemma_position_of(s, seq![c], i);
    assert(s.take(i) == a);
    assert forall|j: int| !occurs_at(a, seq![c], j) by {
        if occurs_at(a, seq![c], j) {
            assert(a.subrange(j, j + 1)[0] == a[j]);
        }
    }
}

/// The texts of a vector of strings are those of its strings, in their order.
pub proof fn law_texts(v: Seq<String>)
    ensures
        texts(v).len() == v.len(),
        forall|i: int| 0 <= i < v.len() ==> #[trigger] texts(v)[i] == v[i]@,
{
}

} // verus!
