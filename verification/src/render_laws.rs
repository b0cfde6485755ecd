//! What holds of the renderer as a whole: text may arrive in any pieces, and
//! a line that arrives piece by piece is shown as if it were read at once.

use crate::render::{
    body_run, body_step, bold_switch, footer, header, held_star, holds_little_back, indent_of,
    leading, lemma_leading, lemma_leading_push, lemma_undecided_is_unmarked, line_head, marker, marker_len, marker_text,
    text_color, undecided, unindented, BodyView, Class, LineView, Marker, RendererView, StreamKind,
};
use vstd::prelude::*;

verus! {

/// How text with pairs of stars is shown: a pair turns bold on or off, and
/// every other character, a single star among them, stands for itself.
pub open spec fn bold_text(kind: StreamKind, plain: bool, bold: bool, s: Seq<char>) -> (
    bool,
    Seq<char>,
)
    decreases s.len(),
{
    if s.len() == 0 {
        (bold, seq![])
    } else if s.len() >= 2 && s[0] == '*' && s[1] == '*' {
        let (b, out) = bold_text(kind, plain, !bold, s.skip(2));
        (b, bold_switch(kind, plain, !bold) + out)
    } else {
        let (b, out) = bold_text(kind, plain, bold, s.skip(1));
        (b, seq![s[0]] + out)
    }
}

/// How a line is shown, without its end, and whether text is bold after it.
/// Nothing is shown of a line that holds nothing but blanks.
pub open spec fn shown_text(kind: StreamKind, plain: bool, bold: bool, line: Seq<char>) -> (
    bool,
    Seq<char>,
) {
    let s = unindented(line);
    if s.len() == 0 {
        (bold, seq![])
    } else {
        let (b, text) = bold_text(kind, plain, bold, s.skip(marker_len(marker(s)) as int));
        (b, line_head(kind, plain, indent_of(line)) + marker_text(kind, plain, s) + text)
    }
}

/// The line feed that ends a line of which something is shown.
pub open spec fn line_end(line: Seq<char>) -> Seq<char> {
    if unindented(line).len() == 0 {
        seq![]
    } else {
        "\n"@
    }
}

/// How a whole line is shown, and whether text is bold after it.
pub open spec fn shown_line(kind: StreamKind, plain: bool, bold: bool, line: Seq<char>) -> (
    bool,
    Seq<char>,
) {
    let (b, text) = shown_text(kind, plain, bold, line);
    (b, text + line_end(line))
}

/// How lines are shown one after another.
pub open spec fn shown_lines(
    kind: StreamKind,
    plain: bool,
    bold: bool,
    lines: Seq<Seq<char>>,
) -> (bool, Seq<char>)
    decreases lines.len(),
{
    if lines.len() == 0 {
        (bold, seq![])
    } else {
        let (b, out1) = shown_lines(kind, plain, bold, lines.drop_last());
        let (b2, out2) = shown_line(kind, plain, b, lines.last());
        (b2, out1 + out2)
    }
}

/// Lines as a text: each with a line feed behind it.
pub open spec fn text_of_lines(lines: Seq<Seq<char>>) -> Seq<char>
    decreases lines.len(),
{
    if lines.len() == 0 {
        seq![]
    } else {
        text_of_lines(lines.drop_last()) + lines.last().push('\n')
    }
}

/// A text may arrive in any pieces: taking in `a` and then `b` comes to the
/// same as taking in both at once, in the state and in what is shown.
pub proof fn law_pieces_do_not_matter(v: RendererView, a: Seq<char>, b: Seq<char>)
    ensures
        v.run(a + b).0 == v.run(a).0.run(b).0,
        v.run(a + b).1 == v.run(a).1 + v.run(a).0.run(b).1,
    decreases b.len(),
{
    if b.len() == 0 {
        assert(a + b == a);
    } else {
        law_pieces_do_not_matter(v, a, b.drop_last());
        assert((a + b).drop_last() == a + b.drop_last());
        assert((a + b).last() == b.last());
    }
}

/// Text without stars turns nothing bold.
proof fn lemma_no_stars(kind: StreamKind, plain: bool, b: BodyView, s: Seq<char>)
    requires
        !s.contains('*'),
    ensures
        body_run(kind, plain, b, s).0.bold == b.bold,
    decreases s.len(),
{
    if s.len() > 0 {
        let init = s.drop_last();
        assert(s[s.len() - 1] != '*');
        assert forall|i: int| 0 <= i < init.len() implies init[i] != '*' by {
            assert(init[i] == s[i]);
        }
        lemma_no_stars(kind, plain, b, init);
    }
}

/// What may still become a marker turns nothing bold.
proof fn lemma_undecided_keeps_bold(kind: StreamKind, plain: bool, bold: bool, s: Seq<char>)
    requires
        undecided(s),
    ensures
        body_run(kind, plain, BodyView { bold, star: false }, s).0.bold == bold,
{
    let b = BodyView { bold, star: false };
    if s.len() == 1 && s[0] == '*' {
        assert(s == seq!['*']);
        lemma_body_one(kind, plain, b, '*');
    } else {
        lemma_leading(s, Class::Hash);
        lemma_leading(s, Class::Digit);
        assert forall|i: int| 0 <= i < s.len() implies s[i] != '*' by {}
        lemma_no_stars(kind, plain, b, s);
    }
}

/// What every character keeps: no more is held back than may still become a
/// marker, or a single star; the kind of the stream and its coloring stay; and
/// a line feed leads to the beginning of a line, with bold text still bold.
pub proof fn law_every_character_keeps_the_invariant(v: RendererView, c: char)
    requires
        holds_little_back(v),
    ensures
        holds_little_back(v.step(c).0),
        v.step(c).0.kind == v.kind,
        v.step(c).0.plain == v.plain,
        c == '\n' ==> v.step(c).0 == RendererView::at_line_start(v.kind, v.plain, v.bold),
{
    reveal(RendererView::opened);
    let none = Seq::<char>::empty();
    lemma_leading(none, Class::Blank);
    assert(unindented(none).len() == 0);
    if let LineView::Opening(seen) = v.line {
        let s = unindented(seen);
        lemma_undecided_is_unmarked(s);
        assert(s.skip(0) == s);
        lemma_undecided_keeps_bold(v.kind, v.plain, v.bold, s);
    }
}

/// Text is shown as it arrives: after every piece nothing is held back but
/// the beginning of a line that may still become a marker, or a single star.
pub proof fn law_text_is_shown_live(v: RendererView, text: Seq<char>)
    requires
        holds_little_back(v),
    ensures
        holds_little_back(v.run(text).0),
    decreases text.len(),
{
    if text.len() > 0 {
        law_text_is_shown_live(v, text.drop_last());
        law_every_character_keeps_the_invariant(v.run(text.drop_last()).0, text.last());
    }
}

proof fn lemma_body_split(
    kind: StreamKind,
    plain: bool,
    b: BodyView,
    x: Seq<char>,
    y: Seq<char>,
)
    ensures
        ({
            let (b1, out1) = body_run(kind, plain, b, x);
            let (b2, out2) = body_run(kind, plain, b1, y);
            body_run(kind, plain, b, x + y) == (b2, out1 + out2)
        }),
    decreases y.len(),
{
    let (b1, out1) = body_run(kind, plain, b, x);
    if y.len() == 0 {
        assert(x + y == x);
        assert(out1 + Seq::<char>::empty() == out1);
    } else {
        lemma_body_split(kind, plain, b, x, y.drop_last());
        assert((x + y).drop_last() == x + y.drop_last());
        assert((x + y).last() == y.last());
        let (b2, out2) = body_run(kind, plain, b1, y.drop_last());
        let (b3, out3) = body_step(kind, plain, b2, y.last());
        assert(out1 + out2 + out3 == out1 + (out2 + out3));
    }
}

proof fn lemma_body_one(kind: StreamKind, plain: bool, b: BodyView, c: char)
    ensures
        body_run(kind, plain, b, seq![c]) == body_step(kind, plain, b, c),
{
    reveal_with_fuel(body_run, 2);
    let s = seq![c];
    assert(s.drop_last() == Seq::<char>::empty());
    let (b1, out1) = body_step(kind, plain, b, c);
    assert(Seq::<char>::empty() + out1 == out1);
}

/// What is shown for text and the star held back after it.
spec fn body_shown(kind: StreamKind, plain: bool, b: BodyView, s: Seq<char>) -> (
    bool,
    Seq<char>,
) {
    let (b1, out) = body_run(kind, plain, b, s);
    (b1.bold, out + held_star(b1.star))
}

/// The first characters `x` of a text are shown on their own.
proof fn lemma_body_shown_split(
    kind: StreamKind,
    plain: bool,
    b: BodyView,
    x: Seq<char>,
    y: Seq<char>,
)
    ensures
        ({
            let (b1, out1) = body_run(kind, plain, b, x);
            let (bold2, out2) = body_shown(kind, plain, b1, y);
            body_shown(kind, plain, b, x + y) == (bold2, out1 + out2)
        }),
{
    lemma_body_split(kind, plain, b, x, y);
    let (b1, out1) = body_run(kind, plain, b, x);
    let (b2, out2) = body_run(kind, plain, b1, y);
    assert(out1 + out2 + held_star(b2.star) == out1 + (out2 + held_star(b2.star)));
}

/// What is shown for a star and the character behind it.
proof fn lemma_star_and_one(kind: StreamKind, plain: bool, bold: bool, c: char)
    ensures
        body_run(kind, plain, BodyView { bold, star: false }, seq!['*', c]) == if c == '*' {
            (BodyView { bold: !bold, star: false }, bold_switch(kind, plain, !bold))
        } else {
            (BodyView { bold, star: false }, seq!['*', c])
        },
{
    let b0 = BodyView { bold, star: false };
    let b1 = BodyView { bold, star: true };
    lemma_body_one(kind, plain, b0, '*');
    lemma_body_one(kind, plain, b1, c);
    lemma_body_split(kind, plain, b0, seq!['*'], seq![c]);
    assert(seq!['*'] + seq![c] == seq!['*', c]);
    let (_, step) = body_step(kind, plain, b1, c);
    assert(Seq::<char>::empty() + step == step);
    assert(held_star(true) + seq![c] == seq!['*', c]);
}

/// Text that is shown as it arrives, with the last star after it, is shown as
/// if its pairs of stars were looked up in the whole.
proof fn lemma_body_is_bold_text(kind: StreamKind, plain: bool, bold: bool, s: Seq<char>)
    ensures
        bold_text(kind, plain, bold, s) == body_shown(
            kind,
            plain,
            BodyView { bold, star: false },
            s,
        ),
    decreases s.len(), 1int,
{
    let b0 = BodyView { bold, star: false };
    if s.len() == 0 {
        assert(Seq::<char>::empty() + held_star(false) == Seq::<char>::empty());
    } else if s[0] != '*' {
        let rest = s.skip(1);
        lemma_body_is_bold_text(kind, plain, bold, rest);
        lemma_body_shown_split(kind, plain, b0, seq![s[0]], rest);
        lemma_body_one(kind, plain, b0, s[0]);
        assert(seq![s[0]] + rest == s);
        assert(held_star(false) + seq![s[0]] == seq![s[0]]);
    } else if s.len() == 1 {
        assert(s == seq!['*']);
        lemma_body_one(kind, plain, b0, '*');
        assert(s.skip(1) == Seq::<char>::empty());
        assert(bold_text(kind, plain, bold, s.skip(1)) == (bold, Seq::<char>::empty()));
        assert(Seq::<char>::empty() + held_star(true) == seq!['*'] + Seq::<char>::empty());
    } else {
        lemma_body_is_bold_text_after_star(kind, plain, bold, s);
    }
}

/// The same for a text of two or more characters that begins with a star.
proof fn lemma_body_is_bold_text_after_star(
    kind: StreamKind,
    plain: bool,
    bold: bool,
    s: Seq<char>,
)
    requires
        s.len() >= 2,
        s[0] == '*',
    ensures
        bold_text(kind, plain, bold, s) == body_shown(
            kind,
            plain,
            BodyView { bold, star: false },
            s,
        ),
    decreases s.len(), 0int,
{
    let rest = s.skip(2);
    assert(seq!['*', s[1]] + rest == s);
    lemma_star_and_one(kind, plain, bold, s[1]);
    lemma_body_shown_split(
        kind,
        plain,
        BodyView { bold, star: false },
        seq!['*', s[1]],
        rest,
    );
    if s[1] == '*' {
        lemma_body_is_bold_text(kind, plain, !bold, rest);
    } else {
        lemma_body_is_bold_text(kind, plain, bold, rest);
        let tail = s.skip(1);
        assert(tail.skip(1) == rest);
        let (t, text) = bold_text(kind, plain, bold, rest);
        assert(bold_text(kind, plain, bold, tail) == (t, seq![s[1]] + text));
        assert(seq!['*'] + (seq![s[1]] + text) == seq!['*', s[1]] + text);
    }
}

/// Once it is decided what marker a line has, more characters change nothing.
proof fn lemma_decided_stays(s: Seq<char>, c: char)
    requires
        !undecided(s),
    ensures
        !undecided(s.push(c)),
        marker(s.push(c)) == marker(s),
        marker_len(marker(s)) <= s.len(),
        forall|kind: StreamKind, plain: bool|
            marker_text(kind, plain, s.push(c)) == marker_text(kind, plain, s),
{
    lemma_leading(s, Class::Hash);
    lemma_leading(s, Class::Digit);
    lemma_leading_push(s, c, Class::Hash);
    lemma_leading_push(s, c, Class::Digit);
    if let Marker::Numbered(n) = marker(s) {
        assert(s.push(c).take(n as int + 1) == s.take(n as int + 1));
    }
}

proof fn lemma_unindented_push(line: Seq<char>, c: char)
    requires
        unindented(line).len() > 0,
    ensures
        unindented(line.push(c)) == unindented(line).push(c),
        indent_of(line.push(c)) == indent_of(line),
{
    lemma_leading(line, Class::Blank);
    lemma_leading_push(line, c, Class::Blank);
    let n = leading(line, Class::Blank) as int;
    assert(line.push(c).skip(n) == line.skip(n).push(c));
    assert(line.push(c).take(n) == line.take(n));
}

/// The state after the beginning `p` of a line, and what is shown of it.
#[verifier::spinoff_prover]
#[verifier::rlimit(40)]
proof fn lemma_run_in_line(kind: StreamKind, plain: bool, bold: bool, p: Seq<char>)
    requires
        !p.contains('\n'),
    ensures
        ({
            let v = RendererView::at_line_start(kind, plain, bold);
            v.run(p) == if undecided(unindented(p)) {
                (RendererView { line: LineView::Opening(p), ..v }, seq![])
            } else {
                v.opened(p)
            }
        }),
    decreases p.len(),
{
    reveal(RendererView::opened);
    let v = RendererView::at_line_start(kind, plain, bold);
    if p.len() == 0 {
        lemma_leading(p, Class::Blank);
        assert(p == Seq::<char>::empty());
    } else {
        let q = p.drop_last();
        let c = p.last();
        assert(p == q.push(c));
        assert(p[p.len() - 1] == c);
        assert(!q.contains('\n')) by {
            if q.contains('\n') {
                let i = choose|i: int| 0 <= i < q.len() && q[i] == '\n';
                assert(p[i] == '\n');
            }
        }
        lemma_run_in_line(kind, plain, bold, q);
        let s = unindented(q);
        if undecided(s) {
            let (w, out) = v.opened(p);
            assert(Seq::<char>::empty() + out == out);
            assert(Seq::<char>::empty() + Seq::<char>::empty() == Seq::<char>::empty());
        } else {
            lemma_unindented_push(q, c);
            lemma_decided_stays(s, c);
            let m = marker_len(marker(s)) as int;
            let b0 = BodyView { bold, star: false };
            let body = s.skip(m);
            assert(s.push(c).skip(m) == body.push(c));
            assert(body.push(c).drop_last() == body);
            let (b1, out1) = body_run(kind, plain, b0, body);
            let (b2, out2) = body_step(kind, plain, b1, c);
            let front = line_head(kind, plain, indent_of(q)) + marker_text(kind, plain, s);
            assert(front + (out1 + out2) == front + out1 + out2);
        }
    }
}

/// What is opened and flushed at once is shown whole.
proof fn lemma_opened_and_flushed(v: RendererView, line: Seq<char>)
    requires
        unindented(line).len() > 0,
    ensures
        ({
            let (w, out) = v.opened(line);
            let (bold, shown) = shown_text(v.kind, v.plain, v.bold, line);
            &&& w.line is Body
            &&& w == (RendererView { bold, line: w.line, ..v })
            &&& out + held_star(w.line->Body_0) == shown
        }),
{
    reveal(RendererView::opened);
    let s = unindented(line);
    let body = s.skip(marker_len(marker(s)) as int);
    lemma_body_is_bold_text(v.kind, v.plain, v.bold, body);
    let (b, text) = body_run(v.kind, v.plain, BodyView { bold: v.bold, star: false }, body);
    let front = line_head(v.kind, v.plain, indent_of(line)) + marker_text(v.kind, v.plain, s);
    let star = held_star(b.star);
    assert(front + text + star == front + (text + star));
}

/// What is shown of a line once nothing of it is held back.
proof fn lemma_flushed_line(kind: StreamKind, plain: bool, bold: bool, line: Seq<char>)
    requires
        !line.contains('\n'),
    ensures
        ({
            let (w, out) = RendererView::at_line_start(kind, plain, bold).run(line);
            let (x, held) = w.flushed();
            let (b, text) = shown_text(kind, plain, bold, line);
            &&& out + held == text
            &&& x.kind == kind && x.plain == plain && x.bold == b
            &&& x.line is Body <==> unindented(line).len() > 0
        }),
{
    let v = RendererView::at_line_start(kind, plain, bold);
    lemma_run_in_line(kind, plain, bold, line);
    let s = unindented(line);
    let (w, out) = v.run(line);
    let (x, held) = w.flushed();
    if s.len() == 0 {
        assert(undecided(s));
        assert(out + held == Seq::<char>::empty());
    } else if undecided(s) {
        lemma_opened_and_flushed(w, line);
        assert(Seq::<char>::empty() + held == held);
    } else {
        lemma_opened_and_flushed(v, line);
    }
}

/// A line that arrives character by character is shown as if it were read at
/// once, and bold text goes on into the next line.
pub proof fn law_line_is_shown_whole(kind: StreamKind, plain: bool, bold: bool, line: Seq<char>)
    requires
        !line.contains('\n'),
    ensures
        RendererView::at_line_start(kind, plain, bold).run(line.push('\n')) == (
            RendererView::at_line_start(kind, plain, shown_line(kind, plain, bold, line).0),
            shown_line(kind, plain, bold, line).1,
        ),
{
    let v = RendererView::at_line_start(kind, plain, bold);
    lemma_flushed_line(kind, plain, bold, line);
    assert(line.push('\n').drop_last() == line);
    let (w, out) = v.run(line);
    let (x, held) = w.flushed();
    let (_, end) = w.newline();
    assert(v.run(line.push('\n')).1 == out + end);
    if unindented(line).len() > 0 {
        assert(out + (held + "\n"@) == out + held + "\n"@);
    } else {
        assert(out + held + Seq::<char>::empty() == out + held);
    }
}

/// At the end of the stream a line that is not ended is shown like every
/// other, bold text is ended, and the frame is closed.
#[verifier::spinoff_prover]
#[verifier::rlimit(40)]
pub proof fn law_last_line_is_shown_whole(
    kind: StreamKind,
    plain: bool,
    bold: bool,
    line: Seq<char>,
)
    requires
        !line.contains('\n'),
    ensures
        ({
            let (w, out) = RendererView::at_line_start(kind, plain, bold).run(line);
            let (x, end) = w.finished();
            let (b, text) = shown_text(kind, plain, bold, line);
            &&& !x.bold
            &&& out + end == text + (if b {
                text_color(kind, plain)
            } else {
                seq![]
            }) + line_end(line) + footer(kind, plain)
        }),
{
    lemma_flushed_line(kind, plain, bold, line);
    let (w, out) = RendererView::at_line_start(kind, plain, bold).run(line);
    let (x, held) = w.flushed();
    let ending = if x.bold {
        text_color(kind, plain)
    } else {
        seq![]
    };
    assert(w.finished().1 == held + ending + line_end(line) + footer(kind, plain));
    assert(out + (held + ending + line_end(line) + footer(kind, plain)) == out + held + ending
        + line_end(line) + footer(kind, plain));
}

/// A text of whole lines is shown line by line.
pub proof fn law_text_is_shown_line_by_line(
    kind: StreamKind,
    plain: bool,
    bold: bool,
    lines: Seq<Seq<char>>,
)
    requires
        forall|i: int| 0 <= i < lines.len() ==> !(#[trigger] lines[i]).contains('\n'),
    ensures
        RendererView::at_line_start(kind, plain, bold).run(text_of_lines(lines)) == (
            RendererView::at_line_start(kind, plain, shown_lines(kind, plain, bold, lines).0),
            shown_lines(kind, plain, bold, lines).1,
        ),
    decreases lines.len(),
{
    if lines.len() > 0 {
        let init = lines.drop_last();
        assert forall|i: int| 0 <= i < init.len() implies !(#[trigger] init[i]).contains('\n') by {
            assert(init[i] == lines[i]);
        }
        law_text_is_shown_line_by_line(kind, plain, bold, init);
        let (b, _) = shown_lines(kind, plain, bold, init);
        assert(lines.last() == lines[lines.len() - 1]);
        law_line_is_shown_whole(kind, plain, b, lines.last());
        law_pieces_do_not_matter(
            RendererView::at_line_start(kind, plain, bold),
            text_of_lines(init),
            lines.last().push('\n'),
        );
    }
}

// ---------------------------------------------------------------------------
// Without colors
// ---------------------------------------------------------------------------

/// `s` holds no escape character, with which every color code begins.
pub open spec fn no_escape(s: Seq<char>) -> bool {
    forall|i: int| 0 <= i < s.len() ==> s[i] != '\x1b'
}

/// Colors are off, and nothing that is held back brings an escape character.
pub open spec fn is_plain(v: RendererView) -> bool {
    v.plain && match v.line {
        LineView::Opening(seen) => no_escape(seen),
        LineView::Body(_) => true,
    }
}

proof fn lemma_plain_body(kind: StreamKind, b: BodyView, s: Seq<char>)
    requires
        no_escape(s),
    ensures
        no_escape(body_run(kind, true, b, s).1),
    decreases s.len(),
{
    if s.len() > 0 {
        lemma_plain_body(kind, b, s.drop_last());
    }
}

proof fn lemma_plain_opened(v: RendererView, seen: Seq<char>)
    requires
        v.plain,
        no_escape(seen),
    ensures
        is_plain(v.opened(seen).0),
        no_escape(v.opened(seen).1),
{
    reveal(RendererView::opened);
    reveal_strlit("│");
    reveal_strlit(" ");
    reveal_strlit("");
    reveal_strlit("• ");
    let s = unindented(seen);
    lemma_leading(seen, Class::Blank);
    lemma_leading(s, Class::Hash);
    lemma_leading(s, Class::Digit);
    assert(marker_len(marker(s)) <= s.len());
    lemma_plain_body(
        v.kind,
        BodyView { bold: v.bold, star: false },
        s.skip(marker_len(marker(s)) as int),
    );
    assert(no_escape(line_head(v.kind, v.plain, indent_of(seen))));
    assert(no_escape(marker_text(v.kind, v.plain, s)));
}

proof fn lemma_plain_flushed(v: RendererView)
    requires
        is_plain(v),
    ensures
        is_plain(v.flushed().0),
        no_escape(v.flushed().1),
{
    if let LineView::Opening(seen) = v.line {
        lemma_plain_opened(v, seen);
    }
}

proof fn lemma_plain_step(v: RendererView, c: char)
    requires
        is_plain(v),
        c != '\x1b',
    ensures
        is_plain(v.step(c).0),
        no_escape(v.step(c).1),
{
    reveal_strlit("\n");
    if c == '\n' {
        lemma_plain_flushed(v);
    } else if let LineView::Opening(seen) = v.line {
        lemma_plain_opened(v, seen.push(c));
    }
}

/// Without colors, a text without escape characters is shown without escape
/// characters, and so are both edges of the frame.
pub proof fn law_plain_shows_no_escape(v: RendererView, text: Seq<char>, model: Seq<char>)
    requires
        is_plain(v),
        no_escape(text),
        no_escape(model),
    ensures
        no_escape(header(v.kind, true, model)),
        is_plain(v.run(text).0),
        no_escape(v.run(text).1),
        no_escape(v.run(text).0.finished().1),
    decreases text.len(),
{
    reveal_strlit("\n");
    reveal_strlit("");
    reveal_strlit("╭─ Glow(");
    reveal_strlit(") ");
    reveal_strlit("╮");
    reveal_strlit("╭─ Thinking Summary ─────────────────────────╮");
    reveal_strlit("╰────────────────────────────────────────────╯");
    if text.len() > 0 {
        law_plain_shows_no_escape(v, text.drop_last(), model);
        lemma_plain_step(v.run(text.drop_last()).0, text.last());
    }
    lemma_plain_flushed(v.run(text).0);
}

} // verus!
