//! How every line looks on the screen, character by character: the frame, the
//! indentation, the marker and the text, with and without colors.

use crate::render::{
    bold_switch, footer, header, in_class, leading, lemma_indent, lemma_leading, lemma_leading_is,
    line_head, marker, marker_len, marker_text, strokes, unindented, Class, LineView, Marker,
    RendererView, StreamKind,
};
use crate::render_laws::{
    bold_text, law_last_line_is_shown_whole, law_line_is_shown_whole, law_pieces_do_not_matter,
    law_text_is_shown_live, shown_text,
};
use crate::text::{is_digit, is_white};
use vstd::prelude::*;

verus! {

/// The codes with which a stream is shown. All but the edge are empty where
/// colors are off.
pub struct Palette {
    /// The left edge of the frame.
    pub edge: Seq<char>,
    /// What ordinary text begins with, and what ends bold text.
    pub base: Seq<char>,
    /// What bold text begins with.
    pub bold: Seq<char>,
    /// What a heading begins with.
    pub title: Seq<char>,
    /// What a bullet or a number begins with.
    pub mark: Seq<char>,
    /// What ends a bullet or a number.
    pub unmark: Seq<char>,
}

/// The codes of a stream: the answer is framed in pink and its headings are
/// bold and yellow; thoughts are dim, and framed in turquoise.
pub open spec fn palette(kind: StreamKind, plain: bool) -> Palette {
    let none = Seq::<char>::empty();
    if plain {
        Palette { edge: "│"@, base: none, bold: none, title: none, mark: none, unmark: none }
    } else {
        match kind {
            StreamKind::Answer => Palette {
                edge: "\x1b[38;5;213m"@ + "│"@ + "\x1b[0m"@,
                base: "\x1b[0m"@,
                bold: "\x1b[1m"@,
                title: "\x1b[1m\x1b[38;5;220m"@,
                mark: "\x1b[38;5;80m"@,
                unmark: "\x1b[0m"@,
            },
            StreamKind::Thought => Palette {
                edge: "\x1b[2m\x1b[38;5;80m"@ + "│"@ + "\x1b[0m"@,
                base: "\x1b[2m\x1b[38;5;250m"@,
                bold: "\x1b[1m"@,
                title: "\x1b[1m\x1b[2m\x1b[38;5;80m"@,
                mark: "\x1b[38;5;80m"@,
                unmark: "\x1b[0m"@,
            },
        }
    }
}

/// Text with a code in place of each pair of stars: `on` and `off` in turn,
/// beginning with `off` where the text is bold before. All other characters
/// stay, single stars among them.
pub open spec fn bolded(on: Seq<char>, off: Seq<char>, bold: bool, s: Seq<char>) -> (
    bool,
    Seq<char>,
)
    decreases s.len(),
{
    if s.len() == 0 {
        (bold, seq![])
    } else if s.len() >= 2 && s[0] == '*' && s[1] == '*' {
        let (b, out) = bolded(on, off, !bold, s.skip(2));
        (
            b,
            (if bold {
                off
            } else {
                on
            }) + out,
        )
    } else {
        let (b, out) = bolded(on, off, bold, s.skip(1));
        (b, seq![s[0]] + out)
    }
}

/// A line on the screen, without its end: the edge and a space, the
/// indentation as it is, the marker, and the text. With it, whether text is
/// bold behind it.
pub open spec fn framed_line(
    p: Palette,
    bold: bool,
    indent: Seq<char>,
    mark: Seq<char>,
    text: Seq<char>,
) -> (bool, Seq<char>) {
    let (b, out) = bolded(p.bold, p.base, bold, text);
    (b, p.edge + " "@ + p.base + indent + mark + out)
}

/// Spaces and tabulators only.
pub open spec fn all_blank(s: Seq<char>) -> bool {
    forall|i: int| 0 <= i < s.len() ==> (#[trigger] s[i] == ' ' || s[i] == '\t')
}

/// A star or a hyphen, and white space.
pub open spec fn is_bullet(s: Seq<char>) -> bool {
    s.len() >= 2 && (s[0] == '*' || s[0] == '-') && is_white(s[1])
}

/// One to six number signs, and white space.
pub open spec fn is_heading(s: Seq<char>, n: int) -> bool {
    &&& 1 <= n <= 6 && n < s.len()
    &&& forall|i: int| 0 <= i < n ==> #[trigger] s[i] == '#'
    &&& is_white(s[n])
}

/// One or more digits, a period, and white space.
pub open spec fn is_item(s: Seq<char>, n: int) -> bool {
    &&& 1 <= n && n + 1 < s.len()
    &&& forall|i: int| 0 <= i < n ==> is_digit(#[trigger] s[i])
    &&& s[n] == '.'
    &&& is_white(s[n + 1])
}

proof fn lemma_bolded(kind: StreamKind, plain: bool, bold: bool, s: Seq<char>)
    ensures
        bold_text(kind, plain, bold, s) == bolded(
            palette(kind, plain).bold,
            palette(kind, plain).base,
            bold,
            s,
        ),
    decreases s.len(),
{
    reveal_strlit("");
    let p = palette(kind, plain);
    assert(bold_switch(kind, plain, !bold) == if bold {
        p.base
    } else {
        p.bold
    });
    if s.len() > 0 {
        if s.len() >= 2 && s[0] == '*' && s[1] == '*' {
            lemma_bolded(kind, plain, !bold, s.skip(2));
        } else {
            lemma_bolded(kind, plain, bold, s.skip(1));
        }
    }
}

proof fn lemma_line_head(kind: StreamKind, plain: bool, indent: Seq<char>)
    ensures
        line_head(kind, plain, indent) == palette(kind, plain).edge + " "@ + palette(
            kind,
            plain,
        ).base + indent,
{
    reveal_strlit("");
    assert(""@ == Seq::<char>::empty());
}

/// The marker of a line, from what the line begins with.
proof fn lemma_marker(s: Seq<char>, n: int)
    ensures
        is_bullet(s) ==> marker(s) == Marker::Bullet,
        is_heading(s, n) ==> marker(s) == Marker::Heading(n as nat),
        is_item(s, n) ==> marker(s) == Marker::Numbered(n as nat),
        !is_bullet(s) && (forall|k: int| !is_heading(s, k)) && (forall|k: int| !is_item(s, k))
            ==> marker(s) == Marker::Unmarked,
{
    lemma_leading(s, Class::Hash);
    lemma_leading(s, Class::Digit);
    let h = leading(s, Class::Hash) as int;
    let d = leading(s, Class::Digit) as int;
    if is_heading(s, n) {
        lemma_leading_is(s, Class::Hash, n);
        assert(s[0] == '#');
    }
    if is_item(s, n) {
        lemma_leading_is(s, Class::Digit, n);
        assert(is_digit(s[0]));
    }
    if marker(s) is Heading {
        assert(is_heading(s, h));
    }
    if marker(s) is Numbered {
        assert(is_item(s, d));
    }
}

proof fn lemma_shown_text(kind: StreamKind, plain: bool, bold: bool, indent: Seq<char>, s: Seq<char>)
    requires
        all_blank(indent),
        s.len() > 0,
        s[0] != ' ' && s[0] != '\t',
    ensures
        shown_text(kind, plain, bold, indent + s) == framed_line(
            palette(kind, plain),
            bold,
            indent,
            marker_text(kind, plain, s),
            s.skip(marker_len(marker(s)) as int),
        ),
        unindented(indent + s) == s,
{
    assert forall|i: int| 0 <= i < indent.len() implies in_class(
        #[trigger] indent[i],
        Class::Blank,
    ) by {}
    lemma_indent(indent, s);
    lemma_line_head(kind, plain, indent);
    lemma_bolded(kind, plain, bold, s.skip(marker_len(marker(s)) as int));
}

/// The marker on the screen, and the text behind it.
proof fn lemma_marks(kind: StreamKind, plain: bool, s: Seq<char>, n: int)
    ensures
        is_bullet(s) ==> marker_text(kind, plain, s) == palette(kind, plain).mark + "• "@
            + palette(kind, plain).unmark,
        is_heading(s, n) ==> marker_text(kind, plain, s) == palette(kind, plain).title,
        is_item(s, n) ==> marker_text(kind, plain, s) == palette(kind, plain).mark + (s.take(n + 1)
            + " "@) + palette(kind, plain).unmark,
{
    reveal_strlit("");
    lemma_marker(s, n);
    let none = Seq::<char>::empty();
    assert(""@ == none);
    assert(none + "• "@ + none == "• "@);
    assert(none + (s.take(n + 1) + " "@) + none == s.take(n + 1) + " "@);
}

/// How a line looks, whatever its indentation, with and without colors, and
/// whether text is bold before it: the indentation stands unchanged behind the
/// edge; a bullet stands for a star or a hyphen; of a heading only the text is
/// left; a number and its period stay; and everything else is text. In the
/// text pairs of stars turn bold on and off, and bold text goes on into the
/// next line.
pub proof fn law_how_a_line_looks(
    kind: StreamKind,
    plain: bool,
    bold: bool,
    indent: Seq<char>,
    s: Seq<char>,
    n: int,
)
    requires
        all_blank(indent),
        s.len() > 0,
        s[0] != ' ' && s[0] != '\t',
        !s.contains('\n'),
    ensures
        ({
            let p = palette(kind, plain);
            let v = RendererView::at_line_start(kind, plain, bold);
            let (w, out) = v.run((indent + s).push('\n'));
            let bullet = framed_line(p, bold, indent, p.mark + "• "@ + p.unmark, s.skip(2));
            let heading = framed_line(p, bold, indent, p.title, s.skip(n + 1));
            let item = framed_line(
                p,
                bold,
                indent,
                p.mark + (s.take(n + 1) + " "@) + p.unmark,
                s.skip(n + 2),
            );
            let text = framed_line(p, bold, indent, Seq::<char>::empty(), s);
            &&& is_bullet(s) ==> w == RendererView::at_line_start(kind, plain, bullet.0) && out
                == bullet.1 + "\n"@
            &&& is_heading(s, n) ==> w == RendererView::at_line_start(kind, plain, heading.0)
                && out == heading.1 + "\n"@
            &&& is_item(s, n) ==> w == RendererView::at_line_start(kind, plain, item.0) && out
                == item.1 + "\n"@
            &&& !is_bullet(s) && (forall|k: int| !is_heading(s, k)) && (forall|k: int|
                !is_item(s, k)) ==> w == RendererView::at_line_start(kind, plain, text.0) && out
                == text.1 + "\n"@
        }),
{
    let line = indent + s;
    assert(!line.contains('\n')) by {
        assert forall|i: int| 0 <= i < line.len() implies line[i] != '\n' by {
            if i < indent.len() {
                assert(line[i] == indent[i]);
            } else {
                assert(line[i] == s[i - indent.len()]);
            }
        }
    }
    law_line_is_shown_whole(kind, plain, bold, line);
    lemma_shown_text(kind, plain, bold, indent, s);
    lemma_marker(s, n);
    lemma_marks(kind, plain, s, n);
    assert(s.skip(0) == s);
}

/// How the last line of a stream looks, where no line feed ends it: as any
/// other, then bold text is ended, and the frame is closed.
pub proof fn law_how_the_last_line_looks(
    kind: StreamKind,
    plain: bool,
    bold: bool,
    indent: Seq<char>,
    s: Seq<char>,
    n: int,
)
    requires
        all_blank(indent),
        s.len() > 0,
        s[0] != ' ' && s[0] != '\t',
        !s.contains('\n'),
    ensures
        ({
            let p = palette(kind, plain);
            let v = RendererView::at_line_start(kind, plain, bold);
            let (w, out) = v.run(indent + s);
            let whole = v.run((indent + s).push('\n'));
            let shown = whole.1.drop_last();
            out + w.finished().1 == shown + (if whole.0.bold {
                p.base
            } else {
                Seq::<char>::empty()
            }) + "\n"@ + footer(kind, plain)
        }),
{
    reveal_strlit("");
    reveal_strlit("\n");
    let line = indent + s;
    assert(!line.contains('\n')) by {
        assert forall|i: int| 0 <= i < line.len() implies line[i] != '\n' by {
            if i < indent.len() {
                assert(line[i] == indent[i]);
            } else {
                assert(line[i] == s[i - indent.len()]);
            }
        }
    }
    law_line_is_shown_whole(kind, plain, bold, line);
    law_last_line_is_shown_whole(kind, plain, bold, line);
    lemma_shown_text(kind, plain, bold, indent, s);
    let text = shown_text(kind, plain, bold, line).1;
    assert((text + "\n"@).drop_last() == text);
}

/// A line of blanks shows nothing and changes nothing, and at the end of a
/// stream it is as if it were not there.
pub proof fn law_blank_lines_are_left_out(kind: StreamKind, plain: bool, bold: bool, line: Seq<char>)
    requires
        all_blank(line),
    ensures
        ({
            let p = palette(kind, plain);
            let v = RendererView::at_line_start(kind, plain, bold);
            let (w, out) = v.run(line);
            &&& v.run(line.push('\n')) == (v, Seq::<char>::empty())
            &&& out == Seq::<char>::empty()
            &&& w.finished().1 == (if bold {
                p.base
            } else {
                Seq::<char>::empty()
            }) + footer(kind, plain)
        }),
{
    reveal_strlit("");
    let none = Seq::<char>::empty();
    assert(line + none == line);
    assert forall|i: int| 0 <= i < line.len() implies in_class(
        #[trigger] line[i],
        Class::Blank,
    ) by {}
    lemma_indent(line, none);
    assert(!line.contains('\n')) by {
        assert forall|i: int| 0 <= i < line.len() implies line[i] != '\n' by {}
    }
    law_line_is_shown_whole(kind, plain, bold, line);
    law_last_line_is_shown_whole(kind, plain, bold, line);
    let v = RendererView::at_line_start(kind, plain, bold);
    let (w, out) = v.run(line);
    law_pieces_do_not_matter(v, line, seq!['\n']);
    assert(line + seq!['\n'] == line.push('\n'));
    assert(out.len() == 0);
    assert(out == none);
    assert(none + w.finished().1 == w.finished().1);
}

/// The lower edge, and the upper edge of thoughts, in the color of the frame.
pub proof fn law_edges(kind: StreamKind, plain: bool, model: Seq<char>)
    ensures
        footer(kind, true) == "╰────────────────────────────────────────────╯"@ + "\n"@,
        footer(StreamKind::Answer, false) == "\x1b[38;5;213m"@
            + "╰────────────────────────────────────────────╯"@ + "\x1b[0m"@ + "\n"@,
        footer(StreamKind::Thought, false) == "\x1b[2m\x1b[38;5;80m"@
            + "╰────────────────────────────────────────────╯"@ + "\x1b[0m"@ + "\n"@,
        header(StreamKind::Thought, true, model)
            == "╭─ Thinking Summary ─────────────────────────╮"@ + "\n"@,
        header(StreamKind::Thought, false, model) == "\x1b[2m\x1b[38;5;80m"@
            + "╭─ Thinking Summary ─────────────────────────╮"@ + "\x1b[0m"@ + "\n"@,
        header(StreamKind::Answer, false, model) == "\x1b[38;5;213m"@ + header(
            StreamKind::Answer,
            true,
            model,
        ).drop_last() + "\x1b[0m"@ + "\n"@,
{
    reveal_strlit("\n");
    let h = header(StreamKind::Answer, true, model);
    let label = "╭─ Glow("@ + model + ") "@;
    let edge = label + strokes(45 - label.len()) + "╮"@;
    assert(h == edge + "\n"@);
    assert(h.drop_last() == edge);
}

/// The upper edge of an answer names the model, ends with a corner, and
/// reaches as far as the lower edge; between them are strokes only. Where the
/// name is too long, the corner follows it at once.
pub proof fn law_the_edge_names_the_model(model: Seq<char>)
    ensures
        ({
            let h = header(StreamKind::Answer, true, model);
            let named = "╭─ Glow("@ + model + ") "@;
            &&& named.is_prefix_of(h)
            &&& h.len() == if model.len() <= 35 {
                footer(StreamKind::Answer, true).len()
            } else {
                named.len() + 2
            }
            &&& forall|i: int| named.len() <= i < h.len() - 2 ==> #[trigger] h[i] == '─'
            &&& h[h.len() - 2] == '╮' && h.last() == '\n'
        }),
{
    reveal_strlit("╭─ Glow(");
    reveal_strlit(") ");
    reveal_strlit("╮");
    reveal_strlit("\n");
    reveal_strlit("╰────────────────────────────────────────────╯");
    let label = "╭─ Glow("@ + model + ") "@;
    let h = header(StreamKind::Answer, true, model);
    assert(h == label + strokes(45 - label.len()) + "╮"@ + "\n"@);
    assert(label.len() == model.len() + 10);
}

/// What may still become a marker: nothing, a star, a hyphen, up to six number
/// signs, digits, or digits and a period.
pub open spec fn may_be_marker(s: Seq<char>) -> bool {
    ||| s.len() == 0
    ||| s == seq!['*']
    ||| s == seq!['-']
    ||| s.len() <= 6 && forall|i: int| 0 <= i < s.len() ==> #[trigger] s[i] == '#'
    ||| forall|i: int| 0 <= i < s.len() ==> is_digit(#[trigger] s[i])
    ||| s.len() >= 2 && s.last() == '.' && forall|i: int|
        0 <= i < s.len() - 1 ==> is_digit(#[trigger] s[i])
}

/// Text is not kept waiting: where nothing of a line is shown yet, what has
/// arrived of it is blanks and what may still become a marker. Once something
/// of a line is shown, every character but a star is shown at once.
pub proof fn law_what_is_held_back(
    kind: StreamKind,
    plain: bool,
    bold: bool,
    text: Seq<char>,
    indent: Seq<char>,
    s: Seq<char>,
    c: char,
)
    requires
        all_blank(indent),
        s.len() > 0 ==> s[0] != ' ' && s[0] != '\t',
    ensures
        ({
            let v = RendererView::at_line_start(kind, plain, bold).run(text).0;
            &&& v.line == LineView::Opening(indent + s) ==> may_be_marker(s)
            &&& v.line == LineView::Body(false) && c != '*' && c != '\n' ==> v.step(c) == (
                v,
                seq![c],
            )
            &&& v.line == LineView::Body(true) && c != '*' && c != '\n' ==> v.step(c) == (
                RendererView { line: LineView::Body(false), ..v },
                seq!['*', c],
            )
        }),
{
    let start = RendererView::at_line_start(kind, plain, bold);
    let none = Seq::<char>::empty();
    lemma_leading(none, Class::Blank);
    assert(unindented(none).len() == 0);
    law_text_is_shown_live(start, text);
    let v = start.run(text).0;
    assert(none + seq![c] == seq![c]);
    assert(seq!['*'] + seq![c] == seq!['*', c]);
    if v.line == LineView::Opening(indent + s) {
        assert forall|i: int| 0 <= i < indent.len() implies in_class(
            #[trigger] indent[i],
            Class::Blank,
        ) by {}
        lemma_indent(indent, s);
        lemma_leading(s, Class::Hash);
        lemma_leading(s, Class::Digit);
        if s.len() == 1 {
            assert(s == seq![s[0]]);
        }
    }
}

} // verus!
