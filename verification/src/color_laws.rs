//! Colors change nothing but colors: without the color codes, what is shown
//! with colors is what is shown without them.

use crate::config::painted;
use crate::render::{
    body_run, body_step, footer, frame_color, header, held_star, indent_of, leading,
    lemma_leading, line_head, marker, marker_len, marker_text, strokes, text_color, title_color,
    unindented, BodyView, Class, LineView, RendererView, StreamKind,
};
use crate::render_laws::no_escape;
use vstd::prelude::*;

verus! {

/// A text without its color codes, each of which goes from an escape character
/// to the letter `m`; and whether the text ends inside of one. `inside` says
/// whether it begins inside of one.
pub open spec fn stripped(s: Seq<char>, inside: bool) -> (Seq<char>, bool)
    decreases s.len(),
{
    if s.len() == 0 {
        (seq![], inside)
    } else {
        let (out, now) = stripped(s.drop_last(), inside);
        if now {
            (out, s.last() != 'm')
        } else if s.last() == '\x1b' {
            (out, true)
        } else {
            (out.push(s.last()), false)
        }
    }
}

/// `with` is `without` with color codes put in, each of them complete.
pub open spec fn differs_by_colors(with: Seq<char>, without: Seq<char>) -> bool {
    stripped(with, false) == (without, false)
}

pub proof fn lemma_stripped_split(a: Seq<char>, b: Seq<char>, inside: bool)
    ensures
        ({
            let (x, now) = stripped(a, inside);
            let (y, then) = stripped(b, now);
            stripped(a + b, inside) == (x + y, then)
        }),
    decreases b.len(),
{
    let (x, now) = stripped(a, inside);
    if b.len() == 0 {
        assert(a + b == a);
        assert(x + Seq::<char>::empty() == x);
    } else {
        lemma_stripped_split(a, b.drop_last(), inside);
        assert((a + b).drop_last() == a + b.drop_last());
        assert((a + b).last() == b.last());
        let (y, mid) = stripped(b.drop_last(), now);
        assert(x + y.push(b.last()) == (x + y).push(b.last()));
    }
}

/// What differs by colors part by part differs by colors as a whole.
pub proof fn lemma_parts_by_colors(a: Seq<char>, a2: Seq<char>, b: Seq<char>, b2: Seq<char>)
    requires
        differs_by_colors(a, a2),
        differs_by_colors(b, b2),
    ensures
        differs_by_colors(a + b, a2 + b2),
{
    lemma_stripped_split(a, b, false);
}

/// Text without escape characters holds no color codes.
pub proof fn lemma_text_has_no_colors(t: Seq<char>)
    requires
        no_escape(t),
    ensures
        differs_by_colors(t, t),
    decreases t.len(),
{
    if t.len() > 0 {
        lemma_text_has_no_colors(t.drop_last());
        assert(t.drop_last().push(t.last()) == t);
    } else {
        assert(t == Seq::<char>::empty());
    }
}

proof fn lemma_inside(s: Seq<char>)
    requires
        !s.contains('m'),
    ensures
        stripped(s, true) == (Seq::<char>::empty(), true),
    decreases s.len(),
{
    if s.len() > 0 {
        let init = s.drop_last();
        assert(s[s.len() - 1] != 'm');
        assert forall|i: int| 0 <= i < init.len() implies init[i] != 'm' by {
            assert(init[i] == s[i]);
        }
        lemma_inside(init);
    }
}

/// One color code.
pub proof fn lemma_code(s: Seq<char>)
    requires
        s.len() >= 2,
        s[0] == '\x1b',
        s.last() == 'm',
        forall|i: int| 0 < i < s.len() - 1 ==> #[trigger] s[i] != 'm',
    ensures
        differs_by_colors(s, Seq::<char>::empty()),
{
    let e = seq!['\x1b'];
    let body = s.subrange(1, s.len() - 1);
    let end = seq!['m'];
    assert(s == e + (body + end));
    assert(e.drop_last() == Seq::<char>::empty());
    assert(end.drop_last() == Seq::<char>::empty());
    reveal_with_fuel(stripped, 2);
    assert(stripped(e, false) == (Seq::<char>::empty(), true));
    assert(stripped(end, true) == (Seq::<char>::empty(), false));
    assert(!body.contains('m')) by {
        assert forall|i: int| 0 <= i < body.len() implies body[i] != 'm' by {
            assert(body[i] == s[i + 1]);
        }
    }
    lemma_inside(body);
    lemma_stripped_split(body, end, true);
    lemma_stripped_split(e, body + end, false);
}

/// Two color codes.
proof fn lemma_codes(a: Seq<char>, b: Seq<char>)
    requires
        differs_by_colors(a, Seq::<char>::empty()),
        differs_by_colors(b, Seq::<char>::empty()),
    ensures
        differs_by_colors(a + b, Seq::<char>::empty()),
{
    let none = Seq::<char>::empty();
    lemma_parts_by_colors(a, none, b, none);
    assert(none + none == none);
}

/// Painting a text changes its color only.
pub proof fn lemma_painted(text: Seq<char>, color: Seq<char>)
    requires
        no_escape(text),
        differs_by_colors(color, Seq::<char>::empty()),
    ensures
        differs_by_colors(painted(false, text, color), painted(true, text, color)),
{
    let none = Seq::<char>::empty();
    reveal_strlit("\x1b[0m");
    lemma_code("\x1b[0m"@);
    lemma_text_has_no_colors(text);
    lemma_parts_by_colors(color, none, text, text);
    lemma_parts_by_colors(color + text, none + text, "\x1b[0m"@, none);
    assert(none + text + none == text);
}

/// The codes that the renderer uses.
proof fn lemma_renderer_codes(kind: StreamKind)
    ensures
        differs_by_colors(frame_color(kind), Seq::<char>::empty()),
        differs_by_colors(text_color(kind, false), Seq::<char>::empty()),
        differs_by_colors(title_color(kind, false), Seq::<char>::empty()),
        differs_by_colors("\x1b[1m"@, Seq::<char>::empty()),
        differs_by_colors("\x1b[38;5;80m"@, Seq::<char>::empty()),
        text_color(kind, true) == Seq::<char>::empty(),
        title_color(kind, true) == Seq::<char>::empty(),
{
    reveal_strlit("");
    reveal_strlit("\x1b[0m");
    reveal_strlit("\x1b[1m");
    reveal_strlit("\x1b[2m");
    reveal_strlit("\x1b[38;5;80m");
    reveal_strlit("\x1b[38;5;213m");
    reveal_strlit("\x1b[38;5;220m");
    reveal_strlit("\x1b[38;5;250m");
    reveal_strlit("\x1b[2m\x1b[38;5;80m");
    reveal_strlit("\x1b[2m\x1b[38;5;250m");
    reveal_strlit("\x1b[1m\x1b[38;5;220m");
    reveal_strlit("\x1b[1m\x1b[2m\x1b[38;5;80m");
    lemma_code("\x1b[0m"@);
    lemma_code("\x1b[1m"@);
    lemma_code("\x1b[2m"@);
    lemma_code("\x1b[38;5;80m"@);
    lemma_code("\x1b[38;5;213m"@);
    lemma_code("\x1b[38;5;220m"@);
    lemma_code("\x1b[38;5;250m"@);
    assert("\x1b[2m\x1b[38;5;80m"@ == "\x1b[2m"@ + "\x1b[38;5;80m"@);
    assert("\x1b[2m\x1b[38;5;250m"@ == "\x1b[2m"@ + "\x1b[38;5;250m"@);
    assert("\x1b[1m\x1b[38;5;220m"@ == "\x1b[1m"@ + "\x1b[38;5;220m"@);
    assert("\x1b[1m\x1b[2m\x1b[38;5;80m"@ == "\x1b[1m"@ + "\x1b[2m\x1b[38;5;80m"@);
    lemma_codes("\x1b[2m"@, "\x1b[38;5;80m"@);
    lemma_codes("\x1b[2m"@, "\x1b[38;5;250m"@);
    lemma_codes("\x1b[1m"@, "\x1b[38;5;220m"@);
    lemma_codes("\x1b[1m"@, "\x1b[2m\x1b[38;5;80m"@);
}

proof fn lemma_body_step_by_colors(kind: StreamKind, b: BodyView, c: char)
    requires
        c != '\x1b',
    ensures
        body_step(kind, false, b, c).0 == body_step(kind, true, b, c).0,
        differs_by_colors(body_step(kind, false, b, c).1, body_step(kind, true, b, c).1),
{
    lemma_renderer_codes(kind);
    let none = Seq::<char>::empty();
    lemma_text_has_no_colors(none);
    lemma_text_has_no_colors(held_star(b.star) + seq![c]);
}

proof fn lemma_body_run_by_colors(kind: StreamKind, b: BodyView, s: Seq<char>)
    requires
        no_escape(s),
    ensures
        body_run(kind, false, b, s).0 == body_run(kind, true, b, s).0,
        differs_by_colors(body_run(kind, false, b, s).1, body_run(kind, true, b, s).1),
    decreases s.len(),
{
    lemma_text_has_no_colors(Seq::<char>::empty());
    if s.len() > 0 {
        lemma_body_run_by_colors(kind, b, s.drop_last());
        let b1 = body_run(kind, false, b, s.drop_last()).0;
        lemma_body_step_by_colors(kind, b1, s.last());
        lemma_parts_by_colors(
            body_run(kind, false, b, s.drop_last()).1,
            body_run(kind, true, b, s.drop_last()).1,
            body_step(kind, false, b1, s.last()).1,
            body_step(kind, true, b1, s.last()).1,
        );
    }
}

/// The state of a renderer with colors off.
pub open spec fn uncolored(v: RendererView) -> RendererView {
    RendererView { plain: true, ..v }
}

/// Colors are on, and what is held back holds no escape character.
pub open spec fn is_colored(v: RendererView) -> bool {
    !v.plain && match v.line {
        LineView::Opening(seen) => no_escape(seen),
        LineView::Body(_) => true,
    }
}

proof fn lemma_line_head_by_colors(kind: StreamKind, indent: Seq<char>)
    requires
        no_escape(indent),
    ensures
        differs_by_colors(line_head(kind, false, indent), line_head(kind, true, indent)),
{
    reveal_strlit("│");
    reveal_strlit(" ");
    lemma_renderer_codes(kind);
    let none = Seq::<char>::empty();
    let bar = painted(false, "│"@, frame_color(kind));
    let bar2 = painted(true, "│"@, frame_color(kind));
    lemma_painted("│"@, frame_color(kind));
    lemma_text_has_no_colors(" "@);
    lemma_text_has_no_colors(indent);
    lemma_parts_by_colors(bar, bar2, " "@, " "@);
    lemma_parts_by_colors(bar + " "@, bar2 + " "@, text_color(kind, false), none);
    lemma_parts_by_colors(
        bar + " "@ + text_color(kind, false),
        bar2 + " "@ + none,
        indent,
        indent,
    );
}

proof fn lemma_marker_text_by_colors(kind: StreamKind, s: Seq<char>)
    requires
        no_escape(s),
    ensures
        differs_by_colors(marker_text(kind, false, s), marker_text(kind, true, s)),
{
    reveal_strlit("• ");
    reveal_strlit(" ");
    lemma_renderer_codes(kind);
    lemma_leading(s, Class::Digit);
    lemma_text_has_no_colors(Seq::<char>::empty());
    lemma_painted("• "@, "\x1b[38;5;80m"@);
    let n = leading(s, Class::Digit) as int;
    if n < s.len() {
        lemma_painted(s.take(n + 1) + " "@, "\x1b[38;5;80m"@);
    }
}

proof fn lemma_opened_by_colors(v: RendererView, seen: Seq<char>)
    requires
        !v.plain,
        no_escape(seen),
    ensures
        uncolored(v).opened(seen).0 == uncolored(v.opened(seen).0),
        is_colored(v.opened(seen).0),
        differs_by_colors(v.opened(seen).1, uncolored(v).opened(seen).1),
{
    reveal(RendererView::opened);
    let s = unindented(seen);
    let kind = v.kind;
    lemma_leading(seen, Class::Blank);
    lemma_leading(s, Class::Hash);
    lemma_leading(s, Class::Digit);
    let indent = indent_of(seen);
    let body = s.skip(marker_len(marker(s)) as int);
    let b = BodyView { bold: v.bold, star: false };
    lemma_line_head_by_colors(kind, indent);
    lemma_marker_text_by_colors(kind, s);
    lemma_body_run_by_colors(kind, b, body);
    lemma_parts_by_colors(
        line_head(kind, false, indent),
        line_head(kind, true, indent),
        marker_text(kind, false, s),
        marker_text(kind, true, s),
    );
    lemma_parts_by_colors(
        line_head(kind, false, indent) + marker_text(kind, false, s),
        line_head(kind, true, indent) + marker_text(kind, true, s),
        body_run(kind, false, b, body).1,
        body_run(kind, true, b, body).1,
    );
}

proof fn lemma_flushed_by_colors(v: RendererView)
    requires
        is_colored(v),
    ensures
        uncolored(v).flushed().0 == uncolored(v.flushed().0),
        is_colored(v.flushed().0),
        differs_by_colors(v.flushed().1, uncolored(v).flushed().1),
{
    lemma_text_has_no_colors(Seq::<char>::empty());
    lemma_text_has_no_colors(held_star(true));
    lemma_text_has_no_colors(held_star(false));
    if let LineView::Opening(seen) = v.line {
        lemma_opened_by_colors(v, seen);
        let (w, out) = v.opened(seen);
        let out2 = uncolored(v).opened(seen).1;
        lemma_parts_by_colors(out, out2, held_star(true), held_star(true));
        lemma_parts_by_colors(out, out2, held_star(false), held_star(false));
    }
}

proof fn lemma_step_by_colors(v: RendererView, c: char)
    requires
        is_colored(v),
        c != '\x1b',
    ensures
        uncolored(v).step(c).0 == uncolored(v.step(c).0),
        is_colored(v.step(c).0),
        differs_by_colors(v.step(c).1, uncolored(v).step(c).1),
{
    reveal_strlit("\n");
    lemma_text_has_no_colors(Seq::<char>::empty());
    lemma_text_has_no_colors("\n"@);
    if c == '\n' {
        lemma_flushed_by_colors(v);
        lemma_parts_by_colors(v.flushed().1, uncolored(v).flushed().1, "\n"@, "\n"@);
    } else {
        match v.line {
            LineView::Opening(seen) => {
                lemma_opened_by_colors(v, seen.push(c));
            },
            LineView::Body(star) => {
                lemma_body_step_by_colors(v.kind, BodyView { bold: v.bold, star }, c);
            },
        }
    }
}

/// Without its color codes, text that is shown with colors is shown exactly as
/// without them: the same frame, indentation, markers and characters.
pub proof fn law_colors_change_nothing_else(v: RendererView, text: Seq<char>)
    requires
        is_colored(v),
        no_escape(text),
    ensures
        uncolored(v).run(text).0 == uncolored(v.run(text).0),
        is_colored(v.run(text).0),
        differs_by_colors(v.run(text).1, uncolored(v).run(text).1),
    decreases text.len(),
{
    lemma_text_has_no_colors(Seq::<char>::empty());
    if text.len() > 0 {
        let init = text.drop_last();
        law_colors_change_nothing_else(v, init);
        let w = v.run(init).0;
        lemma_step_by_colors(w, text.last());
        lemma_parts_by_colors(
            v.run(init).1,
            uncolored(v).run(init).1,
            w.step(text.last()).1,
            uncolored(w).step(text.last()).1,
        );
    }
}

/// The same holds of the end of a stream and of both edges of its frame.
pub proof fn law_colors_change_no_frame(v: RendererView, kind: StreamKind, model: Seq<char>)
    requires
        is_colored(v),
        no_escape(model),
    ensures
        differs_by_colors(v.finished().1, uncolored(v).finished().1),
        differs_by_colors(header(kind, false, model), header(kind, true, model)),
        differs_by_colors(footer(kind, false), footer(kind, true)),
{
    reveal_strlit("\n");
    reveal_strlit("╰────────────────────────────────────────────╯");
    reveal_strlit("╭─ Thinking Summary ─────────────────────────╮");
    reveal_strlit("╭─ Glow(");
    reveal_strlit(") ");
    reveal_strlit("╮");
    let none = Seq::<char>::empty();
    lemma_text_has_no_colors(none);
    lemma_text_has_no_colors("\n"@);
    lemma_footer_by_colors(kind);
    lemma_footer_by_colors(v.kind);
    lemma_renderer_codes(kind);
    lemma_renderer_codes(v.kind);
    let edge = match kind {
        StreamKind::Answer => {
            let label = "╭─ Glow("@ + model + ") "@;
            label + strokes(45 - label.len()) + "╮"@
        },
        StreamKind::Thought => "╭─ Thinking Summary ─────────────────────────╮"@,
    };
    lemma_painted(edge, frame_color(kind));
    lemma_parts_by_colors(
        painted(false, edge, frame_color(kind)),
        painted(true, edge, frame_color(kind)),
        "\n"@,
        "\n"@,
    );
    lemma_flushed_by_colors(v);
    lemma_same_kind(v);
    let (w, out) = v.flushed();
    let out2 = uncolored(v).flushed().1;
    let (x, x2) = if w.bold {
        (text_color(w.kind, false), text_color(w.kind, true))
    } else {
        (none, none)
    };
    let y = match w.line {
        LineView::Opening(_) => none,
        LineView::Body(_) => "\n"@,
    };
    lemma_parts_by_colors(out, out2, x, x2);
    lemma_parts_by_colors(out + x, out2 + x2, y, y);
    lemma_parts_by_colors(
        out + x + y,
        out2 + x2 + y,
        footer(v.kind, false),
        footer(v.kind, true),
    );
}

proof fn lemma_same_kind(v: RendererView)
    ensures
        v.flushed().0.kind == v.kind,
        v.flushed().0.plain == v.plain,
{
    reveal(RendererView::opened);
}

proof fn lemma_footer_by_colors(kind: StreamKind)
    ensures
        differs_by_colors(footer(kind, false), footer(kind, true)),
{
    reveal_strlit("\n");
    reveal_strlit("╰────────────────────────────────────────────╯");
    lemma_renderer_codes(kind);
    let edge = "╰────────────────────────────────────────────╯"@;
    lemma_painted(edge, frame_color(kind));
    lemma_text_has_no_colors("\n"@);
    lemma_parts_by_colors(
        painted(false, edge, frame_color(kind)),
        painted(true, edge, frame_color(kind)),
        "\n"@,
        "\n"@,
    );
}

} // verus!
