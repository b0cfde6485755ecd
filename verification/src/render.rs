//! The live Markdown renderer.
//!
//! Text arrives in pieces of any size and is shown at once, inside a frame.
//! Only the first characters of a line are held back, as long as it is open
//! whether they are a list or heading marker.

use crate::config::{paint, painted, Config};
use crate::render_laws::law_every_character_keeps_the_invariant;
use crate::text::{chars_of, is_ascii_digit, is_digit, is_white, is_whitespace};
use vstd::prelude::*;

verus! {

/// What a stream of text is.
#[derive(Clone, Copy, PartialEq, Eq, Structural)]
pub enum StreamKind {
    /// The answer itself.
    Answer,
    /// A summary of the model's thoughts.
    Thought,
}

// ---------------------------------------------------------------------------
// Colors and the frame
// ---------------------------------------------------------------------------

/// The color of the frame.
pub open spec fn frame_color(kind: StreamKind) -> Seq<char> {
    match kind {
        StreamKind::Answer => "\x1b[38;5;213m"@,
        StreamKind::Thought => "\x1b[2m\x1b[38;5;80m"@,
    }
}

/// The code that ordinary text begins with.
pub open spec fn text_color(kind: StreamKind, plain: bool) -> Seq<char> {
    if plain {
        ""@
    } else {
        match kind {
            StreamKind::Answer => "\x1b[0m"@,
            StreamKind::Thought => "\x1b[2m\x1b[38;5;250m"@,
        }
    }
}

/// The code that a heading begins with.
pub open spec fn title_color(kind: StreamKind, plain: bool) -> Seq<char> {
    if plain {
        ""@
    } else {
        match kind {
            StreamKind::Answer => "\x1b[1m\x1b[38;5;220m"@,
            StreamKind::Thought => "\x1b[1m\x1b[2m\x1b[38;5;80m"@,
        }
    }
}

/// `n` horizontal strokes.
pub open spec fn strokes(n: int) -> Seq<char> {
    if n <= 0 {
        seq![]
    } else {
        Seq::new(n as nat, |i: int| '─')
    }
}

/// The upper edge of the frame. That of an answer names the model and is
/// filled up to the width of the lower edge.
pub open spec fn header(kind: StreamKind, plain: bool, model: Seq<char>) -> Seq<char> {
    let edge = match kind {
        StreamKind::Answer => {
            let label = "╭─ Glow("@ + model + ") "@;
            label + strokes(45 - label.len()) + "╮"@
        },
        StreamKind::Thought => "╭─ Thinking Summary ─────────────────────────╮"@,
    };
    painted(plain, edge, frame_color(kind)) + "\n"@
}

/// The lower edge of the frame.
pub open spec fn footer(kind: StreamKind, plain: bool) -> Seq<char> {
    painted(plain, "╰────────────────────────────────────────────╯"@, frame_color(kind)) + "\n"@
}

/// What stands in front of the text of a line: the left edge of the frame and
/// the indentation.
pub open spec fn line_head(kind: StreamKind, plain: bool, indent: Seq<char>) -> Seq<char> {
    painted(plain, "│"@, frame_color(kind)) + " "@ + text_color(kind, plain) + indent
}

// ---------------------------------------------------------------------------
// Markers at the beginning of a line
// ---------------------------------------------------------------------------

/// The kinds of characters that matter at the beginning of a line.
#[derive(Clone, Copy, PartialEq, Eq, Structural)]
pub enum Class {
    /// A space or a tabulator.
    Blank,
    /// A number sign.
    Hash,
    /// A decimal digit.
    Digit,
}

/// Whether `c` is of the given kind.
pub open spec fn in_class(c: char, class: Class) -> bool {
    match class {
        Class::Blank => c == ' ' || c == '\t',
        Class::Hash => c == '#',
        Class::Digit => is_digit(c),
    }
}

/// How many characters of the given kind `s` begins with.
pub open spec fn leading(s: Seq<char>, class: Class) -> nat
    decreases s.len(),
{
    if s.len() > 0 && in_class(s[0], class) {
        1 + leading(s.skip(1), class)
    } else {
        0
    }
}

/// The blanks that a line begins with.
pub open spec fn indent_of(line: Seq<char>) -> Seq<char> {
    line.take(leading(line, Class::Blank) as int)
}

/// A line without the blanks that it begins with.
pub open spec fn unindented(line: Seq<char>) -> Seq<char> {
    line.skip(leading(line, Class::Blank) as int)
}

/// What an unindented line begins with.
pub enum Marker {
    /// A star or a hyphen and white space.
    Bullet,
    /// One to six number signs and white space.
    Heading(nat),
    /// Digits, as many as are given, a period and white space.
    Numbered(nat),
    /// Anything else.
    Unmarked,
}

/// The marker of an unindented line.
pub open spec fn marker(s: Seq<char>) -> Marker {
    let hashes = leading(s, Class::Hash);
    let digits = leading(s, Class::Digit);
    if s.len() >= 2 && (s[0] == '*' || s[0] == '-') && is_white(s[1]) {
        Marker::Bullet
    } else if 1 <= hashes <= 6 && hashes < s.len() && is_white(s[hashes as int]) {
        Marker::Heading(hashes)
    } else if 1 <= digits && digits + 1 < s.len() && s[digits as int] == '.' && is_white(
        s[digits as int + 1],
    ) {
        Marker::Numbered(digits)
    } else {
        Marker::Unmarked
    }
}

/// How many characters a marker takes.
pub open spec fn marker_len(m: Marker) -> nat {
    match m {
        Marker::Bullet => 2,
        Marker::Heading(n) => n + 1,
        Marker::Numbered(n) => n + 2,
        Marker::Unmarked => 0,
    }
}

/// How the marker of the unindented line `s` is shown: a bullet in place of
/// the star, the color of a heading in place of the number signs, and the
/// number of an item in color.
pub open spec fn marker_text(kind: StreamKind, plain: bool, s: Seq<char>) -> Seq<char> {
    match marker(s) {
        Marker::Bullet => painted(plain, "• "@, "\x1b[38;5;80m"@),
        Marker::Heading(_) => title_color(kind, plain),
        Marker::Numbered(n) => painted(plain, s.take(n as int + 1) + " "@, "\x1b[38;5;80m"@),
        Marker::Unmarked => seq![],
    }
}

/// The unindented beginning `s` of a line does not tell yet whether the line
/// has a marker.
pub open spec fn undecided(s: Seq<char>) -> bool {
    let digits = leading(s, Class::Digit);
    ||| s.len() == 0
    ||| s.len() == 1 && (s[0] == '*' || s[0] == '-')
    ||| 1 <= s.len() <= 6 && leading(s, Class::Hash) == s.len()
    ||| 1 <= digits && digits == s.len()
    ||| 1 <= digits && digits + 1 == s.len() && s[digits as int] == '.'
}

pub proof fn lemma_leading(s: Seq<char>, class: Class)
    ensures
        leading(s, class) <= s.len(),
        forall|i: int| 0 <= i < leading(s, class) ==> in_class(#[trigger] s[i], class),
        leading(s, class) < s.len() ==> !in_class(s[leading(s, class) as int], class),
    decreases s.len(),
{
    if s.len() > 0 && in_class(s[0], class) {
        let t = s.skip(1);
        lemma_leading(t, class);
        assert forall|i: int| 0 <= i < leading(s, class) implies in_class(
            #[trigger] s[i],
            class,
        ) by {
            if i > 0 {
                assert(s[i] == t[i - 1]);
            }
        }
        if leading(s, class) < s.len() {
            assert(s[leading(s, class) as int] == t[leading(t, class) as int]);
        }
    }
}

pub proof fn lemma_leading_is(s: Seq<char>, class: Class, n: int)
    requires
        0 <= n <= s.len(),
        forall|i: int| 0 <= i < n ==> in_class(#[trigger] s[i], class),
        n < s.len() ==> !in_class(s[n], class),
    ensures
        leading(s, class) == n,
{
    lemma_leading(s, class);
    let k = leading(s, class) as int;
    if k < n {
        assert(in_class(s[k], class));
    } else if n < k {
        assert(in_class(s[n], class));
    }
}

pub proof fn lemma_leading_push(s: Seq<char>, c: char, class: Class)
    ensures
        leading(s.push(c), class) == if leading(s, class) == s.len() && in_class(c, class) {
            s.len() + 1
        } else {
            leading(s, class)
        },
{
    lemma_leading(s, class);
    let n = leading(s, class) as int;
    if n == s.len() && in_class(c, class) {
        lemma_leading_is(s.push(c), class, n + 1);
    } else {
        lemma_leading_is(s.push(c), class, n);
    }
}

/// The blanks of a line end where something else begins.
pub proof fn lemma_indent(lead: Seq<char>, rest: Seq<char>)
    requires
        forall|i: int| 0 <= i < lead.len() ==> in_class(#[trigger] lead[i], Class::Blank),
        rest.len() > 0 ==> !in_class(rest[0], Class::Blank),
    ensures
        indent_of(lead + rest) == lead,
        unindented(lead + rest) == rest,
{
    let s = lead + rest;
    assert forall|i: int| 0 <= i < lead.len() implies in_class(#[trigger] s[i], Class::Blank) by {
        assert(s[i] == lead[i]);
    }
    lemma_leading_is(s, Class::Blank, lead.len() as int);
    assert(s.take(lead.len() as int) == lead);
    assert(s.skip(lead.len() as int) == rest);
}

/// Whether `c` is of the given kind.
fn belongs(c: char, class: Class) -> (r: bool)
    ensures
        r == in_class(c, class),
{
    match class {
        Class::Blank => c == ' ' || c == '\t',
        Class::Hash => c == '#',
        Class::Digit => is_ascii_digit(c),
    }
}

/// How many characters of the given kind `s` begins with.
fn count_leading(s: &Vec<char>, class: Class) -> (n: usize)
    ensures
        n == leading(s@, class),
{
    let mut n: usize = 0;
    while n < s.len() && belongs(s[n], class)
        invariant
            n <= s@.len(),
            forall|i: int| 0 <= i < n ==> in_class(#[trigger] s@[i], class),
        decreases s.len() - n,
    {
        n += 1;
    }
    proof {
        lemma_leading_is(s@, class, n as int);
    }
    n
}

// ---------------------------------------------------------------------------
// The text of a line
// ---------------------------------------------------------------------------

/// Where the text of a line stands: whether it is bold, and whether the
/// character before was a star that is not shown yet.
pub struct BodyView {
    pub bold: bool,
    pub star: bool,
}

/// The code that turns bold on or off.
pub open spec fn bold_switch(kind: StreamKind, plain: bool, on: bool) -> Seq<char> {
    if plain {
        seq![]
    } else if on {
        "\x1b[1m"@
    } else {
        text_color(kind, plain)
    }
}

/// The star that is not shown yet, if there is one.
pub open spec fn held_star(star: bool) -> Seq<char> {
    if star {
        seq!['*']
    } else {
        seq![]
    }
}

/// What one more character of text does, and what is shown for it: a second
/// star turns bold on or off, a first one is held back, and every other
/// character is shown behind the star that was held.
pub open spec fn body_step(kind: StreamKind, plain: bool, b: BodyView, c: char) -> (
    BodyView,
    Seq<char>,
) {
    if c != '*' {
        (BodyView { star: false, ..b }, held_star(b.star) + seq![c])
    } else if b.star {
        (BodyView { bold: !b.bold, star: false }, bold_switch(kind, plain, !b.bold))
    } else {
        (BodyView { star: true, ..b }, seq![])
    }
}

/// What a stretch of text does, and what is shown for it.
pub open spec fn body_run(kind: StreamKind, plain: bool, b: BodyView, s: Seq<char>) -> (
    BodyView,
    Seq<char>,
)
    decreases s.len(),
{
    if s.len() == 0 {
        (b, seq![])
    } else {
        let (b1, out1) = body_run(kind, plain, b, s.drop_last());
        let (b2, out2) = body_step(kind, plain, b1, s.last());
        (b2, out1 + out2)
    }
}

// ---------------------------------------------------------------------------
// The renderer
// ---------------------------------------------------------------------------

/// Where the current line stands.
pub enum LineView {
    /// Nothing of the line is shown, and this is what has arrived of it.
    Opening(Seq<char>),
    /// The frame and the marker are shown. The flag says whether a star is
    /// held back.
    Body(bool),
}

/// The state of a renderer.
#[verifier::ext_equal]
pub struct RendererView {
    pub kind: StreamKind,
    pub plain: bool,
    pub bold: bool,
    pub line: LineView,
}

impl RendererView {
    /// A renderer at the beginning of a line.
    pub open spec fn at_line_start(kind: StreamKind, plain: bool, bold: bool) -> RendererView {
        RendererView { kind, plain, bold, line: LineView::Opening(seq![]) }
    }

    /// Shows the beginning `seen` of a line: frame, indentation, marker, and
    /// the text behind the marker.
    #[verifier::opaque]
    pub open spec fn opened(self, seen: Seq<char>) -> (RendererView, Seq<char>) {
        let s = unindented(seen);
        let (b, out) = body_run(
            self.kind,
            self.plain,
            BodyView { bold: self.bold, star: false },
            s.skip(marker_len(marker(s)) as int),
        );
        (
            RendererView { bold: b.bold, line: LineView::Body(b.star), ..self },
            line_head(self.kind, self.plain, indent_of(seen)) + marker_text(
                self.kind,
                self.plain,
                s,
            ) + out,
        )
    }

    /// Shows all that is held back. What has arrived of a line without a
    /// complete marker is text.
    pub open spec fn flushed(self) -> (RendererView, Seq<char>) {
        match self.line {
            LineView::Opening(seen) => if unindented(seen).len() == 0 {
                (self, seq![])
            } else {
                let (v, out) = self.opened(seen);
                match v.line {
                    LineView::Body(star) => (
                        RendererView { line: LineView::Body(false), ..v },
                        out + held_star(star),
                    ),
                    LineView::Opening(_) => (v, out),
                }
            },
            LineView::Body(star) => (
                RendererView { line: LineView::Body(false), ..self },
                held_star(star),
            ),
        }
    }

    /// The end of a line: a line of which something is shown is ended, and
    /// one that holds nothing but blanks is left out.
    pub open spec fn newline(self) -> (RendererView, Seq<char>) {
        let (v, out) = self.flushed();
        (
            RendererView { line: LineView::Opening(seq![]), ..v },
            match v.line {
                LineView::Opening(_) => out,
                LineView::Body(_) => out + "\n"@,
            },
        )
    }

    /// What one more character does, and what is shown for it.
    pub open spec fn step(self, c: char) -> (RendererView, Seq<char>) {
        if c == '\n' {
            self.newline()
        } else {
            match self.line {
                LineView::Opening(seen) => if undecided(unindented(seen.push(c))) {
                    (RendererView { line: LineView::Opening(seen.push(c)), ..self }, seq![])
                } else {
                    self.opened(seen.push(c))
                },
                LineView::Body(star) => {
                    let (b, out) = body_step(
                        self.kind,
                        self.plain,
                        BodyView { bold: self.bold, star },
                        c,
                    );
                    (RendererView { bold: b.bold, line: LineView::Body(b.star), ..self }, out)
                },
            }
        }
    }

    /// What a piece of text does, and what is shown for it.
    pub open spec fn run(self, text: Seq<char>) -> (RendererView, Seq<char>)
        decreases text.len(),
    {
        if text.len() == 0 {
            (self, seq![])
        } else {
            let (v, out1) = self.run(text.drop_last());
            let (w, out2) = v.step(text.last());
            (w, out1 + out2)
        }
    }

    /// The end of the stream: what is held back is shown, bold is ended, the
    /// line is ended, and the frame is closed.
    pub open spec fn finished(self) -> (RendererView, Seq<char>) {
        let (v, out) = self.flushed();
        (
            RendererView { bold: false, ..v },
            out + (if v.bold {
                text_color(v.kind, v.plain)
            } else {
                seq![]
            }) + (match v.line {
                LineView::Opening(_) => seq![],
                LineView::Body(_) => "\n"@,
            }) + footer(v.kind, v.plain),
        )
    }
}

/// No more is held back of the current line than must be: its indentation and
/// the beginning of a marker while it is open what marker the line has, and
/// later a single star.
pub open spec fn holds_little_back(v: RendererView) -> bool {
    match v.line {
        LineView::Opening(seen) => undecided(unindented(seen)),
        LineView::Body(_) => true,
    }
}

/// How a whole stream is shown, with its frame.
pub open spec fn shown_stream(
    kind: StreamKind,
    plain: bool,
    model: Seq<char>,
    text: Seq<char>,
) -> Seq<char> {
    let (end, out) = RendererView::at_line_start(kind, plain, false).run(text);
    header(kind, plain, model) + out + end.finished().1
}

/// What is undecided has no complete marker.
pub proof fn lemma_undecided_is_unmarked(s: Seq<char>)
    requires
        undecided(s),
    ensures
        marker(s) is Unmarked,
{
    lemma_leading(s, Class::Hash);
    lemma_leading(s, Class::Digit);
}

/// How a line is opened, in terms of its indentation and its remainder.
proof fn lemma_opened(v: RendererView, lead: Seq<char>, s: Seq<char>)
    requires
        forall|i: int| 0 <= i < lead.len() ==> in_class(#[trigger] lead[i], Class::Blank),
        s.len() > 0 ==> !in_class(s[0], Class::Blank),
    ensures
        indent_of(lead + s) == lead,
        unindented(lead + s) == s,
        marker(s) is Unmarked ==> ({
            let (b, shown) = body_run(
                v.kind,
                v.plain,
                BodyView { bold: v.bold, star: false },
                s,
            );
            v.opened(lead + s) == (
                RendererView { bold: b.bold, line: LineView::Body(b.star), ..v },
                line_head(v.kind, v.plain, lead) + shown,
            )
        }),
        marker(s) !is Unmarked && marker_len(marker(s)) == s.len() ==> v.opened(lead + s) == (
            RendererView { line: LineView::Body(false), ..v },
            line_head(v.kind, v.plain, lead) + marker_text(v.kind, v.plain, s),
        ),
{
    reveal(RendererView::opened);
    lemma_indent(lead, s);
    let head = line_head(v.kind, v.plain, lead);
    let mark = marker_text(v.kind, v.plain, s);
    if marker(s) is Unmarked {
        assert(s.skip(0) == s);
        assert(head + mark == head);
    } else if marker_len(marker(s)) == s.len() {
        assert(s.skip(s.len() as int) == Seq::<char>::empty());
        assert(head + mark + Seq::<char>::empty() == head + mark);
    }
}

/// What a character does at the beginning of a line, in terms of the
/// indentation and the characters held back.
proof fn lemma_opening_step(v: RendererView, lead: Seq<char>, token: Seq<char>, ch: char)
    requires
        v.line == LineView::Opening(lead + token),
        forall|i: int| 0 <= i < lead.len() ==> in_class(#[trigger] lead[i], Class::Blank),
        token.len() > 0 ==> !in_class(token[0], Class::Blank),
        ch != '\n',
    ensures
        token.len() == 0 && in_class(ch, Class::Blank) ==> v.step(ch) == (
            RendererView { line: LineView::Opening(lead.push(ch) + token), ..v },
            Seq::<char>::empty(),
        ),
        !(token.len() == 0 && in_class(ch, Class::Blank)) ==> ({
            let s = token.push(ch);
            let head = line_head(v.kind, v.plain, lead);
            let (b1, shown1) = body_run(
                v.kind,
                v.plain,
                BodyView { bold: v.bold, star: false },
                token,
            );
            let (b2, shown2) = body_step(v.kind, v.plain, b1, ch);
            &&& undecided(s) ==> v.step(ch) == (
                RendererView { line: LineView::Opening(lead + s), ..v },
                Seq::<char>::empty(),
            )
            &&& !undecided(s) && marker(s) !is Unmarked && marker_len(marker(s)) == s.len()
                ==> v.step(ch) == (
                RendererView { line: LineView::Body(false), ..v },
                head + marker_text(v.kind, v.plain, s),
            )
            &&& !undecided(s) && marker(s) is Unmarked ==> v.step(ch) == (
                RendererView { bold: b2.bold, line: LineView::Body(b2.star), ..v },
                head + (shown1 + shown2),
            )
        }),
{
    if token.len() == 0 && in_class(ch, Class::Blank) {
        assert((lead + token).push(ch) == lead.push(ch) + token);
        lemma_opened(v, lead.push(ch), token);
    } else {
        assert((lead + token).push(ch) == lead + token.push(ch));
        lemma_opened(v, lead, token.push(ch));
        assert(token.push(ch).drop_last() == token);
    }
}

/// Renders a stream of Markdown as it arrives.
pub struct StreamRenderer<'a> {
    config: &'a Config,
    kind: StreamKind,
    has_prefix: bool,
    in_bold: bool,
    pending_stars: usize,
    leading_spaces: String,
    line_token: String,
}

impl<'a> View for StreamRenderer<'a> {
    type V = RendererView;

    closed spec fn view(&self) -> RendererView {
        RendererView {
            kind: self.kind,
            plain: self.config@.plain,
            bold: self.in_bold,
            line: if self.has_prefix {
                LineView::Body(self.pending_stars == 1)
            } else {
                LineView::Opening(self.leading_spaces@ + self.line_token@)
            },
        }
    }
}

impl<'a> StreamRenderer<'a> {
    /// What holds between any two operations.
    pub closed spec fn wf(&self) -> bool {
        &&& self.pending_stars <= 1
        &&& forall|i: int|
            0 <= i < self.leading_spaces@.len() ==> in_class(
                #[trigger] self.leading_spaces@[i],
                Class::Blank,
            )
        &&& undecided(self.line_token@)
        &&& self.line_token@.len() > 0 ==> !in_class(self.line_token@[0], Class::Blank)
        &&& if self.has_prefix {
            self.leading_spaces@.len() == 0 && self.line_token@.len() == 0
        } else {
            self.pending_stars == 0
        }
    }

    /// The settings that the stream is shown with.
    pub closed spec fn settings(&self) -> Config {
        *self.config
    }

    /// Between any two operations little is held back.
    pub proof fn lemma_holds_little_back(&self)
        requires
            self.wf(),
        ensures
            holds_little_back(self@),
            self@.plain == self.settings()@.plain,
    {
        if !self.has_prefix {
            lemma_indent(self.leading_spaces@, self.line_token@);
        }
    }

    /// The code that ordinary text begins with.
    fn base_color(&self) -> (r: &'static str)
        ensures
            r@ == text_color(self.kind, self.config@.plain),
    {
        if self.config.plain {
            ""
        } else {
            match self.kind {
                StreamKind::Answer => "\x1b[0m",
                StreamKind::Thought => "\x1b[2m\x1b[38;5;250m",
            }
        }
    }

    /// The code that a heading begins with.
    fn heading_color(&self) -> (r: &'static str)
        ensures
            r@ == title_color(self.kind, self.config@.plain),
    {
        if self.config.plain {
            ""
        } else {
            match self.kind {
                StreamKind::Answer => "\x1b[1m\x1b[38;5;220m",
                StreamKind::Thought => "\x1b[1m\x1b[2m\x1b[38;5;80m",
            }
        }
    }

    /// Shows the left edge of the frame, once for a line.
    fn emit_prefix(&mut self, out: &mut String)
        ensures
            *final(self) == (StreamRenderer { has_prefix: true, ..*old(self) }),
            final(out)@ == old(out)@ + (if old(self).has_prefix {
                seq![]
            } else {
                line_head(old(self).kind, old(self).config@.plain, seq![])
            }),
    {
        if self.has_prefix {
            return ;
        }
        let color = match self.kind {
            StreamKind::Answer => "\x1b[38;5;213m",
            StreamKind::Thought => "\x1b[2m\x1b[38;5;80m",
        };
        let edge = paint(self.config, "│", color);
        out.append(edge.as_str());
        out.append(" ");
        self.has_prefix = true;
        out.append(self.base_color());
        assert(out@ == old(out)@ + line_head(self.kind, self.config@.plain, seq![]));
    }

    /// Shows the indentation of the line.
    fn emit_leading_spaces(&mut self, out: &mut String)
        ensures
            *final(self) == (StreamRenderer {
                leading_spaces: final(self).leading_spaces,
                ..*old(self)
            }),
            final(self).leading_spaces@.len() == 0,
            final(out)@ == old(out)@ + old(self).leading_spaces@,
    {
        if !self.leading_spaces.as_str().is_empty() {
            out.append(self.leading_spaces.as_str());
            self.leading_spaces = String::new();
        }
    }

    /// Shows the left edge of the frame and the indentation.
    fn emit_line_head(&mut self, out: &mut String)
        ensures
            *final(self) == (StreamRenderer {
                has_prefix: true,
                leading_spaces: final(self).leading_spaces,
                ..*old(self)
            }),
            final(self).leading_spaces@.len() == 0,
            final(out)@ == old(out)@ + (if old(self).has_prefix {
                old(self).leading_spaces@
            } else {
                line_head(old(self).kind, old(self).config@.plain, old(self).leading_spaces@)
            }),
    {
        self.emit_prefix(out);
        self.emit_leading_spaces(out);
    }

    /// Shows the star that was held back.
    fn flush_pending_stars(&mut self, out: &mut String)
        requires
            old(self).pending_stars <= 1,
        ensures
            *final(self) == (StreamRenderer { pending_stars: 0, ..*old(self) }),
            final(out)@ == old(out)@ + held_star(old(self).pending_stars == 1),
    {
        let mut i: usize = 0;
        while i < self.pending_stars
            invariant
                i <= self.pending_stars <= 1,
                *self == *old(self),
                out@ == old(out)@ + held_star(i == 1),
            decreases self.pending_stars - i,
        {
            out.push('*');
            i += 1;
        }
        self.pending_stars = 0;
    }

    /// Turns bold on or off.
    fn toggle_bold(&mut self, out: &mut String)
        ensures
            *final(self) == (StreamRenderer { in_bold: !old(self).in_bold, ..*old(self) }),
            final(out)@ == old(out)@ + bold_switch(
                old(self).kind,
                old(self).config@.plain,
                !old(self).in_bold,
            ),
    {
        self.in_bold = !self.in_bold;
        if self.config.plain {
            return ;
        }
        if self.in_bold {
            out.append("\x1b[1m");
        } else {
            out.append(self.base_color());
        }
    }

    /// Shows one character of text.
    fn emit_body_char(&mut self, ch: char, out: &mut String)
        requires
            old(self).pending_stars <= 1,
        ensures
            ({
                let (b, shown) = body_step(
                    old(self).kind,
                    old(self).config@.plain,
                    BodyView { bold: old(self).in_bold, star: old(self).pending_stars == 1 },
                    ch,
                );
                &&& *final(self) == (StreamRenderer {
                    in_bold: b.bold,
                    pending_stars: if b.star {
                        1
                    } else {
                        0
                    },
                    ..*old(self)
                })
                &&& final(out)@ == old(out)@ + shown
            }),
    {
        if ch == '*' {
            self.pending_stars += 1;
            if self.pending_stars == 2 {
                self.toggle_bold(out);
                self.pending_stars = 0;
            }
            return ;
        }
        self.flush_pending_stars(out);
        out.push(ch);
        assert(out@ == old(out)@ + (held_star(old(self).pending_stars == 1) + seq![ch]));
    }

    /// Shows what was held back as a possible marker as text.
    #[verifier::spinoff_prover]
    #[verifier::rlimit(40)]
    fn flush_line_token_as_body(&mut self, out: &mut String)
        requires
            old(self).pending_stars <= 1,
        ensures
            final(self).line_token@.len() == 0,
            old(self).line_token@.len() == 0 ==> *final(self) == *old(self) && final(out)@ == old(
                out,
            )@,
            old(self).line_token@.len() > 0 ==> ({
                let (b, shown) = body_run(
                    old(self).kind,
                    old(self).config@.plain,
                    BodyView { bold: old(self).in_bold, star: old(self).pending_stars == 1 },
                    old(self).line_token@,
                );
                &&& *final(self) == (StreamRenderer {
                    has_prefix: true,
                    in_bold: b.bold,
                    pending_stars: if b.star {
                        1
                    } else {
                        0
                    },
                    leading_spaces: final(self).leading_spaces,
                    line_token: final(self).line_token,
                    ..*old(self)
                })
                &&& final(self).leading_spaces@.len() == 0
                &&& final(out)@ == old(out)@ + (if old(self).has_prefix {
                    old(self).leading_spaces@
                } else {
                    line_head(old(self).kind, old(self).config@.plain, old(self).leading_spaces@)
                }) + shown
            }),
    {
        if self.line_token.as_str().is_empty() {
            return ;
        }
        self.emit_line_head(out);
        let token = chars_of(self.line_token.as_str());
        self.line_token = String::new();
        let ghost start = *self;
        let ghost begun = out@;
        let ghost b0 = BodyView { bold: start.in_bold, star: start.pending_stars == 1 };
        let mut i: usize = 0;
        while i < token.len()
            invariant
                i <= token@.len(),
                self.pending_stars <= 1,
                b0 == (BodyView { bold: start.in_bold, star: start.pending_stars == 1 }),
                ({
                    let (b, shown) = body_run(
                        start.kind,
                        start.config@.plain,
                        b0,
                        token@.take(i as int),
                    );
                    &&& *self == (StreamRenderer {
                        in_bold: b.bold,
                        pending_stars: if b.star {
                            1
                        } else {
                            0
                        },
                        ..start
                    })
                    &&& out@ == begun + shown
                }),
            decreases token.len() - i,
        {
            let ghost upto = token@.take(i + 1);
            assert(upto.drop_last() == token@.take(i as int));
            assert(upto.last() == token@[i as int]);
            self.emit_body_char(token[i], out);
            i += 1;
        }
        assert(token@.take(i as int) == token@);
        assert(begun == old(out)@ + (if old(self).has_prefix {
            old(self).leading_spaces@
        } else {
            line_head(old(self).kind, old(self).config@.plain, old(self).leading_spaces@)
        }));
    }

    /// Decides what the characters held back mean, now that `ch` follows
    /// them. Where `ch` belongs to a marker, it is used up and the result is
    /// true. Where there is no marker, what was held back is shown as text.
    #[verifier::spinoff_prover]
    #[verifier::rlimit(40)]
    fn try_line_marker(&mut self, ch: char, out: &mut String) -> (used: bool)
        requires
            old(self).wf(),
            !old(self).has_prefix,
        ensures
            ({
                let s = old(self).line_token@.push(ch);
                let kind = old(self).kind;
                let plain = old(self).config@.plain;
                let indent = old(self).leading_spaces@;
                &&& used == (undecided(s) || marker(s) !is Unmarked)
                &&& undecided(s) ==> {
                    &&& *final(self) == (StreamRenderer {
                        line_token: final(self).line_token,
                        ..*old(self)
                    })
                    &&& final(self).line_token@ == s
                    &&& final(out)@ == old(out)@
                }
                &&& !undecided(s) && marker(s) !is Unmarked ==> {
                    &&& *final(self) == (StreamRenderer {
                        has_prefix: true,
                        leading_spaces: final(self).leading_spaces,
                        line_token: final(self).line_token,
                        ..*old(self)
                    })
                    &&& final(self).leading_spaces@.len() == 0
                    &&& final(self).line_token@.len() == 0
                    &&& marker_len(marker(s)) == s.len()
                    &&& final(out)@ == old(out)@ + (line_head(kind, plain, indent) + marker_text(
                        kind,
                        plain,
                        s,
                    ))
                }
                &&& !used && s.len() == 1 ==> *final(self) == *old(self) && final(out)@ == old(
                    out,
                )@
                &&& !used && s.len() > 1 ==> {
                    let (b, shown) = body_run(
                        kind,
                        plain,
                        BodyView { bold: old(self).in_bold, star: false },
                        old(self).line_token@,
                    );
                    &&& *final(self) == (StreamRenderer {
                        has_prefix: true,
                        in_bold: b.bold,
                        pending_stars: if b.star {
                            1
                        } else {
                            0
                        },
                        leading_spaces: final(self).leading_spaces,
                        line_token: final(self).line_token,
                        ..*old(self)
                    })
                    &&& final(self).leading_spaces@.len() == 0
                    &&& final(self).line_token@.len() == 0
                    &&& final(out)@ == old(out)@ + line_head(kind, plain, indent) + shown
                }
            }),
    {
        let ghost s = self.line_token@.push(ch);
        let token = chars_of(self.line_token.as_str());
        proof {
            lemma_leading(token@, Class::Hash);
            lemma_leading(token@, Class::Digit);
            lemma_leading_push(token@, ch, Class::Hash);
            lemma_leading_push(token@, ch, Class::Digit);
        }
        if token.len() == 0 {
            if ch == '*' || ch == '-' || ch == '#' || is_ascii_digit(ch) {
                self.line_token.push(ch);
                return true;
            }
            return false;
        }
        let hashes = count_leading(&token, Class::Hash);
        let digits = count_leading(&token, Class::Digit);
        if token.len() == 1 && (token[0] == '*' || token[0] == '-') && is_whitespace(ch) {
            self.emit_line_head(out);
            let bullet = paint(self.config, "• ", "\x1b[38;5;80m");
            out.append(bullet.as_str());
            self.line_token = String::new();
            return true;
        }
        if hashes == token.len() {
            if ch == '#' && token.len() < 6 {
                self.line_token.push(ch);
                return true;
            }
            if is_whitespace(ch) {
                self.emit_line_head(out);
                out.append(self.heading_color());
                self.line_token = String::new();
                return true;
            }
        }
        if digits == token.len() {
            if is_ascii_digit(ch) || ch == '.' {
                self.line_token.push(ch);
                return true;
            }
        }
        if digits > 0 && token.len() - digits == 1 && token[digits] == '.' && is_whitespace(ch) {
            self.emit_line_head(out);
            let mut number = self.line_token.clone();
            number.append(" ");
            assert(s.take(digits + 1) == self.line_token@);
            let item = paint(self.config, number.as_str(), "\x1b[38;5;80m");
            out.append(item.as_str());
            self.line_token = String::new();
            return true;
        }
        self.flush_line_token_as_body(out);
        false
    }

    /// Shows all that is held back.
    fn flush(&mut self, out: &mut String)
        requires
            old(self).wf(),
        ensures
            final(self).wf(),
            final(self).config == old(self).config,
            final(self)@ == old(self)@.flushed().0,
            final(out)@ == old(out)@ + old(self)@.flushed().1,
    {
        let ghost lead = self.leading_spaces@;
        let ghost token = self.line_token@;
        proof {
            if !self.has_prefix {
                lemma_opened(self@, lead, token);
                lemma_undecided_is_unmarked(token);
            }
        }
        self.flush_line_token_as_body(out);
        self.flush_pending_stars(out);
        proof {
            if !old(self).has_prefix && token.len() > 0 {
                let (b, shown) = body_run(
                    self.kind,
                    self.config@.plain,
                    BodyView { bold: old(self).in_bold, star: false },
                    token,
                );
                let head = line_head(self.kind, self.config@.plain, lead);
                assert(out@ == old(out)@ + (head + shown + held_star(b.star)));
            }
        }
    }

    /// Ends the line.
    fn end_line(&mut self, out: &mut String)
        requires
            old(self).wf(),
        ensures
            final(self).wf(),
            final(self).config == old(self).config,
            final(self)@ == old(self)@.newline().0,
            final(out)@ == old(out)@ + old(self)@.newline().1,
    {
        self.flush(out);
        if self.has_prefix {
            out.append("\n");
        }
        self.has_prefix = false;
        self.leading_spaces = String::new();
        self.line_token = String::new();
        assert(self.leading_spaces@ + self.line_token@ == Seq::<char>::empty());
    }

    /// Takes in one character of a line of which nothing is shown yet.
    #[verifier::spinoff_prover]
    #[verifier::rlimit(40)]
    fn feed_opening_char(&mut self, ch: char, out: &mut String)
        requires
            old(self).wf(),
            !old(self).has_prefix,
            ch != '\n',
        ensures
            final(self).wf(),
            final(self).config == old(self).config,
            final(self)@ == old(self)@.step(ch).0,
            final(out)@ == old(out)@ + old(self)@.step(ch).1,
    {
        let ghost lead = self.leading_spaces@;
        let ghost token = self.line_token@;
        let ghost next = self@.step(ch);
        proof {
            lemma_opening_step(self@, lead, token, ch);
        }
        if self.line_token.as_str().is_empty() && (ch == ' ' || ch == '\t') {
            self.leading_spaces.push(ch);
            assert(self@ == next.0);
            return ;
        }
        if self.try_line_marker(ch, out) {
            assert(self@ == next.0);
            return ;
        }
        self.emit_line_head(out);
        let ghost begun = out@;
        let ghost b0 = BodyView { bold: old(self).in_bold, star: false };
        let ghost (b1, shown1) = body_run(self.kind, self.config@.plain, b0, token);
        let ghost head = line_head(self.kind, self.config@.plain, lead);
        assert(begun == old(out)@ + head + shown1);
        self.emit_body_char(ch, out);
        proof {
            let (b2, shown2) = body_step(self.kind, self.config@.plain, b1, ch);
            assert(out@ == old(out)@ + (head + (shown1 + shown2)));
            assert(self@ == next.0);
        }
    }

    /// Takes in one character. A line feed leads to the beginning of a line,
    /// with bold text still bold.
    pub fn feed_char(&mut self, ch: char, out: &mut String)
        requires
            old(self).wf(),
        ensures
            final(self).wf(),
            final(self).settings() == old(self).settings(),
            final(self)@ == old(self)@.step(ch).0,
            final(out)@ == old(out)@ + old(self)@.step(ch).1,
            ch == '\n' ==> final(self)@ == RendererView::at_line_start(
                old(self)@.kind,
                old(self)@.plain,
                old(self)@.bold,
            ),
    {
        proof {
            self.lemma_holds_little_back();
            law_every_character_keeps_the_invariant(self@, ch);
        }
        if ch == '\n' {
            self.end_line(out);
        } else if !self.has_prefix {
            self.feed_opening_char(ch, out);
        } else {
            self.emit_body_char(ch, out);
        }
    }

    /// Takes in a piece of text and shows what can be shown.
    pub fn feed(&mut self, text: &str, out: &mut String)
        requires
            old(self).wf(),
        ensures
            final(self).wf(),
            final(self).settings() == old(self).settings(),
            final(self)@ == old(self)@.run(text@).0,
            final(out)@ == old(out)@ + old(self)@.run(text@).1,
    {
        let chars = chars_of(text);
        let mut i: usize = 0;
        assert(text@.take(0) == Seq::<char>::empty());
        while i < chars.len()
            invariant
                chars@ == text@,
                i <= chars@.len(),
                self.wf(),
                self.settings() == old(self).settings(),
                self@ == old(self)@.run(text@.take(i as int)).0,
                out@ == old(out)@ + old(self)@.run(text@.take(i as int)).1,
            decreases chars.len() - i,
        {
            let ghost upto = text@.take(i + 1);
            assert(upto.drop_last() == text@.take(i as int));
            assert(upto.last() == text@[i as int]);
            self.feed_char(chars[i], out);
            i += 1;
        }
        assert(text@.take(i as int) == text@);
    }

    /// Shows what is held back and closes the frame.
    pub fn finish(&mut self, out: &mut String)
        requires
            old(self).wf(),
        ensures
            final(self).wf(),
            final(self).settings() == old(self).settings(),
            final(self)@ == old(self)@.finished().0,
            final(out)@ == old(out)@ + old(self)@.finished().1,
    {
        self.flush(out);
        if self.in_bold {
            self.in_bold = false;
            out.append(self.base_color());
        }
        if self.has_prefix {
            out.append("\n");
        }
        let color = match self.kind {
            StreamKind::Answer => "\x1b[38;5;213m",
            StreamKind::Thought => "\x1b[2m\x1b[38;5;80m",
        };
        let edge = paint(self.config, "╰────────────────────────────────────────────╯", color);
        out.append(edge.as_str());
        out.append("\n");
        assert(out@ == old(out)@ + old(self)@.finished().1);
    }

    /// Opens the frame of a new stream.
    pub fn new(config: &'a Config, kind: StreamKind, out: &mut String) -> (r: Self)
        ensures
            r.wf(),
            r.settings() == *config,
            r@ == RendererView::at_line_start(kind, config@.plain, false),
            final(out)@ == old(out)@ + header(kind, config@.plain, config@.model),
    {
        match kind {
            StreamKind::Answer => {
                let mut edge = "╭─ Glow(".to_owned();
                edge.append(config.model.as_str());
                edge.append(") ");
                let ghost label = edge@;
                let width = edge.as_str().unicode_len();
                let mut i: usize = width;
                assert(edge@ == label + strokes(i - width));
                while i < 45
                    invariant
                        width <= i,
                        i > width ==> i <= 45,
                        edge@ == label + strokes(i - width),
                    decreases 45 - i,
                {
                    edge.push('─');
                    i += 1;
                    assert(strokes(i - width) == strokes(i - 1 - width).push('─'));
                }
                assert(strokes(i - width) == strokes(45 - width));
                edge.push('╮');
                proof {
                    reveal_strlit("╮");
                    assert(edge@ == label + strokes(45 - label.len()) + "╮"@);
                }
                let line = paint(config, edge.as_str(), "\x1b[38;5;213m");
                out.append(line.as_str());
            },
            StreamKind::Thought => {
                let line = paint(
                    config,
                    "╭─ Thinking Summary ─────────────────────────╮",
                    "\x1b[2m\x1b[38;5;80m",
                );
                out.append(line.as_str());
            },
        }
        out.append("\n");
        let r = StreamRenderer {
            config,
            kind,
            has_prefix: false,
            in_bold: false,
            pending_stars: 0,
            leading_spaces: String::new(),
            line_token: String::new(),
        };
        assert(r.leading_spaces@ + r.line_token@ == Seq::<char>::empty());
        r
    }
}

} // verus!
