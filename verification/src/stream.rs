//! What the bridge answers: a line of JSON for each event.

use crate::config::{Config, ConfigView};
use crate::json::{field, json_field, opt_text};
use crate::render::{header, shown_stream, RendererView, StreamKind, StreamRenderer};
use crate::render_laws::law_pieces_do_not_matter;
use crate::text::{same, texts, trim, trimmed};
use vstd::prelude::*;

verus! {

/// What a line of the bridge says.
pub enum BridgeEvent {
    /// More of the summary of the model's thoughts.
    Thought(String),
    /// More of the answer.
    Answer(String),
    /// The answer is complete.
    Done,
    /// There is no answer, and why.
    Failed(String),
    /// Nothing that matters here.
    Other,
}

/// What a [`BridgeEvent`] holds.
pub enum EventView {
    Thought(Seq<char>),
    Answer(Seq<char>),
    Done,
    Failed(Seq<char>),
    Other,
}

impl View for BridgeEvent {
    type V = EventView;

    open spec fn view(&self) -> EventView {
        match *self {
            BridgeEvent::Thought(text) => EventView::Thought(text@),
            BridgeEvent::Answer(text) => EventView::Answer(text@),
            BridgeEvent::Done => EventView::Done,
            BridgeEvent::Failed(message) => EventView::Failed(message@),
            BridgeEvent::Other => EventView::Other,
        }
    }
}

/// A field of a line, or a default where the line has no such field.
pub open spec fn field_or(line: Seq<char>, key: Seq<char>, default: Seq<char>) -> Seq<char> {
    match field(line, key) {
        Some(value) => value,
        None => default,
    }
}

/// What a line of the bridge says. Thoughts and answers without text say
/// nothing.
pub open spec fn event_of(line: Seq<char>) -> EventView {
    let kind = field_or(line, "type"@, seq![]);
    let text = field_or(line, "text"@, seq![]);
    if kind == "thought"@ {
        if text.len() == 0 {
            EventView::Other
        } else {
            EventView::Thought(text)
        }
    } else if kind == "answer"@ {
        if text.len() == 0 {
            EventView::Other
        } else {
            EventView::Answer(text)
        }
    } else if kind == "done"@ {
        EventView::Done
    } else if kind == "error"@ {
        EventView::Failed(field_or(line, "message"@, "unknown bridge error"@))
    } else {
        EventView::Other
    }
}

/// A field of a line, or a default where the line has no such field.
fn read_field(line: &str, key: &str, default: &str) -> (r: String)
    ensures
        r@ == field_or(line@, key@, default@),
{
    match json_field(line, key) {
        Some(value) => value,
        None => default.to_owned(),
    }
}

/// Reads a line of the bridge.
pub fn read_event(line: &str) -> (r: BridgeEvent)
    ensures
        r@ == event_of(line@),
{
    proof {
        reveal_strlit("");
        assert(""@ == Seq::<char>::empty());
    }
    let kind = read_field(line, "type", "");
    if same(kind.as_str(), "thought") {
        let text = read_field(line, "text", "");
        if text.as_str().is_empty() {
            BridgeEvent::Other
        } else {
            BridgeEvent::Thought(text)
        }
    } else if same(kind.as_str(), "answer") {
        let text = read_field(line, "text", "");
        if text.as_str().is_empty() {
            BridgeEvent::Other
        } else {
            BridgeEvent::Answer(text)
        }
    } else if same(kind.as_str(), "done") {
        BridgeEvent::Done
    } else if same(kind.as_str(), "error") {
        BridgeEvent::Failed(read_field(line, "message", "unknown bridge error"))
    } else {
        BridgeEvent::Other
    }
}

// ---------------------------------------------------------------------------
// An answer
// ---------------------------------------------------------------------------

/// How far an answer has come.
#[verifier::ext_equal]
pub struct AnswerView {
    pub plain: bool,
    pub model: Seq<char>,
    /// The answer so far.
    pub answer: Seq<char>,
    /// The frame in which thoughts are shown, while it is open.
    pub thought: Option<RendererView>,
    /// The frame in which the answer is shown, once it is open.
    pub shown: Option<RendererView>,
    /// Why there is no answer.
    pub failure: Option<Seq<char>>,
}

/// Shows text in an open frame, or in a new one.
pub open spec fn show_in(
    frame: Option<RendererView>,
    kind: StreamKind,
    plain: bool,
    model: Seq<char>,
    text: Seq<char>,
) -> (RendererView, Seq<char>) {
    match frame {
        Some(open) => open.run(text),
        None => {
            let (next, out) = RendererView::at_line_start(kind, plain, false).run(text);
            (next, header(kind, plain, model) + out)
        },
    }
}

/// What closing a frame shows.
pub open spec fn closing(frame: Option<RendererView>) -> Seq<char> {
    match frame {
        Some(open) => open.finished().1,
        None => seq![],
    }
}

impl AnswerView {
    /// Before the first line.
    pub open spec fn start(config: ConfigView) -> AnswerView {
        AnswerView {
            plain: config.plain,
            model: config.model,
            answer: seq![],
            thought: None,
            shown: None,
            failure: None,
        }
    }

    /// What an event does, what is shown for it, and whether more is awaited.
    /// The frame of the thoughts is closed before that of the answer opens.
    pub open spec fn step(self, event: EventView) -> (AnswerView, Seq<char>, bool) {
        match event {
            EventView::Thought(text) => {
                let (frame, out) = show_in(
                    self.thought,
                    StreamKind::Thought,
                    self.plain,
                    self.model,
                    text,
                );
                (AnswerView { thought: Some(frame), ..self }, out, true)
            },
            EventView::Answer(text) => {
                let (frame, out) = show_in(
                    self.shown,
                    StreamKind::Answer,
                    self.plain,
                    self.model,
                    text,
                );
                let next = AnswerView {
                    answer: self.answer + text,
                    shown: Some(frame),
                    ..self
                };
                if self.shown is None {
                    (AnswerView { thought: None, ..next }, closing(self.thought) + out, true)
                } else {
                    (next, out, true)
                }
            },
            EventView::Done => (self, seq![], false),
            EventView::Failed(message) => (
                AnswerView { failure: Some(message), ..self },
                seq![],
                false,
            ),
            EventView::Other => (self, seq![], true),
        }
    }

    /// What lines of the bridge do, and what is shown for them, up to the
    /// first line that ends the answer.
    pub open spec fn run(self, lines: Seq<Seq<char>>) -> (AnswerView, Seq<char>)
        decreases lines.len(),
    {
        if lines.len() == 0 {
            (self, seq![])
        } else {
            let (next, out1, more) = self.step(event_of(lines[0]));
            if more {
                let (end, out2) = next.run(lines.skip(1));
                (end, out1 + out2)
            } else {
                (next, out1)
            }
        }
    }

    /// What comes of the answer once the bridge has ended, and what is shown
    /// then. A failure that the bridge reported counts before its exit status,
    /// and open frames are closed only where there is an answer.
    pub open spec fn outcome(self, success: bool, status: Seq<char>, stderr: Seq<char>) -> (
        Result<Seq<char>, Seq<char>>,
        Seq<char>,
    ) {
        match self.failure {
            Some(message) => (Err(message), seq![]),
            None => if success {
                (Ok(self.answer), closing(self.thought) + closing(self.shown))
            } else if trimmed(stderr).len() == 0 {
                (Err("Python bridge exited with status "@ + status), seq![])
            } else {
                (Err(trimmed(stderr)), seq![])
            },
        }
    }
}

/// An answer on its way.
pub struct AnswerStream<'a> {
    config: &'a Config,
    answer: String,
    thought: Option<StreamRenderer<'a>>,
    shown: Option<StreamRenderer<'a>>,
    failure: Option<String>,
}

/// The state of an optional renderer.
pub open spec fn opt_view(r: Option<StreamRenderer<'_>>) -> Option<RendererView> {
    match r {
        Some(renderer) => Some(renderer@),
        None => None,
    }
}

/// The text of an answer, or of what went wrong.
pub open spec fn result_text(r: Result<String, String>) -> Result<Seq<char>, Seq<char>> {
    match r {
        Ok(text) => Ok(text@),
        Err(message) => Err(message@),
    }
}

impl<'a> View for AnswerStream<'a> {
    type V = AnswerView;

    closed spec fn view(&self) -> AnswerView {
        AnswerView {
            plain: self.config@.plain,
            model: self.config@.model,
            answer: self.answer@,
            thought: opt_view(self.thought),
            shown: opt_view(self.shown),
            failure: opt_text(self.failure),
        }
    }
}

impl<'a> AnswerStream<'a> {
    /// What holds between any two operations.
    pub closed spec fn wf(&self) -> bool {
        &&& self.thought matches Some(r) ==> r.wf() && r.settings() == self.config
        &&& self.shown matches Some(r) ==> r.wf() && r.settings() == self.config
    }

    /// The settings that the answer is shown with.
    pub closed spec fn settings(&self) -> Config {
        *self.config
    }

    /// Awaits an answer.
    pub fn new(config: &'a Config) -> (r: Self)
        ensures
            r.wf(),
            r.settings() == *config,
            r@ == AnswerView::start(config@),
    {
        AnswerStream {
            config,
            answer: String::new(),
            thought: None,
            shown: None,
            failure: None,
        }
    }

    /// Shows text in an open frame, or in a new one.
    fn show(
        config: &'a Config,
        frame: Option<StreamRenderer<'a>>,
        kind: StreamKind,
        text: &str,
        out: &mut String,
    ) -> (r: StreamRenderer<'a>)
        requires
            frame matches Some(open) ==> open.wf() && open.settings() == config,
        ensures
            r.wf(),
            r.settings() == config,
            (r@, final(out)@) == ({
                let (next, shown) = show_in(
                    opt_view(frame),
                    kind,
                    config@.plain,
                    config@.model,
                    text@,
                );
                (next, old(out)@ + shown)
            }),
    {
        match frame {
            Some(open) => {
                let mut renderer = open;
                renderer.feed(text, out);
                renderer
            },
            None => {
                let mut renderer = StreamRenderer::new(config, kind, out);
                renderer.feed(text, out);
                assert(out@ == old(out)@ + show_in(
                    None,
                    kind,
                    config@.plain,
                    config@.model,
                    text@,
                ).1);
                renderer
            },
        }
    }

    /// Closes a frame.
    fn close(frame: Option<StreamRenderer<'a>>, out: &mut String)
        requires
            frame matches Some(open) ==> open.wf(),
        ensures
            final(out)@ == old(out)@ + closing(opt_view(frame)),
    {
        match frame {
            Some(open) => {
                let mut renderer = open;
                renderer.finish(out);
            },
            None => {},
        }
    }

    /// Takes in a line of the bridge, and says whether more is awaited.
    pub fn read_line(&mut self, line: &str, out: &mut String) -> (more: bool)
        requires
            old(self).wf(),
        ensures
            final(self).wf(),
            final(self).settings() == old(self).settings(),
            final(self)@ == old(self)@.step(event_of(line@)).0,
            final(out)@ == old(out)@ + old(self)@.step(event_of(line@)).1,
            more == old(self)@.step(event_of(line@)).2,
    {
        match read_event(line) {
            BridgeEvent::Thought(text) => {
                let frame = self.thought.take();
                self.thought = Some(
                    Self::show(self.config, frame, StreamKind::Thought, text.as_str(), out),
                );
                true
            },
            BridgeEvent::Answer(text) => {
                let frame = self.shown.take();
                let ghost closed = if frame is None {
                    closing(opt_view(self.thought))
                } else {
                    seq![]
                };
                if frame.is_none() {
                    Self::close(self.thought.take(), out);
                }
                assert(out@ == old(out)@ + closed);
                self.answer.append(text.as_str());
                let renderer = Self::show(
                    self.config,
                    frame,
                    StreamKind::Answer,
                    text.as_str(),
                    out,
                );
                self.shown = Some(renderer);
                true
            },
            BridgeEvent::Done => false,
            BridgeEvent::Failed(message) => {
                self.failure = Some(message);
                false
            },
            BridgeEvent::Other => true,
        }
    }

    /// Concludes the answer, once the bridge has ended: whether it ended well,
    /// the name of its exit status, and what it wrote to its error output.
    pub fn conclude(self, success: bool, status: &str, stderr: &str, out: &mut String) -> (r:
        Result<String, String>)
        requires
            self.wf(),
        ensures
            result_text(r) == self@.outcome(success, status@, stderr@).0,
            final(out)@ == old(out)@ + self@.outcome(success, status@, stderr@).1,
    {
        match self.failure {
            Some(message) => {
                return Err(message);
            },
            None => {},
        }
        if !success {
            let detail = trim(stderr);
            return Err(
                if detail.as_str().is_empty() {
                    let mut message = "Python bridge exited with status ".to_owned();
                    message.append(status);
                    message
                } else {
                    detail
                },
            );
        }
        Self::close(self.thought, out);
        Self::close(self.shown, out);
        assert(out@ == old(out)@ + (closing(opt_view(self.thought)) + closing(
            opt_view(self.shown),
        )));
        Ok(self.answer)
    }
}

/// What a line says in a field, and nothing where it has no such field.
pub open spec fn told(line: Seq<char>, key: Seq<char>) -> Seq<char> {
    match field(line, key) {
        Some(value) => value,
        None => Seq::<char>::empty(),
    }
}

/// Whether a line is of the given type.
pub open spec fn is_type(line: Seq<char>, kind: Seq<char>) -> bool {
    field(line, "type"@) == Some(kind)
}

/// Whether a line ends the answer.
pub open spec fn ends_answer(line: Seq<char>) -> bool {
    is_type(line, "done"@) || is_type(line, "error"@)
}

/// The texts of all lines of a type, one after another, up to the first line
/// that ends the answer.
pub open spec fn texts_of(lines: Seq<Seq<char>>, kind: Seq<char>) -> Seq<char>
    decreases lines.len(),
{
    if lines.len() == 0 || ends_answer(lines[0]) {
        seq![]
    } else if is_type(lines[0], kind) {
        told(lines[0], "text"@) + texts_of(lines.skip(1), kind)
    } else {
        texts_of(lines.skip(1), kind)
    }
}

/// The texts of the answer in lines of the bridge, one after another, up to
/// the first line that ends the answer.
pub open spec fn answer_text(lines: Seq<Seq<char>>) -> Seq<char> {
    texts_of(lines, "answer"@)
}

/// The failure that lines of the bridge report, where the first line that
/// ends the answer reports one.
pub open spec fn reported_failure(lines: Seq<Seq<char>>) -> Option<Seq<char>>
    decreases lines.len(),
{
    if lines.len() == 0 {
        None
    } else if is_type(lines[0], "error"@) {
        match field(lines[0], "message"@) {
            Some(message) => Some(message),
            None => Some("unknown bridge error"@),
        }
    } else if is_type(lines[0], "done"@) {
        None
    } else {
        reported_failure(lines.skip(1))
    }
}

/// What a line says is told by its fields: its type, and its text or message.
/// A thought or an answer counts with exactly its text, unless it has none.
pub proof fn law_events(line: Seq<char>)
    ensures
        is_type(line, "answer"@) && told(line, "text"@).len() > 0 ==> event_of(line)
            == EventView::Answer(told(line, "text"@)),
        is_type(line, "thought"@) && told(line, "text"@).len() > 0 ==> event_of(line)
            == EventView::Thought(told(line, "text"@)),
        is_type(line, "done"@) ==> event_of(line) is Done,
        is_type(line, "error"@) && field(line, "message"@) is Some ==> event_of(line)
            == EventView::Failed(field(line, "message"@)->0),
        is_type(line, "error"@) && field(line, "message"@) is None ==> event_of(line)
            == EventView::Failed("unknown bridge error"@),
        (is_type(line, "answer"@) || is_type(line, "thought"@)) && told(line, "text"@).len() == 0
            ==> event_of(line) is Other,
        !is_type(line, "answer"@) && !is_type(line, "thought"@) && !ends_answer(line) ==> event_of(
            line,
        ) is Other,
{
    reveal_strlit("thought");
    reveal_strlit("answer");
    reveal_strlit("done");
    reveal_strlit("error");
    assert("done"@.len() < "error"@.len() < "answer"@.len() < "thought"@.len());
}

/// A line is of one type only.
proof fn lemma_types_differ()
    ensures
        "thought"@ != "answer"@,
        "thought"@ != "done"@,
        "thought"@ != "error"@,
        "answer"@ != "done"@,
        "answer"@ != "error"@,
        "done"@ != "error"@,
{
    reveal_strlit("thought");
    reveal_strlit("answer");
    reveal_strlit("done");
    reveal_strlit("error");
    assert("done"@.len() < "error"@.len() < "answer"@.len() < "thought"@.len());
}

proof fn lemma_run(v: AnswerView, lines: Seq<Seq<char>>)
    requires
        v.failure is None,
    ensures
        v.run(lines).0.answer == v.answer + answer_text(lines),
        v.run(lines).0.failure == reported_failure(lines),
    decreases lines.len(),
{
    if lines.len() == 0 {
        assert(v.answer + Seq::<char>::empty() == v.answer);
    } else {
        law_events(lines[0]);
        lemma_types_differ();
        let (next, _, more) = v.step(event_of(lines[0]));
        if more {
            lemma_run(next, lines.skip(1));
            let text = told(lines[0], "text"@);
            let rest = answer_text(lines.skip(1));
            if event_of(lines[0]) is Answer {
                assert(v.answer + text + rest == v.answer + (text + rest));
            } else if is_type(lines[0], "answer"@) {
                assert(text + rest == rest);
            }
        } else {
            assert(v.answer + Seq::<char>::empty() == v.answer);
        }
    }
}

/// The answer is what the answer events say, one after another; a failure
/// that the bridge reports is handed on in its own words, however the bridge
/// ends; and a bridge that reports none but ends badly gives no answer, but
/// what it wrote to its error output or, where that is blank, its exit status.
pub proof fn law_answer_is_what_the_bridge_says(
    config: ConfigView,
    lines: Seq<Seq<char>>,
    success: bool,
    status: Seq<char>,
    stderr: Seq<char>,
)
    ensures
        ({
            let (end, _) = AnswerView::start(config).run(lines);
            let (r, _) = end.outcome(success, status, stderr);
            match reported_failure(lines) {
                Some(message) => r == Err::<Seq<char>, Seq<char>>(message),
                None => if success {
                    r == Ok::<Seq<char>, Seq<char>>(answer_text(lines))
                } else if trimmed(stderr).len() > 0 {
                    r == Err::<Seq<char>, Seq<char>>(trimmed(stderr))
                } else {
                    r == Err::<Seq<char>, Seq<char>>(
                        "Python bridge exited with status "@ + status,
                    )
                },
            }
        }),
{
    lemma_run(AnswerView::start(config), lines);
    assert(Seq::<char>::empty() + answer_text(lines) == answer_text(lines));
}

/// Lines behind the one that ends the answer change nothing.
pub proof fn law_nothing_counts_after_the_end(
    v: AnswerView,
    before: Seq<Seq<char>>,
    end: Seq<char>,
    after: Seq<Seq<char>>,
)
    requires
        ends_answer(end),
    ensures
        v.run(before.push(end) + after) == v.run(before.push(end)),
    decreases before.len(),
{
    law_events(end);
    let short = before.push(end);
    let long = short + after;
    if before.len() == 0 {
        assert(short[0] == end && long[0] == end);
    } else {
        assert(short[0] == before[0] && long[0] == before[0]);
        assert(short.skip(1) == before.skip(1).push(end));
        assert(long.skip(1) == before.skip(1).push(end) + after);
        let (next, _, _) = v.step(event_of(before[0]));
        law_nothing_counts_after_the_end(next, before.skip(1), end, after);
    }
}

/// The texts of the thoughts in lines of the bridge, one after another, up to
/// the first line that ends the answer.
pub open spec fn thought_text(lines: Seq<Seq<char>>) -> Seq<char> {
    texts_of(lines, "thought"@)
}

/// No thought comes after the answer has begun.
pub open spec fn thoughts_come_first(lines: Seq<Seq<char>>) -> bool
    decreases lines.len(),
{
    if lines.len() == 0 || ends_answer(lines[0]) {
        true
    } else if is_type(lines[0], "answer"@) && told(lines[0], "text"@).len() > 0 {
        thought_text(lines.skip(1)).len() == 0
    } else {
        thoughts_come_first(lines.skip(1))
    }
}

/// A text in a frame of its own, or nothing where there is no text.
pub open spec fn framed(
    kind: StreamKind,
    plain: bool,
    model: Seq<char>,
    text: Seq<char>,
) -> Seq<char> {
    if text.len() == 0 {
        seq![]
    } else {
        shown_stream(kind, plain, model, text)
    }
}

/// The frame in which `text` has been shown.
spec fn frame_of(kind: StreamKind, plain: bool, text: Seq<char>) -> Option<RendererView> {
    if text.len() == 0 {
        None
    } else {
        Some(RendererView::at_line_start(kind, plain, false).run(text).0)
    }
}

/// What is shown of a frame that is still open.
spec fn open_part(kind: StreamKind, plain: bool, model: Seq<char>, text: Seq<char>) -> Seq<char> {
    if text.len() == 0 {
        seq![]
    } else {
        header(kind, plain, model) + RendererView::at_line_start(kind, plain, false).run(text).1
    }
}

/// The state in which the thoughts `t` and the answer `a` have been shown.
spec fn has_shown(v: AnswerView, t: Seq<char>, a: Seq<char>) -> bool {
    &&& v.answer == a
    &&& v.failure is None
    &&& v.shown == frame_of(StreamKind::Answer, v.plain, a)
    &&& v.thought == if a.len() == 0 {
        frame_of(StreamKind::Thought, v.plain, t)
    } else {
        None
    }
}

/// What is shown in such a state.
spec fn shown_so_far(v: AnswerView, t: Seq<char>, a: Seq<char>) -> Seq<char> {
    if a.len() == 0 {
        open_part(StreamKind::Thought, v.plain, v.model, t)
    } else {
        framed(StreamKind::Thought, v.plain, v.model, t) + open_part(
            StreamKind::Answer,
            v.plain,
            v.model,
            a,
        )
    }
}

proof fn lemma_show_more(
    kind: StreamKind,
    plain: bool,
    model: Seq<char>,
    before: Seq<char>,
    text: Seq<char>,
)
    requires
        text.len() > 0,
    ensures
        ({
            let (next, out) = show_in(frame_of(kind, plain, before), kind, plain, model, text);
            &&& Some(next) == frame_of(kind, plain, before + text)
            &&& open_part(kind, plain, model, before) + out == open_part(
                kind,
                plain,
                model,
                before + text,
            )
        }),
{
    let start = RendererView::at_line_start(kind, plain, false);
    if before.len() == 0 {
        assert(before + text == text);
        assert(Seq::<char>::empty() + (header(kind, plain, model) + start.run(text).1) == header(
            kind,
            plain,
            model,
        ) + start.run(text).1);
    } else {
        law_pieces_do_not_matter(start, before, text);
        let (mid, out1) = start.run(before);
        let (_, out2) = mid.run(text);
        assert(header(kind, plain, model) + out1 + out2 == header(kind, plain, model) + (out1
            + out2));
    }
}

proof fn lemma_close(kind: StreamKind, plain: bool, model: Seq<char>, text: Seq<char>)
    ensures
        open_part(kind, plain, model, text) + closing(frame_of(kind, plain, text)) == framed(
            kind,
            plain,
            model,
            text,
        ),
{
    if text.len() == 0 {
        assert(Seq::<char>::empty() + Seq::<char>::empty() == Seq::<char>::empty());
    }
}

proof fn lemma_shown_step(v: AnswerView, t: Seq<char>, a: Seq<char>, line: Seq<char>)
    requires
        has_shown(v, t, a),
        event_of(line) is Thought ==> a.len() == 0,
    ensures
        ({
            let (next, out, more) = v.step(event_of(line));
            match event_of(line) {
                EventView::Thought(text) => {
                    &&& has_shown(next, t + text, a)
                    &&& next.plain == v.plain && next.model == v.model
                    &&& shown_so_far(v, t, a) + out == shown_so_far(v, t + text, a)
                },
                EventView::Answer(text) => {
                    &&& has_shown(next, t, a + text)
                    &&& next.plain == v.plain && next.model == v.model
                    &&& shown_so_far(v, t, a) + out == shown_so_far(v, t, a + text)
                },
                _ => true,
            }
        }),
{
    let plain = v.plain;
    let model = v.model;
    match event_of(line) {
        EventView::Thought(text) => {
            lemma_show_more(StreamKind::Thought, plain, model, t, text);
        },
        EventView::Answer(text) => {
            lemma_show_more(StreamKind::Answer, plain, model, a, text);
            lemma_close(StreamKind::Thought, plain, model, t);
            let (_, out) = show_in(v.shown, StreamKind::Answer, plain, model, text);
            let thoughts = framed(StreamKind::Thought, plain, model, t);
            let part = open_part(StreamKind::Answer, plain, model, a);
            if a.len() == 0 {
                let opened = open_part(StreamKind::Thought, plain, model, t);
                let closed = closing(frame_of(StreamKind::Thought, plain, t));
                assert(Seq::<char>::empty() + out == out);
                assert(opened + (closed + out) == opened + closed + out);
            } else {
                assert(thoughts + part + out == thoughts + (part + out));
            }
        },
        _ => {},
    }
}

proof fn lemma_shown_run(v: AnswerView, t: Seq<char>, a: Seq<char>, lines: Seq<Seq<char>>)
    requires
        has_shown(v, t, a),
        a.len() == 0 ==> thoughts_come_first(lines),
        a.len() > 0 ==> thought_text(lines).len() == 0,
        reported_failure(lines) is None,
    ensures
        ({
            let (end, out) = v.run(lines);
            let t2 = t + thought_text(lines);
            let a2 = a + answer_text(lines);
            &&& has_shown(end, t2, a2)
            &&& end.plain == v.plain && end.model == v.model
            &&& shown_so_far(v, t, a) + out == shown_so_far(v, t2, a2)
        }),
    decreases lines.len(),
{
    let none = Seq::<char>::empty();
    assert(t + none == t && a + none == a);
    assert(shown_so_far(v, t, a) + none == shown_so_far(v, t, a));
    if lines.len() > 0 {
        let rest = lines.skip(1);
        let (next, out1, more) = v.step(event_of(lines[0]));
        let (end, out2) = next.run(rest);
        let before = shown_so_far(v, t, a);
        assert(before + (out1 + out2) == before + out1 + out2);
        law_events(lines[0]);
        lemma_types_differ();
        assert(none + thought_text(rest) == thought_text(rest));
        assert(none + answer_text(rest) == answer_text(rest));
        if told(lines[0], "text"@).len() == 0 {
            assert(told(lines[0], "text"@) == none);
        }
        match event_of(lines[0]) {
            EventView::Thought(text) => {
                assert(thought_text(lines).len() > 0);
                lemma_shown_step(v, t, a, lines[0]);
                lemma_shown_run(next, t + text, a, rest);
                assert(t + text + thought_text(rest) == t + (text + thought_text(rest)));
            },
            EventView::Answer(text) => {
                lemma_shown_step(v, t, a, lines[0]);
                lemma_shown_run(next, t, a + text, rest);
                assert(a + text + answer_text(rest) == a + (text + answer_text(rest)));
            },
            EventView::Done | EventView::Failed(_) => {},
            EventView::Other => {
                lemma_shown_run(next, t, a, rest);
                assert(out1 + out2 == out2);
            },
        }
    }
}

/// However an answer is cut into events, it is shown as one: where the
/// thoughts come first, what is on the screen in the end is a frame with all
/// thoughts and a frame with the whole answer.
pub proof fn law_answer_is_shown_as_one(
    config: ConfigView,
    lines: Seq<Seq<char>>,
    status: Seq<char>,
    stderr: Seq<char>,
)
    requires
        thoughts_come_first(lines),
        reported_failure(lines) is None,
    ensures
        ({
            let (end, out) = AnswerView::start(config).run(lines);
            out + end.outcome(true, status, stderr).1 == framed(
                StreamKind::Thought,
                config.plain,
                config.model,
                thought_text(lines),
            ) + framed(StreamKind::Answer, config.plain, config.model, answer_text(lines))
        }),
{
    let none = Seq::<char>::empty();
    let v = AnswerView::start(config);
    let t = thought_text(lines);
    let a = answer_text(lines);
    lemma_shown_run(v, none, none, lines);
    assert(none + t == t && none + a == a);
    let (end, out) = v.run(lines);
    assert(shown_so_far(v, none, none) + out == out);
    lemma_close(StreamKind::Thought, v.plain, v.model, t);
    lemma_close(StreamKind::Answer, v.plain, v.model, a);
    let thoughts = framed(StreamKind::Thought, v.plain, v.model, t);
    let part = open_part(StreamKind::Answer, v.plain, v.model, a);
    let closed = closing(end.shown);
    if a.len() == 0 {
        assert(out + (closing(end.thought) + none) == out + closing(end.thought));
        assert(thoughts + none == thoughts);
    } else {
        assert(thoughts + part + (none + closed) == thoughts + (part + closed));
    }
}

/// A thought is shown in the frame of the thoughts, which opens with the first
/// of them, and changes neither the answer nor its frame.
pub proof fn law_thoughts_are_shown(v: AnswerView, line: Seq<char>)
    requires
        is_type(line, "thought"@),
        told(line, "text"@).len() > 0,
    ensures
        ({
            let text = told(line, "text"@);
            let (next, out, more) = v.step(event_of(line));
            let start = RendererView::at_line_start(StreamKind::Thought, v.plain, false);
            &&& more
            &&& next.answer == v.answer && next.shown == v.shown && next.failure == v.failure
            &&& next.plain == v.plain && next.model == v.model
            &&& v.thought is None ==> next.thought == Some(start.run(text).0) && out == header(
                StreamKind::Thought,
                v.plain,
                v.model,
            ) + start.run(text).1
            &&& v.thought is Some ==> next.thought == Some(v.thought->0.run(text).0) && out
                == v.thought->0.run(text).1
        }),
{
    law_events(line);
}

/// A piece of the answer goes to the end of the answer and is shown in its
/// frame, which opens with the first piece, behind the frame of the thoughts.
pub proof fn law_answers_are_shown(v: AnswerView, line: Seq<char>)
    requires
        is_type(line, "answer"@),
        told(line, "text"@).len() > 0,
    ensures
        ({
            let text = told(line, "text"@);
            let (next, out, more) = v.step(event_of(line));
            let start = RendererView::at_line_start(StreamKind::Answer, v.plain, false);
            let opening = header(StreamKind::Answer, v.plain, v.model) + start.run(text).1;
            &&& more
            &&& next.answer == v.answer + text && next.failure == v.failure
            &&& next.plain == v.plain && next.model == v.model
            &&& v.shown is None ==> next.shown == Some(start.run(text).0) && next.thought is None
            &&& v.shown is None && v.thought is None ==> out == opening
            &&& v.shown is None && v.thought is Some ==> out == v.thought->0.finished().1 + opening
            &&& v.shown is Some ==> next.shown == Some(v.shown->0.run(text).0) && next.thought
                == v.thought && out == v.shown->0.run(text).1
        }),
{
    law_events(line);
    let start = RendererView::at_line_start(StreamKind::Answer, v.plain, false);
    let opening = header(StreamKind::Answer, v.plain, v.model) + start.run(
        told(line, "text"@),
    ).1;
    assert(Seq::<char>::empty() + opening == opening);
}

/// Where there is no answer nothing more is shown, and where there is one the
/// frames that are still open are closed, that of the thoughts first.
pub proof fn law_frames_are_closed(
    v: AnswerView,
    success: bool,
    status: Seq<char>,
    stderr: Seq<char>,
)
    ensures
        ({
            let (r, out) = v.outcome(success, status, stderr);
            let first = if v.thought is Some {
                v.thought->0.finished().1
            } else {
                Seq::<char>::empty()
            };
            let second = if v.shown is Some {
                v.shown->0.finished().1
            } else {
                Seq::<char>::empty()
            };
            &&& r is Ok <==> success && v.failure is None
            &&& r is Ok ==> r->Ok_0 == v.answer && out == first + second
            &&& r is Err ==> out == Seq::<char>::empty()
        }),
{
}

/// The texts of events and results are those of their strings, in their order.
pub proof fn law_result_texts(text: String, list: Vec<String>, line: Seq<char>, key: Seq<char>)
    ensures
        BridgeEvent::Thought(text)@ == EventView::Thought(text@),
        BridgeEvent::Answer(text)@ == EventView::Answer(text@),
        BridgeEvent::Failed(text)@ == EventView::Failed(text@),
        BridgeEvent::Done@ is Done && BridgeEvent::Other@ is Other,
        result_text(Ok(text)) == Ok::<Seq<char>, Seq<char>>(text@),
        result_text(Err(text)) == Err::<Seq<char>, Seq<char>>(text@),
        list_texts(Err(text)) == Err::<Seq<Seq<char>>, Seq<char>>(text@),
        list_texts(Ok(list)) is Ok,
        list_texts(Ok(list))->Ok_0.len() == list@.len(),
        forall|i: int|
            0 <= i < list@.len() ==> #[trigger] list_texts(Ok(list))->Ok_0[i] == list@[i]@,
        field(line, key) is Some ==> field_or(line, key, text@) == field(line, key)->0,
        field(line, key) is None ==> field_or(line, key, text@) == text@,
{
}

// ---------------------------------------------------------------------------
// The list of models
// ---------------------------------------------------------------------------

/// How far a list of models has come.
#[verifier::ext_equal]
pub struct FetchView {
    /// The models so far.
    pub models: Seq<Seq<char>>,
    /// Why there is no list.
    pub failure: Option<Seq<char>>,
}

impl FetchView {
    /// Before the first line.
    pub open spec fn start() -> FetchView {
        FetchView { models: seq![], failure: None }
    }

    /// What a line of the bridge does, and whether more is awaited.
    pub open spec fn step(self, line: Seq<char>) -> (FetchView, bool) {
        let kind = field_or(line, "type"@, seq![]);
        if kind == "error"@ {
            match field(line, "message"@) {
                Some(message) => (FetchView { failure: Some(message), ..self }, false),
                None => (self, true),
            }
        } else if kind == "model_item"@ {
            match field(line, "text"@) {
                Some(text) => (FetchView { models: self.models.push(text), ..self }, true),
                None => (self, true),
            }
        } else {
            (self, kind != "done"@)
        }
    }

    /// What lines of the bridge do, up to the first that ends the list.
    pub open spec fn run(self, lines: Seq<Seq<char>>) -> FetchView
        decreases lines.len(),
    {
        if lines.len() == 0 {
            self
        } else {
            let (next, more) = self.step(lines[0]);
            if more {
                next.run(lines.skip(1))
            } else {
                next
            }
        }
    }

    /// What comes of the list.
    pub open spec fn outcome(self) -> Result<Seq<Seq<char>>, Seq<char>> {
        match self.failure {
            Some(message) => Err(message),
            None => if self.models.len() == 0 {
                Err("bridge returned no models"@)
            } else {
                Ok(self.models)
            },
        }
    }
}

/// A list of models on its way.
pub struct ModelFetch {
    models: Vec<String>,
    failure: Option<String>,
}

/// The texts of a list, or of what went wrong.
pub open spec fn list_texts(r: Result<Vec<String>, String>) -> Result<Seq<Seq<char>>, Seq<char>> {
    match r {
        Ok(list) => Ok(texts(list@)),
        Err(message) => Err(message@),
    }
}

impl View for ModelFetch {
    type V = FetchView;

    closed spec fn view(&self) -> FetchView {
        FetchView { models: texts(self.models@), failure: opt_text(self.failure) }
    }
}

impl ModelFetch {
    /// Awaits a list of models.
    pub fn new() -> (r: Self)
        ensures
            r@ == FetchView::start(),
    {
        let r = ModelFetch { models: Vec::new(), failure: None };
        assert(texts(r.models@) == Seq::<Seq<char>>::empty());
        r
    }

    /// Takes in a line of the bridge, and says whether more is awaited.
    pub fn read_line(&mut self, line: &str) -> (more: bool)
        ensures
            final(self)@ == old(self)@.step(line@).0,
            more == old(self)@.step(line@).1,
    {
        proof {
            reveal_strlit("");
            assert(""@ == Seq::<char>::empty());
        }
        let kind = read_field(line, "type", "");
        if same(kind.as_str(), "error") {
            match json_field(line, "message") {
                Some(message) => {
                    self.failure = Some(message);
                    false
                },
                None => true,
            }
        } else if same(kind.as_str(), "model_item") {
            match json_field(line, "text") {
                Some(text) => {
                    self.models.push(text);
                    assert(texts(self.models@) == texts(old(self).models@).push(text@));
                    true
                },
                None => true,
            }
        } else {
            !same(kind.as_str(), "done")
        }
    }

    /// The list, once no more lines come.
    pub fn finish(self) -> (r: Result<Vec<String>, String>)
        ensures
            list_texts(r) == self@.outcome(),
    {
        match self.failure {
            Some(message) => Err(message),
            None => {
                if self.models.len() == 0 {
                    Err("bridge returned no models".to_owned())
                } else {
                    Ok(self.models)
                }
            },
        }
    }
}

/// Whether a line ends the list of models: it says so, or it says why there
/// is no list.
pub open spec fn ends_list(line: Seq<char>) -> bool {
    is_type(line, "done"@) || (is_type(line, "error"@) && field(line, "message"@) is Some)
}

/// The model that a line names, if it names one.
pub open spec fn model_in(line: Seq<char>) -> Option<Seq<char>> {
    if is_type(line, "model_item"@) {
        field(line, "text"@)
    } else {
        None
    }
}

/// The names of the models in lines of the bridge, up to the first line that
/// ends the list.
pub open spec fn listed_models(lines: Seq<Seq<char>>) -> Seq<Seq<char>>
    decreases lines.len(),
{
    if lines.len() == 0 || ends_list(lines[0]) {
        seq![]
    } else {
        match model_in(lines[0]) {
            Some(name) => seq![name] + listed_models(lines.skip(1)),
            None => listed_models(lines.skip(1)),
        }
    }
}

/// What the first line that ends the list says went wrong, if it says so.
pub open spec fn listing_failure(lines: Seq<Seq<char>>) -> Option<Seq<char>>
    decreases lines.len(),
{
    if lines.len() == 0 {
        None
    } else if !ends_list(lines[0]) {
        listing_failure(lines.skip(1))
    } else if is_type(lines[0], "error"@) {
        field(lines[0], "message"@)
    } else {
        None
    }
}

proof fn lemma_fetch_run(v: FetchView, lines: Seq<Seq<char>>)
    requires
        v.failure is None,
    ensures
        v.run(lines).models == v.models + listed_models(lines),
        v.run(lines).failure == listing_failure(lines),
    decreases lines.len(),
{
    reveal_strlit("error");
    reveal_strlit("done");
    reveal_strlit("model_item");
    assert("done"@.len() < "error"@.len() < "model_item"@.len());
    assert(v.models + Seq::<Seq<char>>::empty() == v.models);
    if lines.len() > 0 {
        let (next, more) = v.step(lines[0]);
        assert(more == !ends_list(lines[0]));
        if more {
            lemma_fetch_run(next, lines.skip(1));
            if let Some(name) = model_in(lines[0]) {
                let rest = listed_models(lines.skip(1));
                assert(next.models == v.models.push(name));
                assert(v.models.push(name) + rest == v.models + (seq![name] + rest));
            }
        }
    }
}

/// A list of models is what the bridge lists, in its order; a failure that
/// the bridge reports is handed on in its own words, whatever was listed
/// before; and an empty list is a failure too.
pub proof fn law_list_is_what_the_bridge_lists(lines: Seq<Seq<char>>)
    ensures
        FetchView::start().run(lines).outcome() == match listing_failure(lines) {
            Some(message) => Err::<Seq<Seq<char>>, Seq<char>>(message),
            None => if listed_models(lines).len() == 0 {
                Err("bridge returned no models"@)
            } else {
                Ok(listed_models(lines))
            },
        },
{
    lemma_fetch_run(FetchView::start(), lines);
    assert(Seq::<Seq<char>>::empty() + listed_models(lines) == listed_models(lines));
}

} // verus!
