//! What every run begins with, what a settings file gives, and what is said of
//! a bridge that fails.

use crate::config::{messages, ConfigView, Message, MessageView};
use crate::dotenv::{assignment, effective, env_value, lines_of, value_in};
use crate::faults::{answer_fault_text, fetch_fault_text, AnswerFault, FetchFault};
use crate::screen::{banner, demo};
use crate::start::{opening, task_of, Task, TaskView};
use vstd::prelude::*;

verus! {

/// The demonstration comes before all else; a prompt is asked once, as it was
/// given; and without either there is a chat.
pub proof fn law_tasks(c: ConfigView)
    ensures
        c.demo ==> task_of(c) is Finish,
        !c.demo && c.prompt is Some ==> task_of(c) == TaskView::AskOnce(
            seq![MessageView { role: "user"@, content: c.prompt->0 }],
        ),
        !c.demo && c.prompt is None ==> task_of(c) is Chat,
{
}

/// The mathematical value of a task is that of its conversation.
pub proof fn law_task_values(history: Vec<Message>)
    ensures
        Task::Finish@ is Finish && Task::Chat@ is Chat,
        Task::AskOnce(history)@ == TaskView::AskOnce(messages(history@)),
{
}

/// A run opens with the banner where there are colors, then with the
/// demonstration where it is asked for, and with nothing else.
pub proof fn law_openings(c: ConfigView)
    ensures
        c.plain && !c.demo ==> opening(c).len() == 0,
        !c.plain && !c.demo ==> opening(c) == banner(c),
        c.plain && c.demo ==> opening(c) == demo(c),
        !c.plain && c.demo ==> opening(c) == banner(c) + demo(c),
{
    let none = Seq::<char>::empty();
    assert(banner(c) + none == banner(c));
    assert(none + demo(c) == demo(c));
}

/// Every line of a text stands in it: at its beginning or behind a line feed.
proof fn lemma_where_a_line_stands(text: Seq<char>, k: int) -> (at: int)
    requires
        0 <= k < lines_of(text).len(),
    ensures
        0 <= at <= text.len() - lines_of(text)[k].len(),
        text.subrange(at, at + lines_of(text)[k].len()) == lines_of(text)[k],
        at > 0 ==> text[at - 1] == '\n',
        k == lines_of(text).len() - 1 ==> at + lines_of(text)[k].len() == text.len(),
    decreases text.len(),
{
    let all = lines_of(text);
    if text.len() == 0 {
        assert(text.subrange(0, 0) == all[0]);
        0
    } else {
        let init = text.drop_last();
        let before = lines_of(init);
        if text.last() == '\n' {
            if k == all.len() - 1 {
                assert(text.subrange(text.len() as int, text.len() as int) == all[k]);
                text.len() as int
            } else {
                let at = lemma_where_a_line_stands(init, k);
                assert(init.subrange(at, at + all[k].len()) == text.subrange(
                    at,
                    at + all[k].len(),
                ));
                at
            }
        } else {
            let at = lemma_where_a_line_stands(init, k);
            assert(init.subrange(at, at + before[k].len()) == text.subrange(
                at,
                at + before[k].len(),
            ));
            if k == all.len() - 1 {
                assert(all[k] == before[k].push(text.last()));
                assert(text.subrange(at, at + all[k].len()) == all[k]);
            }
            at
        }
    }
}

proof fn lemma_where_a_value_stands(lines: Seq<Seq<char>>, name: Seq<char>) -> (k: int)
    requires
        value_in(lines, name) is Some,
    ensures
        0 <= k < lines.len(),
        assignment(name).is_prefix_of(lines[k]),
    decreases lines.len(),
{
    if assignment(name).is_prefix_of(lines[0]) {
        0
    } else {
        1 + lemma_where_a_value_stands(lines.skip(1), name)
    }
}

/// A file in which the name and an equals sign stand neither at the beginning
/// nor behind a line feed gives the name no value.
pub proof fn law_names_that_are_not_set(text: Seq<char>, name: Seq<char>)
    requires
        forall|i: int|
            0 <= i <= text.len() - name.len() - 1 && #[trigger] text.subrange(
                i,
                i + name.len() + 1,
            ) == name.push('=') ==> i > 0 && text[i - 1] != '\n',
    ensures
        env_value(text, name) is None,
{
    if env_value(text, name) is Some {
        let lines = lines_of(text);
        let k = lemma_where_a_value_stands(lines, name);
        let at = lemma_where_a_line_stands(text, k);
        let n = (name.len() + 1) as int;
        assert(assignment(name) == name.push('='));
        assert(lines[k].take(n) == name.push('='));
        assert(text.subrange(at, at + n) == text.subrange(at, at + lines[k].len()).take(n));
        assert(text.subrange(at, at + name.len() + 1) == name.push('='));
    }
}

/// A variable of the process counts before the file, even where it is empty,
/// and without one the file decides.
pub proof fn law_the_process_comes_first(value: Seq<char>, text: Seq<char>, name: Seq<char>)
    ensures
        effective(Some(value), text, name) == Some(value),
        effective(None, text, name) == env_value(text, name),
{
}

/// What is said of a fault ends with what the operating system says of it, and
/// that a bridge could not be started is said with its path.
pub proof fn law_faults_are_named(bridge: String, err: String)
    ensures
        err@.is_suffix_of(answer_fault_text(AnswerFault::Start(bridge, err))),
        answer_fault_text(AnswerFault::Start(bridge, err)).take(
            answer_fault_text(AnswerFault::Start(bridge, err)).len() - err@.len(),
        ) == "failed to start Python bridge '"@ + bridge@ + "': "@,
        answer_fault_text(AnswerFault::NoInput) == "failed to open Python stdin"@,
        answer_fault_text(AnswerFault::Send(err)) == "failed to send prompt to Python bridge: "@
            + err@,
        answer_fault_text(AnswerFault::NoOutput) == "failed to read Python stdout"@,
        answer_fault_text(AnswerFault::Read(err)) == "failed while reading stream: "@ + err@,
        answer_fault_text(AnswerFault::Wait(err)) == "failed to wait for Python bridge: "@ + err@,
        fetch_fault_text(FetchFault::Start(err)) == "failed to start bridge: "@ + err@,
        fetch_fault_text(FetchFault::Read(err)) == "read error: "@ + err@,
{
    let head = "failed to start Python bridge '"@ + bridge@ + "': "@;
    let all = answer_fault_text(AnswerFault::Start(bridge, err));
    assert(all == head + err@);
    assert(all.take(all.len() - err@.len()) == head);
}

} // verus!
