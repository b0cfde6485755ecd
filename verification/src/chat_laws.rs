//! What holds of a chat as a whole.

use crate::chat::{
    command_of, completions, is_provider, model_message, user_message, CommandView, Next,
    SessionView,
};
use crate::config::{ConfigView, MessageView};
use crate::screen::error_note;
use crate::text::{is_white, lemma_trimmed_start, trimmed, trimmed_end, trimmed_start};
use vstd::prelude::*;

verus! {

/// A request that fails leaves no trace: the chat is as it was before the
/// line was entered, and the failure is reported.
pub proof fn law_failed_request_leaves_no_trace(
    s: SessionView,
    line: Seq<char>,
    google_model: Seq<char>,
    message: Seq<char>,
)
    requires
        command_of(line) is Say,
    ensures
        ({
            let (asked, reply) = s.enter(line, google_model);
            &&& reply.next == Next::Ask
            &&& asked.answered(Err(message)) == (s, error_note(s.config.plain, message))
        }),
{
    let text = trimmed(line);
    assert(s.history.push(user_message(text)).drop_last() == s.history);
}

/// A request that is answered adds the user's message and the answer to the
/// conversation, in this order and nothing else. A blank answer is not added.
pub proof fn law_answered_request_is_remembered(
    s: SessionView,
    line: Seq<char>,
    google_model: Seq<char>,
    answer: Seq<char>,
)
    requires
        command_of(line) is Say,
    ensures
        ({
            let (asked, _) = s.enter(line, google_model);
            let (after, err) = asked.answered(Ok(answer));
            &&& err == Seq::<char>::empty()
            &&& after.config == s.config
            &&& after.history == if trimmed(answer).len() == 0 {
                s.history.push(user_message(trimmed(line)))
            } else {
                s.history.push(user_message(trimmed(line))).push(model_message(answer))
            }
        }),
{
}

/// The conversation changes only where the user says something or clears it:
/// what is said goes to its end, and clearing empties it.
pub proof fn law_conversation_changes(s: SessionView, line: Seq<char>, google_model: Seq<char>)
    ensures
        ({
            let (after, reply) = s.enter(line, google_model);
            &&& (reply.next == Next::Ask) == (command_of(line) is Say)
            &&& after.history == match command_of(line) {
                CommandView::Say(text) => s.history.push(user_message(text)),
                CommandView::Clear => seq![],
                _ => s.history,
            }
        }),
{
}

/// A line changes no setting but the model and the provider, and those only
/// where it switches one of them.
pub proof fn law_settings_change(s: SessionView, line: Seq<char>, google_model: Seq<char>)
    ensures
        ({
            let (after, _) = s.enter(line, google_model);
            &&& after.config == (ConfigView {
                model: after.config.model,
                provider: after.config.provider,
                ..s.config
            })
            &&& !(command_of(line) is SwitchModel || command_of(line) is SwitchProvider)
                ==> after.config == s.config
        }),
{
}

/// A chat with one of the two providers never leaves them, whatever is
/// entered, answered or picked.
pub proof fn law_provider_stays_known(
    s: SessionView,
    line: Seq<char>,
    google_model: Seq<char>,
    answer: Result<Seq<char>, Seq<char>>,
    fetched: Result<Seq<Seq<char>>, Seq<char>>,
)
    requires
        is_provider(s.config.provider),
    ensures
        is_provider(s.enter(line, google_model).0.config.provider),
        is_provider(s.answered(answer).0.config.provider),
        is_provider(s.picked(fetched).0.config.provider),
{
}

/// A blank line does nothing at all, and every other line goes into the
/// history of the line editor.
pub proof fn law_blank_lines_do_nothing(s: SessionView, line: Seq<char>, google_model: Seq<char>)
    ensures
        ({
            let (after, reply) = s.enter(line, google_model);
            if trimmed(line).len() == 0 {
                &&& after == s
                &&& reply.record is None
                &&& reply.out.len() == 0
                &&& reply.err.len() == 0
                &&& reply.next == Next::Read
            } else {
                reply.record == Some(trimmed(line))
            }
        }),
{
}

/// A conversation as the model is to see it: every message is of the user or
/// of the model, and none is blank.
pub open spec fn is_conversation(history: Seq<MessageView>) -> bool {
    forall|i: int|
        0 <= i < history.len() ==> {
            &&& (#[trigger] history[i]).role == "user"@ || history[i].role == "model"@
            &&& trimmed(history[i].content).len() > 0
        }
}

proof fn lemma_trimmed_end(s: Seq<char>)
    ensures
        trimmed_end(s).len() <= s.len(),
        s.len() > 0 && !is_white(s[0]) ==> trimmed_end(s).len() > 0 && trimmed_end(s)[0] == s[0],
    decreases s.len(),
{
    if s.len() > 0 && is_white(s.last()) {
        lemma_trimmed_end(s.drop_last());
    }
}

/// What is left of a line that is not blank is not blank.
proof fn lemma_trimmed_is_not_blank(s: Seq<char>)
    requires
        trimmed(s).len() > 0,
    ensures
        trimmed(trimmed(s)).len() > 0,
{
    let t = trimmed_start(s);
    lemma_trimmed_start(s);
    lemma_trimmed_end(t);
    assert(trimmed(s)[0] == t[0]);
    assert(trimmed_start(trimmed(s)) == trimmed(s));
    lemma_trimmed_end(trimmed(s));
}

/// A conversation stays one, whatever is entered, answered or picked.
pub proof fn law_conversation_stays_one(
    s: SessionView,
    line: Seq<char>,
    google_model: Seq<char>,
    answer: Result<Seq<char>, Seq<char>>,
    fetched: Result<Seq<Seq<char>>, Seq<char>>,
)
    requires
        is_conversation(s.history),
    ensures
        is_conversation(s.enter(line, google_model).0.history),
        is_conversation(s.answered(answer).0.history),
        is_conversation(s.picked(fetched).0.history),
{
    if let CommandView::Say(text) = command_of(line) {
        lemma_trimmed_is_not_blank(line);
    }
}

proof fn lemma_filtered(
    list: Seq<Seq<char>>,
    fits: spec_fn(Seq<char>) -> bool,
    item: Seq<char>,
)
    ensures
        list.filter(fits).contains(item) <==> list.contains(item) && fits(item),
    decreases list.len(),
{
    reveal(Seq::filter);
    if list.len() > 0 {
        let init = list.drop_last();
        let last = list.last();
        lemma_filtered(init, fits, item);
        let kept = init.filter(fits);
        assert(list == init.push(last));
        assert(list.contains(item) <==> init.contains(item) || item == last) by {
            if init.contains(item) {
                let i = choose|i: int| 0 <= i < init.len() && init[i] == item;
                assert(list[i] == item);
            }
            assert(list[list.len() - 1] == last);
        }
        assert(kept.push(last).contains(item) <==> kept.contains(item) || item == last) by {
            if kept.contains(item) {
                let i = choose|i: int| 0 <= i < kept.len() && kept[i] == item;
                assert(kept.push(last)[i] == item);
            }
            assert(kept.push(last)[kept.len() as int] == last);
        }
    }
}

/// Every completion is one of the commands and begins with what was typed,
/// and every command that begins with it is offered.
pub proof fn law_completions_begin_with_the_line(
    commands: Seq<Seq<char>>,
    line: Seq<char>,
    command: Seq<char>,
)
    ensures
        completions(commands, line).contains(command) <==> line.len() > 0 && line[0] == '/'
            && commands.contains(command) && line.is_prefix_of(command),
{
    lemma_filtered(commands, |c: Seq<char>| line.is_prefix_of(c), command);
}

} // verus!
