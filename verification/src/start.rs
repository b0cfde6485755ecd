//! What a run begins with, and what it is for.

use crate::config::{messages, Config, ConfigView, Message, MessageView};
use crate::screen::{banner, demo, print_banner, run_demo};
use vstd::prelude::*;

verus! {

/// What a run is for, once its settings are known.
pub enum Task {
    /// Everything has been shown.
    Finish,
    /// One answer to this conversation.
    AskOnce(Vec<Message>),
    /// A chat.
    Chat,
}

/// What a [`Task`] holds.
pub enum TaskView {
    Finish,
    AskOnce(Seq<MessageView>),
    Chat,
}

impl View for Task {
    type V = TaskView;

    open spec fn view(&self) -> TaskView {
        match *self {
            Task::Finish => TaskView::Finish,
            Task::AskOnce(history) => TaskView::AskOnce(messages(history@)),
            Task::Chat => TaskView::Chat,
        }
    }
}

/// What a run is for: the demonstration, or else the prompt of the command
/// line, or else a chat.
pub open spec fn task_of(config: ConfigView) -> TaskView {
    if config.demo {
        TaskView::Finish
    } else {
        match config.prompt {
            Some(prompt) => TaskView::AskOnce(
                seq![MessageView { role: "user"@, content: prompt }],
            ),
            None => TaskView::Chat,
        }
    }
}

/// What is shown at the beginning: the banner, unless colors are off, and the
/// demonstration, where it is asked for.
pub open spec fn opening(config: ConfigView) -> Seq<char> {
    (if config.plain {
        seq![]
    } else {
        banner(config)
    }) + (if config.demo {
        demo(config)
    } else {
        seq![]
    })
}

/// Begins a run with the given settings.
pub fn begin(config: &Config, out: &mut String) -> (task: Task)
    ensures
        task@ == task_of(config@),
        final(out)@ == old(out)@ + opening(config@),
{
    if !config.plain {
        print_banner(config, out);
    }
    if config.demo {
        run_demo(config, out);
        assert(out@ == old(out)@ + opening(config@));
        return Task::Finish;
    }
    assert(out@ == old(out)@ + opening(config@));
    match &config.prompt {
        Some(prompt) => {
            let message = Message { role: "user".to_owned(), content: prompt.clone() };
            let mut history: Vec<Message> = Vec::new();
            history.push(message);
            assert(messages(history@) == seq![message@]);
            Task::AskOnce(history)
        },
        None => Task::Chat,
    }
}

} // verus!
