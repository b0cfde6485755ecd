//! What every line of the user means, and what every command does.

use crate::chat::{
    command_names, command_of, completions, first_installed, model_message, user_message,
    ChatSession, Command, CommandView, Next, Reply, SessionView,
};
use crate::config::{law_choosing_a_model, messages, ConfigView, MessageView};
use crate::screen::{banner, chat_help, error_note, notice, provider_list};
use crate::text::{before_char, joined, lowered, trimmed, words};
use crate::text_laws::{all_white, law_joining, law_trimming, law_words, no_white};
use vstd::prelude::*;

verus! {

/// A first word that names no command.
pub open spec fn names_no_command(name: Seq<char>) -> bool {
    &&& name != "/exit"@ && name != "/quit"@ && name != "/clear"@ && name != "/help"@
    &&& name != "/model"@ && name != "/models"@ && name != "/provider"@ && name != "/providers"@
}

proof fn lemma_command_names_differ()
    ensures
        "/clear"@ != "/exit"@ && "/clear"@ != "/quit"@,
        "/help"@ != "/exit"@ && "/help"@ != "/quit"@ && "/help"@ != "/clear"@,
        "/model"@ != "/exit"@ && "/model"@ != "/quit"@ && "/model"@ != "/clear"@,
        "/models"@ != "/exit"@ && "/models"@ != "/quit"@ && "/models"@ != "/clear"@,
        "/help"@ != "/model"@ && "/help"@ != "/models"@,
        "/provider"@ != "/exit"@ && "/provider"@ != "/quit"@ && "/provider"@ != "/clear"@,
        "/provider"@ != "/model"@ && "/provider"@ != "/models"@ && "/provider"@ != "/help"@,
        "/providers"@ != "/exit"@ && "/providers"@ != "/quit"@ && "/providers"@ != "/clear"@,
        "/providers"@ != "/model"@ && "/providers"@ != "/models"@ && "/providers"@ != "/help"@,
{
    reveal_strlit("/exit");
    reveal_strlit("/quit");
    reveal_strlit("/clear");
    reveal_strlit("/help");
    reveal_strlit("/model");
    reveal_strlit("/models");
    reveal_strlit("/provider");
    reveal_strlit("/providers");
    assert("/exit"@.len() == 5 && "/quit"@.len() == 5 && "/help"@.len() == 5);
    assert("/exit"@[1] == 'e' && "/quit"@[1] == 'q' && "/help"@[1] == 'h');
    assert("/clear"@.len() == 6 && "/model"@.len() == 6 && "/models"@.len() == 7);
    assert("/clear"@[1] == 'c' && "/model"@[1] == 'm');
    assert("/provider"@.len() == 9 && "/providers"@.len() == 10);
}

/// What a line means, from its words: a line without any means nothing, and
/// one that does not begin with a slash is said to the model. Otherwise the
/// first word names a command, and the words behind it are its value: for a
/// model all of them, for a provider the next one.
pub proof fn law_what_a_line_means(line: Seq<char>)
    ensures
        ({
            let input = trimmed(line);
            let parts = words(input);
            let name = parts[0];
            let said = command_of(line);
            &&& input.len() == 0 ==> said is Blank
            &&& input.len() > 0 && input[0] != '/' ==> said == CommandView::Say(input)
            &&& input.len() > 0 && input[0] == '/' ==> {
                &&& name == "/exit"@ || name == "/quit"@ ==> said is Exit
                &&& name == "/clear"@ ==> said is Clear
                &&& name == "/help"@ ==> said is Help
                &&& (name == "/model"@ || name == "/models"@) && parts.len() == 1 ==> said
                    is ListModels
                &&& (name == "/model"@ || name == "/models"@) && parts.len() > 1 ==> said
                    == CommandView::SwitchModel(joined(parts.skip(1), seq![' ']))
                &&& (name == "/provider"@ || name == "/providers"@) && parts.len() == 1 ==> said
                    is ListProviders
                &&& (name == "/provider"@ || name == "/providers"@) && parts.len() > 1 ==> said
                    == CommandView::SwitchProvider(lowered(parts[1]))
                &&& names_no_command(name) ==> said == CommandView::Unknown(name)
            }
        }),
{
    reveal_strlit(" ");
    assert(" "@ == seq![' ']);
    lemma_command_names_differ();
}

/// A command of one word, with white space around it, is understood.
pub proof fn law_commands_of_one_word(a: Seq<char>, name: Seq<char>, b: Seq<char>)
    requires
        all_white(a),
        all_white(b),
        name.len() > 0,
        no_white(name),
    ensures
        ({
            let said = command_of(a + name + b);
            &&& name == "/exit"@ || name == "/quit"@ ==> said is Exit
            &&& name == "/clear"@ ==> said is Clear
            &&& name == "/help"@ ==> said is Help
            &&& name == "/model"@ || name == "/models"@ ==> said is ListModels
            &&& name == "/provider"@ || name == "/providers"@ ==> said is ListProviders
            &&& name[0] == '/' && names_no_command(name) ==> said == CommandView::Unknown(name)
            &&& name[0] != '/' ==> said == CommandView::Say(name)
        }),
{
    let none = Seq::<char>::empty();
    law_trimming(a, name, b);
    law_words(none, name, none);
    assert(none + name + none == name);
    assert(seq![name] + Seq::<Seq<char>>::empty() == seq![name]);
    law_what_a_line_means(a + name + b);
    reveal_strlit("/exit");
    reveal_strlit("/quit");
    reveal_strlit("/clear");
    reveal_strlit("/help");
    reveal_strlit("/model");
    reveal_strlit("/models");
    reveal_strlit("/provider");
    reveal_strlit("/providers");
}

/// A command with a value of one word takes that word as it is, a provider in
/// small letters.
pub proof fn law_commands_with_a_value(
    a: Seq<char>,
    name: Seq<char>,
    gap: Seq<char>,
    value: Seq<char>,
    b: Seq<char>,
)
    requires
        all_white(a),
        all_white(gap),
        all_white(b),
        gap.len() > 0,
        value.len() > 0,
        no_white(value),
    ensures
        ({
            let said = command_of(a + (name + gap + value) + b);
            &&& name == "/model"@ || name == "/models"@ ==> said == CommandView::SwitchModel(value)
            &&& name == "/provider"@ || name == "/providers"@ ==> said
                == CommandView::SwitchProvider(lowered(value))
        }),
{
    reveal_strlit("/model");
    reveal_strlit("/models");
    reveal_strlit("/provider");
    reveal_strlit("/providers");
    if name == "/model"@ || name == "/models"@ || name == "/provider"@ || name == "/providers"@ {
        let none = Seq::<char>::empty();
        let input = name + gap + value;
        assert(input[0] == '/');
        assert(input.last() == value[value.len() - 1]);
        law_trimming(a, input, b);
        assert(gap + value + none == gap + value);
        law_words(gap, value, none);
        assert(none + name + (gap + value) == input);
        assert((gap + value)[0] == gap[0]);
        law_words(none, name, gap + value);
        let rest = seq![value];
        assert(seq![value] + Seq::<Seq<char>>::empty() == rest);
        assert(words(none) == Seq::<Seq<char>>::empty());
        assert(words(input) == seq![name] + rest);
        assert((seq![name] + rest).skip(1) == rest);
        let empty = Seq::<Seq<char>>::empty();
        law_joining(value, empty, seq![' ']);
        assert(seq![value] + empty == rest);
        law_what_a_line_means(a + input + b);
    }
}

/// Switching the model changes the model to the name, and the provider only
/// where the name begins with `ollama:`: then it is Ollama, and the name counts
/// without that. Nothing else changes, and what changed is said.
pub proof fn law_switching_the_model(
    s: SessionView,
    line: Seq<char>,
    google_model: Seq<char>,
    name: Seq<char>,
)
    requires
        !"ollama:"@.is_prefix_of(name),
    ensures
        ({
            let (after, reply) = s.enter(line, google_model);
            let told = notice(s.config.plain, "model switched to: "@ + name);
            &&& command_of(line) == CommandView::SwitchModel(name) ==> {
                &&& after.config == (ConfigView { model: name, ..s.config })
                &&& reply.out == told
            }
            &&& command_of(line) == CommandView::SwitchModel("ollama:"@ + name) ==> {
                &&& after.config == (ConfigView { model: name, provider: "ollama"@, ..s.config })
                &&& reply.out == notice(s.config.plain, "provider switched to: ollama"@) + told
            }
            &&& command_of(line) is SwitchModel ==> {
                &&& after.history == s.history
                &&& reply.err.len() == 0
                &&& reply.next == Next::Read
            }
        }),
{
    law_choosing_a_model(s.config, name);
    assert("ollama:"@.is_prefix_of("ollama:"@ + name));
    let told = notice(s.config.plain, "model switched to: "@ + name);
    assert(Seq::<char>::empty() + told == told);
}

/// Switching the provider: an unknown one is an error and changes nothing; the
/// current one stays, with all else; Ollama becomes the provider, and then a
/// model is picked; and Google becomes the provider with its model. Nothing
/// else changes, and what changed is said.
pub proof fn law_switching_the_provider(
    s: SessionView,
    line: Seq<char>,
    google_model: Seq<char>,
    name: Seq<char>,
)
    requires
        command_of(line) == CommandView::SwitchProvider(name),
    ensures
        ({
            let (after, reply) = s.enter(line, google_model);
            let plain = s.config.plain;
            let told = notice(plain, "provider switched to: "@ + name);
            &&& after.history == s.history
            &&& name != "google"@ && name != "ollama"@ ==> {
                &&& after == s
                &&& reply.out.len() == 0
                &&& reply.err == error_note(
                    plain,
                    "unknown provider. use 'google' or 'ollama'"@,
                )
                &&& reply.next == Next::Read
            }
            &&& name == "google"@ || name == "ollama"@ ==> reply.err.len() == 0
            &&& (name == "google"@ || name == "ollama"@) && name == s.config.provider ==> {
                &&& after == s
                &&& reply.out == told
                &&& reply.next == Next::Read
            }
            &&& name == "ollama"@ && name != s.config.provider ==> {
                &&& after.config == (ConfigView { provider: "ollama"@, ..s.config })
                &&& reply.out == told
                &&& reply.next == Next::PickModel
            }
            &&& name == "google"@ && name != s.config.provider ==> {
                &&& after.config == (ConfigView {
                    provider: "google"@,
                    model: google_model,
                    ..s.config
                })
                &&& reply.out == told + notice(
                    plain,
                    "reset to default google model: "@ + google_model,
                )
                &&& reply.next == Next::Read
            }
        }),
{
    reveal_strlit("google");
    reveal_strlit("ollama");
    assert("google"@[0] == 'g' && "ollama"@[0] == 'o');
}

/// The other commands: leaving ends the chat and prints nothing; clearing
/// empties the conversation, clears the screen and shows the banner where
/// there are colors; the lists and the help are shown; and a command that
/// there is not is named in an error. None of them changes a setting.
pub proof fn law_the_other_commands(s: SessionView, line: Seq<char>, google_model: Seq<char>)
    ensures
        ({
            let (after, reply) = s.enter(line, google_model);
            let plain = s.config.plain;
            let said = command_of(line);
            &&& said is Exit ==> after == s && reply.out.len() == 0 && reply.err.len() == 0
                && reply.next == Next::Quit
            &&& reply.next == Next::Quit ==> said is Exit
            &&& said is Clear ==> after == (SessionView { history: seq![], ..s }) && reply.err.len()
                == 0 && reply.next == Next::Read
            &&& said is Clear && plain ==> reply.out == "\x1b[2J\x1b[H"@
            &&& said is Clear && !plain ==> reply.out == "\x1b[2J\x1b[H"@ + banner(s.config)
            &&& said is ListModels ==> after == s && reply.out.len() == 0 && reply.err.len() == 0
                && reply.next == Next::ListModels
            &&& said is Help ==> after == s && reply.out == chat_help(plain) && reply.err.len()
                == 0 && reply.next == Next::Read
            &&& said is ListProviders ==> after == s && reply.out == provider_list(s.config)
                && reply.err.len() == 0 && reply.next == Next::Read
            &&& said matches CommandView::Unknown(name) ==> after == s && reply.out.len() == 0
                && reply.next == Next::Read && reply.err == error_note(
                plain,
                "unknown command: '"@ + name + "'. type /help for commands"@,
            )
            &&& said matches CommandView::Say(text) ==> after == (SessionView {
                history: s.history.push(MessageView { role: "user"@, content: text }),
                ..s
            }) && reply.out.len() == 0 && reply.err.len() == 0 && reply.next == Next::Ask
        }),
{
    let clear = "\x1b[2J\x1b[H"@;
    assert(clear + Seq::<char>::empty() == clear);
}

/// An answer that is not blank goes to the end of the conversation as it is, a
/// blank one does not; a failure takes the last message away and is reported.
/// Settings never change.
pub proof fn law_answers(s: SessionView, text: Seq<char>)
    ensures
        s.answered(Ok(text)).0.config == s.config,
        s.answered(Err(text)).0.config == s.config,
        s.answered(Ok(text)).1.len() == 0,
        trimmed(text).len() == 0 ==> s.answered(Ok(text)).0.history == s.history,
        trimmed(text).len() > 0 ==> s.answered(Ok(text)).0.history == s.history.push(
            MessageView { role: "model"@, content: text },
        ),
        s.answered(Err(text)).1 == error_note(s.config.plain, text),
        s.history.len() > 0 ==> s.answered(Err(text)).0.history == s.history.take(
            s.history.len() - 1,
        ),
        s.history.len() == 0 ==> s.answered(Err(text)).0.history.len() == 0,
        user_message(text) == (MessageView { role: "user"@, content: text }),
        model_message(text) == (MessageView { role: "model"@, content: text }),
{
}

proof fn lemma_first_installed(models: Seq<Seq<char>>, k: int)
    requires
        0 <= k < models.len(),
        "- installed"@.is_suffix_of(models[k]),
        forall|j: int| 0 <= j < k ==> !"- installed"@.is_suffix_of(#[trigger] models[j]),
    ensures
        first_installed(models) == Some(models[k]),
    decreases k,
{
    if k > 0 {
        assert(!"- installed"@.is_suffix_of(models[0]));
        let rest = models.skip(1);
        assert forall|j: int| 0 <= j < k - 1 implies !"- installed"@.is_suffix_of(
            #[trigger] rest[j],
        ) by {
            assert(rest[j] == models[j + 1]);
        }
        assert(rest[k - 1] == models[k]);
        lemma_first_installed(rest, k - 1);
    }
}

proof fn lemma_none_installed(models: Seq<Seq<char>>)
    requires
        forall|j: int| 0 <= j < models.len() ==> !"- installed"@.is_suffix_of(#[trigger] models[j]),
    ensures
        first_installed(models) is None,
    decreases models.len(),
{
    if models.len() > 0 {
        assert(!"- installed"@.is_suffix_of(models[0]));
        let rest = models.skip(1);
        assert forall|j: int| 0 <= j < rest.len() implies !"- installed"@.is_suffix_of(
            #[trigger] rest[j],
        ) by {
            assert(rest[j] == models[j + 1]);
        }
        lemma_none_installed(rest);
    }
}

/// The first entry that ends with `- installed`, wherever it stands, is picked:
/// the model is its part before the first space, and that is said.
pub proof fn law_the_first_installed_model_is_picked(
    s: SessionView,
    models: Seq<Seq<char>>,
    k: int,
)
    requires
        0 <= k < models.len(),
        "- installed"@.is_suffix_of(models[k]),
        forall|j: int| 0 <= j < k ==> !"- installed"@.is_suffix_of(#[trigger] models[j]),
    ensures
        ({
            let (after, out) = s.picked(Ok(models));
            let model = before_char(models[k], ' ');
            &&& after == (SessionView { config: ConfigView { model, ..s.config }, ..s })
            &&& out == notice(s.config.plain, "auto-selected model: "@ + model)
        }),
{
    lemma_first_installed(models, k);
}

/// Where no entry is installed, or there is no list, nothing changes and
/// nothing is said.
pub proof fn law_without_installed_models_nothing_changes(
    s: SessionView,
    models: Seq<Seq<char>>,
    message: Seq<char>,
)
    requires
        forall|j: int| 0 <= j < models.len() ==> !"- installed"@.is_suffix_of(#[trigger] models[j]),
    ensures
        s.picked(Ok(models)) == (s, Seq::<char>::empty()),
        s.picked(Err(message)) == (s, Seq::<char>::empty()),
{
    lemma_none_installed(models);
}

/// The commands are offered in their order: one more at the end of the list is
/// offered behind all others where it begins with the line, and not otherwise.
/// Lines without a slash in front are not completed.
pub proof fn law_completions_keep_their_order(
    commands: Seq<Seq<char>>,
    last: Seq<char>,
    line: Seq<char>,
)
    ensures
        completions(Seq::<Seq<char>>::empty(), line) == Seq::<Seq<char>>::empty(),
        line.len() > 0 && line[0] == '/' && line.is_prefix_of(last) ==> completions(
            commands.push(last),
            line,
        ) == completions(commands, line).push(last),
        !line.is_prefix_of(last) ==> completions(commands.push(last), line) == completions(
            commands,
            line,
        ),
        line.len() == 0 || line[0] != '/' ==> completions(commands, line) == Seq::<
            Seq<char>,
        >::empty(),
{
    reveal(Seq::filter);
    assert(commands.push(last).drop_last() == commands);
    assert(commands.push(last).last() == last);
}

/// Every command that is offered for completion is understood.
pub proof fn law_offered_commands_are_understood()
    ensures
        command_names().len() == 6,
        command_of(command_names()[0]) is Exit,
        command_of(command_names()[1]) is Exit,
        command_of(command_names()[2]) is Clear,
        command_of(command_names()[3]) is Help,
        command_of(command_names()[4]) is ListModels,
        command_of(command_names()[5]) is ListProviders,
        command_names()[0] != command_names()[1],
{
    reveal_strlit("/exit");
    reveal_strlit("/quit");
    reveal_strlit("/clear");
    reveal_strlit("/help");
    reveal_strlit("/model");
    reveal_strlit("/provider");
    assert("/exit"@[1] == 'e' && "/quit"@[1] == 'q');
    let none = Seq::<char>::empty();
    let names = command_names();
    assert forall|i: int| 0 <= i < 6 implies none + (#[trigger] names[i]) + none == names[i] by {}
    law_commands_of_one_word(none, names[0], none);
    law_commands_of_one_word(none, names[1], none);
    law_commands_of_one_word(none, names[2], none);
    law_commands_of_one_word(none, names[3], none);
    law_commands_of_one_word(none, names[4], none);
    law_commands_of_one_word(none, names[5], none);
}

/// The mathematical values of commands, replies and sessions are those of
/// their fields.
pub proof fn law_command_values(text: String, reply: Reply, session: ChatSession)
    ensures
        Command::Blank@ is Blank && Command::Exit@ is Exit && Command::Clear@ is Clear,
        Command::Help@ is Help && Command::ListModels@ is ListModels,
        Command::ListProviders@ is ListProviders,
        Command::SwitchModel(text)@ == CommandView::SwitchModel(text@),
        Command::SwitchProvider(text)@ == CommandView::SwitchProvider(text@),
        Command::Unknown(text)@ == CommandView::Unknown(text@),
        Command::Say(text)@ == CommandView::Say(text@),
        reply@.out == reply.out@ && reply@.err == reply.err@ && reply@.next == reply.next,
        reply.record is Some ==> reply@.record == Some(reply.record->0@),
        reply.record is None ==> reply@.record is None,
        session@.config == session.config@,
        session@.history == messages(session.history@),
{
}

} // verus!
