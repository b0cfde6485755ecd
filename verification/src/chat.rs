//! The chat: what the lines that the user enters mean, and what they do to
//! the settings and to the conversation.

use crate::args::{text_or, var_or};
use crate::config::{messages, with_model, Config, ConfigView, Message, MessageView, DEFAULT_MODEL};
use crate::json::opt_text;
use crate::screen::{
    banner, chat_help, error_note, list_providers, notice, print_banner, print_chat_help,
    print_error, print_notice, print_notice_of, provider_list,
};
use crate::stream::{list_texts, result_text};
use crate::text::{
    before_char, cut_at, ends_with, join_from, joined, lowered, same, split_whitespace, starts_with,
    texts, to_lowercase, trim, trimmed, trimmed_start, words,
};
use vstd::prelude::*;

verus! {

// ---------------------------------------------------------------------------
// Commands
// ---------------------------------------------------------------------------

/// What a line that the user enters asks for.
pub enum Command {
    /// Nothing.
    Blank,
    /// To end the chat.
    Exit,
    /// To forget the conversation.
    Clear,
    /// To see the models.
    ListModels,
    /// To use another model.
    SwitchModel(String),
    /// To see the commands.
    Help,
    /// To see the providers.
    ListProviders,
    /// To use another provider.
    SwitchProvider(String),
    /// A command that there is not.
    Unknown(String),
    /// An answer to this message.
    Say(String),
}

/// What a [`Command`] holds.
pub enum CommandView {
    Blank,
    Exit,
    Clear,
    ListModels,
    SwitchModel(Seq<char>),
    Help,
    ListProviders,
    SwitchProvider(Seq<char>),
    Unknown(Seq<char>),
    Say(Seq<char>),
}

impl View for Command {
    type V = CommandView;

    open spec fn view(&self) -> CommandView {
        match *self {
            Command::Blank => CommandView::Blank,
            Command::Exit => CommandView::Exit,
            Command::Clear => CommandView::Clear,
            Command::ListModels => CommandView::ListModels,
            Command::SwitchModel(name) => CommandView::SwitchModel(name@),
            Command::Help => CommandView::Help,
            Command::ListProviders => CommandView::ListProviders,
            Command::SwitchProvider(name) => CommandView::SwitchProvider(name@),
            Command::Unknown(name) => CommandView::Unknown(name@),
            Command::Say(text) => CommandView::Say(text@),
        }
    }
}

/// What the words of a line that begins with a slash ask for.
pub open spec fn slash_command(parts: Seq<Seq<char>>) -> CommandView {
    let name = parts[0];
    if name == "/exit"@ || name == "/quit"@ {
        CommandView::Exit
    } else if name == "/clear"@ {
        CommandView::Clear
    } else if name == "/models"@ || name == "/model"@ {
        if parts.len() > 1 {
            CommandView::SwitchModel(joined(parts.skip(1), " "@))
        } else {
            CommandView::ListModels
        }
    } else if name == "/help"@ {
        CommandView::Help
    } else if name == "/providers"@ || name == "/provider"@ {
        if parts.len() > 1 {
            CommandView::SwitchProvider(lowered(parts[1]))
        } else {
            CommandView::ListProviders
        }
    } else {
        CommandView::Unknown(name)
    }
}

/// What a line asks for. White space around it does not count.
pub open spec fn command_of(line: Seq<char>) -> CommandView {
    let input = trimmed(line);
    if input.len() == 0 {
        CommandView::Blank
    } else if input[0] == '/' {
        slash_command(words(input))
    } else {
        CommandView::Say(input)
    }
}

/// Reads a line that the user entered.
pub fn parse_command(line: &str) -> (r: Command)
    ensures
        r@ == command_of(line@),
{
    let input = trim(line);
    if input.as_str().is_empty() {
        return Command::Blank;
    }
    if input.as_str().get_char(0) != '/' {
        return Command::Say(input);
    }
    let parts = split_whitespace(input.as_str());
    proof {
        assert(trimmed_start(input@) == input@);
        assert(words(input@).len() > 0);
        assert(texts(parts@)[0] == parts@[0]@);
    }
    let name = parts[0].as_str();
    if same(name, "/exit") || same(name, "/quit") {
        Command::Exit
    } else if same(name, "/clear") {
        Command::Clear
    } else if same(name, "/models") || same(name, "/model") {
        if parts.len() > 1 {
            Command::SwitchModel(join_from(&parts, 1, " "))
        } else {
            Command::ListModels
        }
    } else if same(name, "/help") {
        Command::Help
    } else if same(name, "/providers") || same(name, "/provider") {
        if parts.len() > 1 {
            assert(texts(parts@)[1] == parts@[1]@);
            Command::SwitchProvider(to_lowercase(parts[1].as_str()))
        } else {
            Command::ListProviders
        }
    } else {
        Command::Unknown(name.to_owned())
    }
}

/// The commands that are offered for completion.
pub open spec fn command_names() -> Seq<Seq<char>> {
    seq!["/exit"@, "/quit"@, "/clear"@, "/help"@, "/model"@, "/provider"@]
}

/// The commands that are offered for completion.
pub fn completion_commands() -> (r: Vec<String>)
    ensures
        texts(r@) == command_names(),
{
    let mut r: Vec<String> = Vec::new();
    r.push("/exit".to_owned());
    r.push("/quit".to_owned());
    r.push("/clear".to_owned());
    r.push("/help".to_owned());
    r.push("/model".to_owned());
    r.push("/provider".to_owned());
    assert(texts(r@) == command_names());
    r
}

/// What a line that begins with a slash may be completed to: the commands that
/// begin with it, in their order. Other lines are not completed.
pub open spec fn completions(commands: Seq<Seq<char>>, line: Seq<char>) -> Seq<Seq<char>> {
    if line.len() > 0 && line[0] == '/' {
        commands.filter(|c: Seq<char>| line.is_prefix_of(c))
    } else {
        seq![]
    }
}

/// What `line` may be completed to.
pub fn complete(commands: &Vec<String>, line: &str) -> (r: Vec<String>)
    ensures
        texts(r@) == completions(texts(commands@), line@),
{
    let mut r: Vec<String> = Vec::new();
    assert(texts(r@) == Seq::<Seq<char>>::empty());
    if line.is_empty() || line.get_char(0) != '/' {
        return r;
    }
    let ghost all = texts(commands@);
    let ghost fits = |c: Seq<char>| line@.is_prefix_of(c);
    let mut i: usize = 0;
    assert(all.take(0).filter(fits) == Seq::<Seq<char>>::empty()) by {
        reveal(Seq::filter);
    }
    while i < commands.len()
        invariant
            i <= commands@.len(),
            all == texts(commands@),
            fits == (|c: Seq<char>| line@.is_prefix_of(c)),
            texts(r@) == all.take(i as int).filter(fits),
        decreases commands.len() - i,
    {
        let ghost upto = all.take(i + 1);
        let ghost before = r@;
        assert(upto.drop_last() == all.take(i as int));
        assert(upto.last() == commands@[i as int]@);
        if starts_with(commands[i].as_str(), line) {
            let command = commands[i].clone();
            r.push(command);
            assert(texts(r@) == texts(before).push(command@));
        }
        assert(texts(r@) == upto.filter(fits)) by {
            reveal(Seq::filter);
        }
        i += 1;
    }
    assert(all.take(i as int) == all);
    r
}

// ---------------------------------------------------------------------------
// The session
// ---------------------------------------------------------------------------

/// What the program does next.
#[derive(Clone, Copy, PartialEq, Eq, Structural, Debug)]
pub enum Next {
    /// It awaits the next line.
    Read,
    /// It ends the chat.
    Quit,
    /// It fetches the models, to list them.
    ListModels,
    /// It fetches the models, to pick one that is installed.
    PickModel,
    /// It asks the model for an answer.
    Ask,
}

/// The reply to a line that the user entered.
pub struct Reply {
    /// The line as it goes into the history of the line editor, if it does.
    pub record: Option<String>,
    /// What is printed.
    pub out: String,
    /// What is printed to the error output.
    pub err: String,
    /// What is done then.
    pub next: Next,
}

/// What a [`Reply`] holds.
#[verifier::ext_equal]
pub struct ReplyView {
    pub record: Option<Seq<char>>,
    pub out: Seq<char>,
    pub err: Seq<char>,
    pub next: Next,
}

impl View for Reply {
    type V = ReplyView;

    open spec fn view(&self) -> ReplyView {
        ReplyView {
            record: opt_text(self.record),
            out: self.out@,
            err: self.err@,
            next: self.next,
        }
    }
}

/// A chat: its settings and its conversation.
pub struct ChatSession {
    pub config: Config,
    pub history: Vec<Message>,
}

/// What a [`ChatSession`] holds.
#[verifier::ext_equal]
pub struct SessionView {
    pub config: ConfigView,
    pub history: Seq<MessageView>,
}

impl View for ChatSession {
    type V = SessionView;

    open spec fn view(&self) -> SessionView {
        SessionView { config: self.config@, history: messages(self.history@) }
    }
}

/// A message of the user.
pub open spec fn user_message(text: Seq<char>) -> MessageView {
    MessageView { role: "user"@, content: text }
}

/// A message of the model.
pub open spec fn model_message(text: Seq<char>) -> MessageView {
    MessageView { role: "model"@, content: text }
}

/// Whether there is a provider of this name.
pub open spec fn is_provider(name: Seq<char>) -> bool {
    name == "google"@ || name == "ollama"@
}

/// The first entry of a list of models that is installed.
pub open spec fn first_installed(models: Seq<Seq<char>>) -> Option<Seq<char>>
    decreases models.len(),
{
    if models.len() == 0 {
        None
    } else if "- installed"@.is_suffix_of(models[0]) {
        Some(models[0])
    } else {
        first_installed(models.skip(1))
    }
}

impl SessionView {
    /// What a command does, what is printed for it, what is printed to the
    /// error output, and what is done then. `google_model` is the model that
    /// the provider `google` begins with.
    pub open spec fn obey(self, command: CommandView, google_model: Seq<char>) -> (
        SessionView,
        Seq<char>,
        Seq<char>,
        Next,
    ) {
        let plain = self.config.plain;
        let none = Seq::<char>::empty();
        match command {
            CommandView::Blank => (self, none, none, Next::Read),
            CommandView::Exit => (self, none, none, Next::Quit),
            CommandView::Clear => (
                SessionView { history: seq![], ..self },
                "\x1b[2J\x1b[H"@ + (if plain {
                    none
                } else {
                    banner(self.config)
                }),
                none,
                Next::Read,
            ),
            CommandView::ListModels => (self, none, none, Next::ListModels),
            CommandView::SwitchModel(name) => {
                let config = with_model(self.config, name);
                (
                    SessionView { config, ..self },
                    (if "ollama:"@.is_prefix_of(name) {
                        notice(plain, "provider switched to: ollama"@)
                    } else {
                        none
                    }) + notice(plain, "model switched to: "@ + config.model),
                    none,
                    Next::Read,
                )
            },
            CommandView::Help => (self, chat_help(plain), none, Next::Read),
            CommandView::ListProviders => (self, provider_list(self.config), none, Next::Read),
            CommandView::SwitchProvider(name) => if !is_provider(name) {
                (
                    self,
                    none,
                    error_note(plain, "unknown provider. use 'google' or 'ollama'"@),
                    Next::Read,
                )
            } else {
                let switched = notice(plain, "provider switched to: "@ + name);
                let config = ConfigView { provider: name, ..self.config };
                if name == self.config.provider {
                    (self, switched, none, Next::Read)
                } else if name == "ollama"@ {
                    (SessionView { config, ..self }, switched, none, Next::PickModel)
                } else {
                    (
                        SessionView {
                            config: ConfigView { model: google_model, ..config },
                            ..self
                        },
                        switched + notice(
                            plain,
                            "reset to default google model: "@ + google_model,
                        ),
                        none,
                        Next::Read,
                    )
                }
            },
            CommandView::Unknown(name) => (
                self,
                none,
                error_note(
                    plain,
                    "unknown command: '"@ + name + "'. type /help for commands"@,
                ),
                Next::Read,
            ),
            CommandView::Say(text) => (
                SessionView { history: self.history.push(user_message(text)), ..self },
                none,
                none,
                Next::Ask,
            ),
        }
    }

    /// What a line does, and the reply to it. Every line that is not blank
    /// goes into the history of the line editor.
    pub open spec fn enter(self, line: Seq<char>, google_model: Seq<char>) -> (
        SessionView,
        ReplyView,
    ) {
        let (next_self, out, err, next) = self.obey(command_of(line), google_model);
        (
            next_self,
            ReplyView {
                record: if command_of(line) is Blank {
                    None
                } else {
                    Some(trimmed(line))
                },
                out,
                err,
                next,
            },
        )
    }

    /// What an answer does, or the lack of one, and what is printed to the
    /// error output: an answer that is not blank goes into the conversation,
    /// and a message that was not answered leaves it.
    pub open spec fn answered(self, answer: Result<Seq<char>, Seq<char>>) -> (
        SessionView,
        Seq<char>,
    ) {
        match answer {
            Ok(text) => if trimmed(text).len() == 0 {
                (self, seq![])
            } else {
                (SessionView { history: self.history.push(model_message(text)), ..self }, seq![])
            },
            Err(message) => (
                SessionView {
                    history: if self.history.len() == 0 {
                        self.history
                    } else {
                        self.history.drop_last()
                    },
                    ..self
                },
                error_note(self.config.plain, message),
            ),
        }
    }

    /// What a list of models does after the provider was switched, and what
    /// is printed: the first installed model becomes the current one.
    pub open spec fn picked(self, fetched: Result<Seq<Seq<char>>, Seq<char>>) -> (
        SessionView,
        Seq<char>,
    ) {
        match fetched {
            Ok(models) => match first_installed(models) {
                Some(entry) => {
                    let model = before_char(entry, ' ');
                    (
                        SessionView { config: ConfigView { model, ..self.config }, ..self },
                        notice(self.config.plain, "auto-selected model: "@ + model),
                    )
                },
                None => (self, seq![]),
            },
            Err(_) => (self, seq![]),
        }
    }
}

impl ChatSession {
    /// A chat without a conversation.
    pub fn new(config: Config) -> (r: Self)
        ensures
            r@ == (SessionView { config: config@, history: seq![] }),
    {
        let r = ChatSession { config, history: Vec::new() };
        assert(messages(r.history@) == Seq::<MessageView>::empty());
        r
    }

    /// Switches the provider.
    fn switch_provider(
        &mut self,
        name: String,
        gemma_model: &Option<String>,
        out: &mut String,
        err: &mut String,
    ) -> (next: Next)
        ensures
            (final(self)@, final(out)@, final(err)@, next) == ({
                let (s, o, e, n) = old(self)@.obey(
                    CommandView::SwitchProvider(name@),
                    text_or(*gemma_model, DEFAULT_MODEL@),
                );
                (s, old(out)@ + o, old(err)@ + e, n)
            }),
    {
        if !same(name.as_str(), "google") && !same(name.as_str(), "ollama") {
            print_error(&self.config, "unknown provider. use 'google' or 'ollama'", err);
            return Next::Read;
        }
        let changed = !same(name.as_str(), self.config.provider.as_str());
        let ollama = same(name.as_str(), "ollama");
        self.config.provider = name;
        print_notice_of(
            &self.config,
            "provider switched to: ",
            self.config.provider.as_str(),
            out,
        );
        if !changed {
            return Next::Read;
        }
        if ollama {
            return Next::PickModel;
        }
        self.config.model = var_or(gemma_model, DEFAULT_MODEL);
        print_notice_of(
            &self.config,
            "reset to default google model: ",
            self.config.model.as_str(),
            out,
        );
        Next::Read
    }

    /// Obeys a command. What it prints goes to `out`, and its errors to `err`.
    pub fn obey(
        &mut self,
        command: Command,
        gemma_model: &Option<String>,
        out: &mut String,
        err: &mut String,
    ) -> (next: Next)
        ensures
            (final(self)@, final(out)@, final(err)@, next) == ({
                let (s, o, e, n) = old(self)@.obey(
                    command@,
                    text_or(*gemma_model, DEFAULT_MODEL@),
                );
                (s, old(out)@ + o, old(err)@ + e, n)
            }),
    {
        match command {
            Command::Blank => Next::Read,
            Command::Exit => Next::Quit,
            Command::Clear => {
                self.history.clear();
                assert(messages(self.history@) == Seq::<MessageView>::empty());
                out.append("\x1b[2J\x1b[H");
                if !self.config.plain {
                    print_banner(&self.config, out);
                }
                Next::Read
            },
            Command::ListModels => Next::ListModels,
            Command::SwitchModel(name) => {
                if self.config.choose_model(name.as_str()) {
                    print_notice(&self.config, "provider switched to: ollama", out);
                }
                print_notice_of(
                    &self.config,
                    "model switched to: ",
                    self.config.model.as_str(),
                    out,
                );
                Next::Read
            },
            Command::Help => {
                print_chat_help(&self.config, out);
                Next::Read
            },
            Command::ListProviders => {
                list_providers(&self.config, out);
                Next::Read
            },
            Command::SwitchProvider(name) => self.switch_provider(name, gemma_model, out, err),
            Command::Unknown(name) => {
                let mut message = "unknown command: '".to_owned();
                message.append(name.as_str());
                message.append("'. type /help for commands");
                print_error(&self.config, message.as_str(), err);
                Next::Read
            },
            Command::Say(text) => {
                self.push_message("user", text);
                Next::Ask
            },
        }
    }

    /// Adds a message to the conversation.
    fn push_message(&mut self, role: &str, content: String)
        ensures
            final(self)@ == (SessionView {
                history: old(self)@.history.push(
                    MessageView { role: role@, content: content@ },
                ),
                ..old(self)@
            }),
    {
        let message = Message { role: role.to_owned(), content };
        self.history.push(message);
        assert(messages(self.history@) == messages(old(self).history@).push(message@));
    }

    /// Takes in a line that the user entered. `gemma_model` is the value of
    /// the variable `GEMMA_MODEL`, of the environment or of the file `.env`.
    pub fn enter(&mut self, line: &str, gemma_model: &Option<String>) -> (r: Reply)
        ensures
            (final(self)@, r@) == old(self)@.enter(
                line@,
                text_or(*gemma_model, DEFAULT_MODEL@),
            ),
    {
        let command = parse_command(line);
        let record = match command {
            Command::Blank => None,
            _ => Some(trim(line)),
        };
        let mut out = String::new();
        let mut err = String::new();
        let next = self.obey(command, gemma_model, &mut out, &mut err);
        Reply { record, out, err, next }
    }

    /// Takes in the answer of the model, or why there is none.
    pub fn take_answer(&mut self, answer: Result<String, String>, err: &mut String)
        ensures
            final(self)@ == old(self)@.answered(result_text(answer)).0,
            final(err)@ == old(err)@ + old(self)@.answered(result_text(answer)).1,
    {
        match answer {
            Ok(text) => {
                if !trim(text.as_str()).as_str().is_empty() {
                    self.push_message("model", text);
                }
            },
            Err(message) => {
                print_error(&self.config, message.as_str(), err);
                let _ = self.history.pop();
                proof {
                    if old(self).history@.len() > 0 {
                        assert(messages(self.history@) == messages(
                            old(self).history@,
                        ).drop_last());
                    }
                }
            },
        }
    }

    /// Takes in the list of models after the provider was switched.
    pub fn pick_model(&mut self, fetched: &Result<Vec<String>, String>, out: &mut String)
        ensures
            final(self)@ == old(self)@.picked(list_texts(*fetched)).0,
            final(out)@ == old(out)@ + old(self)@.picked(list_texts(*fetched)).1,
    {
        if let Ok(models) = fetched {
            let ghost all = texts(models@);
            let mut i: usize = 0;
            assert(all.skip(0) == all);
            while i < models.len()
                invariant
                    i <= models@.len(),
                    *self == *old(self),
                    out@ == old(out)@,
                    all == texts(models@),
                    *fetched == Ok::<Vec<String>, String>(*models),
                    first_installed(all.skip(i as int)) == first_installed(all),
                decreases models.len() - i,
            {
                assert(all.skip(i as int)[0] == models@[i as int]@);
                assert(all.skip(i as int).skip(1) == all.skip(i + 1));
                if ends_with(models[i].as_str(), "- installed") {
                    self.config.model = cut_at(models[i].as_str(), ' ');
                    print_notice_of(
                        &self.config,
                        "auto-selected model: ",
                        self.config.model.as_str(),
                        out,
                    );
                    return ;
                }
                i += 1;
            }
        }
    }
}

} // verus!
