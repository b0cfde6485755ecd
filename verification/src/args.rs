//! The command line.

use crate::config::{with_model, Config, ConfigView, DEFAULT_BRIDGE, DEFAULT_MODEL};
use crate::json::opt_text;
use crate::text::{lowered, same, to_lowercase};
use vstd::prelude::*;

verus! {

/// One argument of the command line.
pub struct Argument {
    /// The argument itself.
    pub text: String,
    /// Where the argument reads as a decimal number: that number, written the
    /// way it is sent.
    pub number: Option<String>,
}

/// What an [`Argument`] holds.
#[verifier::ext_equal]
pub struct ArgumentView {
    pub text: Seq<char>,
    pub number: Option<Seq<char>>,
}

impl View for Argument {
    type V = ArgumentView;

    open spec fn view(&self) -> ArgumentView {
        ArgumentView { text: self.text@, number: opt_text(self.number) }
    }
}

/// What the arguments of a command line hold.
pub open spec fn arguments(args: Seq<Argument>) -> Seq<ArgumentView> {
    args.map_values(|a: Argument| a@)
}

/// The environment variables that change the defaults.
pub struct Environment {
    /// `GEMMA_MODEL`, which may also stand in the file `.env`
    pub gemma_model: Option<String>,
    /// `OLLAMA_BASE_URL`
    pub ollama_base_url: Option<String>,
    /// `PYTHON`
    pub python: Option<String>,
}

/// What a command line asks for.
pub enum Invocation {
    /// To run with these settings.
    Run(Config),
    /// To show the help.
    Help,
}

/// What an [`Invocation`] holds.
pub enum InvocationView {
    Run(ConfigView),
    Help,
}

impl View for Invocation {
    type V = InvocationView;

    open spec fn view(&self) -> InvocationView {
        match *self {
            Invocation::Run(config) => InvocationView::Run(config@),
            Invocation::Help => InvocationView::Help,
        }
    }
}

/// The outcome of reading a command line: what it asks for, or what is wrong
/// with it.
pub open spec fn outcome(r: Result<Invocation, String>) -> Result<InvocationView, Seq<char>> {
    match r {
        Ok(invocation) => Ok(invocation@),
        Err(message) => Err(message@),
    }
}

/// The options of the command line.
#[derive(Clone, Copy, PartialEq, Eq, Structural)]
pub enum CommandOption {
    Model,
    Provider,
    Ollama,
    OllamaUrl,
    Python,
    Bridge,
    Temperature,
    Prompt,
    NoThinking,
    Plain,
    Demo,
    Help,
}

/// The option that an argument names.
pub open spec fn option_named(text: Seq<char>) -> Option<CommandOption> {
    if text == "-m"@ || text == "--model"@ {
        Some(CommandOption::Model)
    } else if text == "--provider"@ {
        Some(CommandOption::Provider)
    } else if text == "--ollama"@ {
        Some(CommandOption::Ollama)
    } else if text == "--ollama-url"@ {
        Some(CommandOption::OllamaUrl)
    } else if text == "--python"@ {
        Some(CommandOption::Python)
    } else if text == "--bridge"@ {
        Some(CommandOption::Bridge)
    } else if text == "-t"@ || text == "--temperature"@ {
        Some(CommandOption::Temperature)
    } else if text == "-p"@ || text == "--prompt"@ {
        Some(CommandOption::Prompt)
    } else if text == "--no-thinking"@ {
        Some(CommandOption::NoThinking)
    } else if text == "--plain"@ {
        Some(CommandOption::Plain)
    } else if text == "--demo"@ {
        Some(CommandOption::Demo)
    } else if text == "-h"@ || text == "--help"@ {
        Some(CommandOption::Help)
    } else {
        None
    }
}

/// For an option that takes a value: what is said when the value is missing.
pub open spec fn value_missing(option: CommandOption) -> Option<Seq<char>> {
    match option {
        CommandOption::Model => Some("--model needs a value"@),
        CommandOption::Provider => Some("--provider needs a value (google/ollama)"@),
        CommandOption::OllamaUrl => Some("--ollama-url needs a value"@),
        CommandOption::Python => Some("--python needs a value"@),
        CommandOption::Bridge => Some("--bridge needs a value"@),
        CommandOption::Temperature => Some("--temperature needs a value"@),
        CommandOption::Prompt => Some("--prompt needs a value"@),
        _ => None,
    }
}

/// The settings after an option that takes a value.
pub open spec fn with_value(
    config: ConfigView,
    option: CommandOption,
    value: ArgumentView,
) -> Result<ConfigView, Seq<char>> {
    match option {
        CommandOption::Model => Ok(with_model(config, value.text)),
        CommandOption::Provider => Ok(ConfigView { provider: lowered(value.text), ..config }),
        CommandOption::OllamaUrl => Ok(ConfigView { ollama_url: value.text, ..config }),
        CommandOption::Python => Ok(ConfigView { python: value.text, ..config }),
        CommandOption::Bridge => Ok(ConfigView { bridge: value.text, ..config }),
        CommandOption::Temperature => match value.number {
            Some(number) => Ok(ConfigView { temperature: number, ..config }),
            None => Err("--temperature must be a number"@),
        },
        CommandOption::Prompt => Ok(ConfigView { prompt: Some(value.text), ..config }),
        _ => Ok(config),
    }
}

/// The settings after an option that stands alone.
pub open spec fn with_flag(config: ConfigView, option: CommandOption) -> ConfigView {
    match option {
        CommandOption::Ollama => ConfigView { provider: "ollama"@, ..config },
        CommandOption::NoThinking => ConfigView { thinking: false, ..config },
        CommandOption::Plain => ConfigView { plain: true, ..config },
        CommandOption::Demo => ConfigView { demo: true, ..config },
        _ => config,
    }
}

/// What a command line asks for, on top of the given settings: its options
/// count from left to right, up to the first that is wrong or asks for help.
pub open spec fn parsed(args: Seq<ArgumentView>, config: ConfigView) -> Result<
    InvocationView,
    Seq<char>,
>
    decreases args.len(),
{
    if args.len() == 0 {
        Ok(InvocationView::Run(config))
    } else {
        match option_named(args[0].text) {
            None => Err("unknown argument: "@ + args[0].text),
            Some(CommandOption::Help) => Ok(InvocationView::Help),
            Some(option) => match value_missing(option) {
                None => parsed(args.skip(1), with_flag(config, option)),
                Some(message) => if args.len() < 2 {
                    Err(message)
                } else {
                    match with_value(config, option, args[1]) {
                        Ok(next) => parsed(args.skip(2), next),
                        Err(wrong) => Err(wrong),
                    }
                },
            },
        }
    }
}

/// The text of an environment variable, or the default where it is not set.
pub open spec fn text_or(value: Option<String>, default: Seq<char>) -> Seq<char> {
    match value {
        Some(text) => text@,
        None => default,
    }
}

/// The settings of a run without arguments.
pub open spec fn defaults(env: Environment) -> ConfigView {
    ConfigView {
        model: text_or(env.gemma_model, DEFAULT_MODEL@),
        provider: "google"@,
        ollama_url: text_or(env.ollama_base_url, "http://localhost:11434"@),
        python: text_or(env.python, "python3"@),
        bridge: DEFAULT_BRIDGE@,
        temperature: "0.7"@,
        thinking: true,
        plain: false,
        demo: false,
        prompt: None,
    }
}

/// The text of an environment variable, or the default where it is not set.
pub fn var_or(value: &Option<String>, default: &str) -> (r: String)
    ensures
        r@ == text_or(*value, default@),
{
    match value {
        Some(text) => text.clone(),
        None => default.to_owned(),
    }
}

/// The option that an argument names.
fn find_option(text: &str) -> (r: Option<CommandOption>)
    ensures
        r == option_named(text@),
{
    if same(text, "-m") || same(text, "--model") {
        Some(CommandOption::Model)
    } else if same(text, "--provider") {
        Some(CommandOption::Provider)
    } else if same(text, "--ollama") {
        Some(CommandOption::Ollama)
    } else if same(text, "--ollama-url") {
        Some(CommandOption::OllamaUrl)
    } else if same(text, "--python") {
        Some(CommandOption::Python)
    } else if same(text, "--bridge") {
        Some(CommandOption::Bridge)
    } else if same(text, "-t") || same(text, "--temperature") {
        Some(CommandOption::Temperature)
    } else if same(text, "-p") || same(text, "--prompt") {
        Some(CommandOption::Prompt)
    } else if same(text, "--no-thinking") {
        Some(CommandOption::NoThinking)
    } else if same(text, "--plain") {
        Some(CommandOption::Plain)
    } else if same(text, "--demo") {
        Some(CommandOption::Demo)
    } else if same(text, "-h") || same(text, "--help") {
        Some(CommandOption::Help)
    } else {
        None
    }
}

/// For an option that takes a value: what is said when the value is missing.
fn missing_message(option: CommandOption) -> (r: Option<String>)
    ensures
        opt_text(r) == value_missing(option),
{
    match option {
        CommandOption::Model => Some("--model needs a value".to_owned()),
        CommandOption::Provider => Some("--provider needs a value (google/ollama)".to_owned()),
        CommandOption::OllamaUrl => Some("--ollama-url needs a value".to_owned()),
        CommandOption::Python => Some("--python needs a value".to_owned()),
        CommandOption::Bridge => Some("--bridge needs a value".to_owned()),
        CommandOption::Temperature => Some("--temperature needs a value".to_owned()),
        CommandOption::Prompt => Some("--prompt needs a value".to_owned()),
        _ => None,
    }
}

/// Applies an option that takes a value.
fn apply_value(config: &mut Config, option: CommandOption, value: &Argument) -> (r: Result<
    (),
    String,
>)
    ensures
        match with_value(old(config)@, option, value@) {
            Ok(next) => r is Ok && final(config)@ == next,
            Err(wrong) => r matches Err(message) && message@ == wrong,
        },
{
    match option {
        CommandOption::Model => {
            config.choose_model(value.text.as_str());
        },
        CommandOption::Provider => {
            config.provider = to_lowercase(value.text.as_str());
        },
        CommandOption::OllamaUrl => {
            config.ollama_url = value.text.clone();
        },
        CommandOption::Python => {
            config.python = value.text.clone();
        },
        CommandOption::Bridge => {
            config.bridge = value.text.clone();
        },
        CommandOption::Temperature => match &value.number {
            Some(number) => {
                config.temperature = number.clone();
            },
            None => {
                return Err("--temperature must be a number".to_owned());
            },
        },
        CommandOption::Prompt => {
            config.prompt = Some(value.text.clone());
        },
        _ => {},
    }
    Ok(())
}

/// Applies an option that stands alone.
fn apply_flag(config: &mut Config, option: CommandOption)
    ensures
        final(config)@ == with_flag(old(config)@, option),
{
    match option {
        CommandOption::Ollama => {
            config.provider = "ollama".to_owned();
        },
        CommandOption::NoThinking => {
            config.thinking = false;
        },
        CommandOption::Plain => {
            config.plain = true;
        },
        CommandOption::Demo => {
            config.demo = true;
        },
        _ => {},
    }
}

/// Reads a command line, without the name of the program.
pub fn parse_args(args: &Vec<Argument>, env: &Environment) -> (r: Result<Invocation, String>)
    ensures
        outcome(r) == parsed(arguments(args@), defaults(*env)),
{
    let mut config = Config {
        model: var_or(&env.gemma_model, DEFAULT_MODEL),
        provider: "google".to_owned(),
        ollama_url: var_or(&env.ollama_base_url, "http://localhost:11434"),
        python: var_or(&env.python, "python3"),
        bridge: DEFAULT_BRIDGE.to_owned(),
        temperature: "0.7".to_owned(),
        thinking: true,
        plain: false,
        demo: false,
        prompt: None,
    };
    assert(config@ == defaults(*env));
    let ghost all = arguments(args@);
    assert(all.skip(0) == all);
    let mut index: usize = 0;
    while index < args.len()
        invariant
            index <= args@.len(),
            all == arguments(args@),
            parsed(all.skip(index as int), config@) == parsed(all, defaults(*env)),
        decreases args.len() - index,
    {
        let ghost rest = all.skip(index as int);
        assert(rest[0] == args@[index as int]@);
        let text = args[index].text.as_str();
        let option = match find_option(text) {
            Some(option) => option,
            None => {
                let mut message = "unknown argument: ".to_owned();
                message.append(text);
                return Err(message);
            },
        };
        if option == CommandOption::Help {
            return Ok(Invocation::Help);
        }
        match missing_message(option) {
            None => {
                apply_flag(&mut config, option);
                assert(rest.skip(1) == all.skip(index + 1));
                index += 1;
            },
            Some(message) => {
                if args.len() - index < 2 {
                    return Err(message);
                }
                assert(rest[1] == args@[index + 1]@);
                match apply_value(&mut config, option, &args[index + 1]) {
                    Ok(_) => {},
                    Err(wrong) => {
                        return Err(wrong);
                    },
                }
                assert(rest.skip(2) == all.skip(index + 2));
                index += 2;
            },
        }
    }
    Ok(Invocation::Run(config))
}

/// Options count from left to right: where the arguments `a` are complete,
/// those behind them are read on top of the settings that `a` leads to, and
/// where `a` asks for help, they are not read.
pub proof fn law_arguments_count_in_order(
    a: Seq<ArgumentView>,
    b: Seq<ArgumentView>,
    config: ConfigView,
)
    ensures
        parsed(a, config) matches Ok(InvocationView::Run(next)) ==> parsed(a + b, config)
            == parsed(b, next),
        parsed(a, config) == Ok::<InvocationView, Seq<char>>(InvocationView::Help) ==> parsed(
            a + b,
            config,
        ) == parsed(a, config),
    decreases a.len(),
{
    if a.len() == 0 {
        assert(a + b == b);
    } else {
        assert((a + b)[0] == a[0]);
        if let Some(option) = option_named(a[0].text) {
            if option != CommandOption::Help {
                if value_missing(option) is None {
                    law_arguments_count_in_order(a.skip(1), b, with_flag(config, option));
                    assert((a + b).skip(1) == a.skip(1) + b);
                } else if a.len() >= 2 {
                    assert((a + b)[1] == a[1]);
                    assert((a + b).skip(2) == a.skip(2) + b);
                    if let Ok(next) = with_value(config, option, a[1]) {
                        law_arguments_count_in_order(a.skip(2), b, next);
                    }
                }
            }
        }
    }
}

} // verus!
