//! What every option of the command line does.

use crate::args::{
    arguments, defaults, option_named, outcome, parsed, text_or, value_missing, with_flag,
    with_value, Argument, ArgumentView, CommandOption, Environment, Invocation, InvocationView,
};
use crate::config::{law_choosing_a_model, messages, Config, ConfigView, Message};
use crate::json::opt_text;
use crate::text::lowered;
use vstd::prelude::*;

verus! {

/// The names of the options.
proof fn lemma_option_names()
    ensures
        option_named("-m"@) == Some(CommandOption::Model),
        option_named("--model"@) == Some(CommandOption::Model),
        option_named("--provider"@) == Some(CommandOption::Provider),
        option_named("--ollama"@) == Some(CommandOption::Ollama),
        option_named("--ollama-url"@) == Some(CommandOption::OllamaUrl),
        option_named("--python"@) == Some(CommandOption::Python),
        option_named("--bridge"@) == Some(CommandOption::Bridge),
        option_named("-t"@) == Some(CommandOption::Temperature),
        option_named("--temperature"@) == Some(CommandOption::Temperature),
        option_named("-p"@) == Some(CommandOption::Prompt),
        option_named("--prompt"@) == Some(CommandOption::Prompt),
        option_named("--no-thinking"@) == Some(CommandOption::NoThinking),
        option_named("--plain"@) == Some(CommandOption::Plain),
        option_named("--demo"@) == Some(CommandOption::Demo),
        option_named("-h"@) == Some(CommandOption::Help),
        option_named("--help"@) == Some(CommandOption::Help),
{
    reveal_strlit("-m");
    reveal_strlit("--model");
    reveal_strlit("--provider");
    reveal_strlit("--ollama");
    reveal_strlit("--ollama-url");
    reveal_strlit("--python");
    reveal_strlit("--bridge");
    reveal_strlit("-t");
    reveal_strlit("--temperature");
    reveal_strlit("-p");
    reveal_strlit("--prompt");
    reveal_strlit("--no-thinking");
    reveal_strlit("--plain");
    reveal_strlit("--demo");
    reveal_strlit("-h");
    reveal_strlit("--help");
    assert("-m"@.len() == 2 && "-t"@.len() == 2 && "-p"@.len() == 2 && "-h"@.len() == 2);
    assert("-m"@[1] == 'm' && "-t"@[1] == 't' && "-p"@[1] == 'p' && "-h"@[1] == 'h');
    assert("--demo"@.len() == 6 && "--help"@.len() == 6);
    assert("--demo"@[2] == 'd' && "--help"@[2] == 'h');
    assert("--model"@.len() == 7 && "--plain"@.len() == 7);
    assert("--model"@[2] == 'm' && "--plain"@[2] == 'p');
    assert("--ollama"@.len() == 8 && "--python"@.len() == 8);
    assert("--bridge"@.len() == 8 && "--prompt"@.len() == 8);
    assert("--ollama"@[3] == 'l' && "--python"@[3] == 'y');
    assert("--bridge"@[2] == 'b' && "--bridge"@[3] == 'r');
    assert("--prompt"@[2] == 'p' && "--prompt"@[3] == 'r');
    assert("--provider"@.len() == 10 && "--ollama-url"@.len() == 12);
    assert("--temperature"@.len() == 13 && "--no-thinking"@.len() == 13);
    assert("--temperature"@[2] == 't' && "--no-thinking"@[2] == 'n');
}

/// An argument that names no option.
pub open spec fn names_no_option(text: Seq<char>) -> bool {
    &&& text != "-m"@ && text != "--model"@ && text != "--provider"@ && text != "--ollama"@
    &&& text != "--ollama-url"@ && text != "--python"@ && text != "--bridge"@
    &&& text != "-t"@ && text != "--temperature"@ && text != "-p"@ && text != "--prompt"@
    &&& text != "--no-thinking"@ && text != "--plain"@ && text != "--demo"@
    &&& text != "-h"@ && text != "--help"@
}

proof fn lemma_flag(a: ArgumentView, rest: Seq<ArgumentView>, c: ConfigView, o: CommandOption)
    requires
        option_named(a.text) == Some(o),
        o != CommandOption::Help,
        value_missing(o) is None,
    ensures
        parsed(seq![a] + rest, c) == parsed(rest, with_flag(c, o)),
{
    assert((seq![a] + rest)[0] == a);
    assert((seq![a] + rest).skip(1) == rest);
}

proof fn lemma_value(
    a: ArgumentView,
    v: ArgumentView,
    rest: Seq<ArgumentView>,
    c: ConfigView,
    o: CommandOption,
)
    requires
        option_named(a.text) == Some(o),
        o != CommandOption::Help,
        value_missing(o) is Some,
    ensures
        parsed(seq![a, v] + rest, c) == match with_value(c, o, v) {
            Ok(next) => parsed(rest, next),
            Err(wrong) => Err(wrong),
        },
        parsed(seq![a], c) == Err::<InvocationView, Seq<char>>(value_missing(o)->0),
{
    assert((seq![a, v] + rest)[0] == a);
    assert((seq![a, v] + rest)[1] == v);
    assert((seq![a, v] + rest).skip(2) == rest);
}

/// Every option that stands alone changes one setting, keeps all others, and
/// leaves what follows to be read on top of that.
pub proof fn law_flags(a: ArgumentView, rest: Seq<ArgumentView>, c: ConfigView)
    ensures
        a.text == "--ollama"@ ==> parsed(seq![a] + rest, c) == parsed(
            rest,
            ConfigView { provider: "ollama"@, ..c },
        ),
        a.text == "--no-thinking"@ ==> parsed(seq![a] + rest, c) == parsed(
            rest,
            ConfigView { thinking: false, ..c },
        ),
        a.text == "--plain"@ ==> parsed(seq![a] + rest, c) == parsed(
            rest,
            ConfigView { plain: true, ..c },
        ),
        a.text == "--demo"@ ==> parsed(seq![a] + rest, c) == parsed(
            rest,
            ConfigView { demo: true, ..c },
        ),
{
    lemma_option_names();
    if a.text == "--ollama"@ {
        lemma_flag(a, rest, c, CommandOption::Ollama);
    }
    if a.text == "--no-thinking"@ {
        lemma_flag(a, rest, c, CommandOption::NoThinking);
    }
    if a.text == "--plain"@ {
        lemma_flag(a, rest, c, CommandOption::Plain);
    }
    if a.text == "--demo"@ {
        lemma_flag(a, rest, c, CommandOption::Demo);
    }
}

/// Every option with a value changes the setting that it names, keeps all
/// others, and leaves what follows to be read on top of that. A model may name
/// its provider, and the provider is taken in small letters.
pub proof fn law_options_with_values(
    a: ArgumentView,
    v: ArgumentView,
    rest: Seq<ArgumentView>,
    c: ConfigView,
    name: Seq<char>,
)
    ensures
        (a.text == "-m"@ || a.text == "--model"@) && v.text == name && !"ollama:"@.is_prefix_of(
            name,
        ) ==> parsed(seq![a, v] + rest, c) == parsed(rest, ConfigView { model: name, ..c }),
        (a.text == "-m"@ || a.text == "--model"@) && v.text == "ollama:"@ + name
            && !"ollama:"@.is_prefix_of(name) ==> parsed(seq![a, v] + rest, c) == parsed(
            rest,
            ConfigView { model: name, provider: "ollama"@, ..c },
        ),
        a.text == "--provider"@ ==> parsed(seq![a, v] + rest, c) == parsed(
            rest,
            ConfigView { provider: lowered(v.text), ..c },
        ),
        a.text == "--ollama-url"@ ==> parsed(seq![a, v] + rest, c) == parsed(
            rest,
            ConfigView { ollama_url: v.text, ..c },
        ),
        a.text == "--python"@ ==> parsed(seq![a, v] + rest, c) == parsed(
            rest,
            ConfigView { python: v.text, ..c },
        ),
        a.text == "--bridge"@ ==> parsed(seq![a, v] + rest, c) == parsed(
            rest,
            ConfigView { bridge: v.text, ..c },
        ),
        a.text == "-p"@ || a.text == "--prompt"@ ==> parsed(seq![a, v] + rest, c) == parsed(
            rest,
            ConfigView { prompt: Some(v.text), ..c },
        ),
        (a.text == "-t"@ || a.text == "--temperature"@) && v.number is Some ==> parsed(
            seq![a, v] + rest,
            c,
        ) == parsed(rest, ConfigView { temperature: v.number->0, ..c }),
        (a.text == "-t"@ || a.text == "--temperature"@) && v.number is None ==> parsed(
            seq![a, v] + rest,
            c,
        ) == Err::<InvocationView, Seq<char>>("--temperature must be a number"@),
{
    lemma_option_names();
    law_choosing_a_model(c, name);
    if let Some(o) = option_named(a.text) {
        if o != CommandOption::Help && value_missing(o) is Some {
            lemma_value(a, v, rest, c, o);
        }
    }
}

/// A command line that ends behind an option whose value is missing is wrong,
/// and so is one that names an option that there is not; what follows does not
/// matter. Help ends reading.
pub proof fn law_wrong_command_lines(a: ArgumentView, rest: Seq<ArgumentView>, c: ConfigView)
    ensures
        a.text == "-m"@ || a.text == "--model"@ ==> parsed(seq![a], c) == Err::<
            InvocationView,
            Seq<char>,
        >("--model needs a value"@),
        a.text == "--provider"@ ==> parsed(seq![a], c) == Err::<InvocationView, Seq<char>>(
            "--provider needs a value (google/ollama)"@,
        ),
        a.text == "--ollama-url"@ ==> parsed(seq![a], c) == Err::<InvocationView, Seq<char>>(
            "--ollama-url needs a value"@,
        ),
        a.text == "--python"@ ==> parsed(seq![a], c) == Err::<InvocationView, Seq<char>>(
            "--python needs a value"@,
        ),
        a.text == "--bridge"@ ==> parsed(seq![a], c) == Err::<InvocationView, Seq<char>>(
            "--bridge needs a value"@,
        ),
        a.text == "-t"@ || a.text == "--temperature"@ ==> parsed(seq![a], c) == Err::<
            InvocationView,
            Seq<char>,
        >("--temperature needs a value"@),
        a.text == "-p"@ || a.text == "--prompt"@ ==> parsed(seq![a], c) == Err::<
            InvocationView,
            Seq<char>,
        >("--prompt needs a value"@),
        names_no_option(a.text) ==> parsed(seq![a] + rest, c) == Err::<InvocationView, Seq<char>>(
            "unknown argument: "@ + a.text,
        ),
        a.text == "-h"@ || a.text == "--help"@ ==> parsed(seq![a] + rest, c) == Ok::<
            InvocationView,
            Seq<char>,
        >(InvocationView::Help),
        parsed(Seq::<ArgumentView>::empty(), c) == Ok::<InvocationView, Seq<char>>(
            InvocationView::Run(c),
        ),
{
    lemma_option_names();
    assert((seq![a] + rest)[0] == a);
    if let Some(o) = option_named(a.text) {
        if o != CommandOption::Help && value_missing(o) is Some {
            lemma_value(a, a, rest, c, o);
        }
    }
}

/// No argument reads `x` or `y`.
pub open spec fn without_option(args: Seq<ArgumentView>, x: Seq<char>, y: Seq<char>) -> bool {
    forall|i: int| 0 <= i < args.len() ==> (#[trigger] args[i]).text != x && args[i].text != y
}

proof fn lemma_without_option(args: Seq<ArgumentView>, n: int, x: Seq<char>, y: Seq<char>)
    requires
        0 <= n <= args.len(),
        without_option(args, x, y),
    ensures
        without_option(args.skip(n), x, y),
{
    assert forall|i: int| 0 <= i < args.skip(n).len() implies (#[trigger] args.skip(n)[i]).text
        != x && args.skip(n)[i].text != y by {
        assert(args.skip(n)[i] == args[i + n]);
    }
}

/// A setting that no argument names is the one from before: so the model of a
/// run is that of the last option for it, and likewise for all others.
pub proof fn law_settings_that_are_not_named_stay(args: Seq<ArgumentView>, c: ConfigView)
    ensures
        parsed(args, c) matches Ok(InvocationView::Run(d)) ==> {
            &&& without_option(args, "-m"@, "--model"@) ==> d.model == c.model
            &&& without_option(args, "-m"@, "--model"@) && without_option(
                args,
                "--provider"@,
                "--ollama"@,
            ) ==> d.provider == c.provider
            &&& without_option(args, "--ollama-url"@, "--ollama-url"@) ==> d.ollama_url
                == c.ollama_url
            &&& without_option(args, "--python"@, "--python"@) ==> d.python == c.python
            &&& without_option(args, "--bridge"@, "--bridge"@) ==> d.bridge == c.bridge
            &&& without_option(args, "-t"@, "--temperature"@) ==> d.temperature == c.temperature
            &&& without_option(args, "-p"@, "--prompt"@) ==> d.prompt == c.prompt
            &&& without_option(args, "--no-thinking"@, "--no-thinking"@) ==> d.thinking
                == c.thinking
            &&& without_option(args, "--plain"@, "--plain"@) ==> d.plain == c.plain
            &&& without_option(args, "--demo"@, "--demo"@) ==> d.demo == c.demo
        },
    decreases args.len(),
{
    if args.len() > 0 {
        lemma_option_names();
        let n: int = match option_named(args[0].text) {
            Some(o) => if value_missing(o) is None {
                1
            } else {
                2
            },
            None => 1,
        };
        if n <= args.len() {
            lemma_all_without(args, n);
            if let Some(o) = option_named(args[0].text) {
                if o != CommandOption::Help {
                    if value_missing(o) is None {
                        law_settings_that_are_not_named_stay(args.skip(1), with_flag(c, o));
                    } else if let Ok(next) = with_value(c, o, args[1]) {
                        law_settings_that_are_not_named_stay(args.skip(2), next);
                    }
                }
            }
        }
    }
}

proof fn lemma_all_without(args: Seq<ArgumentView>, n: int)
    requires
        0 <= n <= args.len(),
    ensures
        without_option(args, "-m"@, "--model"@) ==> without_option(args.skip(n), "-m"@, "--model"@),
        without_option(args, "--provider"@, "--ollama"@) ==> without_option(
            args.skip(n),
            "--provider"@,
            "--ollama"@,
        ),
        without_option(args, "--ollama-url"@, "--ollama-url"@) ==> without_option(
            args.skip(n),
            "--ollama-url"@,
            "--ollama-url"@,
        ),
        without_option(args, "--python"@, "--python"@) ==> without_option(
            args.skip(n),
            "--python"@,
            "--python"@,
        ),
        without_option(args, "--bridge"@, "--bridge"@) ==> without_option(
            args.skip(n),
            "--bridge"@,
            "--bridge"@,
        ),
        without_option(args, "-t"@, "--temperature"@) ==> without_option(
            args.skip(n),
            "-t"@,
            "--temperature"@,
        ),
        without_option(args, "-p"@, "--prompt"@) ==> without_option(
            args.skip(n),
            "-p"@,
            "--prompt"@,
        ),
        without_option(args, "--no-thinking"@, "--no-thinking"@) ==> without_option(
            args.skip(n),
            "--no-thinking"@,
            "--no-thinking"@,
        ),
        without_option(args, "--plain"@, "--plain"@) ==> without_option(
            args.skip(n),
            "--plain"@,
            "--plain"@,
        ),
        without_option(args, "--demo"@, "--demo"@) ==> without_option(
            args.skip(n),
            "--demo"@,
            "--demo"@,
        ),
{
    assert forall|x: Seq<char>, y: Seq<char>| without_option(args, x, y) implies without_option(
        args.skip(n),
        x,
        y,
    ) by {
        lemma_without_option(args, n, x, y);
    }
}

/// A run without arguments: the provider is Google, thoughts are summarized,
/// colors are on, there is no prompt, and each of three variables of the
/// environment decides one setting where it is set.
pub proof fn law_defaults(env: Environment)
    ensures
        parsed(Seq::<ArgumentView>::empty(), defaults(env)) == Ok::<InvocationView, Seq<char>>(
            InvocationView::Run(defaults(env)),
        ),
        defaults(env).provider == "google"@,
        defaults(env).temperature == "0.7"@,
        defaults(env).bridge == "scripts/gemma_stream.py"@,
        defaults(env).thinking && !defaults(env).plain && !defaults(env).demo,
        defaults(env).prompt is None,
        env.gemma_model is None ==> defaults(env).model == "gemma-4-26b-a4b-it"@,
        env.gemma_model is Some ==> defaults(env).model == env.gemma_model->0@,
        env.ollama_base_url is None ==> defaults(env).ollama_url == "http://localhost:11434"@,
        env.ollama_base_url is Some ==> defaults(env).ollama_url == env.ollama_base_url->0@,
        env.python is None ==> defaults(env).python == "python3"@,
        env.python is Some ==> defaults(env).python == env.python->0@,
{
}

/// The mathematical values of settings, messages and arguments are those of
/// their fields, in their order.
pub proof fn law_values(
    c: Config,
    history: Seq<Message>,
    args: Seq<Argument>,
    text: String,
    default: Seq<char>,
)
    ensures
        c@.model == c.model@ && c@.provider == c.provider@ && c@.ollama_url == c.ollama_url@,
        c@.python == c.python@ && c@.bridge == c.bridge@ && c@.temperature == c.temperature@,
        c@.thinking == c.thinking && c@.plain == c.plain && c@.demo == c.demo,
        c.prompt is Some ==> c@.prompt == Some(c.prompt->0@),
        c.prompt is None ==> c@.prompt is None,
        messages(history).len() == history.len(),
        forall|i: int|
            0 <= i < history.len() ==> (#[trigger] messages(history)[i]).role == history[i].role@
                && messages(history)[i].content == history[i].content@,
        arguments(args).len() == args.len(),
        forall|i: int|
            0 <= i < args.len() ==> (#[trigger] arguments(args)[i]).text == args[i].text@ && (
            args[i].number is Some ==> arguments(args)[i].number == Some(args[i].number->0@)) && (
            args[i].number is None ==> arguments(args)[i].number is None),
        opt_text(Some(text)) == Some(text@),
        opt_text(None) is None,
        text_or(Some(text), default) == text@,
        text_or(None, default) == default,
        outcome(Ok(Invocation::Run(c))) == Ok::<InvocationView, Seq<char>>(
            InvocationView::Run(c@),
        ),
        outcome(Ok(Invocation::Help)) == Ok::<InvocationView, Seq<char>>(InvocationView::Help),
        outcome(Err(text)) == Err::<InvocationView, Seq<char>>(text@),
{
}

} // verus!
