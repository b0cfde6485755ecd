//! What is printed besides the model's text: notices, errors, help, and the
//! lists of models and providers.

use crate::config::{paint, painted, Config, ConfigView};
use crate::render::{shown_stream, RendererView, StreamKind, StreamRenderer};
use crate::render_laws::law_pieces_do_not_matter;
use crate::stream::list_texts;
use crate::text::{
    before_char, cut_at, ends_with, same, starts_with, texts, trim_end_matches, without_suffixes,
};
use vstd::prelude::*;

verus! {

// ---------------------------------------------------------------------------
// Notices and errors
// ---------------------------------------------------------------------------

/// A notice.
pub open spec fn notice(plain: bool, message: Seq<char>) -> Seq<char> {
    painted(plain, "note"@, "\x1b[1m\x1b[38;5;80m"@) + " "@ + message + "\n"@
}

/// An error, after an empty line.
pub open spec fn error_note(plain: bool, message: Seq<char>) -> Seq<char> {
    "\n"@ + painted(plain, "error"@, "\x1b[1m\x1b[38;5;196m"@) + " "@ + message + "\n"@
}

/// Prints a notice.
pub fn print_notice(config: &Config, message: &str, out: &mut String)
    ensures
        final(out)@ == old(out)@ + notice(config@.plain, message@),
{
    let label = paint(config, "note", "\x1b[1m\x1b[38;5;80m");
    out.append(label.as_str());
    out.append(" ");
    out.append(message);
    out.append("\n");
}

/// Prints a notice that ends with a name.
pub fn print_notice_of(config: &Config, message: &str, name: &str, out: &mut String)
    ensures
        final(out)@ == old(out)@ + notice(config@.plain, message@ + name@),
{
    let mut text = message.to_owned();
    text.append(name);
    print_notice(config, text.as_str(), out);
}

/// Prints an error.
pub fn print_error(config: &Config, message: &str, err: &mut String)
    ensures
        final(err)@ == old(err)@ + error_note(config@.plain, message@),
{
    let label = paint(config, "error", "\x1b[1m\x1b[38;5;196m");
    err.append("\n");
    err.append(label.as_str());
    err.append(" ");
    err.append(message);
    err.append("\n");
}

/// The message with which the program ends after an error.
pub open spec fn fatal_note(message: Seq<char>) -> Seq<char> {
    "error: "@ + message + "\n"@
}

/// The message with which the program ends after an error.
pub fn fatal_error(message: &str) -> (r: String)
    ensures
        r@ == fatal_note(message@),
{
    let mut r = "error: ".to_owned();
    r.append(message);
    r.append("\n");
    r
}

/// The prompt of the line editor.
pub open spec fn prompt_text(plain: bool) -> Seq<char> {
    painted(plain, "you ❯ "@, "\x1b[1m\x1b[38;5;82m"@)
}

/// The prompt of the line editor.
pub fn prompt_label(config: &Config) -> (r: String)
    ensures
        r@ == prompt_text(config@.plain),
{
    paint(config, "you ❯ ", "\x1b[1m\x1b[38;5;82m")
}

// ---------------------------------------------------------------------------
// Framed boxes
// ---------------------------------------------------------------------------

/// The upper or lower edge of a box.
pub open spec fn edge(plain: bool, text: Seq<char>) -> Seq<char> {
    painted(plain, text, "\x1b[38;5;141m"@) + "\n"@
}

/// A row of a box.
pub open spec fn row(plain: bool, text: Seq<char>) -> Seq<char> {
    painted(plain, "│"@, "\x1b[38;5;141m"@) + " "@ + text + "\n"@
}

/// The lower edge of a box.
pub open spec fn bottom_edge(plain: bool) -> Seq<char> {
    edge(plain, "╰────────────────────────────────────────────╯"@)
}

/// Prints the upper or lower edge of a box.
fn print_edge(config: &Config, text: &str, out: &mut String)
    ensures
        final(out)@ == old(out)@ + edge(config@.plain, text@),
{
    let line = paint(config, text, "\x1b[38;5;141m");
    out.append(line.as_str());
    out.append("\n");
}

/// Prints the lower edge of a box.
fn print_bottom_edge(config: &Config, out: &mut String)
    ensures
        final(out)@ == old(out)@ + bottom_edge(config@.plain),
{
    print_edge(config, "╰────────────────────────────────────────────╯", out);
}

/// Prints a row of a box.
fn print_row(config: &Config, text: &str, out: &mut String)
    ensures
        final(out)@ == old(out)@ + row(config@.plain, text@),
{
    let bar = paint(config, "│", "\x1b[38;5;141m");
    out.append(bar.as_str());
    out.append(" ");
    out.append(text);
    out.append("\n");
}

/// Prints a row of a box that holds a label and a value in color.
fn print_labelled_row(config: &Config, label: &str, value: &str, color: &str, out: &mut String)
    ensures
        final(out)@ == old(out)@ + row(
            config@.plain,
            label@ + painted(config@.plain, value@, color@),
        ),
{
    let mut text = label.to_owned();
    let colored = paint(config, value, color);
    text.append(colored.as_str());
    print_row(config, text.as_str(), out);
}

// ---------------------------------------------------------------------------
// Banner and help
// ---------------------------------------------------------------------------

/// What the banner says about thoughts.
pub open spec fn thinking_note(config: ConfigView) -> Seq<char> {
    if config.provider == "ollama"@ {
        painted(config.plain, "off (not supported by Ollama)"@, "\x1b[38;5;245m"@)
    } else if config.thinking {
        painted(config.plain, "summaries on"@, "\x1b[38;5;80m"@)
    } else {
        painted(config.plain, "off"@, "\x1b[38;5;245m"@)
    }
}

/// The banner.
pub open spec fn banner(config: ConfigView) -> Seq<char> {
    let plain = config.plain;
    edge(plain, "╭─ Edge Glow ───────────────────────────────╮"@) + row(
        plain,
        painted(plain, "Google AI Studio / Ollama local chat"@, "\x1b[1m\x1b[96m"@),
    ) + row(plain, "provider    "@ + painted(plain, config.provider, "\x1b[38;5;80m"@)) + row(
        plain,
        "model       "@ + painted(plain, config.model, "\x1b[38;5;220m"@),
    ) + row(plain, "thinking    "@ + thinking_note(config)) + row(
        plain,
        "commands    "@ + painted(plain, "/help  /model  /provider  /exit"@, "\x1b[38;5;250m"@),
    ) + bottom_edge(plain)
}

/// Prints what the banner says about thoughts.
fn print_thinking_row(config: &Config, out: &mut String)
    ensures
        final(out)@ == old(out)@ + row(config@.plain, "thinking    "@ + thinking_note(config@)),
{
    if same(config.provider.as_str(), "ollama") {
        print_labelled_row(
            config,
            "thinking    ",
            "off (not supported by Ollama)",
            "\x1b[38;5;245m",
            out,
        );
    } else if config.thinking {
        print_labelled_row(config, "thinking    ", "summaries on", "\x1b[38;5;80m", out);
    } else {
        print_labelled_row(config, "thinking    ", "off", "\x1b[38;5;245m", out);
    }
}

/// Prints the banner: the provider, the model, and whether thoughts are
/// summarized.
#[verifier::spinoff_prover]
#[verifier::rlimit(40)]
pub fn print_banner(config: &Config, out: &mut String)
    ensures
        final(out)@ == old(out)@ + banner(config@),
{
    print_edge(config, "╭─ Edge Glow ───────────────────────────────╮", out);
    let title = paint(config, "Google AI Studio / Ollama local chat", "\x1b[1m\x1b[96m");
    print_row(config, title.as_str(), out);
    print_labelled_row(config, "provider    ", config.provider.as_str(), "\x1b[38;5;80m", out);
    print_labelled_row(config, "model       ", config.model.as_str(), "\x1b[38;5;220m", out);
    print_thinking_row(config, out);
    print_labelled_row(
        config,
        "commands    ",
        "/help  /model  /provider  /exit",
        "\x1b[38;5;250m",
        out,
    );
    print_bottom_edge(config, out);
    assert(out@ == old(out)@ + banner(config@));
}

/// The help for the command line.
pub const HELP: &'static str = "Edge Glow - streamed Google AI Studio / Ollama chat

Usage:
  cargo run -- [options]
  cargo run -- --prompt \"hello\"

Options:
  -m, --model <name>          Model name (prefix with 'ollama:' for local)
      --provider <name>      Backend provider (google or ollama)
      --ollama               Force Ollama provider
      --ollama-url <url>     Ollama API URL (default: http://localhost:11434)
  -p, --prompt <text>         Run a single prompt and exit
  -t, --temperature <number>  Sampling temperature (default: 0.7)
      --no-thinking          Do not request thought summaries
      --python <binary>      Python binary (default: python3 or PYTHON)
      --bridge <path>        Python bridge path
      --plain                Disable colors
      --demo                 Preview the polished renderer
  -h, --help                 Show help
";

/// Prints the help for the command line.
pub fn print_help(out: &mut String)
    ensures
        final(out)@ == old(out)@ + HELP@,
{
    out.append(HELP);
}

/// The help for the chat commands.
pub open spec fn chat_help(plain: bool) -> Seq<char> {
    edge(plain, "╭─ Commands ─────────────────────────────────╮"@) + row(
        plain,
        "/help              show commands"@,
    ) + row(plain, "/model [name]      list or switch model"@) + row(
        plain,
        "/provider [name]   list or switch provider"@,
    ) + row(plain, "/clear             clear chat memory"@) + row(
        plain,
        "/exit              quit"@,
    ) + bottom_edge(plain)
}

/// Prints the help for the chat commands.
pub fn print_chat_help(config: &Config, out: &mut String)
    ensures
        final(out)@ == old(out)@ + chat_help(config@.plain),
{
    print_edge(config, "╭─ Commands ─────────────────────────────────╮", out);
    print_row(config, "/help              show commands", out);
    print_row(config, "/model [name]      list or switch model", out);
    print_row(config, "/provider [name]   list or switch provider", out);
    print_row(config, "/clear             clear chat memory", out);
    print_row(config, "/exit              quit", out);
    print_bottom_edge(config, out);
    assert(out@ == old(out)@ + chat_help(config@.plain));
}

// ---------------------------------------------------------------------------
// Lists
// ---------------------------------------------------------------------------

/// A row of a list: a mark and a name.
pub open spec fn list_row(plain: bool, mark: Seq<char>, name: Seq<char>) -> Seq<char> {
    row(plain, mark + " "@ + name)
}

/// Prints a row of a list.
fn print_list_row(config: &Config, mark: &str, name: &str, out: &mut String)
    ensures
        final(out)@ == old(out)@ + list_row(config@.plain, mark@, name@),
{
    let mut text = mark.to_owned();
    text.append(" ");
    text.append(name);
    print_row(config, text.as_str(), out);
}

/// The mark and the name with which an entry of the list of models is shown.
/// An entry of Ollama is a model, a space, and whether it is installed. The
/// current model has a yellow dot, an installed one a blue dot. A model of
/// Ollama is the current one where its name is what the name of the current
/// model begins with.
pub open spec fn model_mark(config: ConfigView, entry: Seq<char>) -> (Seq<char>, Seq<char>) {
    let current = painted(config.plain, "●"@, "\x1b[38;5;220m"@);
    let installed = painted(config.plain, "●"@, "\x1b[38;5;39m"@);
    if config.provider != "ollama"@ {
        (
            if entry == config.model {
                current
            } else {
                " "@
            },
            entry,
        )
    } else if before_char(entry, ' ').is_prefix_of(config.model) {
        (current, without_suffixes(without_suffixes(entry, "- installed"@), "- available"@))
    } else if "- installed"@.is_suffix_of(entry) {
        (installed, without_suffixes(entry, "- installed"@))
    } else {
        (" "@, without_suffixes(entry, "- available"@))
    }
}

/// The row of an entry of the list of models.
pub open spec fn model_row(config: ConfigView, entry: Seq<char>) -> Seq<char> {
    let (mark, name) = model_mark(config, entry);
    list_row(config.plain, mark, name)
}

/// The rows of the list of models.
pub open spec fn model_rows(config: ConfigView, models: Seq<Seq<char>>) -> Seq<char>
    decreases models.len(),
{
    if models.len() == 0 {
        seq![]
    } else {
        model_rows(config, models.drop_last()) + model_row(config, models.last())
    }
}

/// The notice of the current model.
pub open spec fn current_note(config: ConfigView) -> Seq<char> {
    notice(
        config.plain,
        "current model: "@ + config.model + " (provider: "@ + config.provider + ")"@,
    )
}

/// The list of models, and the current one.
pub open spec fn model_list(config: ConfigView, models: Seq<Seq<char>>) -> Seq<char> {
    if models.len() == 0 {
        notice(config.plain, "no models found or provider unreachable"@) + current_note(config)
    } else {
        edge(config.plain, "╭─ Available Models ──────────────────────────╮"@) + model_rows(
            config,
            models,
        ) + bottom_edge(config.plain) + current_note(config) + notice(
            config.plain,
            "use '/model <name>' to switch"@,
        )
    }
}

/// What is printed about the models, and what is printed to the error output.
/// The current model is shown even where there is no list.
pub open spec fn models_report(
    config: ConfigView,
    fetched: Result<Seq<Seq<char>>, Seq<char>>,
) -> (Seq<char>, Seq<char>) {
    match fetched {
        Ok(models) => (model_list(config, models), seq![]),
        Err(message) => (current_note(config), error_note(config.plain, message)),
    }
}

/// Prints the row of an entry of the list of models.
fn print_model_row(config: &Config, entry: &str, out: &mut String)
    ensures
        final(out)@ == old(out)@ + model_row(config@, entry@),
{
    if same(config.provider.as_str(), "ollama") {
        let id = cut_at(entry, ' ');
        if starts_with(config.model.as_str(), id.as_str()) {
            let mark = paint(config, "●", "\x1b[38;5;220m");
            let name = trim_end_matches(entry, "- installed");
            let name = trim_end_matches(name.as_str(), "- available");
            print_list_row(config, mark.as_str(), name.as_str(), out);
        } else if ends_with(entry, "- installed") {
            let mark = paint(config, "●", "\x1b[38;5;39m");
            let name = trim_end_matches(entry, "- installed");
            print_list_row(config, mark.as_str(), name.as_str(), out);
        } else {
            let name = trim_end_matches(entry, "- available");
            print_list_row(config, " ", name.as_str(), out);
        }
    } else if same(entry, config.model.as_str()) {
        let mark = paint(config, "●", "\x1b[38;5;220m");
        print_list_row(config, mark.as_str(), entry, out);
    } else {
        print_list_row(config, " ", entry, out);
    }
}

/// Prints the notice of the current model.
fn print_current_model(config: &Config, out: &mut String)
    ensures
        final(out)@ == old(out)@ + current_note(config@),
{
    let mut current = "current model: ".to_owned();
    current.append(config.model.as_str());
    current.append(" (provider: ");
    current.append(config.provider.as_str());
    current.append(")");
    print_notice(config, current.as_str(), out);
}

/// Prints the list of models and the current one. Where there is no list, the
/// reason goes to the error output, and the current model is shown all the
/// same.
pub fn list_models(
    config: &Config,
    fetched: &Result<Vec<String>, String>,
    out: &mut String,
    err: &mut String,
)
    ensures
        final(out)@ == old(out)@ + models_report(config@, list_texts(*fetched)).0,
        final(err)@ == old(err)@ + models_report(config@, list_texts(*fetched)).1,
{
    match fetched {
        Err(message) => {
            print_error(config, message.as_str(), err);
            print_current_model(config, out);
        },
        Ok(models) => {
            if models.len() == 0 {
                print_notice(config, "no models found or provider unreachable", out);
                print_current_model(config, out);
                assert(out@ == old(out)@ + model_list(config@, texts(models@)));
                return ;
            }
            print_edge(config, "╭─ Available Models ──────────────────────────╮", out);
            let ghost front = out@;
            let ghost all = texts(models@);
            let mut i: usize = 0;
            assert(all.take(0) == Seq::<Seq<char>>::empty());
            assert(front + Seq::<char>::empty() == front);
            while i < models.len()
                invariant
                    i <= models@.len(),
                    all == texts(models@),
                    out@ == front + model_rows(config@, all.take(i as int)),
                decreases models.len() - i,
            {
                let ghost upto = all.take(i + 1);
                assert(upto.drop_last() == all.take(i as int));
                assert(upto.last() == models@[i as int]@);
                print_model_row(config, models[i].as_str(), out);
                i += 1;
            }
            assert(all.take(i as int) == all);
            print_bottom_edge(config, out);
            print_current_model(config, out);
            print_notice(config, "use '/model <name>' to switch", out);
            assert(out@ == old(out)@ + model_list(config@, all));
        },
    }
}

/// The row of a provider: the current one has a green dot.
pub open spec fn provider_row(config: ConfigView, provider: Seq<char>) -> Seq<char> {
    list_row(
        config.plain,
        if provider == config.provider {
            painted(config.plain, "●"@, "\x1b[38;5;82m"@)
        } else {
            " "@
        },
        provider,
    )
}

/// The list of providers.
pub open spec fn provider_list(config: ConfigView) -> Seq<char> {
    edge(config.plain, "╭─ Supported Providers ───────────────────────╮"@) + provider_row(
        config,
        "google"@,
    ) + provider_row(config, "ollama"@) + bottom_edge(config.plain) + notice(
        config.plain,
        "current provider: "@ + config.provider,
    ) + notice(config.plain, "use '/provider <name>' to switch"@)
}

/// Prints the row of a provider.
fn print_provider_row(config: &Config, provider: &str, out: &mut String)
    ensures
        final(out)@ == old(out)@ + provider_row(config@, provider@),
{
    if same(provider, config.provider.as_str()) {
        let mark = paint(config, "●", "\x1b[38;5;82m");
        print_list_row(config, mark.as_str(), provider, out);
    } else {
        print_list_row(config, " ", provider, out);
    }
}

/// Prints the list of providers.
pub fn list_providers(config: &Config, out: &mut String)
    ensures
        final(out)@ == old(out)@ + provider_list(config@),
{
    print_edge(config, "╭─ Supported Providers ───────────────────────╮", out);
    print_provider_row(config, "google", out);
    print_provider_row(config, "ollama", out);
    print_bottom_edge(config, out);
    print_notice_of(config, "current provider: ", config.provider.as_str(), out);
    print_notice(config, "use '/provider <name>' to switch", out);
    assert(out@ == old(out)@ + provider_list(config@));
}

// ---------------------------------------------------------------------------
// The demonstration
// ---------------------------------------------------------------------------

/// The thought that the demonstration shows.
pub const DEMO_THOUGHT: &'static str = "I will keep this concise, structured, and easy to scan.";

/// The pieces of the answer that the demonstration shows.
pub open spec fn demo_answer() -> Seq<Seq<char>> {
    seq![
        "## Clean CLI Output\n\n"@,
        "Here is how streamed Markdown now looks inside Edge Glow:\n\n"@,
        "1. **Readable sections:** answers live inside a bordered response block.\n"@,
        "2. **Cleaner Markdown:** bold markers disappear and styling is applied.\n"@,
        "* **Compact bullets:** raw `*` list markers become terminal bullets.\n\n"@,
        "Use `/clear` when you want a fresh chat, and `/exit` when you are done."@,
    ]
}

/// The pieces of a text, one after another.
pub open spec fn concat(pieces: Seq<Seq<char>>) -> Seq<char>
    decreases pieces.len(),
{
    if pieces.len() == 0 {
        seq![]
    } else {
        concat(pieces.drop_last()) + pieces.last()
    }
}

/// What the demonstration shows.
pub open spec fn demo(config: ConfigView) -> Seq<char> {
    shown_stream(StreamKind::Thought, config.plain, config.model, DEMO_THOUGHT@) + shown_stream(
        StreamKind::Answer,
        config.plain,
        config.model,
        concat(demo_answer()),
    )
}

/// Shows a whole stream, piece by piece.
fn show_stream(config: &Config, kind: StreamKind, pieces: &Vec<String>, out: &mut String)
    ensures
        final(out)@ == old(out)@ + shown_stream(
            kind,
            config@.plain,
            config@.model,
            concat(texts(pieces@)),
        ),
{
    let ghost start = RendererView::at_line_start(kind, config@.plain, false);
    let ghost all = texts(pieces@);
    let mut renderer = StreamRenderer::new(config, kind, out);
    let ghost front = out@;
    let mut i: usize = 0;
    assert(all.take(0) == Seq::<Seq<char>>::empty());
    while i < pieces.len()
        invariant
            i <= pieces@.len(),
            all == texts(pieces@),
            renderer.wf(),
            renderer@ == start.run(concat(all.take(i as int))).0,
            out@ == front + start.run(concat(all.take(i as int))).1,
        decreases pieces.len() - i,
    {
        let ghost upto = all.take(i + 1);
        assert(upto.drop_last() == all.take(i as int));
        assert(upto.last() == pieces@[i as int]@);
        renderer.feed(pieces[i].as_str(), out);
        proof {
            law_pieces_do_not_matter(start, concat(all.take(i as int)), pieces@[i as int]@);
        }
        i += 1;
    }
    assert(all.take(i as int) == all);
    renderer.finish(out);
    assert(out@ == old(out)@ + shown_stream(kind, config@.plain, config@.model, concat(all)));
}

/// Shows what the renderer does, on a thought and an answer of its own.
pub fn run_demo(config: &Config, out: &mut String)
    ensures
        final(out)@ == old(out)@ + demo(config@),
{
    let mut thought: Vec<String> = Vec::new();
    thought.push(DEMO_THOUGHT.to_owned());
    proof {
        assert(texts(thought@) == seq![DEMO_THOUGHT@]);
        reveal_with_fuel(concat, 2);
        assert(seq![DEMO_THOUGHT@].drop_last() == Seq::<Seq<char>>::empty());
        assert(concat(seq![DEMO_THOUGHT@]) == DEMO_THOUGHT@);
    }
    show_stream(config, StreamKind::Thought, &thought, out);
    let mut answer: Vec<String> = Vec::new();
    answer.push("## Clean CLI Output\n\n".to_owned());
    answer.push("Here is how streamed Markdown now looks inside Edge Glow:\n\n".to_owned());
    answer.push(
        "1. **Readable sections:** answers live inside a bordered response block.\n".to_owned(),
    );
    answer.push(
        "2. **Cleaner Markdown:** bold markers disappear and styling is applied.\n".to_owned(),
    );
    answer.push("* **Compact bullets:** raw `*` list markers become terminal bullets.\n\n".to_owned());
    answer.push("Use `/clear` when you want a fresh chat, and `/exit` when you are done.".to_owned());
    assert(texts(answer@) == demo_answer());
    show_stream(config, StreamKind::Answer, &answer, out);
    assert(out@ == old(out)@ + demo(config@));
}

} // verus!
