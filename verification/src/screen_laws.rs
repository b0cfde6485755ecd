//! What holds of everything that is printed.

use crate::config::ConfigView;
use crate::render::{RendererView, StreamKind};
use crate::render_laws::{law_plain_shows_no_escape, no_escape};
use crate::screen::{
    banner, bottom_edge, chat_help, concat, current_note, demo, demo_answer, edge, error_note,
    fatal_note, list_row, model_list, model_mark, model_row, model_rows, models_report, notice,
    prompt_text, provider_list, provider_row, row, thinking_note, DEMO_THOUGHT, HELP,
};
use crate::text::{occurs_at, without_suffixes};
use vstd::prelude::*;

verus! {

proof fn lemma_parts(message: Seq<char>)
    requires
        no_escape(message),
    ensures
        no_escape(notice(true, message)),
        no_escape(error_note(true, message)),
        no_escape(edge(true, message)),
        no_escape(row(true, message)),
        no_escape(bottom_edge(true)),
{
    reveal_strlit("note");
    reveal_strlit("error");
    reveal_strlit(" ");
    reveal_strlit("\n");
    reveal_strlit("│");
    reveal_strlit("╰────────────────────────────────────────────╯");
}

proof fn lemma_plain_banner(config: ConfigView)
    requires
        config.plain,
        no_escape(config.model),
        no_escape(config.provider),
    ensures
        no_escape(banner(config)),
{
    reveal_strlit("╭─ Edge Glow ───────────────────────────────╮");
    reveal_strlit("Google AI Studio / Ollama local chat");
    reveal_strlit("provider    ");
    reveal_strlit("model       ");
    reveal_strlit("thinking    ");
    reveal_strlit("commands    ");
    reveal_strlit("off (not supported by Ollama)");
    reveal_strlit("summaries on");
    reveal_strlit("off");
    reveal_strlit("/help  /model  /provider  /exit");
    lemma_parts("╭─ Edge Glow ───────────────────────────────╮"@);
    lemma_parts("Google AI Studio / Ollama local chat"@);
    lemma_parts("provider    "@ + config.provider);
    lemma_parts("model       "@ + config.model);
    lemma_parts("thinking    "@ + thinking_note(config));
    lemma_parts("commands    "@ + "/help  /model  /provider  /exit"@);
}

proof fn lemma_plain_chat_help()
    ensures
        no_escape(chat_help(true)),
{
    reveal_strlit("╭─ Commands ─────────────────────────────────╮");
    reveal_strlit("/help              show commands");
    reveal_strlit("/model [name]      list or switch model");
    reveal_strlit("/provider [name]   list or switch provider");
    reveal_strlit("/clear             clear chat memory");
    reveal_strlit("/exit              quit");
    lemma_parts("╭─ Commands ─────────────────────────────────╮"@);
    lemma_parts("/help              show commands"@);
    lemma_parts("/model [name]      list or switch model"@);
    lemma_parts("/provider [name]   list or switch provider"@);
    lemma_parts("/clear             clear chat memory"@);
    lemma_parts("/exit              quit"@);
}

/// What is cut off a text takes no escape character to it.
pub proof fn lemma_without_suffixes(s: Seq<char>, p: Seq<char>)
    requires
        no_escape(s),
    ensures
        no_escape(without_suffixes(s, p)),
    decreases s.len(),
{
    if p.len() > 0 && p.is_suffix_of(s) {
        lemma_without_suffixes(s.take(s.len() - p.len()), p);
    }
}

proof fn lemma_plain_list_row(mark: Seq<char>, name: Seq<char>)
    requires
        no_escape(mark),
        no_escape(name),
    ensures
        no_escape(list_row(true, mark, name)),
{
    reveal_strlit(" ");
    lemma_parts(mark + " "@ + name);
}

proof fn lemma_plain_model_row(config: ConfigView, entry: Seq<char>)
    requires
        config.plain,
        no_escape(entry),
    ensures
        no_escape(model_row(config, entry)),
{
    reveal_strlit("●");
    reveal_strlit(" ");
    let shorter = without_suffixes(entry, "- installed"@);
    lemma_without_suffixes(entry, "- installed"@);
    lemma_without_suffixes(entry, "- available"@);
    lemma_without_suffixes(shorter, "- available"@);
    let (mark, name) = model_mark(config, entry);
    lemma_plain_list_row(mark, name);
}

proof fn lemma_plain_model_rows(config: ConfigView, models: Seq<Seq<char>>)
    requires
        config.plain,
        forall|i: int| 0 <= i < models.len() ==> no_escape(#[trigger] models[i]),
    ensures
        no_escape(model_rows(config, models)),
    decreases models.len(),
{
    if models.len() > 0 {
        let init = models.drop_last();
        assert forall|i: int| 0 <= i < init.len() implies no_escape(#[trigger] init[i]) by {
            assert(init[i] == models[i]);
        }
        lemma_plain_model_rows(config, init);
        assert(no_escape(models[models.len() - 1]));
        lemma_plain_model_row(config, models.last());
    }
}

proof fn lemma_plain_model_list(config: ConfigView, models: Seq<Seq<char>>)
    requires
        config.plain,
        no_escape(config.model),
        no_escape(config.provider),
        forall|i: int| 0 <= i < models.len() ==> no_escape(#[trigger] models[i]),
    ensures
        no_escape(model_list(config, models)),
        no_escape(current_note(config)),
{
    reveal_strlit("no models found or provider unreachable");
    reveal_strlit("╭─ Available Models ──────────────────────────╮");
    reveal_strlit("current model: ");
    reveal_strlit(" (provider: ");
    reveal_strlit(")");
    reveal_strlit("use '/model <name>' to switch");
    lemma_parts("no models found or provider unreachable"@);
    lemma_parts("╭─ Available Models ──────────────────────────╮"@);
    lemma_parts(
        "current model: "@ + config.model + " (provider: "@ + config.provider + ")"@,
    );
    lemma_parts("use '/model <name>' to switch"@);
    lemma_plain_model_rows(config, models);
}

proof fn lemma_plain_provider_row(config: ConfigView, provider: Seq<char>)
    requires
        config.plain,
        no_escape(provider),
    ensures
        no_escape(provider_row(config, provider)),
{
    reveal_strlit("●");
    reveal_strlit(" ");
    lemma_plain_list_row("●"@, provider);
    lemma_plain_list_row(" "@, provider);
}

proof fn lemma_plain_provider_list(config: ConfigView)
    requires
        config.plain,
        no_escape(config.provider),
    ensures
        no_escape(provider_list(config)),
{
    reveal_strlit("╭─ Supported Providers ───────────────────────╮");
    reveal_strlit("google");
    reveal_strlit("ollama");
    reveal_strlit("current provider: ");
    reveal_strlit("use '/provider <name>' to switch");
    lemma_parts("╭─ Supported Providers ───────────────────────╮"@);
    lemma_plain_provider_row(config, "google"@);
    lemma_plain_provider_row(config, "ollama"@);
    lemma_parts("current provider: "@ + config.provider);
    lemma_parts("use '/provider <name>' to switch"@);
}

pub proof fn lemma_demo_answer()
    ensures
        no_escape(concat(demo_answer())),
{
    reveal_strlit("## Clean CLI Output\n\n");
    reveal_strlit("Here is how streamed Markdown now looks inside Edge Glow:\n\n");
    reveal_strlit("1. **Readable sections:** answers live inside a bordered response block.\n");
    reveal_strlit("2. **Cleaner Markdown:** bold markers disappear and styling is applied.\n");
    reveal_strlit("* **Compact bullets:** raw `*` list markers become terminal bullets.\n\n");
    reveal_strlit("Use `/clear` when you want a fresh chat, and `/exit` when you are done.");
    let pieces = demo_answer();
    assert forall|i: int| 0 <= i < pieces.len() implies no_escape(#[trigger] pieces[i]) by {}
    lemma_concat(pieces);
}

proof fn lemma_concat(pieces: Seq<Seq<char>>)
    requires
        forall|i: int| 0 <= i < pieces.len() ==> no_escape(#[trigger] pieces[i]),
    ensures
        no_escape(concat(pieces)),
    decreases pieces.len(),
{
    if pieces.len() > 0 {
        let init = pieces.drop_last();
        assert forall|i: int| 0 <= i < init.len() implies no_escape(#[trigger] init[i]) by {
            assert(init[i] == pieces[i]);
        }
        lemma_concat(init);
        assert(no_escape(pieces[pieces.len() - 1]));
    }
}

proof fn lemma_plain_demo(config: ConfigView)
    requires
        config.plain,
        no_escape(config.model),
    ensures
        no_escape(demo(config)),
{
    reveal_strlit("I will keep this concise, structured, and easy to scan.");
    assert(no_escape(DEMO_THOUGHT@));
    lemma_demo_answer();
    law_plain_shows_no_escape(
        RendererView::at_line_start(StreamKind::Thought, true, false),
        DEMO_THOUGHT@,
        config.model,
    );
    law_plain_shows_no_escape(
        RendererView::at_line_start(StreamKind::Answer, true, false),
        concat(demo_answer()),
        config.model,
    );
}

/// The help for the command line holds no color code.
proof fn lemma_help()
    ensures
        no_escape(HELP@),
{
    reveal_strlit("Edge Glow - streamed Google AI Studio / Ollama chat

Usage:
  cargo run -- [options]
  cargo run -- --prompt \"hello\"

Options:
  -m, --model <name>          Model name (prefix with 'ollama:' for local)
      --provider <name>      Backend provider (google or ollama)
      --ollama               Force Ollama provider
      --ollama-url <url>     Ollama API URL (default: http://localhost:11434)
  -p, --prompt <text>         Run a single prompt and exit
  -t, --temperature <number>  Sampling temperature (default: 0.7)
      --no-thinking          Do not request thought summaries
      --python <binary>      Python binary (default: python3 or PYTHON)
      --bridge <path>        Python bridge path
      --plain                Disable colors
      --demo                 Preview the polished renderer
  -h, --help                 Show help
");
}

/// Where colors are off, no color code is printed: the prompt, notices and
/// errors, the banner, the help, the lists and the demonstration are free of
/// escape characters, unless the names and messages that they show hold one.
/// The code that clears the screen is apart: it is no color, and clearing
/// prints it with and without colors.
pub proof fn law_plain_screen_shows_no_escape(
    config: ConfigView,
    message: Seq<char>,
    models: Seq<Seq<char>>,
)
    requires
        config.plain,
        no_escape(config.model),
        no_escape(config.provider),
        no_escape(message),
        forall|i: int| 0 <= i < models.len() ==> no_escape(#[trigger] models[i]),
    ensures
        no_escape(notice(config.plain, message)),
        no_escape(error_note(config.plain, message)),
        no_escape(fatal_note(message)),
        no_escape(prompt_text(config.plain)),
        no_escape(HELP@),
        no_escape(banner(config)),
        no_escape(chat_help(config.plain)),
        no_escape(model_list(config, models)),
        no_escape(current_note(config)),
        no_escape(provider_list(config)),
        no_escape(demo(config)),
{
    reveal_strlit("error: ");
    reveal_strlit("\n");
    reveal_strlit("you ❯ ");
    lemma_help();
    lemma_parts(message);
    lemma_plain_banner(config);
    lemma_plain_chat_help();
    lemma_plain_model_list(config, models);
    lemma_plain_provider_list(config);
    lemma_plain_demo(config);
}

/// The current model is shown whatever comes of fetching the models: the
/// notice of it stands in the output.
pub proof fn law_current_model_is_shown(
    config: ConfigView,
    fetched: Result<Seq<Seq<char>>, Seq<char>>,
)
    ensures
        exists|i: int| occurs_at(models_report(config, fetched).0, current_note(config), i),
{
    let out = models_report(config, fetched).0;
    let note = current_note(config);
    let none = Seq::<char>::empty();
    let (front, back) = match fetched {
        Err(_) => (none, none),
        Ok(models) => if models.len() == 0 {
            (notice(config.plain, "no models found or provider unreachable"@), none)
        } else {
            (
                edge(config.plain, "╭─ Available Models ──────────────────────────╮"@)
                    + model_rows(config, models) + bottom_edge(config.plain),
                notice(config.plain, "use '/model <name>' to switch"@),
            )
        },
    };
    let at = front.len() as int;
    assert(out == front + note + back);
    assert(out.subrange(at, at + note.len()) == note);
    assert(occurs_at(out, note, at));
}

} // verus!
