//! What stands in every box and notice on the screen, and that colors change
//! nothing there but colors.

use crate::color_laws::{
    differs_by_colors, law_colors_change_no_frame, law_colors_change_nothing_else, lemma_code,
    lemma_painted, lemma_parts_by_colors, lemma_text_has_no_colors, uncolored,
};
use crate::config::{painted, ConfigView};
use crate::render::{header, shown_stream, RendererView, StreamKind};
use crate::render_laws::no_escape;
use crate::screen::{
    banner, bottom_edge, chat_help, concat, current_note, demo, demo_answer, edge, error_note,
    fatal_note, model_list, model_mark, model_rows, models_report, notice, prompt_text,
    provider_list, row, thinking_note, DEMO_THOUGHT, HELP,
};
use crate::screen_laws::{lemma_demo_answer, lemma_without_suffixes};
use crate::text::{before_char, occurs_at, without_suffixes};
use vstd::prelude::*;

verus! {

/// The rows of a box, each behind its left edge.
pub open spec fn rows_of(plain: bool, rows: Seq<Seq<char>>) -> Seq<char>
    decreases rows.len(),
{
    if rows.len() == 0 {
        seq![]
    } else {
        rows_of(plain, rows.drop_last()) + (painted(plain, "│"@, "\x1b[38;5;141m"@) + " "@
            + rows.last() + "\n"@)
    }
}

/// A box: its upper edge, its rows, and its lower edge, in purple.
pub open spec fn boxed(plain: bool, top: Seq<char>, rows: Seq<Seq<char>>) -> Seq<char> {
    painted(plain, top, "\x1b[38;5;141m"@) + "\n"@ + rows_of(plain, rows) + painted(
        plain,
        "╰────────────────────────────────────────────╯"@,
        "\x1b[38;5;141m"@,
    ) + "\n"@
}

/// One row more.
proof fn lemma_rows_push(plain: bool, rows: Seq<Seq<char>>, last: Seq<char>)
    ensures
        rows_of(plain, rows.push(last)) == rows_of(plain, rows) + row(plain, last),
{
    assert(rows.push(last).drop_last() == rows);
}

/// A box with five rows.
proof fn lemma_box_of_five(
    plain: bool,
    top: Seq<char>,
    a: Seq<char>,
    b: Seq<char>,
    c: Seq<char>,
    d: Seq<char>,
    e: Seq<char>,
)
    ensures
        edge(plain, top) + row(plain, a) + row(plain, b) + row(plain, c) + row(plain, d) + row(
            plain,
            e,
        ) + bottom_edge(plain) == boxed(plain, top, seq![a, b, c, d, e]),
{
    let none = Seq::<Seq<char>>::empty();
    let r1 = none.push(a);
    let r2 = r1.push(b);
    let r3 = r2.push(c);
    let r4 = r3.push(d);
    let r5 = r4.push(e);
    lemma_rows_push(plain, none, a);
    lemma_rows_push(plain, r1, b);
    lemma_rows_push(plain, r2, c);
    lemma_rows_push(plain, r3, d);
    lemma_rows_push(plain, r4, e);
    assert(r5 == seq![a, b, c, d, e]);
    let t = edge(plain, top);
    let (x, y, z, u, w) = (row(plain, a), row(plain, b), row(plain, c), row(plain, d), row(
        plain,
        e,
    ));
    let empty = Seq::<char>::empty();
    assert(rows_of(plain, r5) == empty + x + y + z + u + w);
    assert(t + x + y + z + u + w == t + (empty + x + y + z + u + w));
    let inner = rows_of(plain, r5);
    let bottom = painted(
        plain,
        "╰────────────────────────────────────────────╯"@,
        "\x1b[38;5;141m"@,
    );
    assert(t + inner + (bottom + "\n"@) == t + inner + bottom + "\n"@);
}

/// The banner is a box with the provider, the model and whether thoughts are
/// summarized, which Ollama does not do.
pub proof fn law_the_banner(c: ConfigView)
    ensures
        ({
            let plain = c.plain;
            let thoughts = if c.provider == "ollama"@ {
                painted(plain, "off (not supported by Ollama)"@, "\x1b[38;5;245m"@)
            } else if c.thinking {
                painted(plain, "summaries on"@, "\x1b[38;5;80m"@)
            } else {
                painted(plain, "off"@, "\x1b[38;5;245m"@)
            };
            banner(c) == boxed(
                plain,
                "╭─ Edge Glow ───────────────────────────────╮"@,
                seq![
                    painted(plain, "Google AI Studio / Ollama local chat"@, "\x1b[1m\x1b[96m"@),
                    "provider    "@ + painted(plain, c.provider, "\x1b[38;5;80m"@),
                    "model       "@ + painted(plain, c.model, "\x1b[38;5;220m"@),
                    "thinking    "@ + thoughts,
                    "commands    "@ + painted(
                        plain,
                        "/help  /model  /provider  /exit"@,
                        "\x1b[38;5;250m"@,
                    ),
                ],
            )
        }),
{
    let plain = c.plain;
    lemma_box_of_five(
        plain,
        "╭─ Edge Glow ───────────────────────────────╮"@,
        painted(plain, "Google AI Studio / Ollama local chat"@, "\x1b[1m\x1b[96m"@),
        "provider    "@ + painted(plain, c.provider, "\x1b[38;5;80m"@),
        "model       "@ + painted(plain, c.model, "\x1b[38;5;220m"@),
        "thinking    "@ + thinking_note(c),
        "commands    "@ + painted(plain, "/help  /model  /provider  /exit"@, "\x1b[38;5;250m"@),
    );
}

/// The help for the chat is a box with a row for each command.
pub proof fn law_the_chat_help(plain: bool)
    ensures
        chat_help(plain) == boxed(
            plain,
            "╭─ Commands ─────────────────────────────────╮"@,
            seq![
                "/help              show commands"@,
                "/model [name]      list or switch model"@,
                "/provider [name]   list or switch provider"@,
                "/clear             clear chat memory"@,
                "/exit              quit"@,
            ],
        ),
{
    lemma_box_of_five(
        plain,
        "╭─ Commands ─────────────────────────────────╮"@,
        "/help              show commands"@,
        "/model [name]      list or switch model"@,
        "/provider [name]   list or switch provider"@,
        "/clear             clear chat memory"@,
        "/exit              quit"@,
    );
}

/// The list of providers is a box with both of them, the current one with a
/// green dot, and the current one is named below.
pub proof fn law_the_list_of_providers(c: ConfigView)
    ensures
        ({
            let dot = painted(c.plain, "●"@, "\x1b[38;5;82m"@);
            let google = if c.provider == "google"@ {
                dot
            } else {
                " "@
            };
            let ollama = if c.provider == "ollama"@ {
                dot
            } else {
                " "@
            };
            provider_list(c) == boxed(
                c.plain,
                "╭─ Supported Providers ───────────────────────╮"@,
                seq![google + " "@ + "google"@, ollama + " "@ + "ollama"@],
            ) + notice(c.plain, "current provider: "@ + c.provider) + notice(
                c.plain,
                "use '/provider <name>' to switch"@,
            )
        }),
{
    let dot = painted(c.plain, "●"@, "\x1b[38;5;82m"@);
    let a = (if c.provider == "google"@ {
        dot
    } else {
        " "@
    }) + " "@ + "google"@;
    let b = (if c.provider == "ollama"@ {
        dot
    } else {
        " "@
    }) + " "@ + "ollama"@;
    let plain = c.plain;
    let none = Seq::<Seq<char>>::empty();
    lemma_rows_push(plain, none, a);
    lemma_rows_push(plain, none.push(a), b);
    assert(none.push(a).push(b) == seq![a, b]);
    let t = edge(plain, "╭─ Supported Providers ───────────────────────╮"@);
    let (x, y) = (row(plain, a), row(plain, b));
    let empty = Seq::<char>::empty();
    assert(t + x + y == t + (empty + x + y));
    let inner = rows_of(plain, seq![a, b]);
    let bottom = painted(
        plain,
        "╰────────────────────────────────────────────╯"@,
        "\x1b[38;5;141m"@,
    );
    assert(t + inner + (bottom + "\n"@) == t + inner + bottom + "\n"@);
}

/// Whether an entry is the current model. An entry of Ollama begins with the
/// name of a model and a space; it is the current one where the name is that
/// of the current model, or is so with `:latest` behind it, or is what the
/// name of the current model begins with.
pub open spec fn is_current(c: ConfigView, entry: Seq<char>) -> bool {
    if c.provider == "ollama"@ {
        let id = before_char(entry, ' ');
        id == c.model || id + ":latest"@ == c.model || id.is_prefix_of(c.model)
    } else {
        entry == c.model
    }
}

/// The row of an entry in the list of models: a yellow dot for the current
/// model, a blue one for another that is installed, and the entry, for Ollama
/// without the words about whether it is installed.
pub open spec fn entry_row(c: ConfigView, entry: Seq<char>) -> Seq<char> {
    let installed = c.provider == "ollama"@ && "- installed"@.is_suffix_of(entry);
    let mark = if is_current(c, entry) {
        painted(c.plain, "●"@, "\x1b[38;5;220m"@)
    } else if installed {
        painted(c.plain, "●"@, "\x1b[38;5;39m"@)
    } else {
        " "@
    };
    let name = if c.provider != "ollama"@ {
        entry
    } else if is_current(c, entry) {
        without_suffixes(without_suffixes(entry, "- installed"@), "- available"@)
    } else if installed {
        without_suffixes(entry, "- installed"@)
    } else {
        without_suffixes(entry, "- available"@)
    };
    mark + " "@ + name
}

proof fn lemma_model_rows(c: ConfigView, models: Seq<Seq<char>>)
    ensures
        model_rows(c, models) == rows_of(
            c.plain,
            Seq::new(models.len(), |i: int| entry_row(c, models[i])),
        ),
    decreases models.len(),
{
    let rows = Seq::new(models.len(), |i: int| entry_row(c, models[i]));
    if models.len() > 0 {
        let init = models.drop_last();
        lemma_model_rows(c, init);
        let entry = models.last();
        assert(rows.drop_last() == Seq::new(init.len(), |i: int| entry_row(c, init[i])));
        let id = before_char(entry, ' ');
        assert(id.is_prefix_of(id + ":latest"@));
        assert(id == c.model ==> id.is_prefix_of(c.model));
        let (mark, name) = model_mark(c, entry);
        assert(mark + " "@ + name == entry_row(c, entry));
    }
}

/// The list of models is a box with a row for every entry, in their order, and
/// the current model is named below. Where there are none, that is said, and
/// the current model is named all the same; and where the models could not be
/// fetched, the reason goes to the error output.
pub proof fn law_the_list_of_models(c: ConfigView, models: Seq<Seq<char>>, message: Seq<char>)
    ensures
        models_report(c, Ok(models)) == (model_list(c, models), Seq::<char>::empty()),
        models_report(c, Err(message)) == (current_note(c), error_note(c.plain, message)),
        current_note(c) == notice(
            c.plain,
            "current model: "@ + c.model + " (provider: "@ + c.provider + ")"@,
        ),
        models.len() == 0 ==> model_list(c, models) == notice(
            c.plain,
            "no models found or provider unreachable"@,
        ) + current_note(c),
        models.len() > 0 ==> model_list(c, models) == boxed(
            c.plain,
            "╭─ Available Models ──────────────────────────╮"@,
            Seq::new(models.len(), |i: int| entry_row(c, models[i])),
        ) + current_note(c) + notice(c.plain, "use '/model <name>' to switch"@),
{
    if models.len() > 0 {
        lemma_model_rows(c, models);
        let t = edge(c.plain, "╭─ Available Models ──────────────────────────╮"@);
        let inner = model_rows(c, models);
        let bottom = painted(
            c.plain,
            "╰────────────────────────────────────────────╯"@,
            "\x1b[38;5;141m"@,
        );
        assert(t + inner + (bottom + "\n"@) == t + inner + bottom + "\n"@);
    }
}

/// Notices, errors and the prompt: a word in color, and the message as it is.
pub proof fn law_notices(message: Seq<char>)
    ensures
        notice(true, message) == "note"@ + " "@ + message + "\n"@,
        notice(false, message) == "\x1b[1m\x1b[38;5;80m"@ + "note"@ + "\x1b[0m"@ + " "@ + message
            + "\n"@,
        error_note(true, message) == "\n"@ + "error"@ + " "@ + message + "\n"@,
        error_note(false, message) == "\n"@ + ("\x1b[1m\x1b[38;5;196m"@ + "error"@ + "\x1b[0m"@)
            + " "@ + message + "\n"@,
        fatal_note(message) == "error: "@ + message + "\n"@,
        prompt_text(true) == "you ❯ "@,
        prompt_text(false) == "\x1b[1m\x1b[38;5;82m"@ + "you ❯ "@ + "\x1b[0m"@,
{
}

// ---------------------------------------------------------------------------
// Colors
// ---------------------------------------------------------------------------

/// The codes that boxes and notices use.
proof fn lemma_screen_codes()
    ensures
        differs_by_colors("\x1b[38;5;141m"@, Seq::<char>::empty()),
        differs_by_colors("\x1b[38;5;80m"@, Seq::<char>::empty()),
        differs_by_colors("\x1b[38;5;82m"@, Seq::<char>::empty()),
        differs_by_colors("\x1b[38;5;39m"@, Seq::<char>::empty()),
        differs_by_colors("\x1b[38;5;220m"@, Seq::<char>::empty()),
        differs_by_colors("\x1b[38;5;245m"@, Seq::<char>::empty()),
        differs_by_colors("\x1b[38;5;250m"@, Seq::<char>::empty()),
        differs_by_colors("\x1b[1m\x1b[96m"@, Seq::<char>::empty()),
        differs_by_colors("\x1b[1m\x1b[38;5;80m"@, Seq::<char>::empty()),
        differs_by_colors("\x1b[1m\x1b[38;5;82m"@, Seq::<char>::empty()),
        differs_by_colors("\x1b[1m\x1b[38;5;196m"@, Seq::<char>::empty()),
{
    reveal_strlit("\x1b[38;5;141m");
    reveal_strlit("\x1b[38;5;80m");
    reveal_strlit("\x1b[38;5;82m");
    reveal_strlit("\x1b[38;5;39m");
    reveal_strlit("\x1b[38;5;220m");
    reveal_strlit("\x1b[38;5;245m");
    reveal_strlit("\x1b[38;5;250m");
    reveal_strlit("\x1b[38;5;196m");
    reveal_strlit("\x1b[96m");
    reveal_strlit("\x1b[1m");
    reveal_strlit("\x1b[1m\x1b[96m");
    reveal_strlit("\x1b[1m\x1b[38;5;80m");
    reveal_strlit("\x1b[1m\x1b[38;5;82m");
    reveal_strlit("\x1b[1m\x1b[38;5;196m");
    lemma_code("\x1b[38;5;141m"@);
    lemma_code("\x1b[38;5;80m"@);
    lemma_code("\x1b[38;5;82m"@);
    lemma_code("\x1b[38;5;39m"@);
    lemma_code("\x1b[38;5;220m"@);
    lemma_code("\x1b[38;5;245m"@);
    lemma_code("\x1b[38;5;250m"@);
    lemma_code("\x1b[38;5;196m"@);
    lemma_code("\x1b[96m"@);
    lemma_code("\x1b[1m"@);
    let none = Seq::<char>::empty();
    assert(none + none == none);
    lemma_parts_by_colors("\x1b[1m"@, none, "\x1b[96m"@, none);
    lemma_parts_by_colors("\x1b[1m"@, none, "\x1b[38;5;80m"@, none);
    lemma_parts_by_colors("\x1b[1m"@, none, "\x1b[38;5;82m"@, none);
    lemma_parts_by_colors("\x1b[1m"@, none, "\x1b[38;5;196m"@, none);
    assert("\x1b[1m\x1b[96m"@ == "\x1b[1m"@ + "\x1b[96m"@);
    assert("\x1b[1m\x1b[38;5;80m"@ == "\x1b[1m"@ + "\x1b[38;5;80m"@);
    assert("\x1b[1m\x1b[38;5;82m"@ == "\x1b[1m"@ + "\x1b[38;5;82m"@);
    assert("\x1b[1m\x1b[38;5;196m"@ == "\x1b[1m"@ + "\x1b[38;5;196m"@);
}

proof fn lemma_rows_by_colors(rows: Seq<Seq<char>>, rows2: Seq<Seq<char>>)
    requires
        rows.len() == rows2.len(),
        forall|i: int|
            0 <= i < rows.len() ==> differs_by_colors(#[trigger] rows[i], rows2[i]),
    ensures
        differs_by_colors(rows_of(false, rows), rows_of(true, rows2)),
    decreases rows.len(),
{
    lemma_text_has_no_colors(Seq::<char>::empty());
    if rows.len() > 0 {
        let init = rows.drop_last();
        let init2 = rows2.drop_last();
        assert forall|i: int| 0 <= i < init.len() implies differs_by_colors(
            #[trigger] init[i],
            init2[i],
        ) by {
            assert(init[i] == rows[i]);
        }
        lemma_rows_by_colors(init, init2);
        assert(differs_by_colors(rows[rows.len() - 1], rows2[rows.len() - 1]));
        reveal_strlit("│");
        reveal_strlit(" ");
        reveal_strlit("\n");
        lemma_screen_codes();
        let bar = painted(false, "│"@, "\x1b[38;5;141m"@);
        let bar2 = painted(true, "│"@, "\x1b[38;5;141m"@);
        lemma_painted("│"@, "\x1b[38;5;141m"@);
        lemma_text_has_no_colors(" "@);
        lemma_text_has_no_colors("\n"@);
        let (a, b) = (rows.last(), rows2.last());
        lemma_parts_by_colors(bar, bar2, " "@, " "@);
        lemma_parts_by_colors(bar + " "@, bar2 + " "@, a, b);
        lemma_parts_by_colors(bar + " "@ + a, bar2 + " "@ + b, "\n"@, "\n"@);
        lemma_parts_by_colors(
            rows_of(false, init),
            rows_of(true, init2),
            bar + " "@ + a + "\n"@,
            bar2 + " "@ + b + "\n"@,
        );
    }
}

proof fn lemma_box_by_colors(top: Seq<char>, rows: Seq<Seq<char>>, rows2: Seq<Seq<char>>)
    requires
        no_escape(top),
        rows.len() == rows2.len(),
        forall|i: int|
            0 <= i < rows.len() ==> differs_by_colors(#[trigger] rows[i], rows2[i]),
    ensures
        differs_by_colors(boxed(false, top, rows), boxed(true, top, rows2)),
{
    reveal_strlit("\n");
    reveal_strlit("╰────────────────────────────────────────────╯");
    lemma_screen_codes();
    lemma_rows_by_colors(rows, rows2);
    lemma_text_has_no_colors("\n"@);
    let color = "\x1b[38;5;141m"@;
    let bottom = "╰────────────────────────────────────────────╯"@;
    lemma_painted(top, color);
    lemma_painted(bottom, color);
    let (a, a2) = (painted(false, top, color), painted(true, top, color));
    let (b, b2) = (rows_of(false, rows), rows_of(true, rows2));
    let (c, c2) = (painted(false, bottom, color), painted(true, bottom, color));
    let n = "\n"@;
    lemma_parts_by_colors(a, a2, n, n);
    lemma_parts_by_colors(a + n, a2 + n, b, b2);
    lemma_parts_by_colors(a + n + b, a2 + n + b2, c, c2);
    lemma_parts_by_colors(a + n + b + c, a2 + n + b2 + c2, n, n);
}

/// A label and a value in color.
proof fn lemma_labelled_by_colors(label: Seq<char>, value: Seq<char>, color: Seq<char>)
    requires
        no_escape(label),
        no_escape(value),
        differs_by_colors(color, Seq::<char>::empty()),
    ensures
        differs_by_colors(label + painted(false, value, color), label + painted(true, value, color)),
{
    lemma_text_has_no_colors(label);
    lemma_painted(value, color);
    lemma_parts_by_colors(label, label, painted(false, value, color), painted(true, value, color));
}

/// Colors change nothing in notices and errors but colors.
pub proof fn law_colors_change_no_notice(message: Seq<char>)
    requires
        no_escape(message),
    ensures
        differs_by_colors(notice(false, message), notice(true, message)),
        differs_by_colors(error_note(false, message), error_note(true, message)),
        differs_by_colors(prompt_text(false), prompt_text(true)),
{
    reveal_strlit("note");
    reveal_strlit("error");
    reveal_strlit("you ❯ ");
    reveal_strlit(" ");
    reveal_strlit("\n");
    lemma_screen_codes();
    let tail = " "@ + message + "\n"@;
    lemma_text_has_no_colors(tail);
    lemma_text_has_no_colors("\n"@);
    let color = "\x1b[1m\x1b[38;5;80m"@;
    let (a, a2) = (painted(false, "note"@, color), painted(true, "note"@, color));
    lemma_painted("note"@, color);
    lemma_parts_by_colors(a, a2, tail, tail);
    assert(notice(false, message) == a + tail);
    assert(notice(true, message) == a2 + tail);
    let red = "\x1b[1m\x1b[38;5;196m"@;
    let (b, b2) = (painted(false, "error"@, red), painted(true, "error"@, red));
    lemma_painted("error"@, red);
    lemma_parts_by_colors("\n"@, "\n"@, b, b2);
    lemma_parts_by_colors("\n"@ + b, "\n"@ + b2, tail, tail);
    assert(error_note(false, message) == "\n"@ + b + tail);
    assert(error_note(true, message) == "\n"@ + b2 + tail);
    lemma_painted("you ❯ "@, "\x1b[1m\x1b[38;5;82m"@);
}

/// The settings with colors off.
pub open spec fn plain_of(c: ConfigView) -> ConfigView {
    ConfigView { plain: true, ..c }
}

/// Colors change nothing in the banner and the help but colors.
#[verifier::spinoff_prover]
#[verifier::rlimit(40)]
pub proof fn law_colors_change_no_banner(c: ConfigView)
    requires
        !c.plain,
        no_escape(c.model),
        no_escape(c.provider),
    ensures
        differs_by_colors(banner(c), banner(plain_of(c))),
        differs_by_colors(chat_help(false), chat_help(true)),
{
    law_the_banner(c);
    law_the_banner(plain_of(c));
    law_the_chat_help(false);
    law_the_chat_help(true);
    lemma_screen_codes();
    reveal_strlit("╭─ Edge Glow ───────────────────────────────╮");
    reveal_strlit("Google AI Studio / Ollama local chat");
    reveal_strlit("provider    ");
    reveal_strlit("model       ");
    reveal_strlit("thinking    ");
    reveal_strlit("commands    ");
    reveal_strlit("off (not supported by Ollama)");
    reveal_strlit("summaries on");
    reveal_strlit("off");
    reveal_strlit("/help  /model  /provider  /exit");
    reveal_strlit("╭─ Commands ─────────────────────────────────╮");
    reveal_strlit("/help              show commands");
    reveal_strlit("/model [name]      list or switch model");
    reveal_strlit("/provider [name]   list or switch provider");
    reveal_strlit("/clear             clear chat memory");
    reveal_strlit("/exit              quit");
    let (t1, k1) = ("Google AI Studio / Ollama local chat"@, "\x1b[1m\x1b[96m"@);
    lemma_painted(t1, k1);
    let k2 = "\x1b[38;5;80m"@;
    let k3 = "\x1b[38;5;220m"@;
    let k5 = "\x1b[38;5;250m"@;
    lemma_labelled_by_colors("provider    "@, c.provider, k2);
    lemma_labelled_by_colors("model       "@, c.model, k3);
    lemma_labelled_by_colors("commands    "@, "/help  /model  /provider  /exit"@, k5);
    let (value, k4) = if c.provider == "ollama"@ {
        ("off (not supported by Ollama)"@, "\x1b[38;5;245m"@)
    } else if c.thinking {
        ("summaries on"@, "\x1b[38;5;80m"@)
    } else {
        ("off"@, "\x1b[38;5;245m"@)
    };
    lemma_labelled_by_colors("thinking    "@, value, k4);
    let end = "/help  /model  /provider  /exit"@;
    lemma_box_by_colors(
        "╭─ Edge Glow ───────────────────────────────╮"@,
        seq![
            painted(false, t1, k1),
            "provider    "@ + painted(false, c.provider, k2),
            "model       "@ + painted(false, c.model, k3),
            "thinking    "@ + painted(false, value, k4),
            "commands    "@ + painted(false, end, k5),
        ],
        seq![
            painted(true, t1, k1),
            "provider    "@ + painted(true, c.provider, k2),
            "model       "@ + painted(true, c.model, k3),
            "thinking    "@ + painted(true, value, k4),
            "commands    "@ + painted(true, end, k5),
        ],
    );
    let rows = seq![
        "/help              show commands"@,
        "/model [name]      list or switch model"@,
        "/provider [name]   list or switch provider"@,
        "/clear             clear chat memory"@,
        "/exit              quit"@,
    ];
    assert forall|i: int| 0 <= i < rows.len() implies differs_by_colors(
        #[trigger] rows[i],
        rows[i],
    ) by {
        lemma_text_has_no_colors(rows[i]);
    }
    lemma_box_by_colors("╭─ Commands ─────────────────────────────────╮"@, rows, rows);
}

proof fn lemma_entry_by_colors(c: ConfigView, entry: Seq<char>)
    requires
        !c.plain,
        no_escape(entry),
    ensures
        differs_by_colors(entry_row(c, entry), entry_row(plain_of(c), entry)),
{
    reveal_strlit("●");
    reveal_strlit(" ");
    lemma_screen_codes();
    let shorter = without_suffixes(entry, "- installed"@);
    lemma_without_suffixes(entry, "- installed"@);
    lemma_without_suffixes(entry, "- available"@);
    lemma_without_suffixes(shorter, "- available"@);
    lemma_painted("●"@, "\x1b[38;5;220m"@);
    lemma_painted("●"@, "\x1b[38;5;39m"@);
    lemma_text_has_no_colors(" "@);
    let tails = seq![
        entry,
        without_suffixes(shorter, "- available"@),
        shorter,
        without_suffixes(entry, "- available"@),
    ];
    let marks = seq![
        painted(false, "●"@, "\x1b[38;5;220m"@),
        painted(false, "●"@, "\x1b[38;5;39m"@),
        " "@,
    ];
    let marks2 = seq![
        painted(true, "●"@, "\x1b[38;5;220m"@),
        painted(true, "●"@, "\x1b[38;5;39m"@),
        " "@,
    ];
    assert forall|i: int, j: int| 0 <= i < 3 && 0 <= j < 4 implies differs_by_colors(
        #[trigger] marks[i] + " "@ + #[trigger] tails[j],
        marks2[i] + " "@ + tails[j],
    ) by {
        lemma_text_has_no_colors(tails[j]);
        lemma_parts_by_colors(marks[i], marks2[i], " "@, " "@);
        lemma_parts_by_colors(marks[i] + " "@, marks2[i] + " "@, tails[j], tails[j]);
    }
    let i: int = if is_current(c, entry) {
        0
    } else if c.provider == "ollama"@ && "- installed"@.is_suffix_of(entry) {
        1
    } else {
        2
    };
    let j: int = if c.provider != "ollama"@ {
        0
    } else if is_current(c, entry) {
        1
    } else if "- installed"@.is_suffix_of(entry) {
        2
    } else {
        3
    };
    assert(entry_row(c, entry) == marks[i] + " "@ + tails[j]);
    assert(entry_row(plain_of(c), entry) == marks2[i] + " "@ + tails[j]);
}

/// Colors change nothing in the lists but colors.
#[verifier::spinoff_prover]
#[verifier::rlimit(40)]
pub proof fn law_colors_change_no_list(c: ConfigView, models: Seq<Seq<char>>)
    requires
        !c.plain,
        no_escape(c.model),
        no_escape(c.provider),
        forall|i: int| 0 <= i < models.len() ==> no_escape(#[trigger] models[i]),
    ensures
        differs_by_colors(model_list(c, models), model_list(plain_of(c), models)),
        differs_by_colors(provider_list(c), provider_list(plain_of(c))),
{
    law_the_list_of_models(c, models, c.model);
    law_the_list_of_models(plain_of(c), models, c.model);
    lemma_providers_by_colors(c);
    reveal_strlit("no models found or provider unreachable");
    reveal_strlit("current model: ");
    reveal_strlit(" (provider: ");
    reveal_strlit(")");
    reveal_strlit("use '/model <name>' to switch");
    reveal_strlit("╭─ Available Models ──────────────────────────╮");
    let none = "no models found or provider unreachable"@;
    let current = "current model: "@ + c.model + " (provider: "@ + c.provider + ")"@;
    let hint = "use '/model <name>' to switch"@;
    law_colors_change_no_notice(none);
    law_colors_change_no_notice(current);
    law_colors_change_no_notice(hint);
    lemma_parts_by_colors(
        notice(false, none),
        notice(true, none),
        notice(false, current),
        notice(true, current),
    );
    let d = plain_of(c);
    let rows = Seq::new(models.len(), |i: int| entry_row(c, models[i]));
    let rows2 = Seq::new(models.len(), |i: int| entry_row(d, models[i]));
    assert forall|i: int| 0 <= i < rows.len() implies differs_by_colors(
        #[trigger] rows[i],
        rows2[i],
    ) by {
        lemma_entry_by_colors(c, models[i]);
    }
    let top = "╭─ Available Models ──────────────────────────╮"@;
    lemma_box_by_colors(top, rows, rows2);
    let (a, a2) = (boxed(false, top, rows), boxed(true, top, rows2));
    lemma_parts_by_colors(a, a2, notice(false, current), notice(true, current));
    lemma_parts_by_colors(
        a + notice(false, current),
        a2 + notice(true, current),
        notice(false, hint),
        notice(true, hint),
    );
}

proof fn lemma_provider_by_colors(current: bool, name: Seq<char>)
    requires
        no_escape(name),
    ensures
        ({
            let mark = if current {
                painted(false, "●"@, "\x1b[38;5;82m"@)
            } else {
                " "@
            };
            let mark2 = if current {
                painted(true, "●"@, "\x1b[38;5;82m"@)
            } else {
                " "@
            };
            differs_by_colors(mark + " "@ + name, mark2 + " "@ + name)
        }),
{
    reveal_strlit("●");
    reveal_strlit(" ");
    lemma_screen_codes();
    lemma_painted("●"@, "\x1b[38;5;82m"@);
    lemma_text_has_no_colors(" "@);
    lemma_text_has_no_colors(name);
    let (mark, mark2) = if current {
        (painted(false, "●"@, "\x1b[38;5;82m"@), painted(true, "●"@, "\x1b[38;5;82m"@))
    } else {
        (" "@, " "@)
    };
    lemma_parts_by_colors(mark, mark2, " "@, " "@);
    lemma_parts_by_colors(mark + " "@, mark2 + " "@, name, name);
}

proof fn lemma_providers_by_colors(c: ConfigView)
    requires
        !c.plain,
        no_escape(c.provider),
    ensures
        differs_by_colors(provider_list(c), provider_list(plain_of(c))),
{
    let d = plain_of(c);
    law_the_list_of_providers(c);
    law_the_list_of_providers(d);
    reveal_strlit("google");
    reveal_strlit("ollama");
    reveal_strlit("current provider: ");
    reveal_strlit("use '/provider <name>' to switch");
    reveal_strlit("╭─ Supported Providers ───────────────────────╮");
    lemma_provider_by_colors(c.provider == "google"@, "google"@);
    lemma_provider_by_colors(c.provider == "ollama"@, "ollama"@);
    let dot = painted(false, "●"@, "\x1b[38;5;82m"@);
    let dot2 = painted(true, "●"@, "\x1b[38;5;82m"@);
    let (g, g2) = if c.provider == "google"@ {
        (dot, dot2)
    } else {
        (" "@, " "@)
    };
    let (o, o2) = if c.provider == "ollama"@ {
        (dot, dot2)
    } else {
        (" "@, " "@)
    };
    let rows = seq![g + " "@ + "google"@, o + " "@ + "ollama"@];
    let rows2 = seq![g2 + " "@ + "google"@, o2 + " "@ + "ollama"@];
    let top = "╭─ Supported Providers ───────────────────────╮"@;
    lemma_box_by_colors(top, rows, rows2);
    let current = "current provider: "@ + c.provider;
    let hint = "use '/provider <name>' to switch"@;
    law_colors_change_no_notice(current);
    law_colors_change_no_notice(hint);
    let (a, a2) = (boxed(false, top, rows), boxed(true, top, rows2));
    lemma_parts_by_colors(a, a2, notice(false, current), notice(true, current));
    lemma_parts_by_colors(
        a + notice(false, current),
        a2 + notice(true, current),
        notice(false, hint),
        notice(true, hint),
    );
}

/// Colors change nothing in a whole stream but colors: what the answer and the
/// thoughts say, and how they are framed and indented, is the same.
pub proof fn law_colors_change_no_stream(kind: StreamKind, model: Seq<char>, text: Seq<char>)
    requires
        no_escape(model),
        no_escape(text),
    ensures
        differs_by_colors(
            shown_stream(kind, false, model, text),
            shown_stream(kind, true, model, text),
        ),
{
    let v = RendererView::at_line_start(kind, false, false);
    assert(uncolored(v) == RendererView::at_line_start(kind, true, false));
    law_colors_change_nothing_else(v, text);
    let (w, out) = v.run(text);
    let out2 = uncolored(v).run(text).1;
    law_colors_change_no_frame(w, kind, model);
    let (h, h2) = (
        header(kind, false, model),
        header(kind, true, model),
    );
    lemma_parts_by_colors(h, h2, out, out2);
    lemma_parts_by_colors(h + out, h2 + out2, w.finished().1, uncolored(w).finished().1);
}

/// The demonstration shows its thought and its answer as streams of their own.
pub proof fn law_the_demonstration(c: ConfigView)
    requires
        no_escape(c.model),
    ensures
        !c.plain ==> differs_by_colors(demo(c), demo(plain_of(c))),
        demo(c) == shown_stream(StreamKind::Thought, c.plain, c.model, DEMO_THOUGHT@)
            + shown_stream(StreamKind::Answer, c.plain, c.model, concat(demo_answer())),
{
    reveal_strlit("I will keep this concise, structured, and easy to scan.");
    lemma_demo_answer();
    law_colors_change_no_stream(StreamKind::Thought, c.model, DEMO_THOUGHT@);
    law_colors_change_no_stream(StreamKind::Answer, c.model, concat(demo_answer()));
    lemma_parts_by_colors(
        shown_stream(StreamKind::Thought, false, c.model, DEMO_THOUGHT@),
        shown_stream(StreamKind::Thought, true, c.model, DEMO_THOUGHT@),
        shown_stream(StreamKind::Answer, false, c.model, concat(demo_answer())),
        shown_stream(StreamKind::Answer, true, c.model, concat(demo_answer())),
    );
}

/// The pieces of a text follow each other in their order.
pub proof fn law_pieces_follow_each_other(first: Seq<char>, rest: Seq<Seq<char>>)
    ensures
        concat(Seq::<Seq<char>>::empty()) == Seq::<char>::empty(),
        concat(seq![first] + rest) == first + concat(rest),
    decreases rest.len(),
{
    let all = seq![first] + rest;
    if rest.len() == 0 {
        assert(all.drop_last() == Seq::<Seq<char>>::empty());
        assert(all.last() == first);
        assert(concat(all.drop_last()) == Seq::<char>::empty());
        assert(Seq::<char>::empty() + first == first + Seq::<char>::empty());
    } else {
        assert(all.last() == rest.last());
        assert(all.drop_last() == seq![first] + rest.drop_last());
        law_pieces_follow_each_other(first, rest.drop_last());
        let mid = concat(rest.drop_last());
        assert(first + mid + rest.last() == first + (mid + rest.last()));
    }
}

proof fn lemma_in_help(help: Seq<char>, name: Seq<char>, at: int)
    requires
        0 <= at,
        at + name.len() <= help.len(),
        forall|k: int| 0 <= k < name.len() ==> help[at + k] == #[trigger] name[k],
    ensures
        occurs_at(help, name, at),
{
    assert(help.subrange(at, at + name.len()) == name);
}

/// The help for the command line names every option.
pub proof fn law_the_help_names_every_option()
    ensures
        exists|i: int| occurs_at(HELP@, "-m, --model"@, i),
        exists|i: int| occurs_at(HELP@, "--provider"@, i),
        exists|i: int| occurs_at(HELP@, "--ollama "@, i),
        exists|i: int| occurs_at(HELP@, "--ollama-url"@, i),
        exists|i: int| occurs_at(HELP@, "--python"@, i),
        exists|i: int| occurs_at(HELP@, "--bridge"@, i),
        exists|i: int| occurs_at(HELP@, "-t, --temperature"@, i),
        exists|i: int| occurs_at(HELP@, "-p, --prompt"@, i),
        exists|i: int| occurs_at(HELP@, "--no-thinking"@, i),
        exists|i: int| occurs_at(HELP@, "--plain"@, i),
        exists|i: int| occurs_at(HELP@, "--demo"@, i),
        exists|i: int| occurs_at(HELP@, "-h, --help"@, i),
{
    reveal_strlit("Edge Glow - streamed Google AI Studio / Ollama chat

Usage:
  cargo run -- [options]
  cargo run -- --prompt \"hello\"

Options:
  -m, --model <name>          Model name (prefix with 'ollama:' for local)
      --provider <name>      Backend provider (google or ollama)
      --ollama               Force Ollama provider
      --ollama-url <url>     Ollama API URL (default: http://localhost:11434)
  -p, --prompt <text>         Run a single prompt and exit
  -t, --temperature <number>  Sampling temperature (default: 0.7)
      --no-thinking          Do not request thought summaries
      --python <binary>      Python binary (default: python3 or PYTHON)
      --bridge <path>        Python bridge path
      --plain                Disable colors
      --demo                 Preview the polished renderer
  -h, --help                 Show help
");
    let help = HELP@;
    reveal_strlit("-m, --model");
    lemma_in_help(help, "-m, --model"@, 129);
    reveal_strlit("--provider");
    lemma_in_help(help, "--provider"@, 208);
    reveal_strlit("--ollama ");
    lemma_in_help(help, "--ollama "@, 273);
    reveal_strlit("--ollama-url");
    lemma_in_help(help, "--ollama-url"@, 324);
    reveal_strlit("--python");
    lemma_in_help(help, "--python"@, 589);
    reveal_strlit("--bridge");
    lemma_in_help(help, "--bridge"@, 661);
    reveal_strlit("-t, --temperature");
    lemma_in_help(help, "-t, --temperature"@, 457);
    reveal_strlit("-p, --prompt");
    lemma_in_help(help, "-p, --prompt"@, 398);
    reveal_strlit("--no-thinking");
    lemma_in_help(help, "--no-thinking"@, 527);
    reveal_strlit("--plain");
    lemma_in_help(help, "--plain"@, 709);
    reveal_strlit("--demo");
    lemma_in_help(help, "--demo"@, 753);
    reveal_strlit("-h, --help");
    lemma_in_help(help, "-h, --help"@, 808);
}

} // verus!
