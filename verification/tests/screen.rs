use edge_glow::args::{parse_args, Argument, Environment, Invocation};
use edge_glow::config::Config;
use edge_glow::screen::{
    fatal_error, list_models, list_providers, print_banner, print_chat_help, print_error,
    print_help, print_notice, prompt_label, run_demo,
};

const BOTTOM: &str = "╰────────────────────────────────────────────╯\n";

fn config(args: &[&str]) -> Config {
    let args: Vec<Argument> =
        args.iter().map(|a| Argument { text: a.to_string(), number: None }).collect();
    let env = Environment { gemma_model: None, ollama_base_url: None, python: None };
    match parse_args(&args, &env) {
        Ok(Invocation::Run(config)) => config,
        _ => panic!("no settings"),
    }
}

#[test]
fn notes() {
    let mut out = String::new();
    print_notice(&config(&[]), "n", &mut out);
    print_notice(&config(&["--plain"]), "n", &mut out);
    assert_eq!(out, "\x1b[1m\x1b[38;5;80mnote\x1b[0m n\nnote n\n");
    out.clear();
    print_error(&config(&[]), "e", &mut out);
    print_error(&config(&["--plain"]), "e", &mut out);
    assert_eq!(out, "\n\x1b[1m\x1b[38;5;196merror\x1b[0m e\n\nerror e\n");
    assert_eq!(fatal_error("e"), "error: e\n");
}

#[test]
fn the_prompt_label() {
    assert_eq!(prompt_label(&config(&["--plain"])), "you ❯ ");
    assert_eq!(prompt_label(&config(&[])), "\x1b[1m\x1b[38;5;82myou ❯ \x1b[0m");
}

#[test]
fn the_banner() {
    let mut out = String::new();
    print_banner(&config(&["--plain", "-m", "m"]), &mut out);
    assert_eq!(
        out,
        format!(
            "╭─ Edge Glow ───────────────────────────────╮\n\
             │ Google AI Studio / Ollama local chat\n\
             │ provider    google\n\
             │ model       m\n\
             │ thinking    summaries on\n\
             │ commands    /help  /model  /provider  /exit\n{BOTTOM}"
        )
    );
    out.clear();
    print_banner(&config(&["--plain", "--no-thinking"]), &mut out);
    assert!(out.contains("│ thinking    off\n"));
    out.clear();
    print_banner(&config(&["-m", "ollama:m"]), &mut out);
    assert!(out.contains(
        "\x1b[38;5;141m│\x1b[0m thinking    \x1b[38;5;245moff (not supported by Ollama)\x1b[0m\n"
    ));
    assert!(out.contains("\x1b[38;5;141m│\x1b[0m model       \x1b[38;5;220mm\x1b[0m\n"));
    assert!(out.contains("\x1b[38;5;141m│\x1b[0m provider    \x1b[38;5;80mollama\x1b[0m\n"));
}

#[test]
fn the_help() {
    let mut out = String::new();
    print_help(&mut out);
    let lines: Vec<&str> = out.lines().collect();
    assert_eq!(lines.len(), 19);
    assert_eq!(lines[0], "Edge Glow - streamed Google AI Studio / Ollama chat");
    assert_eq!(lines[1], "");
    assert_eq!(lines[4], "  cargo run -- --prompt \"hello\"");
    assert_eq!(
        lines[7],
        "  -m, --model <name>          Model name (prefix with 'ollama:' for local)"
    );
    assert_eq!(lines[18], "  -h, --help                 Show help");
    assert!(out.ends_with("Show help\n"));
}

#[test]
fn the_chat_help() {
    let mut out = String::new();
    print_chat_help(&config(&["--plain"]), &mut out);
    assert_eq!(
        out,
        format!(
            "╭─ Commands ─────────────────────────────────╮\n\
             │ /help              show commands\n\
             │ /model [name]      list or switch model\n\
             │ /provider [name]   list or switch provider\n\
             │ /clear             clear chat memory\n\
             │ /exit              quit\n{BOTTOM}"
        )
    );
}

fn models(args: &[&str], entries: &[&str]) -> String {
    let mut out = String::new();
    let mut err = String::new();
    let list = entries.iter().map(|e| e.to_string()).collect();
    list_models(&config(args), &Ok(list), &mut out, &mut err);
    assert_eq!(err, "");
    out
}

#[test]
fn models_of_google() {
    assert_eq!(
        models(&["--plain", "-m", "b"], &["a", "b - installed", "b"]),
        format!(
            "╭─ Available Models ──────────────────────────╮\n\
             │   a\n│   b - installed\n│ ● b\n{BOTTOM}\
             note current model: b (provider: google)\n\
             note use '/model <name>' to switch\n"
        )
    );
    assert!(models(&["-m", "b"], &["b"])
        .contains("\x1b[38;5;141m│\x1b[0m \x1b[38;5;220m●\x1b[0m b\n"));
}

#[test]
fn models_of_ollama() {
    let out = models(
        &["--plain", "-m", "ollama:llama3:latest"],
        &[
            "llama3 - installed",
            "qwen - installed",
            "phi - available",
            "llama3:latest - available",
            "gemma",
            "llama33 - installed- installed",
        ],
    );
    assert_eq!(
        out,
        format!(
            "╭─ Available Models ──────────────────────────╮\n\
             │ ● llama3 \n│ ● qwen \n│   phi \n│ ● llama3:latest \n│   gemma\n│ ● llama33 \n{BOTTOM}\
             note current model: llama3:latest (provider: ollama)\n\
             note use '/model <name>' to switch\n"
        )
    );
    let out = models(&["-m", "ollama:x"], &["x - installed", "y - installed"]);
    assert!(out.contains("\x1b[38;5;141m│\x1b[0m \x1b[38;5;220m●\x1b[0m x \n"));
    assert!(out.contains("\x1b[38;5;141m│\x1b[0m \x1b[38;5;39m●\x1b[0m y \n"));
}

#[test]
fn no_models() {
    assert_eq!(
        models(&["--plain", "-m", "m"], &[]),
        "note no models found or provider unreachable\n\
         note current model: m (provider: google)\n"
    );
}

#[test]
fn the_current_model_is_shown_where_models_cannot_be_fetched() {
    let mut out = "> ".to_string();
    let mut err = "! ".to_string();
    let c = config(&["--plain", "-m", "ollama:m"]);
    list_models(&c, &Err("offline".to_string()), &mut out, &mut err);
    assert_eq!(out, "> note current model: m (provider: ollama)\n");
    assert_eq!(err, "! \nerror offline\n");
    let mut out = String::new();
    let c = config(&["-m", "m"]);
    list_models(&c, &Err("offline".to_string()), &mut out, &mut err);
    assert_eq!(out, "\x1b[1m\x1b[38;5;80mnote\x1b[0m current model: m (provider: google)\n");
}

#[test]
fn the_providers() {
    let mut out = String::new();
    list_providers(&config(&["--plain", "--ollama"]), &mut out);
    assert_eq!(
        out,
        format!(
            "╭─ Supported Providers ───────────────────────╮\n\
             │   google\n│ ● ollama\n{BOTTOM}\
             note current provider: ollama\n\
             note use '/provider <name>' to switch\n"
        )
    );
    out.clear();
    list_providers(&config(&[]), &mut out);
    assert!(out.contains("\x1b[38;5;141m│\x1b[0m \x1b[38;5;82m●\x1b[0m google\n"));
}

#[test]
fn the_demonstration() {
    let mut out = String::new();
    run_demo(&config(&["--plain", "-m", "m"]), &mut out);
    assert_eq!(
        out,
        format!(
            "╭─ Thinking Summary ─────────────────────────╮\n\
             │ I will keep this concise, structured, and easy to scan.\n{BOTTOM}\
             ╭─ Glow(m) {}╮\n\
             │ Clean CLI Output\n\
             │ Here is how streamed Markdown now looks inside Edge Glow:\n\
             │ 1. Readable sections: answers live inside a bordered response block.\n\
             │ 2. Cleaner Markdown: bold markers disappear and styling is applied.\n\
             │ • Compact bullets: raw `*` list markers become terminal bullets.\n\
             │ Use `/clear` when you want a fresh chat, and `/exit` when you are done.\n{BOTTOM}",
            "─".repeat(34)
        )
    );
}

#[test]
fn without_colors_the_screen_holds_no_escape_codes() {
    for provider in ["google", "ollama"] {
        let c = config(&["--plain", "--provider", provider, "-m", "m"]);
        let mut out = String::new();
        let mut err = String::new();
        let models = Ok(vec!["m".to_string(), "x - installed".to_string(), "y - available".to_string()]);
        print_banner(&c, &mut out);
        print_chat_help(&c, &mut out);
        print_notice(&c, "n", &mut out);
        print_error(&c, "e", &mut err);
        list_models(&c, &models, &mut out, &mut err);
        list_providers(&c, &mut out);
        run_demo(&c, &mut out);
        print_help(&mut out);
        out.push_str(&prompt_label(&c));
        err.push_str(&fatal_error("e"));
        assert!(!out.contains('\x1b') && !err.contains('\x1b'));
    }
}
