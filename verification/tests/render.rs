use edge_glow::args::{parse_args, Argument, Environment, Invocation};
use edge_glow::config::{paint, Config};
use edge_glow::render::{StreamKind, StreamRenderer};

fn config(args: &[&str]) -> Config {
    let args: Vec<Argument> =
        args.iter().map(|a| Argument { text: a.to_string(), number: None }).collect();
    let env = Environment { gemma_model: None, ollama_base_url: None, python: None };
    match parse_args(&args, &env) {
        Ok(Invocation::Run(config)) => config,
        _ => panic!("no settings"),
    }
}

const FOOTER: &str = "╰────────────────────────────────────────────╯\n";

/// What is shown for the pieces, without the upper edge.
fn shown(config: &Config, kind: StreamKind, pieces: &[&str], finish: bool) -> String {
    let mut header = String::new();
    let mut renderer = StreamRenderer::new(config, kind, &mut header);
    let mut out = String::new();
    for piece in pieces {
        renderer.feed(piece, &mut out);
    }
    if finish {
        renderer.finish(&mut out);
    }
    out
}

fn plain(text: &str) -> String {
    shown(&config(&["--plain"]), StreamKind::Answer, &[text], false)
}

fn colored(text: &str) -> String {
    shown(&config(&[]), StreamKind::Answer, &[text], false)
}

#[test]
fn painting() {
    assert_eq!(paint(&config(&[]), "x", "\x1b[1m"), "\x1b[1mx\x1b[0m");
    assert_eq!(paint(&config(&["--plain"]), "x", "\x1b[1m"), "x");
}

#[test]
fn the_upper_edge() {
    let mut out = String::new();
    StreamRenderer::new(&config(&["--plain", "-m", "m"]), StreamKind::Answer, &mut out);
    assert_eq!(out, format!("╭─ Glow(m) {}╮\n", "─".repeat(34)));
    assert_eq!(out.chars().count(), 47);
    out.clear();
    StreamRenderer::new(&config(&["-m", "m"]), StreamKind::Answer, &mut out);
    assert_eq!(out, format!("\x1b[38;5;213m╭─ Glow(m) {}╮\x1b[0m\n", "─".repeat(34)));
    out.clear();
    let long = "x".repeat(60);
    StreamRenderer::new(&config(&["--plain", "-m", &long]), StreamKind::Answer, &mut out);
    assert_eq!(out, format!("╭─ Glow({long}) ╮\n"));
    out.clear();
    StreamRenderer::new(&config(&["--plain"]), StreamKind::Thought, &mut out);
    assert_eq!(out, "╭─ Thinking Summary ─────────────────────────╮\n");
    out.clear();
    StreamRenderer::new(&config(&[]), StreamKind::Thought, &mut out);
    assert_eq!(
        out,
        "\x1b[2m\x1b[38;5;80m╭─ Thinking Summary ─────────────────────────╮\x1b[0m\n"
    );
}

#[test]
fn ordinary_lines() {
    assert_eq!(plain("hello\nworld\n"), "│ hello\n│ world\n");
    assert_eq!(plain("  hello\n"), "│   hello\n");
    assert_eq!(plain("hel"), "│ hel");
    assert_eq!(
        colored("hello\n"),
        "\x1b[38;5;213m│\x1b[0m \x1b[0mhello\n"
    );
    assert_eq!(
        shown(&config(&[]), StreamKind::Thought, &["a\n"], false),
        "\x1b[2m\x1b[38;5;80m│\x1b[0m \x1b[2m\x1b[38;5;250ma\n"
    );
}

#[test]
fn blank_lines_are_left_out() {
    assert_eq!(plain("\n\n"), "");
    assert_eq!(plain(" \t\n"), "");
    assert_eq!(plain("a\n  \n\nb\n"), "│ a\n│ b\n");
    assert_eq!(plain("\u{a0}\n"), "│ \u{a0}\n");
}

#[test]
fn bullets() {
    assert_eq!(plain("* one\n- two\n"), "│ • one\n│ • two\n");
    assert_eq!(plain("  * one\n"), "│   • one\n");
    assert_eq!(plain("*\tone\n"), "│ • one\n");
    assert_eq!(plain("*one\n-two\n"), "│ *one\n│ -two\n");
    assert_eq!(plain("*\n-\n"), "│ *\n│ -\n");
    assert_eq!(plain("---\n"), "│ ---\n");
    assert_eq!(
        colored("* x\n"),
        "\x1b[38;5;213m│\x1b[0m \x1b[0m\x1b[38;5;80m• \x1b[0mx\n"
    );
}

#[test]
fn headings() {
    assert_eq!(plain("# Title\n"), "│ Title\n");
    assert_eq!(plain("###### Title\n"), "│ Title\n");
    assert_eq!(plain("####### Title\n"), "│ ####### Title\n");
    assert_eq!(plain("#Title\n##\n"), "│ #Title\n│ ##\n");
    assert_eq!(
        colored("## T\n"),
        "\x1b[38;5;213m│\x1b[0m \x1b[0m\x1b[1m\x1b[38;5;220mT\n"
    );
    assert_eq!(
        shown(&config(&[]), StreamKind::Thought, &["# T\n"], false),
        "\x1b[2m\x1b[38;5;80m│\x1b[0m \x1b[2m\x1b[38;5;250m\x1b[1m\x1b[2m\x1b[38;5;80mT\n"
    );
}

#[test]
fn numbered_items() {
    assert_eq!(plain("1. one\n12.\ttwo\n"), "│ 1. one\n│ 12. two\n");
    assert_eq!(plain("1.5 x\n1.. x\n12 x\n1.\n7\n.5\n"), "│ 1.5 x\n│ 1.. x\n│ 12 x\n│ 1.\n│ 7\n│ .5\n");
    assert_eq!(plain("1a. x\n"), "│ 1a. x\n");
    assert_eq!(
        colored("3. x\n"),
        "\x1b[38;5;213m│\x1b[0m \x1b[0m\x1b[38;5;80m3. \x1b[0mx\n"
    );
}

#[test]
fn bold_text() {
    assert_eq!(plain("a **b** c\n"), "│ a b c\n");
    assert_eq!(plain("**b**\n"), "│ b\n");
    assert_eq!(plain("a * b *c* d\n"), "│ a * b *c* d\n");
    assert_eq!(plain("a***b\n"), "│ a*b\n");
    assert_eq!(plain("a*\n"), "│ a*\n");
    assert_eq!(plain("****\n"), "│ \n");
    assert_eq!(
        colored("**b**c\n"),
        "\x1b[38;5;213m│\x1b[0m \x1b[0m\x1b[1mb\x1b[0mc\n"
    );
    assert_eq!(
        colored("* **b**\n"),
        "\x1b[38;5;213m│\x1b[0m \x1b[0m\x1b[38;5;80m• \x1b[0m\x1b[1mb\x1b[0m\n"
    );
    assert_eq!(
        colored("**b\nc** d\n"),
        "\x1b[38;5;213m│\x1b[0m \x1b[0m\x1b[1mb\n\x1b[38;5;213m│\x1b[0m \x1b[0mc\x1b[0m d\n"
    );
}

#[test]
fn the_end_of_a_stream() {
    let p = config(&["--plain"]);
    let answer = StreamKind::Answer;
    assert_eq!(shown(&p, answer, &[], true), FOOTER);
    assert_eq!(shown(&p, answer, &["a"], true), format!("│ a\n{FOOTER}"));
    assert_eq!(shown(&p, answer, &["a\n"], true), format!("│ a\n{FOOTER}"));
    assert_eq!(shown(&p, answer, &["a\n  "], true), format!("│ a\n{FOOTER}"));
    assert_eq!(shown(&p, answer, &["12."], true), format!("│ 12.\n{FOOTER}"));
    assert_eq!(shown(&p, answer, &["a*"], true), format!("│ a*\n{FOOTER}"));
    assert_eq!(
        shown(&config(&[]), answer, &["**a"], true),
        format!(
            "\x1b[38;5;213m│\x1b[0m \x1b[0m\x1b[1ma\x1b[0m\n\x1b[38;5;213m{}\x1b[0m\n",
            FOOTER.trim_end()
        )
    );
    assert_eq!(
        shown(&config(&[]), StreamKind::Thought, &["**a\n"], true),
        format!(
            "\x1b[2m\x1b[38;5;80m│\x1b[0m \x1b[2m\x1b[38;5;250m\x1b[1ma\n\
             \x1b[2m\x1b[38;5;250m\x1b[2m\x1b[38;5;80m{}\x1b[0m\n",
            FOOTER.trim_end()
        )
    );
}

#[test]
fn nothing_is_shown_while_a_marker_is_open() {
    let p = config(&["--plain"]);
    let mut out = String::new();
    let mut renderer = StreamRenderer::new(&p, StreamKind::Answer, &mut out);
    for (piece, expected) in [
        (" ", ""),
        ("1", ""),
        ("2", ""),
        (".", ""),
        (" ", "│  12. "),
        ("*", ""),
        ("x", "*x"),
        ("\n", "\n"),
        ("*", ""),
        ("*", "│ "),
        ("b", "b"),
    ] {
        out.clear();
        renderer.feed(piece, &mut out);
        assert_eq!(out, expected, "after {piece:?}");
    }
}

#[test]
fn text_may_arrive_in_any_pieces() {
    let text = "## T\n\n  1. **a** b\n* *c* **d\n- e** 3.5\n####### f\n12. \n*";
    for c in [config(&[]), config(&["--plain"])] {
        for kind in [StreamKind::Answer, StreamKind::Thought] {
            let whole = shown(&c, kind, &[text], true);
            let chars: Vec<String> = text.chars().map(String::from).collect();
            let single: Vec<&str> = chars.iter().map(|s| s.as_str()).collect();
            assert_eq!(shown(&c, kind, &single, true), whole);
            for cut in 0..text.len() {
                let (a, b) = text.split_at(cut);
                assert_eq!(shown(&c, kind, &[a, "", b], true), whole);
            }
        }
    }
}

#[test]
fn lines_are_shown_one_by_one() {
    let lines = ["## T", "", " 1. a", "* b", "x *y", "12."];
    let mut text = String::new();
    let mut each = String::new();
    for line in lines {
        text.push_str(line);
        text.push('\n');
        each.push_str(&plain(&format!("{line}\n")));
    }
    assert_eq!(plain(&text), each);
}

#[test]
fn without_colors_there_are_no_escape_codes() {
    let c = config(&["--plain"]);
    for kind in [StreamKind::Answer, StreamKind::Thought] {
        let mut out = String::new();
        let mut renderer = StreamRenderer::new(&c, kind, &mut out);
        renderer.feed("# a\n* **b\n1. c** d\n*", &mut out);
        renderer.finish(&mut out);
        assert!(!out.contains('\x1b'));
    }
}

#[test]
fn a_line_feed_keeps_bold_text_bold() {
    let c = config(&[]);
    let mut out = String::new();
    let mut renderer = StreamRenderer::new(&c, StreamKind::Answer, &mut out);
    out.clear();
    for ch in "**a\n*\nb**".chars() {
        renderer.feed_char(ch, &mut out);
    }
    let head = "\x1b[38;5;213m│\x1b[0m \x1b[0m";
    assert_eq!(out, format!("{head}\x1b[1ma\n{head}*\n{head}b\x1b[0m"));
}
