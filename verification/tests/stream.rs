use edge_glow::args::{parse_args, Argument, Environment, Invocation};
use edge_glow::config::Config;
use edge_glow::stream::{read_event, AnswerStream, BridgeEvent, ModelFetch};

const THOUGHT: &str = "╭─ Thinking Summary ─────────────────────────╮\n";
const FOOTER: &str = "╰────────────────────────────────────────────╯\n";

fn config() -> Config {
    let args: Vec<Argument> = ["--plain", "-m", "m"]
        .iter()
        .map(|a| Argument { text: a.to_string(), number: None })
        .collect();
    let env = Environment { gemma_model: None, ollama_base_url: None, python: None };
    match parse_args(&args, &env) {
        Ok(Invocation::Run(config)) => config,
        _ => panic!("no settings"),
    }
}

fn answer_edge() -> String {
    format!("╭─ Glow(m) {}╮\n", "─".repeat(34))
}

fn thought(text: &str) -> String {
    format!("{{\"type\": \"thought\", \"text\": \"{text}\"}}\n")
}

fn answer(text: &str) -> String {
    format!("{{\"type\": \"answer\", \"text\": \"{text}\"}}\n")
}

const DONE: &str = "{\"type\": \"done\"}\n";

/// The screen and the outcome after the lines.
fn ask(lines: &[String], success: bool, stderr: &str) -> (String, Result<String, String>) {
    let config = config();
    let mut stream = AnswerStream::new(&config);
    let mut out = String::new();
    for line in lines {
        if !stream.read_line(line, &mut out) {
            break;
        }
    }
    let result = stream.conclude(success, "exit status: 3", stderr, &mut out);
    (out, result)
}

#[test]
fn events() {
    assert!(matches!(read_event(&thought("t")), BridgeEvent::Thought(t) if t == "t"));
    assert!(matches!(read_event(&answer("a\\nb")), BridgeEvent::Answer(t) if t == "a\nb"));
    assert!(matches!(read_event(DONE), BridgeEvent::Done));
    assert!(matches!(
        read_event("{\"type\":\"error\",\"message\":\"no key\"}"),
        BridgeEvent::Failed(m) if m == "no key"
    ));
    assert!(matches!(
        read_event("{\"type\":\"error\"}"),
        BridgeEvent::Failed(m) if m == "unknown bridge error"
    ));
    assert!(matches!(read_event(&thought("")), BridgeEvent::Other));
    assert!(matches!(read_event(&answer("")), BridgeEvent::Other));
    assert!(matches!(read_event("{\"type\":\"answer\"}"), BridgeEvent::Other));
    assert!(matches!(read_event("{\"type\":\"ping\"}"), BridgeEvent::Other));
    assert!(matches!(read_event(""), BridgeEvent::Other));
}

#[test]
fn an_answer_with_thoughts() {
    let lines = [
        thought("hm"),
        thought("m"),
        answer("a"),
        answer("b\\n"),
        DONE.to_string(),
        answer("late"),
    ];
    let (screen, result) = ask(&lines, true, "");
    assert_eq!(result, Ok("ab\n".to_string()));
    assert_eq!(
        screen,
        format!("{THOUGHT}│ hmm\n{FOOTER}{}│ ab\n{FOOTER}", answer_edge())
    );
}

#[test]
fn an_answer_is_shown_as_one() {
    let whole = ask(&[thought("* x"), answer("1. **y**")], true, "").0;
    let pieces = [
        thought("*"),
        "{\"type\":\"ping\"}\n".to_string(),
        thought(" x"),
        answer("1"),
        answer(". *"),
        answer("*y*"),
        answer("*"),
    ];
    assert_eq!(ask(&pieces, true, "").0, whole);
    assert_eq!(
        whole,
        format!("{THOUGHT}│ • x\n{FOOTER}{}│ 1. y\n{FOOTER}", answer_edge())
    );
}

#[test]
fn thoughts_after_the_answer_have_a_frame_of_their_own() {
    let lines = [thought("s"), answer("a"), thought("t"), answer("b")];
    let (screen, result) = ask(&lines, true, "");
    assert_eq!(result, Ok("ab".to_string()));
    assert_eq!(
        screen,
        format!(
            "{THOUGHT}│ s\n{FOOTER}{}│ a{THOUGHT}│ tb\n{FOOTER}\n{FOOTER}",
            answer_edge()
        )
    );
}

#[test]
fn only_thoughts_or_nothing() {
    assert_eq!(
        ask(&[thought("t")], true, ""),
        (format!("{THOUGHT}│ t\n{FOOTER}"), Ok(String::new()))
    );
    assert_eq!(ask(&[], true, ""), (String::new(), Ok(String::new())));
}

#[test]
fn a_reported_failure_counts_first() {
    let error = "{\"type\":\"error\",\"message\":\"quota\"}\n".to_string();
    for success in [true, false] {
        let (screen, result) = ask(&[answer("a"), error.clone(), answer("b")], success, "trace");
        assert_eq!(result, Err("quota".to_string()));
        assert_eq!(screen, format!("{}│ a", answer_edge()));
    }
    let (_, result) = ask(&[DONE.to_string(), error], true, "");
    assert_eq!(result, Ok(String::new()));
}

#[test]
fn a_bridge_that_ends_badly_gives_no_answer() {
    let (screen, result) = ask(&[answer("a")], false, " \n");
    assert_eq!(
        result,
        Err("Python bridge exited with status exit status: 3".to_string())
    );
    assert_eq!(screen, format!("{}│ a", answer_edge()));
    let (_, result) = ask(&[answer("a"), DONE.to_string()], false, "\n No module\n");
    assert_eq!(result, Err("No module".to_string()));
}

fn fetch(lines: &[&str]) -> Result<Vec<String>, String> {
    let mut fetch = ModelFetch::new();
    for line in lines {
        if !fetch.read_line(line) {
            break;
        }
    }
    fetch.finish()
}

#[test]
fn models_are_listed_in_order() {
    assert_eq!(
        fetch(&[
            "{\"type\":\"model_item\",\"text\":\"b\"}",
            "{\"type\":\"model_item\"}",
            "{\"type\":\"ping\"}",
            "{\"type\":\"error\"}",
            "{\"type\":\"model_item\",\"text\":\"a\"}",
            "{\"type\":\"done\"}",
            "{\"type\":\"model_item\",\"text\":\"c\"}",
        ]),
        Ok(vec!["b".to_string(), "a".to_string()])
    );
}

#[test]
fn there_may_be_no_models() {
    assert_eq!(fetch(&[]), Err("bridge returned no models".to_string()));
    assert_eq!(fetch(&["{\"type\":\"done\"}"]), Err("bridge returned no models".to_string()));
    assert_eq!(
        fetch(&[
            "{\"type\":\"model_item\",\"text\":\"b\"}",
            "{\"type\":\"error\",\"message\":\"offline\"}",
            "{\"type\":\"model_item\",\"text\":\"a\"}",
        ]),
        Err("offline".to_string())
    );
}
