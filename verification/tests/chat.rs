use edge_glow::args::{parse_args, Argument, Environment, Invocation};
use edge_glow::chat::{
    complete, completion_commands, parse_command, ChatSession, Command, Next, Reply,
};
use edge_glow::screen::{list_models, list_providers, print_banner, print_chat_help};

fn session(args: &[&str]) -> ChatSession {
    let args: Vec<Argument> =
        args.iter().map(|a| Argument { text: a.to_string(), number: None }).collect();
    let env = Environment { gemma_model: None, ollama_base_url: None, python: None };
    match parse_args(&args, &env) {
        Ok(Invocation::Run(config)) => ChatSession::new(config),
        _ => panic!("no settings"),
    }
}

fn plain_session() -> ChatSession {
    session(&["--plain"])
}

fn enter(s: &mut ChatSession, line: &str) -> Reply {
    s.enter(line, &None)
}

fn history(s: &ChatSession) -> Vec<(String, String)> {
    s.history.iter().map(|m| (m.role.clone(), m.content.clone())).collect()
}

fn pair(role: &str, content: &str) -> (String, String) {
    (role.to_string(), content.to_string())
}

#[test]
fn commands_are_read() {
    assert!(matches!(parse_command(" \t"), Command::Blank));
    assert!(matches!(parse_command("/exit"), Command::Exit));
    assert!(matches!(parse_command(" /quit now "), Command::Exit));
    assert!(matches!(parse_command("/clear"), Command::Clear));
    assert!(matches!(parse_command("/model"), Command::ListModels));
    assert!(matches!(parse_command("/models  "), Command::ListModels));
    assert!(matches!(parse_command("/model  a   b"), Command::SwitchModel(m) if m == "a b"));
    assert!(matches!(parse_command("/help"), Command::Help));
    assert!(matches!(parse_command("/provider"), Command::ListProviders));
    assert!(matches!(parse_command("/providers GooGle x"), Command::SwitchProvider(p) if p == "google"));
    assert!(matches!(parse_command("/exits"), Command::Unknown(c) if c == "/exits"));
    assert!(matches!(parse_command("/ model"), Command::Unknown(c) if c == "/"));
    assert!(matches!(parse_command(" hi  there \n"), Command::Say(t) if t == "hi  there"));
    assert!(matches!(parse_command("a /exit"), Command::Say(t) if t == "a /exit"));
}

#[test]
fn blank_lines_do_nothing() {
    let mut s = plain_session();
    let r = enter(&mut s, "  ");
    assert_eq!((r.record, r.out, r.err, r.next), (None, String::new(), String::new(), Next::Read));
    assert!(s.history.is_empty());
}

#[test]
fn leaving() {
    let mut s = plain_session();
    let r = enter(&mut s, " /exit ");
    assert_eq!(r.next, Next::Quit);
    assert_eq!(r.record, Some("/exit".to_string()));
    assert_eq!(r.out, "");
}

#[test]
fn an_answered_request_is_remembered() {
    let mut s = plain_session();
    let r = enter(&mut s, " hello ");
    assert_eq!(r.next, Next::Ask);
    assert_eq!(r.record, Some("hello".to_string()));
    let mut err = String::new();
    s.take_answer(Ok("hi\n".to_string()), &mut err);
    assert_eq!(err, "");
    assert_eq!(history(&s), vec![pair("user", "hello"), pair("model", "hi\n")]);
}

#[test]
fn a_blank_answer_is_not_remembered() {
    let mut s = plain_session();
    enter(&mut s, "hello");
    let mut err = String::new();
    s.take_answer(Ok(" \n".to_string()), &mut err);
    assert_eq!(history(&s), vec![pair("user", "hello")]);
}

#[test]
fn a_failed_request_leaves_no_trace() {
    let mut s = plain_session();
    enter(&mut s, "one");
    let mut err = String::new();
    s.take_answer(Ok("1".to_string()), &mut err);
    let before = history(&s);
    enter(&mut s, "two");
    s.take_answer(Err("quota".to_string()), &mut err);
    assert_eq!(err, "\nerror quota\n");
    assert_eq!(history(&s), before);
}

#[test]
fn a_failure_without_a_conversation() {
    let mut s = session(&[]);
    let mut err = String::new();
    s.take_answer(Err("x".to_string()), &mut err);
    assert_eq!(err, "\n\x1b[1m\x1b[38;5;196merror\x1b[0m x\n");
    assert!(s.history.is_empty());
}

#[test]
fn clearing() {
    let mut s = plain_session();
    enter(&mut s, "one");
    let r = enter(&mut s, "/clear");
    assert_eq!((r.out.as_str(), r.next), ("\x1b[2J\x1b[H", Next::Read));
    assert!(s.history.is_empty());
    let mut s = session(&[]);
    let r = enter(&mut s, "/clear");
    let mut banner = String::new();
    print_banner(&s.config, &mut banner);
    assert_eq!(r.out, format!("\x1b[2J\x1b[H{banner}"));
}

#[test]
fn commands_keep_the_conversation() {
    let mut s = plain_session();
    enter(&mut s, "one");
    for line in ["/help", "/model", "/model x", "/provider", "/provider ollama", "/nope", "", "/quit"] {
        enter(&mut s, line);
        assert_eq!(history(&s), vec![pair("user", "one")], "{line}");
    }
}

#[test]
fn switching_the_model() {
    let mut s = plain_session();
    let r = enter(&mut s, "/model gemini 2");
    assert_eq!(r.out, "note model switched to: gemini 2\n");
    assert_eq!(s.config.model, "gemini 2");
    assert_eq!(s.config.provider, "google");
    let r = enter(&mut s, "/model ollama:llama3");
    assert_eq!(r.out, "note provider switched to: ollama\nnote model switched to: llama3\n");
    assert_eq!((s.config.model.as_str(), s.config.provider.as_str()), ("llama3", "ollama"));
    assert_eq!(r.next, Next::Read);
    assert_eq!(enter(&mut s, "/model").next, Next::ListModels);
}

#[test]
fn switching_the_provider_to_ollama() {
    let mut s = plain_session();
    let r = enter(&mut s, "/provider OLLAMA");
    assert_eq!((r.out.as_str(), r.next), ("note provider switched to: ollama\n", Next::PickModel));
    let mut out = String::new();
    let models = vec![
        "a:1 - available".to_string(),
        "b:2 (4 GB) - installed".to_string(),
        "c - installed".to_string(),
    ];
    s.pick_model(&Ok(models), &mut out);
    assert_eq!(out, "note auto-selected model: b:2\n");
    assert_eq!(s.config.model, "b:2");
    let r = enter(&mut s, "/provider ollama");
    assert_eq!((r.out.as_str(), r.next), ("note provider switched to: ollama\n", Next::Read));
}

#[test]
fn no_model_may_be_installed() {
    let mut s = plain_session();
    enter(&mut s, "/provider ollama");
    let model = s.config.model.clone();
    let mut out = String::new();
    s.pick_model(&Ok(vec!["a - available".to_string()]), &mut out);
    s.pick_model(&Ok(vec![]), &mut out);
    s.pick_model(&Err("offline".to_string()), &mut out);
    assert_eq!(out, "");
    assert_eq!(s.config.model, model);
}

#[test]
fn switching_the_provider_to_google() {
    let mut s = session(&["--plain", "--ollama"]);
    let r = s.enter("/provider Google", &None);
    assert_eq!(
        r.out,
        "note provider switched to: google\n\
         note reset to default google model: gemma-4-26b-a4b-it\n"
    );
    assert_eq!(s.config.provider, "google");
    let mut s = session(&["--plain", "--ollama"]);
    let r = s.enter("/provider google", &Some("mine".to_string()));
    assert_eq!(r.next, Next::Read);
    assert_eq!(s.config.model, "mine");
}

#[test]
fn unknown_names_are_errors() {
    let mut s = plain_session();
    let r = enter(&mut s, "/provider azure");
    assert_eq!(r.err, "\nerror unknown provider. use 'google' or 'ollama'\n");
    assert_eq!((r.out.as_str(), r.next), ("", Next::Read));
    assert_eq!(s.config.provider, "google");
    let r = enter(&mut s, "/nope x");
    assert_eq!(r.err, "\nerror unknown command: '/nope'. type /help for commands\n");
    assert_eq!(r.record, Some("/nope x".to_string()));
}

#[test]
fn help_and_providers() {
    let mut s = plain_session();
    let mut expected = String::new();
    print_chat_help(&s.config, &mut expected);
    assert_eq!(enter(&mut s, "/help").out, expected);
    expected.clear();
    list_providers(&s.config, &mut expected);
    assert_eq!(enter(&mut s, "/provider").out, expected);
}

#[test]
fn other_settings_do_not_change() {
    let mut s = session(&["--plain", "--no-thinking", "--python", "py", "-p", "q"]);
    for line in ["/model x", "/provider ollama", "/provider google", "/clear", "hi"] {
        enter(&mut s, line);
        assert!(s.config.plain && !s.config.thinking);
        assert_eq!(s.config.python, "py");
        assert_eq!(s.config.prompt, Some("q".to_string()));
        assert_eq!(s.config.temperature, "0.7");
    }
}

#[test]
fn completing() {
    let commands = completion_commands();
    assert_eq!(commands, ["/exit", "/quit", "/clear", "/help", "/model", "/provider"]);
    assert_eq!(complete(&commands, "/"), commands);
    assert_eq!(complete(&commands, "/m"), ["/model"]);
    assert_eq!(complete(&commands, "/model"), ["/model"]);
    assert_eq!(complete(&commands, "/models"), Vec::<String>::new());
    assert_eq!(complete(&commands, ""), Vec::<String>::new());
    assert_eq!(complete(&commands, "m"), Vec::<String>::new());
    assert_eq!(complete(&commands, " /m"), Vec::<String>::new());
}

#[test]
fn obeying() {
    let mut s = plain_session();
    let (mut out, mut err) = ("> ".to_string(), "! ".to_string());
    let command = Command::SwitchProvider("GOOGLE".to_string());
    assert_eq!(s.obey(command, &None, &mut out, &mut err), Next::Read);
    assert_eq!(err, "! \nerror unknown provider. use 'google' or 'ollama'\n");
    let command = Command::SwitchProvider("ollama".to_string());
    assert_eq!(s.obey(command, &None, &mut out, &mut err), Next::PickModel);
    assert_eq!(out, "> note provider switched to: ollama\n");
}

#[test]
fn asking_for_the_model_always_shows_it() {
    let mut s = session(&["--plain", "-m", "m"]);
    let r = enter(&mut s, "/model");
    assert_eq!(r.next, Next::ListModels);
    let (mut out, mut err) = (r.out, r.err);
    list_models(&s.config, &Err("offline".to_string()), &mut out, &mut err);
    assert_eq!(out, "note current model: m (provider: google)\n");
    assert_eq!(err, "\nerror offline\n");
    assert_eq!(s.config.model, "m");
    assert!(s.history.is_empty());
    assert_eq!(enter(&mut s, "/exit").next, Next::Quit);
}
