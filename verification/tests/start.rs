use edge_glow::args::{parse_args, Argument, Environment, Invocation};
use edge_glow::config::Config;
use edge_glow::screen::{print_banner, run_demo};
use edge_glow::start::{begin, Task};

fn config(args: &[&str]) -> Config {
    let args: Vec<Argument> =
        args.iter().map(|a| Argument { text: a.to_string(), number: None }).collect();
    let env = Environment { gemma_model: None, ollama_base_url: None, python: None };
    match parse_args(&args, &env) {
        Ok(Invocation::Run(config)) => config,
        _ => panic!("no settings"),
    }
}

#[test]
fn a_run_without_arguments_is_a_chat() {
    let c = config(&[]);
    let mut out = "> ".to_string();
    assert!(matches!(begin(&c, &mut out), Task::Chat));
    let mut banner = "> ".to_string();
    print_banner(&c, &mut banner);
    assert_eq!(out, banner);
    out.clear();
    assert!(matches!(begin(&config(&["--plain"]), &mut out), Task::Chat));
    assert_eq!(out, "");
}

#[test]
fn a_prompt_is_asked_once() {
    let mut out = String::new();
    match begin(&config(&["--plain", "-p", " hi "]), &mut out) {
        Task::AskOnce(history) => {
            assert_eq!(history.len(), 1);
            assert_eq!(history[0].role, "user");
            assert_eq!(history[0].content, " hi ");
        }
        _ => panic!("no question"),
    }
    assert_eq!(out, "");
}

#[test]
fn the_demonstration_comes_before_the_prompt() {
    let c = config(&["--demo", "-p", "hi"]);
    let mut out = String::new();
    assert!(matches!(begin(&c, &mut out), Task::Finish));
    let mut expected = String::new();
    print_banner(&c, &mut expected);
    run_demo(&c, &mut expected);
    assert_eq!(out, expected);
}
