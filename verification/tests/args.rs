use edge_glow::args::{parse_args, Argument, Environment, Invocation};
use edge_glow::config::{Config, DEFAULT_BRIDGE, DEFAULT_MODEL};

fn arguments(args: &[&str]) -> Vec<Argument> {
    args.iter()
        .map(|a| Argument {
            text: a.to_string(),
            number: a.parse::<f32>().ok().map(|n| n.to_string()),
        })
        .collect()
}

fn bare() -> Environment {
    Environment { gemma_model: None, ollama_base_url: None, python: None }
}

fn parse(args: &[&str]) -> Result<Invocation, String> {
    parse_args(&arguments(args), &bare())
}

fn run(args: &[&str]) -> Config {
    match parse(args) {
        Ok(Invocation::Run(config)) => config,
        Ok(Invocation::Help) => panic!("help"),
        Err(message) => panic!("{message}"),
    }
}

fn wrong(args: &[&str]) -> String {
    match parse(args) {
        Err(message) => message,
        Ok(_) => panic!("accepted"),
    }
}

#[test]
fn the_defaults() {
    let config = run(&[]);
    assert_eq!(config.model, "gemma-4-26b-a4b-it");
    assert_eq!(config.model, DEFAULT_MODEL);
    assert_eq!(config.provider, "google");
    assert_eq!(config.ollama_url, "http://localhost:11434");
    assert_eq!(config.python, "python3");
    assert_eq!(config.bridge, "scripts/gemma_stream.py");
    assert_eq!(config.bridge, DEFAULT_BRIDGE);
    assert_eq!(config.temperature, "0.7");
    assert_eq!(config.temperature, 0.7_f32.to_string());
    assert!(config.thinking);
    assert!(!config.plain);
    assert!(!config.demo);
    assert_eq!(config.prompt, None);
}

#[test]
fn the_environment_changes_the_defaults() {
    let env = Environment {
        gemma_model: Some("ollama:kept".to_string()),
        ollama_base_url: Some("http://x".to_string()),
        python: Some("py".to_string()),
    };
    match parse_args(&arguments(&["--python", "mine"]), &env) {
        Ok(Invocation::Run(config)) => {
            assert_eq!(config.model, "ollama:kept");
            assert_eq!(config.provider, "google");
            assert_eq!(config.ollama_url, "http://x");
            assert_eq!(config.python, "mine");
        }
        _ => panic!("no settings"),
    }
}

#[test]
fn every_option() {
    let config = run(&[
        "--provider", "OLLAMA", "--ollama-url", "u", "--python", "p", "--bridge", "b", "-t", "1.50",
        "-p", "hello", "--no-thinking", "--plain", "--demo", "-m", "x",
    ]);
    assert_eq!(config.model, "x");
    assert_eq!(config.provider, "ollama");
    assert_eq!(config.ollama_url, "u");
    assert_eq!(config.python, "p");
    assert_eq!(config.bridge, "b");
    assert_eq!(config.temperature, "1.5");
    assert_eq!(config.prompt, Some("hello".to_string()));
    assert!(!config.thinking);
    assert!(config.plain);
    assert!(config.demo);
    assert_eq!(run(&["--ollama"]).provider, "ollama");
    assert_eq!(run(&["--prompt", "--help"]).prompt, Some("--help".to_string()));
    assert_eq!(run(&["--provider", "ÄB"]).provider, "äb");
    assert_eq!(run(&["--temperature", "2"]).temperature, "2");
}

#[test]
fn a_model_may_name_its_provider() {
    let config = run(&["--model", "ollama:llama3"]);
    assert_eq!(config.provider, "ollama");
    assert_eq!(config.model, "llama3");
    let config = run(&["--model", "ollama:ollama:llama3", "--provider", "google"]);
    assert_eq!(config.provider, "google");
    assert_eq!(config.model, "llama3");
    let config = run(&["--model", "llama3"]);
    assert_eq!(config.provider, "google");
    assert_eq!(config.model, "llama3");
}

#[test]
fn later_options_count() {
    let config = run(&["-m", "a", "-m", "ollama:b", "-m", "c"]);
    assert_eq!(config.model, "c");
    assert_eq!(config.provider, "ollama");
}

#[test]
fn values_may_be_missing() {
    assert_eq!(wrong(&["--model"]), "--model needs a value");
    assert_eq!(wrong(&["-m"]), "--model needs a value");
    assert_eq!(wrong(&["--provider"]), "--provider needs a value (google/ollama)");
    assert_eq!(wrong(&["--ollama-url"]), "--ollama-url needs a value");
    assert_eq!(wrong(&["--python"]), "--python needs a value");
    assert_eq!(wrong(&["--bridge"]), "--bridge needs a value");
    assert_eq!(wrong(&["-t"]), "--temperature needs a value");
    assert_eq!(wrong(&["--plain", "-p"]), "--prompt needs a value");
}

#[test]
fn the_first_mistake_counts() {
    assert_eq!(wrong(&["-t", "warm", "--nope"]), "--temperature must be a number");
    assert_eq!(wrong(&["--nope", "-t", "warm"]), "unknown argument: --nope");
    assert_eq!(wrong(&["hello"]), "unknown argument: hello");
    assert_eq!(wrong(&["--Model", "x"]), "unknown argument: --Model");
}

#[test]
fn help_ends_reading() {
    assert!(matches!(parse(&["--help", "--nope"]), Ok(Invocation::Help)));
    assert!(matches!(parse(&["--plain", "-h"]), Ok(Invocation::Help)));
    assert_eq!(wrong(&["--nope", "-h"]), "unknown argument: --nope");
}
