use edge_glow::args::{parse_args, Argument, Environment, Invocation};
use edge_glow::config::{Config, Message};
use edge_glow::json::json_field;
use edge_glow::payload::{build_models_payload, build_payload};

fn config(args: &[&str]) -> Config {
    let args: Vec<Argument> = args
        .iter()
        .map(|a| Argument {
            text: a.to_string(),
            number: a.parse::<f32>().ok().map(|n| n.to_string()),
        })
        .collect();
    let env = Environment { gemma_model: None, ollama_base_url: None, python: None };
    match parse_args(&args, &env) {
        Ok(Invocation::Run(config)) => config,
        _ => panic!("no settings"),
    }
}

fn message(role: &str, content: &str) -> Message {
    Message { role: role.to_string(), content: content.to_string() }
}

#[test]
fn an_empty_conversation() {
    assert_eq!(
        build_payload(&config(&[]), &[]),
        "{\"model\":\"gemma-4-26b-a4b-it\",\"provider\":\"google\",\
         \"ollama_url\":\"http://localhost:11434\",\"temperature\":0.7,\"thinking\":true,\
         \"messages\":[]}"
    );
}

#[test]
fn messages_stand_in_their_order() {
    let config = config(&["--no-thinking", "-t", "1", "--model", "ollama:m\"1"]);
    let history = vec![message("user", "hi\n"), message("model", "yo"), message("user", "\"q\"")];
    assert_eq!(
        build_payload(&config, &history),
        "{\"model\":\"m\\\"1\",\"provider\":\"ollama\",\
         \"ollama_url\":\"http://localhost:11434\",\"temperature\":1,\"thinking\":false,\
         \"messages\":[{\"role\":\"user\",\"content\":\"hi\\n\"},\
         {\"role\":\"model\",\"content\":\"yo\"},{\"role\":\"user\",\"content\":\"\\\"q\\\"\"}]}"
    );
}

#[test]
fn the_model_is_read_back() {
    for model in ["", "m", "\"model\":\"x\"", "provider"] {
        let config = config(&["-m", model]);
        let payload = build_payload(&config, &[message("user", "\"model\":\"y\"")]);
        assert_eq!(json_field(&payload, "model"), Some(model.to_string()));
        assert_eq!(json_field(&payload, "provider"), Some("google".to_string()));
    }
}

#[test]
fn different_conversations_are_sent_differently() {
    let config = config(&[]);
    let split = vec![message("user", "a"), message("user", "b")];
    let tricky = vec![message("user", "a\"},{\"role\":\"user\",\"content\":\"b")];
    assert_ne!(build_payload(&config, &split), build_payload(&config, &tricky));
}

#[test]
fn the_request_for_models() {
    let config = config(&["--ollama", "--ollama-url", "http://host\\"]);
    assert_eq!(
        build_models_payload(&config),
        "{\"action\":\"list_models\",\"provider\":\"ollama\",\"ollama_url\":\"http://host\\\\\"}"
    );
}

#[test]
fn a_request_for_models_is_read_back() {
    for provider in ["google", "ollama", "\"action\":\"x\""] {
        let payload = build_models_payload(&config(&["--provider", provider]));
        assert_eq!(json_field(&payload, "action"), Some("list_models".to_string()));
        assert_eq!(json_field(&payload, "provider"), Some(provider.to_string()));
    }
    let here = build_models_payload(&config(&["--ollama"]));
    let there = build_models_payload(&config(&["--ollama", "--ollama-url", "http://there"]));
    assert_ne!(here, there);
}

#[test]
fn the_provider_is_read_back() {
    for model in ["m", "provider", "x\"provider", "\"provider\":\"y\"", "a:b", "\\"] {
        for provider in ["google", "ollama", "x\"y:"] {
            let config = config(&["--provider", provider, "-m", model]);
            let payload = build_payload(&config, &[message("user", "\"provider\":\"z\"")]);
            assert_eq!(json_field(&payload, "provider"), Some(provider.to_string()), "{model}");
        }
    }
}
