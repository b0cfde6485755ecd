use edge_glow::dotenv::{env_file_value, variable};

fn value(text: &str) -> Option<String> {
    env_file_value(text, "GEMMA_MODEL")
}

#[test]
fn values_stand_in_lines() {
    assert_eq!(value("GEMMA_MODEL=m"), Some("m".to_string()));
    assert_eq!(value("A=1\r\nGEMMA_MODEL= a b \r\nB=2\n"), Some("a b".to_string()));
    assert_eq!(value("GEMMA_MODEL=a=b\n"), Some("a=b".to_string()));
    assert_eq!(value("GEMMA_MODEL=\n"), Some(String::new()));
    assert_eq!(value("GEMMA_MODEL=a\nGEMMA_MODEL=b\n"), Some("a".to_string()));
}

#[test]
fn other_lines_do_not_count() {
    assert_eq!(value(""), None);
    assert_eq!(value("\n\n"), None);
    assert_eq!(value("# GEMMA_MODEL=m\nGEMMA_MODEL\nGEMMA_MODELS=m\nMY_GEMMA_MODEL=m"), None);
}

#[test]
fn a_setting_is_read_back_from_its_file() {
    for front in ["", "\n", "A=1\n", "# GEMMA_MODEL=x\n\n"] {
        for back in ["", "\n", "\nGEMMA_MODEL=later", "\n\nB=2\n"] {
            let text = format!("{front}GEMMA_MODEL= m {back}");
            assert_eq!(value(&text), Some("m".to_string()));
        }
    }
}

#[test]
fn the_process_comes_before_the_file() {
    let set = Some("p".to_string());
    assert_eq!(variable(set, "N=f", "N"), Some("p".to_string()));
    assert_eq!(variable(Some(String::new()), "N=f", "N"), Some(String::new()));
    assert_eq!(variable(None, "N=f", "N"), Some("f".to_string()));
    assert_eq!(variable(None, "M=f", "N"), None);
}
