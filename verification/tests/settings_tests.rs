use egg_llm::settings::{chat_settings, join_with_spaces, model_path, parse_args};

fn args(v: &[&str]) -> Vec<String> {
    v.iter().map(|s| s.to_string()).collect()
}

#[test]
fn defaults() {
    let a = parse_args("m.gguf".to_string(), &args(&[]));
    assert_eq!(a.model, "m.gguf");
    assert_eq!(a.prompt, "In two sentences, explain what makes GPU inference fast.");
    assert_eq!(a.n_gpu_layers, 99);
    assert_eq!(a.n_ctx, 4096);
    assert_eq!(a.max_tokens, 256);
    assert!(!a.self_test);
}

#[test]
fn options_and_words() {
    let a = parse_args(
        "d".to_string(),
        &args(&["-m", "x.gguf", "hello", "-p", "big", "--ngl", "12", "--ctx", "2048", "-n", "64", "world"]),
    );
    assert_eq!(a.model, "x.gguf");
    assert_eq!(a.prompt, "hello big world");
    assert_eq!(a.n_gpu_layers, 12);
    assert_eq!(a.n_ctx, 2048);
    assert_eq!(a.max_tokens, 64);
    let a = parse_args("d".to_string(), &args(&["--model", "y", "--prompt", "p", "--max-tokens", "3", "--self-test"]));
    assert_eq!(a.model, "y");
    assert_eq!(a.prompt, "p");
    assert_eq!(a.max_tokens, 3);
    assert!(a.self_test);
}

#[test]
fn unreadable_values_keep_defaults_but_are_consumed() {
    let a = parse_args("d".to_string(), &args(&["-n", "lots", "--ctx", "-5", "--ngl", "x"]));
    assert_eq!(a.max_tokens, 256);
    assert_eq!(a.n_ctx, 4096);
    assert_eq!(a.n_gpu_layers, 99);
    assert_eq!(a.prompt, "In two sentences, explain what makes GPU inference fast.");
}

#[test]
fn missing_values() {
    let a = parse_args("d".to_string(), &args(&["hi", "-m"]));
    assert_eq!(a.model, "d");
    assert_eq!(a.prompt, "hi");
    let a = parse_args("d".to_string(), &args(&["-p"]));
    assert_eq!(a.prompt, "In two sentences, explain what makes GPU inference fast.");
}

#[test]
fn last_option_wins() {
    let a = parse_args("d".to_string(), &args(&["-m", "a", "-m", "b", "-n", "1", "-n", "2"]));
    assert_eq!(a.model, "b");
    assert_eq!(a.max_tokens, 2);
}

#[test]
fn empty_words_give_the_default_prompt() {
    let a = parse_args("d".to_string(), &args(&[""]));
    assert_eq!(a.prompt, "In two sentences, explain what makes GPU inference fast.");
    let a = parse_args("d".to_string(), &args(&["", ""]));
    assert_eq!(a.prompt, " ");
}

#[test]
fn join_words() {
    assert_eq!(join_with_spaces(&args(&["a", "b", "c"])), "a b c");
    assert_eq!(join_with_spaces(&args(&[])), "");
}

#[test]
fn environment_settings() {
    assert_eq!(model_path(None), "models/model.gguf");
    assert_eq!(model_path(Some("/m".into())), "/m");
    let s = chat_settings(None, None, None);
    assert_eq!(s.model, "models/model.gguf");
    assert_eq!(s.n_gpu_layers, 99);
    assert_eq!(s.n_ctx, 8192);
    let s = chat_settings(Some("q".into()), Some("20".into()), Some("1024".into()));
    assert_eq!((s.model.as_str(), s.n_gpu_layers, s.n_ctx), ("q", 20, 1024));
    let s = chat_settings(None, Some("x".into()), Some("-1".into()));
    assert_eq!((s.n_gpu_layers, s.n_ctx), (99, 8192));
}
