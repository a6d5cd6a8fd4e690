use egg_llm::setup::{download_arguments, model_url, restore_argument, saved_mode};

#[test]
fn saved_terminal_mode() {
    assert_eq!(saved_mode(true, b"500:5:bf:8a3b\n"), Some("500:5:bf:8a3b".to_string()));
    assert_eq!(saved_mode(true, b"  \n"), Some(String::new()));
    assert_eq!(saved_mode(false, b"whatever"), None);
}

#[test]
fn restore_argument_falls_back_to_sane() {
    assert_eq!(restore_argument(&Some("500:5".into())), "500:5");
    assert_eq!(restore_argument(&Some(String::new())), "sane");
    assert_eq!(restore_argument(&None), "sane");
}

#[test]
fn model_download() {
    assert_eq!(
        model_url(None),
        "https://huggingface.co/Qwen/Qwen2.5-0.5B-Instruct-GGUF/resolve/main/qwen2.5-0.5b-instruct-q4_k_m.gguf"
    );
    assert_eq!(model_url(Some("http://x/m.gguf".into())), "http://x/m.gguf");
    assert_eq!(
        download_arguments("models/m.gguf", "http://u"),
        vec!["-L", "--fail", "--retry", "3", "-o", "models/m.gguf", "http://u"]
    );
}
