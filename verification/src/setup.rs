//! Terminal mode bookkeeping and fetching a model file when none is present.
use vstd::prelude::*;

use crate::text::{decode_lossy, lossy_utf8, trim, trimmed};

verus! {

/// The terminal mode saved by `stty -g`: its output, decoded leniently and
/// trimmed, when the command succeeded.
pub fn saved_mode(succeeded: bool, stdout: &[u8]) -> (r: Option<String>)
    ensures
        succeeded ==> (r matches Some(s) && s@ == trimmed(lossy_utf8(stdout@))),
        !succeeded ==> r is None,
{
    if succeeded {
        let text = decode_lossy(stdout);
        Some(trim(text.as_str()))
    } else {
        None
    }
}

/// The argument given to `stty` to restore the terminal: the saved mode
/// when there is a non-empty one, `sane` otherwise.
pub fn restore_argument(saved: &Option<String>) -> (r: String)
    ensures
        r@ == (match saved {
            Some(s) => if s@.len() > 0 {
                s@
            } else {
                "sane"@
            },
            None => "sane"@,
        }),
{
    match saved {
        Some(s) => {
            if s.as_str().is_empty() {
                String::from_str("sane")
            } else {
                s.clone()
            }
        },
        None => String::from_str("sane"),
    }
}

/// The model downloaded when the model file is missing.
pub open spec fn default_model_url() -> Seq<char> {
    "https://huggingface.co/Qwen/Qwen2.5-0.5B-Instruct-GGUF/resolve/main/qwen2.5-0.5b-instruct-q4_k_m.gguf"@
}

/// Where to download the model from: the environment's URL, or the
/// default model.
pub fn model_url(env_value: Option<String>) -> (s: String)
    ensures
        s@ == (match env_value {
            Some(v) => v@,
            None => default_model_url(),
        }),
{
    match env_value {
        Some(v) => v,
        None => String::from_str(
            "https://huggingface.co/Qwen/Qwen2.5-0.5B-Instruct-GGUF/resolve/main/qwen2.5-0.5b-instruct-q4_k_m.gguf",
        ),
    }
}

/// The arguments of `curl` that download `url` to `path`: follow
/// redirects, fail on HTTP errors, retry three times.
pub fn download_arguments(path: &str, url: &str) -> (v: Vec<String>)
    ensures
        v@.map_values(|s: String| s@) == seq![
            "-L"@,
            "--fail"@,
            "--retry"@,
            "3"@,
            "-o"@,
            path@,
            url@,
        ],
{
    let mut v: Vec<String> = Vec::new();
    v.push(String::from_str("-L"));
    v.push(String::from_str("--fail"));
    v.push(String::from_str("--retry"));
    v.push(String::from_str("3"));
    v.push(String::from_str("-o"));
    v.push(String::from_str(path));
    v.push(String::from_str(url));
    assert(v@.map_values(|s: String| s@) =~= seq![
        "-L"@,
        "--fail"@,
        "--retry"@,
        "3"@,
        "-o"@,
        path@,
        url@,
    ]);
    v
}

} // verus!
