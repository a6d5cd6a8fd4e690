//! Settings from the command line and the environment.
use vstd::prelude::*;

use crate::text::{chars_eq_str, chars_of, parse_i32, parse_i32_spec, parse_u32, parse_u32_spec};

verus! {

/// The options of the one-shot inference command.
pub struct Args {
    /// Path of the model file.
    pub model: String,
    /// The prompt.
    pub prompt: String,
    /// Layers offloaded to the GPU.
    pub n_gpu_layers: i32,
    /// Context size in tokens.
    pub n_ctx: u32,
    /// Most tokens to generate.
    pub max_tokens: i32,
    /// Run the backend self-test instead of generating.
    pub self_test: bool,
}

/// The options as the scan of the arguments goes, by value.
pub struct ArgsModel {
    pub model: Seq<char>,
    pub parts: Seq<Seq<char>>,
    pub n_gpu_layers: i32,
    pub n_ctx: u32,
    pub max_tokens: i32,
    pub self_test: bool,
}

/// An option's value parsed as `i32`, or `old` when there is no value or it
/// does not parse.
pub open spec fn i32_option(value: Option<Seq<char>>, old: i32) -> i32 {
    match value {
        Some(v) => match parse_i32_spec(v) {
            Some(x) => x as i32,
            None => old,
        },
        None => old,
    }
}

/// An option's value parsed as `u32`, or `old` when there is no value or it
/// does not parse.
pub open spec fn u32_option(value: Option<Seq<char>>, old: u32) -> u32 {
    match value {
        Some(v) => match parse_u32_spec(v) {
            Some(x) => x as u32,
            None => old,
        },
        None => old,
    }
}

/// The argument after the first, if any.
pub open spec fn next_value(args: Seq<Seq<char>>) -> Option<Seq<char>> {
    if args.len() >= 2 {
        Some(args[1])
    } else {
        None
    }
}

/// The arguments after an option and its value (the value may be missing).
pub open spec fn after_value(args: Seq<Seq<char>>) -> Seq<Seq<char>> {
    if args.len() >= 2 {
        args.skip(2)
    } else {
        Seq::empty()
    }
}

/// What the option `args[0]` does to the options `st`, given its possible
/// value.
pub open spec fn apply_option(a: Seq<char>, value: Option<Seq<char>>, st: ArgsModel) -> ArgsModel {
    if a == "-m"@ || a == "--model"@ {
        ArgsModel {
            model: match value {
                Some(v) => v,
                None => st.model,
            },
            ..st
        }
    } else if a == "-p"@ || a == "--prompt"@ {
        ArgsModel {
            parts: match value {
                Some(v) => st.parts.push(v),
                None => st.parts,
            },
            ..st
        }
    } else if a == "-n"@ || a == "--max-tokens"@ {
        ArgsModel { max_tokens: i32_option(value, st.max_tokens), ..st }
    } else if a == "--ngl"@ {
        ArgsModel { n_gpu_layers: i32_option(value, st.n_gpu_layers), ..st }
    } else {
        ArgsModel { n_ctx: u32_option(value, st.n_ctx), ..st }
    }
}

/// An option that takes the argument after it as its value.
pub open spec fn takes_value(a: Seq<char>) -> bool {
    a == "-m"@ || a == "--model"@ || a == "-p"@ || a == "--prompt"@ || a == "-n"@ || a
        == "--max-tokens"@ || a == "--ngl"@ || a == "--ctx"@
}

/// The options after reading `args` from left to right, starting from
/// `st`: options with a value consume the next argument, `--self-test` sets
/// its flag, and any other argument is a word of the prompt.
pub open spec fn scan_args(args: Seq<Seq<char>>, st: ArgsModel) -> ArgsModel
    decreases args.len(),
{
    if args.len() == 0 {
        st
    } else if takes_value(args[0]) {
        scan_args(after_value(args), apply_option(args[0], next_value(args), st))
    } else if args[0] == "--self-test"@ {
        scan_args(args.skip(1), ArgsModel { self_test: true, ..st })
    } else {
        scan_args(args.skip(1), ArgsModel { parts: st.parts.push(args[0]), ..st })
    }
}

/// The option names differ from one another.
proof fn lemma_option_names_distinct()
    ensures
        "--ngl"@ != "-m"@,
        "--ngl"@ != "--model"@,
        "--ngl"@ != "-p"@,
        "--ngl"@ != "--prompt"@,
        "--ngl"@ != "-n"@,
        "--ngl"@ != "--max-tokens"@,
        "--ngl"@ != "--ctx"@,
        "--ctx"@ != "-m"@,
        "--ctx"@ != "--model"@,
        "--ctx"@ != "-p"@,
        "--ctx"@ != "--prompt"@,
        "--ctx"@ != "-n"@,
        "--ctx"@ != "--max-tokens"@,
        "-n"@ != "-m"@,
        "-n"@ != "--model"@,
        "-n"@ != "-p"@,
        "-n"@ != "--prompt"@,
        "--max-tokens"@ != "-m"@,
        "--max-tokens"@ != "--model"@,
        "--max-tokens"@ != "-p"@,
        "--max-tokens"@ != "--prompt"@,
{
    reveal_strlit("--ngl");
    reveal_strlit("-m");
    reveal_strlit("--model");
    reveal_strlit("-p");
    reveal_strlit("--prompt");
    reveal_strlit("-n");
    reveal_strlit("--max-tokens");
    reveal_strlit("--ctx");
    assert("--ngl"@[2] != "--ctx"@[2]);
    assert("-n"@[1] != "-m"@[1]);
    assert("-n"@[1] != "-p"@[1]);
    assert("--max-tokens"@[3] != "--model"@[3]);
}

/// Arguments that hold neither `a` nor `b` anywhere.
pub open spec fn free_of(args: Seq<Seq<char>>, a: Seq<char>, b: Seq<char>) -> bool {
    forall|k: int| 0 <= k < args.len() ==> #[trigger] args[k] != a && args[k] != b
}

proof fn lemma_free_of_after(args: Seq<Seq<char>>, a: Seq<char>, b: Seq<char>)
    requires
        free_of(args, a, b),
        args.len() > 0,
    ensures
        free_of(after_value(args), a, b),
        free_of(args.skip(1), a, b),
{
    assert forall|k: int| 0 <= k < args.skip(1).len() implies #[trigger] args.skip(1)[k] != a
        && args.skip(1)[k] != b by {
        assert(args.skip(1)[k] == args[k + 1]);
    }
    if args.len() >= 2 {
        assert forall|k: int| 0 <= k < after_value(args).len() implies #[trigger] after_value(
            args,
        )[k] != a && after_value(args)[k] != b by {
            assert(after_value(args)[k] == args[k + 2]);
        }
    }
}

/// Arguments without `--ngl` leave the GPU layer count as it is.
proof fn lemma_scan_keeps_ngl(args: Seq<Seq<char>>, st: ArgsModel)
    requires
        free_of(args, "--ngl"@, "--ngl"@),
    ensures
        scan_args(args, st).n_gpu_layers == st.n_gpu_layers,
    decreases args.len(),
{
    if args.len() > 0 {
        lemma_free_of_after(args, "--ngl"@, "--ngl"@);
        if takes_value(args[0]) {
            lemma_scan_keeps_ngl(after_value(args), apply_option(args[0], next_value(args), st));
        } else if args[0] == "--self-test"@ {
            lemma_scan_keeps_ngl(args.skip(1), ArgsModel { self_test: true, ..st });
        } else {
            lemma_scan_keeps_ngl(args.skip(1), ArgsModel { parts: st.parts.push(args[0]), ..st });
        }
    }
}

/// Arguments without `-n` or `--max-tokens` leave the token limit as it is.
proof fn lemma_scan_keeps_max_tokens(args: Seq<Seq<char>>, st: ArgsModel)
    requires
        free_of(args, "-n"@, "--max-tokens"@),
    ensures
        scan_args(args, st).max_tokens == st.max_tokens,
    decreases args.len(),
{
    if args.len() > 0 {
        lemma_free_of_after(args, "-n"@, "--max-tokens"@);
        if takes_value(args[0]) {
            lemma_scan_keeps_max_tokens(after_value(args), apply_option(args[0], next_value(args), st));
        } else if args[0] == "--self-test"@ {
            lemma_scan_keeps_max_tokens(args.skip(1), ArgsModel { self_test: true, ..st });
        } else {
            lemma_scan_keeps_max_tokens(args.skip(1), ArgsModel { parts: st.parts.push(args[0]), ..st });
        }
    }
}

/// Arguments without `--ctx` leave the context size as it is.
proof fn lemma_scan_keeps_ctx(args: Seq<Seq<char>>, st: ArgsModel)
    requires
        free_of(args, "--ctx"@, "--ctx"@),
    ensures
        scan_args(args, st).n_ctx == st.n_ctx,
    decreases args.len(),
{
    if args.len() > 0 {
        lemma_free_of_after(args, "--ctx"@, "--ctx"@);
        lemma_option_names_distinct();
        if takes_value(args[0]) {
            lemma_scan_keeps_ctx(after_value(args), apply_option(args[0], next_value(args), st));
        } else if args[0] == "--self-test"@ {
            lemma_scan_keeps_ctx(args.skip(1), ArgsModel { self_test: true, ..st });
        } else {
            lemma_scan_keeps_ctx(args.skip(1), ArgsModel { parts: st.parts.push(args[0]), ..st });
        }
    }
}

/// Arguments that the scan reads as whole options: no option at their end
/// is left waiting for its value.
pub open spec fn whole_options(p: Seq<Seq<char>>) -> bool
    decreases p.len(),
{
    if p.len() == 0 {
        true
    } else if takes_value(p[0]) {
        p.len() >= 2 && whole_options(p.skip(2))
    } else {
        whole_options(p.skip(1))
    }
}

/// Scanning whole options and then more arguments is scanning the more
/// arguments from where the whole options left off.
proof fn lemma_scan_concat(p: Seq<Seq<char>>, q: Seq<Seq<char>>, st: ArgsModel)
    requires
        whole_options(p),
    ensures
        scan_args(p + q, st) == scan_args(q, scan_args(p, st)),
    decreases p.len(),
{
    let pq = p + q;
    if p.len() == 0 {
        assert(pq =~= q);
    } else {
        assert(pq[0] == p[0]);
        if takes_value(p[0]) {
            assert(pq[1] == p[1]);
            assert(after_value(pq) =~= p.skip(2) + q);
            lemma_scan_concat(p.skip(2), q, apply_option(p[0], next_value(p), st));
        } else {
            assert(pq.skip(1) =~= p.skip(1) + q);
            if p[0] == "--self-test"@ {
                lemma_scan_concat(p.skip(1), q, ArgsModel { self_test: true, ..st });
            } else {
                lemma_scan_concat(p.skip(1), q, ArgsModel { parts: st.parts.push(p[0]), ..st });
            }
        }
    }
}

/// `--ngl v`, with no later `--ngl`, sets the GPU layer count to `v` for
/// every `i32` value `v` (zero and negative ones included), whatever whole
/// options stand before it.
pub proof fn lemma_ngl_sets_layers(
    before: Seq<Seq<char>>,
    v: Seq<char>,
    x: int,
    rest: Seq<Seq<char>>,
    st: ArgsModel,
)
    requires
        whole_options(before),
        parse_i32_spec(v) == Some(x),
        free_of(rest, "--ngl"@, "--ngl"@),
    ensures
        scan_args(before + (seq!["--ngl"@, v] + rest), st).n_gpu_layers == x,
{
    let args = seq!["--ngl"@, v] + rest;
    lemma_scan_concat(before, args, st);
    let mid = scan_args(before, st);
    lemma_option_names_distinct();
    assert(args[0] == "--ngl"@);
    assert(args[1] == v);
    assert(after_value(args) =~= rest);
    lemma_scan_keeps_ngl(rest, ArgsModel { n_gpu_layers: x as i32, ..mid });
}

/// `-n v` or `--max-tokens v`, with neither option later, sets the token
/// limit to `v` for every `i32` value `v`, whatever whole options stand
/// before it.
pub proof fn lemma_max_tokens_sets_limit(
    before: Seq<Seq<char>>,
    flag: Seq<char>,
    v: Seq<char>,
    x: int,
    rest: Seq<Seq<char>>,
    st: ArgsModel,
)
    requires
        whole_options(before),
        flag == "-n"@ || flag == "--max-tokens"@,
        parse_i32_spec(v) == Some(x),
        free_of(rest, "-n"@, "--max-tokens"@),
    ensures
        scan_args(before + (seq![flag, v] + rest), st).max_tokens == x,
{
    let args = seq![flag, v] + rest;
    lemma_scan_concat(before, args, st);
    let mid = scan_args(before, st);
    lemma_option_names_distinct();
    assert(args[0] == flag);
    assert(args[1] == v);
    assert(after_value(args) =~= rest);
    lemma_scan_keeps_max_tokens(rest, ArgsModel { max_tokens: x as i32, ..mid });
}

/// `--ctx v`, with no later `--ctx`, sets the context size to `v` for
/// every `u32` value `v`, whatever whole options stand before it.
pub proof fn lemma_ctx_sets_context(
    before: Seq<Seq<char>>,
    v: Seq<char>,
    x: int,
    rest: Seq<Seq<char>>,
    st: ArgsModel,
)
    requires
        whole_options(before),
        parse_u32_spec(v) == Some(x),
        free_of(rest, "--ctx"@, "--ctx"@),
    ensures
        scan_args(before + (seq!["--ctx"@, v] + rest), st).n_ctx == x,
{
    let args = seq!["--ctx"@, v] + rest;
    lemma_scan_concat(before, args, st);
    let mid = scan_args(before, st);
    lemma_option_names_distinct();
    assert(args[0] == "--ctx"@);
    assert(args[1] == v);
    assert(after_value(args) =~= rest);
    lemma_scan_keeps_ctx(rest, ArgsModel { n_ctx: x as u32, ..mid });
}

/// The words joined with single spaces.
pub open spec fn join_words(parts: Seq<Seq<char>>) -> Seq<char>
    decreases parts.len(),
{
    if parts.len() == 0 {
        Seq::empty()
    } else if parts.len() == 1 {
        parts[0]
    } else {
        join_words(parts.drop_last()) + " "@ + parts.last()
    }
}

/// The prompt used when none is given.
pub open spec fn default_prompt() -> Seq<char> {
    "In two sentences, explain what makes GPU inference fast."@
}

/// The options before any argument is read.
pub open spec fn initial_args(default_model: Seq<char>) -> ArgsModel {
    ArgsModel {
        model: default_model,
        parts: Seq::empty(),
        n_gpu_layers: 99,
        n_ctx: 4096,
        max_tokens: 256,
        self_test: false,
    }
}

/// The options the arguments `args` (after the program name) give, with
/// `default_model` as the model when none is named.
pub open spec fn args_spec(default_model: Seq<char>, args: Seq<Seq<char>>, r: Args) -> bool {
    let st = scan_args(args, initial_args(default_model));
    let joined = join_words(st.parts);
    &&& r.model@ == st.model
    &&& r.prompt@ == (if joined.len() == 0 {
        default_prompt()
    } else {
        joined
    })
    &&& r.n_gpu_layers == st.n_gpu_layers
    &&& r.n_ctx == st.n_ctx
    &&& r.max_tokens == st.max_tokens
    &&& r.self_test == st.self_test
}

/// The strings by value.
pub open spec fn strings_view(v: Seq<String>) -> Seq<Seq<char>> {
    v.map_values(|s: String| s@)
}

/// Joins the words with single spaces.
pub fn join_with_spaces(parts: &Vec<String>) -> (s: String)
    ensures
        s@ == join_words(strings_view(parts@)),
{
    let mut s = String::new();
    let n = parts.len();
    let mut i: usize = 0;
    while i < n
        invariant
            n == parts@.len(),
            i <= n,
            s@ == join_words(strings_view(parts@.take(i as int))),
        decreases n - i,
    {
        let ghost before = s@;
        let ghost w = strings_view(parts@.take(i + 1));
        proof {
            assert(w.drop_last() =~= strings_view(parts@.take(i as int)));
            assert(w.last() == parts@[i as int]@);
        }
        if i > 0 {
            s.append(" ");
        }
        s.append(parts[i].as_str());
        proof {
            if i == 0 {
                assert(before =~= Seq::<char>::empty());
                assert(s@ =~= w[0]);
            } else {
                assert(s@ =~= before + " "@ + w.last());
            }
        }
        i = i + 1;
    }
    assert(parts@.take(n as int) =~= parts@);
    s
}

/// Whether `a` is `short` or `long`.
fn is_option(a: &[char], short: &str, long: &str) -> (r: bool)
    ensures
        r == (a@ == short@ || a@ == long@),
{
    chars_eq_str(a, short) || chars_eq_str(a, long)
}

/// Reads the command-line arguments (after the program name).
pub fn parse_args(default_model: String, args: &Vec<String>) -> (r: Args)
    ensures
        args_spec(default_model@, strings_view(args@), r),
        forall|k: int|
            0 <= k && k + 1 < args@.len() && #[trigger] args@[k]@ == "--ngl"@ && whole_options(
                strings_view(args@).take(k),
            ) && parse_i32_spec(args@[k + 1]@) is Some && free_of(
                strings_view(args@).skip(k + 2),
                "--ngl"@,
                "--ngl"@,
            ) ==> r.n_gpu_layers == parse_i32_spec(args@[k + 1]@).unwrap(),
        forall|k: int|
            0 <= k && k + 1 < args@.len() && (#[trigger] args@[k]@ == "-n"@ || args@[k]@
                == "--max-tokens"@) && whole_options(strings_view(args@).take(k)) && parse_i32_spec(
                args@[k + 1]@,
            ) is Some && free_of(strings_view(args@).skip(k + 2), "-n"@, "--max-tokens"@)
                ==> r.max_tokens == parse_i32_spec(args@[k + 1]@).unwrap(),
        forall|k: int|
            0 <= k && k + 1 < args@.len() && #[trigger] args@[k]@ == "--ctx"@ && whole_options(
                strings_view(args@).take(k),
            ) && parse_u32_spec(args@[k + 1]@) is Some && free_of(
                strings_view(args@).skip(k + 2),
                "--ctx"@,
                "--ctx"@,
            ) ==> r.n_ctx == parse_u32_spec(args@[k + 1]@).unwrap(),
{
    let ghost all = strings_view(args@);
    let mut model = default_model;
    let mut parts: Vec<String> = Vec::new();
    let mut n_gpu_layers: i32 = 99;
    let mut n_ctx: u32 = 4096;
    let mut max_tokens: i32 = 256;
    let mut self_test = false;
    let n = args.len();
    let mut i: usize = 0;
    proof {
        assert(all.skip(0) =~= all);
        assert(strings_view(parts@) =~= Seq::<Seq<char>>::empty());
    }
    while i < n
        invariant
            n == args@.len(),
            all == strings_view(args@),
            i <= n,
            scan_args(
                all.skip(i as int),
                ArgsModel {
                    model: model@,
                    parts: strings_view(parts@),
                    n_gpu_layers,
                    n_ctx,
                    max_tokens,
                    self_test,
                },
            ) == scan_args(all, initial_args(default_model@)),
        decreases n - i,
    {
        let ghost rest = all.skip(i as int);
        let ghost st = ArgsModel {
            model: model@,
            parts: strings_view(parts@),
            n_gpu_layers,
            n_ctx,
            max_tokens,
            self_test,
        };
        let a = chars_of(args[i].as_str());
        assert(rest[0] == a@);
        let is_model = is_option(a.as_slice(), "-m", "--model");
        let is_prompt = is_option(a.as_slice(), "-p", "--prompt");
        let is_max = is_option(a.as_slice(), "-n", "--max-tokens");
        let is_ngl = chars_eq_str(a.as_slice(), "--ngl");
        let is_ctx = chars_eq_str(a.as_slice(), "--ctx");
        if is_model || is_prompt || is_max || is_ngl || is_ctx {
            let has_value = i + 1 < n;
            proof {
                if has_value {
                    assert(next_value(rest) == Some(all[i + 1]));
                    assert(after_value(rest) =~= all.skip(i + 2));
                } else {
                    assert(next_value(rest) is None);
                    assert(after_value(rest) =~= all.skip(n as int));
                }
            }
            if is_model {
                if has_value {
                    model = args[i + 1].clone();
                }
            } else if is_prompt {
                if has_value {
                    let ghost before = parts@;
                    parts.push(args[i + 1].clone());
                    assert(strings_view(parts@) =~= strings_view(before).push(all[i + 1]));
                }
            } else if is_max {
                if has_value {
                    match parse_i32(args[i + 1].as_str()) {
                        Some(v) => {
                            max_tokens = v;
                        },
                        None => {},
                    }
                }
            } else if is_ngl {
                if has_value {
                    match parse_i32(args[i + 1].as_str()) {
                        Some(v) => {
                            n_gpu_layers = v;
                        },
                        None => {},
                    }
                }
            } else {
                if has_value {
                    match parse_u32(args[i + 1].as_str()) {
                        Some(v) => {
                            n_ctx = v;
                        },
                        None => {},
                    }
                }
            }
            i = if has_value {
                i + 2
            } else {
                n
            };
        } else {
            proof {
                assert(rest.skip(1) =~= all.skip(i + 1));
            }
            if chars_eq_str(a.as_slice(), "--self-test") {
                self_test = true;
            } else {
                let ghost before = parts@;
                parts.push(args[i].clone());
                assert(strings_view(parts@) =~= strings_view(before).push(all[i as int]));
            }
            i = i + 1;
        }
    }
    assert(all.skip(n as int) =~= Seq::<Seq<char>>::empty());
    proof {
        let init = initial_args(default_model@);
        assert forall|k: int|
            0 <= k && k + 1 < n && #[trigger] args@[k]@ == "--ngl"@ && whole_options(all.take(k))
                && parse_i32_spec(args@[k + 1]@) is Some && free_of(
                all.skip(k + 2),
                "--ngl"@,
                "--ngl"@,
            ) implies scan_args(all, init).n_gpu_layers == parse_i32_spec(
            args@[k + 1]@,
        ).unwrap() by {
            assert(all =~= all.take(k) + (seq![all[k], all[k + 1]] + all.skip(k + 2)));
            lemma_ngl_sets_layers(
                all.take(k),
                all[k + 1],
                parse_i32_spec(all[k + 1]).unwrap(),
                all.skip(k + 2),
                init,
            );
        }
        assert forall|k: int|
            0 <= k && k + 1 < n && (#[trigger] args@[k]@ == "-n"@ || args@[k]@ == "--max-tokens"@)
                && whole_options(all.take(k)) && parse_i32_spec(args@[k + 1]@) is Some && free_of(
                all.skip(k + 2),
                "-n"@,
                "--max-tokens"@,
            ) implies scan_args(all, init).max_tokens == parse_i32_spec(
            args@[k + 1]@,
        ).unwrap() by {
            assert(all =~= all.take(k) + (seq![all[k], all[k + 1]] + all.skip(k + 2)));
            lemma_max_tokens_sets_limit(
                all.take(k),
                all[k],
                all[k + 1],
                parse_i32_spec(all[k + 1]).unwrap(),
                all.skip(k + 2),
                init,
            );
        }
        assert forall|k: int|
            0 <= k && k + 1 < n && #[trigger] args@[k]@ == "--ctx"@ && whole_options(all.take(k))
                && parse_u32_spec(args@[k + 1]@) is Some && free_of(
                all.skip(k + 2),
                "--ctx"@,
                "--ctx"@,
            ) implies scan_args(all, init).n_ctx == parse_u32_spec(args@[k + 1]@).unwrap() by {
            assert(all =~= all.take(k) + (seq![all[k], all[k + 1]] + all.skip(k + 2)));
            lemma_ctx_sets_context(
                all.take(k),
                all[k + 1],
                parse_u32_spec(all[k + 1]).unwrap(),
                all.skip(k + 2),
                init,
            );
        }
    }
    let joined = join_with_spaces(&parts);
    let prompt = if joined.as_str().is_empty() {
        String::from_str("In two sentences, explain what makes GPU inference fast.")
    } else {
        joined
    };
    Args { model, prompt, n_gpu_layers, n_ctx, max_tokens, self_test }
}

/// The model path used when the environment names none.
pub open spec fn default_model_path() -> Seq<char> {
    "models/model.gguf"@
}

/// The model path: the environment's value, or `models/model.gguf`.
pub fn model_path(env_value: Option<String>) -> (s: String)
    ensures
        s@ == (match env_value {
            Some(v) => v@,
            None => default_model_path(),
        }),
        env_value is None ==> s@ == "models/model.gguf"@,
{
    match env_value {
        Some(v) => v,
        None => String::from_str("models/model.gguf"),
    }
}

/// The settings of the chat program.
pub struct ChatSettings {
    /// Path of the model file.
    pub model: String,
    /// Layers offloaded to the GPU.
    pub n_gpu_layers: i32,
    /// Context size in tokens.
    pub n_ctx: u32,
}

/// The chat settings from the environment: the model path, the GPU layers
/// (an `i32`, 99 when absent or unreadable) and the context size (a `u32`,
/// 8192 when absent or unreadable).
pub fn chat_settings(model: Option<String>, ngl: Option<String>, ctx: Option<String>) -> (s:
    ChatSettings)
    ensures
        s.model@ == (match model {
            Some(v) => v@,
            None => default_model_path(),
        }),
        s.n_gpu_layers == i32_option(
            match ngl {
                Some(v) => Some(v@),
                None => None,
            },
            99,
        ),
        s.n_ctx == u32_option(
            match ctx {
                Some(v) => Some(v@),
                None => None,
            },
            8192,
        ),
        (ngl matches Some(v) && parse_i32_spec(v@) is Some) ==> s.n_gpu_layers == parse_i32_spec(
            ngl->0@,
        ).unwrap(),
        (ngl matches Some(v) && parse_i32_spec(v@) is Some) || s.n_gpu_layers == 99,
        (ctx matches Some(v) && parse_u32_spec(v@) is Some) ==> s.n_ctx == parse_u32_spec(
            ctx->0@,
        ).unwrap(),
        (ctx matches Some(v) && parse_u32_spec(v@) is Some) || s.n_ctx == 8192,
        model is None ==> s.model@ == "models/model.gguf"@,
{
    let n_gpu_layers = match &ngl {
        Some(v) => match parse_i32(v.as_str()) {
            Some(x) => x,
            None => 99,
        },
        None => 99,
    };
    let n_ctx = match &ctx {
        Some(v) => match parse_u32(v.as_str()) {
            Some(x) => x,
            None => 8192,
        },
        None => 8192,
    };
    ChatSettings { model: model_path(model), n_gpu_layers, n_ctx }
}

} // verus!
