use egg_llm::chat::{
    chatml, classify_input, prompt_text, reply_text, single_user_turn, template_capacity,
    template_final_step, template_first_step, ChatSession, Input, TemplateStep,
    CHAT_TEMPLATE_SLACK, PROMPT_TEMPLATE_SLACK,
};

fn turn(r: &str, c: &str) -> (String, String) {
    (r.to_string(), c.to_string())
}

#[test]
fn chatml_of_a_conversation() {
    let h = vec![turn("user", "hi"), turn("assistant", "hello"), turn("user", "bye")];
    assert_eq!(
        chatml(&h),
        "<|im_start|>user\nhi<|im_end|>\n<|im_start|>assistant\nhello<|im_end|>\n<|im_start|>user\nbye<|im_end|>\n<|im_start|>assistant\n"
    );
    assert_eq!(chatml(&vec![]), "<|im_start|>assistant\n");
}

#[test]
fn chatml_single_user_matches_the_one_shot_format() {
    let user = "What is 2 + 2?";
    let h = single_user_turn(user);
    assert_eq!(h, vec![turn("user", user)]);
    assert_eq!(
        chatml(&h),
        format!("<|im_start|>user\n{user}<|im_end|>\n<|im_start|>assistant\n")
    );
}

#[test]
fn capacity_is_content_bytes_plus_slack() {
    let h = vec![turn("user", "héllo"), turn("assistant", "ok")];
    assert_eq!(template_capacity(&h, CHAT_TEMPLATE_SLACK), Some(6 + 2 + 1024));
    assert_eq!(template_capacity(&vec![turn("user", "abc")], PROMPT_TEMPLATE_SLACK), Some(3 + 512));
    assert_eq!(template_capacity(&vec![], usize::MAX), Some(usize::MAX));
    assert_eq!(template_capacity(&vec![turn("user", "a")], usize::MAX), None);
}

#[test]
fn template_steps() {
    assert!(matches!(template_first_step(2000, 1024), TemplateStep::Retry(2000)));
    assert!(matches!(template_first_step(1024, 1024), TemplateStep::Take(1024)));
    assert!(matches!(template_first_step(10, 1024), TemplateStep::Take(10)));
    assert!(matches!(template_first_step(0, 1024), TemplateStep::Fallback));
    assert!(matches!(template_first_step(-3, 1024), TemplateStep::Fallback));
    assert!(matches!(template_final_step(7), TemplateStep::Take(7)));
    assert!(matches!(template_final_step(0), TemplateStep::Fallback));
    // A capacity beyond a C int compares as the truncated value.
    assert!(matches!(template_first_step(5, (1usize << 32) + 1), TemplateStep::Retry(5)));
}

#[test]
fn prompt_text_uses_the_template_or_chatml() {
    let h = vec![turn("user", "x")];
    assert_eq!(prompt_text(&h, Some(b"T:x".to_vec())), "T:x");
    assert_eq!(prompt_text(&h, Some(vec![0x66, 0xff])), "f\u{fffd}");
    assert_eq!(prompt_text(&h, None), chatml(&h));
}

#[test]
fn reply_text_decodes_and_trims() {
    assert_eq!(reply_text(b"  Paris.\n"), "Paris.");
    assert_eq!(reply_text(&[b' ', 0xc3, b' ']), "\u{fffd}");
}

#[test]
fn input_classification() {
    assert!(matches!(classify_input("   "), Input::Skip));
    assert!(matches!(classify_input(""), Input::Skip));
    assert!(matches!(classify_input(" /quit "), Input::Quit));
    assert!(matches!(classify_input("/exit"), Input::Quit));
    assert!(matches!(classify_input("/reset\n"), Input::Reset));
    assert!(matches!(classify_input("  hello there "), Input::Message(m) if m == "hello there"));
    assert!(matches!(classify_input("/quitting"), Input::Message(m) if m == "/quitting"));
}

#[test]
fn session_records_turns() {
    let mut s = ChatSession::new();
    assert!(matches!(s.handle_line("hi"), Input::Message(_)));
    s.record_reply("  hello!  ");
    assert_eq!(s.history(), &vec![turn("user", "hi"), turn("assistant", "hello!")]);
    assert!(matches!(s.handle_line("  "), Input::Skip));
    assert!(matches!(s.handle_line("/quit"), Input::Quit));
    assert_eq!(s.history().len(), 2);
    assert!(matches!(s.handle_line("/reset"), Input::Reset));
    assert!(s.history().is_empty());
}

#[test]
fn message_then_withdraw_restores_history() {
    let mut s = ChatSession::new();
    s.handle_line("first");
    s.record_reply("reply");
    let before = s.history().clone();
    s.handle_line("second");
    s.withdraw_last();
    assert_eq!(s.history(), &before);
    let mut empty = ChatSession::new();
    empty.withdraw_last();
    assert!(empty.history().is_empty());
}

#[test]
fn one_shot_and_chat_templates_agree_for_a_single_turn() {
    // Same reported length, different first capacities: both take the bytes.
    let user = "hello";
    let h = single_user_turn(user);
    let out = b"<s>user: hello</s>".to_vec();
    let n = out.len() as i32;
    let chat_cap = template_capacity(&h, CHAT_TEMPLATE_SLACK).unwrap();
    let one_cap = template_capacity(&h, PROMPT_TEMPLATE_SLACK).unwrap();
    for cap in [chat_cap, one_cap, 4] {
        let step = match template_first_step(n, cap) {
            TemplateStep::Retry(_) => template_final_step(n),
            s => s,
        };
        let text = match step {
            TemplateStep::Take(k) => prompt_text(&h, Some(out[..k].to_vec())),
            _ => prompt_text(&h, None),
        };
        assert_eq!(text, "<s>user: hello</s>");
    }
    assert_eq!(
        prompt_text(&h, None),
        format!("<|im_start|>user\n{user}<|im_end|>\n<|im_start|>assistant\n")
    );
}
