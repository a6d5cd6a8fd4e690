use egg_llm::tokens::{keep_tokens, piece_bytes, piece_text, tokens_needed, PIECE_BUFFER_LEN};

#[test]
fn tokens_needed_from_probe() {
    assert_eq!(tokens_needed(-12), 12);
    assert_eq!(tokens_needed(0), 0);
    assert_eq!(tokens_needed(5), 0);
    assert_eq!(tokens_needed(-i32::MAX), i32::MAX as usize);
}

#[test]
fn keep_tokens_truncates() {
    assert_eq!(keep_tokens(vec![1, 2, 3], 2), vec![1, 2]);
    assert_eq!(keep_tokens(vec![1, 2, 3], 3), vec![1, 2, 3]);
    assert_eq!(keep_tokens(vec![1, 2, 3], 9), vec![1, 2, 3]);
    assert_eq!(keep_tokens(vec![1, 2, 3], 0), Vec::<i32>::new());
    assert_eq!(keep_tokens(vec![1, 2, 3], -4), Vec::<i32>::new());
}

#[test]
fn piece_bytes_reads_the_reported_length() {
    let mut buf = [0i8; PIECE_BUFFER_LEN];
    buf[0] = b'H' as i8;
    buf[1] = -30; // 0xe2
    buf[2] = 5;
    assert_eq!(piece_bytes(&buf, 2), vec![b'H', 0xe2]);
    assert_eq!(piece_bytes(&buf, 0), Vec::<u8>::new());
    assert_eq!(piece_bytes(&buf, -8), Vec::<u8>::new());
}

#[test]
fn piece_text_is_lenient() {
    assert_eq!(piece_text(b" world"), " world");
    assert_eq!(piece_text(&[0xe2, 0x82]), "\u{fffd}");
    assert_eq!(piece_text("€".as_bytes()), "€");
}
