//! The two-call protocol of the tokenizer and the bytes of a token's text.
use vstd::prelude::*;

use crate::text::{bytes_from_c, decode_lossy, lossy_utf8, unsigned_bytes};

verus! {

/// Size of the buffer a token's text is written into.
pub const PIECE_BUFFER_LEN: usize = 256;

/// The number of tokens the text needs, from the first tokenizer call made
/// with no room: it reports minus that number (or a non-negative value when
/// nothing is needed).
pub open spec fn tokens_needed_spec(probe: i32) -> int {
    if probe < 0 {
        -probe
    } else {
        0
    }
}

/// Reads the first tokenizer call's result. `i32::MIN` has no negation in
/// `i32` and is left out.
pub fn tokens_needed(probe: i32) -> (n: usize)
    requires
        probe != i32::MIN,
    ensures
        n == tokens_needed_spec(probe),
        probe < 0 ==> n == -probe,
        probe >= 0 ==> n == 0,
{
    if probe < 0 {
        (0 - probe) as usize
    } else {
        0
    }
}

/// The tokens kept after the second tokenizer call reported `got`: the
/// first `got` of the buffer, none when `got` is negative, all of them when
/// `got` exceeds the buffer.
pub open spec fn kept_tokens(buf: Seq<i32>, got: i32) -> Seq<i32> {
    if got <= 0 {
        Seq::empty()
    } else if got as int >= buf.len() {
        buf
    } else {
        buf.take(got as int)
    }
}

/// Keeps the tokens the second tokenizer call wrote.
pub fn keep_tokens(buf: Vec<i32>, got: i32) -> (r: Vec<i32>)
    ensures
        r@ == kept_tokens(buf@, got),
        got <= 0 ==> r@.len() == 0,
        0 < got <= buf@.len() ==> r@.len() == got && forall|i: int|
            0 <= i < got ==> #[trigger] r@[i] == buf@[i],
        got > buf@.len() ==> r@ == buf@,
{
    let mut buf = buf;
    let keep: usize = if got < 0 {
        0
    } else {
        got as usize
    };
    let ghost before = buf@;
    buf.truncate(keep);
    proof {
        if got <= 0 {
            assert(buf@ =~= Seq::<i32>::empty());
        } else if got as int >= before.len() {
            if keep as int == before.len() {
                assert(before.subrange(0, keep as int) =~= before);
            }
        }
    }
    buf
}

/// The tokens of a text, from what the two tokenizer calls gave: the first
/// call's result `probe`, then (when tokens are needed) the buffer the
/// second call filled and the count it reported.
pub open spec fn tokenized(probe: i32, filled: Seq<i32>, got: i32) -> Seq<i32> {
    if tokens_needed_spec(probe) == 0 {
        Seq::empty()
    } else {
        kept_tokens(filled, got)
    }
}

/// Tokenizing is decided by the two calls' results alone: the same results
/// give the same tokens, which are a prefix of the filled buffer and never
/// more than the first call said were needed.
pub proof fn lemma_tokenized(probe1: i32, filled1: Seq<i32>, got1: i32, probe2: i32, filled2: Seq<i32>, got2: i32)
    requires
        probe1 == probe2,
        filled1 == filled2,
        got1 == got2,
        filled1.len() == tokens_needed_spec(probe1),
    ensures
        tokenized(probe1, filled1, got1) == tokenized(probe2, filled2, got2),
        tokenized(probe1, filled1, got1).len() <= tokens_needed_spec(probe1),
        tokenized(probe1, filled1, got1) == filled1.take(
            tokenized(probe1, filled1, got1).len() as int,
        ),
{
    let t = tokenized(probe1, filled1, got1);
    if tokens_needed_spec(probe1) != 0 {
        if got1 <= 0 {
        } else if got1 as int >= filled1.len() {
            assert(filled1.take(filled1.len() as int) =~= filled1);
        } else {
            assert(filled1.take(got1 as int).len() == got1);
        }
    } else {
        assert(t =~= filled1.take(0));
    }
}

/// The text of a token: the first `n` bytes of the buffer when `n` is
/// positive, nothing otherwise.
pub open spec fn piece_spec(buf: Seq<i8>, n: i32) -> Seq<u8> {
    if n <= 0 {
        Seq::empty()
    } else {
        unsigned_bytes(buf.take(n as int))
    }
}

/// The bytes of a token's text, from the buffer and the length the
/// conversion call reported. A length beyond the buffer is left out.
pub fn piece_bytes(buf: &[i8], n: i32) -> (r: Vec<u8>)
    requires
        n <= buf@.len(),
    ensures
        r@ == piece_spec(buf@, n),
        1 <= n ==> r@.len() == n && forall|i: int| 0 <= i < n ==> #[trigger] r@[i] == buf@[i] as u8,
        n <= 0 ==> r@.len() == 0,
{
    proof {
        lemma_piece_is_buffer_prefix(buf@, n);
    }
    if n <= 0 {
        Vec::new()
    } else {
        bytes_from_c(buf, n as usize)
    }
}

/// A token's text is exactly the first `n` bytes of the buffer read as
/// unsigned, for every reported length `n` from 1 to the buffer's length
/// (one-byte tokens included), and empty for a length of zero or less.
pub proof fn lemma_piece_is_buffer_prefix(buf: Seq<i8>, n: i32)
    requires
        n <= buf.len(),
    ensures
        1 <= n ==> piece_spec(buf, n).len() == n && forall|i: int|
            0 <= i < n ==> #[trigger] piece_spec(buf, n)[i] == buf[i] as u8,
        n <= 0 ==> piece_spec(buf, n).len() == 0,
{
    if 1 <= n {
        assert forall|i: int| 0 <= i < n implies #[trigger] piece_spec(buf, n)[i] == buf[i] as u8 by {
            assert(buf.take(n as int)[i] == buf[i]);
        }
    }
}

/// The text of a token's bytes, decoded leniently (invalid UTF-8 becomes
/// U+FFFD).
pub fn piece_text(bytes: &[u8]) -> (s: String)
    ensures
        s@ == lossy_utf8(bytes@),
{
    decode_lossy(bytes)
}

} // verus!
