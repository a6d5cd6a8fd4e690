//! Character-level helpers: Unicode white space, trimming, decimal integer
//! parsing, and conversions between strings, character vectors and bytes.
use vstd::prelude::*;
use vstd::utf8::{decode_utf8, valid_utf8};

verus! {

// ---------------------------------------------------------------------------
// Conversions
// ---------------------------------------------------------------------------

/// Copies the characters of `s` into a vector.
pub fn chars_of(s: &str) -> (v: Vec<char>)
    ensures
        v@ == s@,
{
    let mut v: Vec<char> = Vec::new();
    for c in it: s.chars()
        invariant
            v@ == it.seq().take(it.index() as int),
            it.seq() == s@,
    {
        v.push(c);
    }
    v
}

/// Builds a `String` holding exactly the characters of `v`, in order
/// (`String`'s `FromIterator<char>`).
#[verifier::external_body]
pub(crate) fn string_from_chars(v: &[char]) -> (s: String)
    ensures
        s@ == v@,
{
    v.iter().collect()
}

/// The result of decoding `bytes` as UTF-8 with every invalid sequence
/// replaced by U+FFFD, as `String::from_utf8_lossy` does.
pub uninterp spec fn lossy_utf8(bytes: Seq<u8>) -> Seq<char>;

/// `String::from_utf8_lossy`, made owned. Its documentation promises that a
/// valid UTF-8 input is decoded as is; for an invalid one the result is only
/// known by name (`lossy_utf8`).
#[verifier::external_body]
pub(crate) fn decode_lossy(bytes: &[u8]) -> (s: String)
    ensures
        s@ == lossy_utf8(bytes@),
        valid_utf8(bytes@) ==> s@ == decode_utf8(bytes@),
{
    String::from_utf8_lossy(bytes).into_owned()
}

/// The lowercase mapping of `s` as `str::to_lowercase` computes it (full
/// Unicode case mapping).
pub uninterp spec fn to_lowercase(s: Seq<char>) -> Seq<char>;

/// `str::to_lowercase`. The Unicode case tables are not restated; the result
/// is known by name only (`to_lowercase`).
#[verifier::external_body]
pub(crate) fn lowercase(s: &str) -> (r: String)
    ensures
        r@ == to_lowercase(s@),
{
    s.to_lowercase()
}

/// The bytes of a C `char` buffer, read as unsigned.
pub open spec fn unsigned_bytes(buf: Seq<i8>) -> Seq<u8> {
    buf.map_values(|b: i8| b as u8)
}

/// The first `n` bytes of a C `char` buffer, read as unsigned.
pub fn bytes_from_c(buf: &[i8], n: usize) -> (r: Vec<u8>)
    requires
        n <= buf@.len(),
    ensures
        r@ == unsigned_bytes(buf@.take(n as int)),
{
    let mut r: Vec<u8> = Vec::new();
    let mut i: usize = 0;
    while i < n
        invariant
            n <= buf@.len(),
            i <= n,
            r@ == unsigned_bytes(buf@.take(i as int)),
        decreases n - i,
    {
        r.push(buf[i] as u8);
        i = i + 1;
        assert(r@ =~= unsigned_bytes(buf@.take(i as int)));
    }
    r
}

/// Whether the characters in `v` are exactly those of `s`.
pub fn chars_eq_str(v: &[char], s: &str) -> (r: bool)
    ensures
        r == (v@ == s@),
{
    let n = s.unicode_len();
    if v.len() != n {
        return false;
    }
    let mut i: usize = 0;
    while i < n
        invariant
            n == s@.len(),
            v@.len() == n,
            i <= n,
            forall|j: int| 0 <= j < i ==> v@[j] == s@[j],
        decreases n - i,
    {
        if v[i] != s.get_char(i) {
            return false;
        }
        i = i + 1;
    }
    assert(v@ =~= s@);
    true
}

// ---------------------------------------------------------------------------
// White space and trimming
// ---------------------------------------------------------------------------

/// The Unicode `White_Space` property, which `char::is_whitespace` and
/// `str::trim` use.
pub open spec fn is_white_space(c: char) -> bool {
    let u = c as u32;
    ||| 0x09 <= u <= 0x0d
    ||| u == 0x20
    ||| u == 0x85
    ||| u == 0xa0
    ||| u == 0x1680
    ||| 0x2000 <= u <= 0x200a
    ||| u == 0x2028
    ||| u == 0x2029
    ||| u == 0x202f
    ||| u == 0x205f
    ||| u == 0x3000
}

/// Executable `is_white_space` (the same set as `char::is_whitespace`).
pub fn char_is_white_space(c: char) -> (r: bool)
    ensures
        r == is_white_space(c),
{
    let u = c as u32;
    (0x09 <= u && u <= 0x0d) || u == 0x20 || u == 0x85 || u == 0xa0 || u == 0x1680 || (0x2000
        <= u && u <= 0x200a) || u == 0x2028 || u == 0x2029 || u == 0x202f || u == 0x205f || u
        == 0x3000
}

/// `s` without its leading white space.
pub open spec fn trim_start(s: Seq<char>) -> Seq<char>
    decreases s.len(),
{
    if s.len() > 0 && is_white_space(s[0]) {
        trim_start(s.drop_first())
    } else {
        s
    }
}

/// `s` without its trailing white space.
pub open spec fn trim_end(s: Seq<char>) -> Seq<char>
    decreases s.len(),
{
    if s.len() > 0 && is_white_space(s.last()) {
        trim_end(s.drop_last())
    } else {
        s
    }
}

/// `s` without leading and trailing white space, as `str::trim` gives it.
pub open spec fn trimmed(s: Seq<char>) -> Seq<char> {
    trim_end(trim_start(s))
}

/// `trim_start(s)` is the suffix of `s` after its leading white space.
proof fn lemma_trim_start_skip(s: Seq<char>, lo: int)
    requires
        0 <= lo <= s.len(),
        forall|j: int| 0 <= j < lo ==> is_white_space(#[trigger] s[j]),
    ensures
        trim_start(s.skip(lo)) == trim_start(s),
    decreases lo,
{
    if lo > 0 {
        assert(is_white_space(s[0]));
        assert(s.drop_first().skip(lo - 1) =~= s.skip(lo));
        assert forall|j: int| 0 <= j < lo - 1 implies is_white_space(
            #[trigger] s.drop_first()[j],
        ) by {
            assert(s.drop_first()[j] == s[j + 1]);
        }
        lemma_trim_start_skip(s.drop_first(), lo - 1);
    } else {
        assert(s.skip(lo) =~= s);
    }
}

/// `trim_end(s)` is the prefix of `s` before its trailing white space.
proof fn lemma_trim_end_take(s: Seq<char>, hi: int)
    requires
        0 <= hi <= s.len(),
        forall|j: int| hi <= j < s.len() ==> is_white_space(#[trigger] s[j]),
    ensures
        trim_end(s.take(hi)) == trim_end(s),
    decreases s.len() - hi,
{
    if hi < s.len() {
        assert(s.drop_last().take(hi) =~= s.take(hi));
        lemma_trim_end_take(s.drop_last(), hi);
    } else {
        assert(s.take(hi) =~= s);
    }
}

/// A sequence without leading white space is its own `trim_start`.
proof fn lemma_trim_start_fixed(s: Seq<char>)
    requires
        s.len() > 0 ==> !is_white_space(s[0]),
    ensures
        trim_start(s) == s,
{
}

/// `trim_end` keeps a prefix of `s`.
proof fn lemma_trim_end_prefix(s: Seq<char>)
    ensures
        trim_end(s).len() <= s.len(),
        trim_end(s) =~= s.take(trim_end(s).len() as int),
        trim_end(s).len() > 0 ==> !is_white_space(trim_end(s).last()),
    decreases s.len(),
{
    if s.len() > 0 && is_white_space(s.last()) {
        lemma_trim_end_prefix(s.drop_last());
    }
}

/// Trimming twice trims no more than trimming once.
pub proof fn lemma_trim_idempotent(s: Seq<char>)
    ensures
        trimmed(trimmed(s)) == trimmed(s),
    decreases s.len(),
{
    let a = trim_start(s);
    let t = trim_end(a);
    lemma_trim_start_leading(s);
    lemma_trim_end_prefix(a);
    if t.len() > 0 {
        assert(t[0] == a[0]);
    }
    lemma_trim_start_fixed(t);
    lemma_trim_end_prefix(t);
    assert(trim_end(t) == t);
}

/// `trim_start(s)` does not start with white space.
proof fn lemma_trim_start_leading(s: Seq<char>)
    ensures
        trim_start(s).len() > 0 ==> !is_white_space(trim_start(s)[0]),
    decreases s.len(),
{
    if s.len() > 0 && is_white_space(s[0]) {
        lemma_trim_start_leading(s.drop_first());
    }
}

/// The characters of `s` without leading and trailing white space.
pub fn trim_chars(s: &[char]) -> (r: Vec<char>)
    ensures
        r@ == trimmed(s@),
        exists|lo: int, hi: int|
            0 <= lo <= hi <= s@.len() && r@ == #[trigger] s@.subrange(lo, hi) && (forall|j: int|
                0 <= j < lo ==> is_white_space(#[trigger] s@[j])) && (forall|j: int|
                hi <= j < s@.len() ==> is_white_space(#[trigger] s@[j])) && (lo < hi
                ==> !is_white_space(s@[lo]) && !is_white_space(s@[hi - 1])),
{
    let n = s.len();
    let mut lo: usize = 0;
    while lo < n && char_is_white_space(s[lo])
        invariant
            n == s@.len(),
            lo <= n,
            forall|j: int| 0 <= j < lo ==> is_white_space(#[trigger] s@[j]),
        decreases n - lo,
    {
        lo = lo + 1;
    }
    proof {
        lemma_trim_start_skip(s@, lo as int);
        assert(trim_start(s@.skip(lo as int)) == s@.skip(lo as int));
    }
    let ghost rest = s@.skip(lo as int);
    let mut hi: usize = n;
    while hi > lo && char_is_white_space(s[hi - 1])
        invariant
            n == s@.len(),
            lo <= hi <= n,
            rest == s@.skip(lo as int),
            forall|j: int| hi - lo <= j < rest.len() ==> is_white_space(#[trigger] rest[j]),
        decreases hi,
    {
        hi = hi - 1;
    }
    proof {
        lemma_trim_end_take(rest, (hi - lo) as int);
        assert(rest.take((hi - lo) as int) =~= s@.subrange(lo as int, hi as int));
        if hi > lo {
            assert(!is_white_space(rest.take((hi - lo) as int).last()));
            assert(s@[hi - 1] == rest[hi - 1 - lo]);
        }
        assert forall|j: int| hi <= j < s@.len() implies is_white_space(#[trigger] s@[j]) by {
            assert(s@[j] == rest[j - lo]);
        }
    }
    let mut r: Vec<char> = Vec::new();
    let mut i: usize = lo;
    while i < hi
        invariant
            lo <= i <= hi <= n,
            n == s@.len(),
            r@ == s@.subrange(lo as int, i as int),
        decreases hi - i,
    {
        r.push(s[i]);
        i = i + 1;
    }
    r
}

/// `s` without leading and trailing white space, as `str::trim` gives it.
pub fn trim(s: &str) -> (r: String)
    ensures
        r@ == trimmed(s@),
        exists|lo: int, hi: int|
            0 <= lo <= hi <= s@.len() && r@ == #[trigger] s@.subrange(lo, hi) && (forall|j: int|
                0 <= j < lo ==> is_white_space(#[trigger] s@[j])) && (forall|j: int|
                hi <= j < s@.len() ==> is_white_space(#[trigger] s@[j])) && (lo < hi
                ==> !is_white_space(s@[lo]) && !is_white_space(s@[hi - 1])),
{
    let v = chars_of(s);
    let t = trim_chars(v.as_slice());
    string_from_chars(t.as_slice())
}

// ---------------------------------------------------------------------------
// Decimal integers
// ---------------------------------------------------------------------------

/// An ASCII decimal digit.
pub open spec fn is_digit(c: char) -> bool {
    '0' <= c <= '9'
}

/// The value of an ASCII decimal digit.
pub open spec fn digit_value(c: char) -> int {
    c as int - '0' as int
}

/// Every character of `s` is an ASCII decimal digit.
pub open spec fn all_digits(s: Seq<char>) -> bool {
    forall|i: int| 0 <= i < s.len() ==> is_digit(#[trigger] s[i])
}

/// The value of the decimal numeral `s`, most significant digit first.
pub open spec fn decimal_value(s: Seq<char>) -> int
    decreases s.len(),
{
    if s.len() == 0 {
        0
    } else {
        decimal_value(s.drop_last()) * 10 + digit_value(s.last())
    }
}

/// What `str::parse` gives for an integer type whose values are `lo..=hi`
/// (`signed` for a type with negative values): an optional `+` (or, for a
/// signed type, `-`), then one or more ASCII digits whose value is in range.
pub open spec fn parse_integer(s: Seq<char>, signed: bool, lo: int, hi: int) -> Option<int> {
    let negative = signed && s.len() > 0 && s[0] == '-';
    let digits = if s.len() > 0 && (s[0] == '+' || negative) {
        s.drop_first()
    } else {
        s
    };
    if digits.len() == 0 || !all_digits(digits) {
        None
    } else {
        let v = if negative {
            -decimal_value(digits)
        } else {
            decimal_value(digits)
        };
        if lo <= v <= hi {
            Some(v)
        } else {
            None
        }
    }
}

/// What `str::parse::<i32>` gives.
pub open spec fn parse_i32_spec(s: Seq<char>) -> Option<int> {
    parse_integer(s, true, i32::MIN as int, i32::MAX as int)
}

/// What `str::parse::<u32>` gives.
pub open spec fn parse_u32_spec(s: Seq<char>) -> Option<int> {
    parse_integer(s, false, 0, u32::MAX as int)
}

/// What `str::parse::<u64>` gives.
pub open spec fn parse_u64_spec(s: Seq<char>) -> Option<int> {
    parse_integer(s, false, 0, u64::MAX as int)
}

proof fn lemma_decimal_nonneg(s: Seq<char>)
    requires
        all_digits(s),
    ensures
        decimal_value(s) >= 0,
    decreases s.len(),
{
    if s.len() > 0 {
        assert(all_digits(s.drop_last())) by {
            assert forall|i: int| 0 <= i < s.drop_last().len() implies is_digit(
                #[trigger] s.drop_last()[i],
            ) by {
                assert(s.drop_last()[i] == s[i]);
            }
        }
        lemma_decimal_nonneg(s.drop_last());
        assert(is_digit(s[s.len() - 1]));
    }
}

/// A prefix of an all-digit numeral has no greater value.
proof fn lemma_decimal_prefix_le(s: Seq<char>, i: int)
    requires
        all_digits(s),
        0 <= i <= s.len(),
    ensures
        decimal_value(s.take(i)) <= decimal_value(s),
    decreases s.len() - i,
{
    if i < s.len() {
        let t = s.take(i + 1);
        assert(t.drop_last() =~= s.take(i));
        assert(all_digits(s.take(i))) by {
            assert forall|k: int| 0 <= k < s.take(i).len() implies is_digit(
                #[trigger] s.take(i)[k],
            ) by {
                assert(s.take(i)[k] == s[k]);
            }
        }
        lemma_decimal_nonneg(s.take(i));
        assert(is_digit(s[i]));
        assert(t.last() == s[i]);
        lemma_decimal_prefix_le(s, i + 1);
    } else {
        assert(s.take(i) =~= s);
    }
}

/// Parses `s` as `str::parse` does for an integer type with values
/// `lo..=hi` (`signed` when it has negative values).
fn parse_integer_chars(s: &[char], signed: bool, lo: i128, hi: i128) -> (r: Option<i128>)
    requires
        -0x1_0000_0000_0000_0000 <= lo <= 0 <= hi <= 0xffff_ffff_ffff_ffff,
    ensures
        match r {
            Some(v) => parse_integer(s@, signed, lo as int, hi as int) == Some(v as int),
            None => parse_integer(s@, signed, lo as int, hi as int) is None,
        },
{
    let n = s.len();
    let negative = signed && n > 0 && s[0] == '-';
    let start: usize = if n > 0 && (s[0] == '+' || negative) {
        1
    } else {
        0
    };
    let ghost digits = s@.skip(start as int);
    proof {
        if n > 0 && (s@[0] == '+' || negative) {
            assert(digits =~= s@.drop_first());
        } else {
            assert(digits =~= s@);
        }
    }
    if start == n {
        return None;
    }
    let bound: u128 = if negative {
        (0 - lo) as u128
    } else {
        hi as u128
    };
    let mut acc: u128 = 0;
    let mut i: usize = start;
    while i < n
        invariant
            start <= i <= n,
            n == s@.len(),
            digits == s@.skip(start as int),
            negative == (signed && s@.len() > 0 && s@[0] == '-'),
            digits == (if s@.len() > 0 && (s@[0] == '+' || negative) {
                s@.drop_first()
            } else {
                s@
            }),
            digits.len() > 0,
            bound as int == (if negative {
                -lo
            } else {
                hi as int
            }),
            -0x1_0000_0000_0000_0000 <= lo <= 0 <= hi <= 0xffff_ffff_ffff_ffff,
            bound <= 0x1_0000_0000_0000_0000,
            acc <= bound,
            all_digits(digits.take(i - start)),
            acc as int == decimal_value(digits.take(i - start)),
        decreases n - i,
    {
        let c = s[i];
        if !('0' <= c && c <= '9') {
            assert(digits[i - start] == c);
            assert(!is_digit(digits[i - start]));
            assert(!all_digits(digits));
            assert(parse_integer(s@, signed, lo as int, hi as int) is None);
            return None;
        }
        let d = (c as u32 - '0' as u32) as u128;
        let next = acc * 10 + d;
        proof {
            let t = digits.take(i - start + 1);
            assert(t.drop_last() =~= digits.take(i - start));
            assert(t.last() == c);
            assert(all_digits(t)) by {
                assert forall|k: int| 0 <= k < t.len() implies is_digit(#[trigger] t[k]) by {
                    if k < t.len() - 1 {
                        assert(t[k] == digits.take(i - start)[k]);
                    }
                }
            }
        }
        if next > bound {
            proof {
                let k = i - start + 1;
                let t = digits.take(k as int);
                assert(next as int == decimal_value(t));
                if all_digits(digits) {
                    lemma_decimal_prefix_le(digits, k as int);
                    assert(decimal_value(digits) > bound);
                }
                assert(parse_integer(s@, signed, lo as int, hi as int) is None);
            }
            return None;
        }
        acc = next;
        i = i + 1;
    }
    assert(digits.take(n - start) =~= digits);
    if negative {
        Some(0 - acc as i128)
    } else {
        Some(acc as i128)
    }
}

/// Signs as `str::parse` reads them: a numeral of ASCII digits is its
/// decimal value when it is in range, with or without a leading `+`; a
/// leading `-` negates it for `i32` and is refused for `u32` and `u64`; a
/// sign alone, or nothing, is no number.
pub proof fn lemma_parse_signs(d: Seq<char>)
    requires
        d.len() > 0,
        all_digits(d),
    ensures
        decimal_value(d) >= 0,
        decimal_value(d) <= i32::MAX ==> parse_i32_spec(d) == Some(decimal_value(d))
            && parse_i32_spec(seq!['+'] + d) == Some(decimal_value(d)),
        decimal_value(d) <= 0x8000_0000 ==> parse_i32_spec(seq!['-'] + d) == Some(
            -decimal_value(d),
        ),
        decimal_value(d) > 0x8000_0000 ==> parse_i32_spec(seq!['-'] + d) is None,
        decimal_value(d) <= u32::MAX ==> parse_u32_spec(d) == Some(decimal_value(d))
            && parse_u32_spec(seq!['+'] + d) == Some(decimal_value(d)),
        decimal_value(d) <= u64::MAX ==> parse_u64_spec(d) == Some(decimal_value(d)),
        parse_u32_spec(seq!['-'] + d) is None,
        parse_u64_spec(seq!['-'] + d) is None,
        parse_i32_spec(Seq::empty()) is None,
        parse_i32_spec(seq!['-']) is None,
        parse_i32_spec(seq!['+']) is None,
        parse_u32_spec(Seq::empty()) is None,
{
    lemma_decimal_nonneg(d);
    assert(d.len() > 0 && is_digit(d[0]));
    assert((seq!['+'] + d).drop_first() =~= d);
    assert((seq!['-'] + d).drop_first() =~= d);
    assert((seq!['-'] + d)[0] == '-');
    assert((seq!['+'] + d)[0] == '+');
    assert(seq!['-'].drop_first().len() == 0);
    assert(seq!['+'].drop_first().len() == 0);
    assert(!all_digits(seq!['-'] + d)) by {
        assert(!is_digit((seq!['-'] + d)[0]));
    }
}

/// `str::parse::<i32>`.
pub fn parse_i32(s: &str) -> (r: Option<i32>)
    ensures
        match r {
            Some(v) => parse_i32_spec(s@) == Some(v as int),
            None => parse_i32_spec(s@) is None,
        },
{
    let v = chars_of(s);
    match parse_integer_chars(v.as_slice(), true, i32::MIN as i128, i32::MAX as i128) {
        Some(x) => Some(x as i32),
        None => None,
    }
}

/// `str::parse::<u32>`.
pub fn parse_u32(s: &str) -> (r: Option<u32>)
    ensures
        match r {
            Some(v) => parse_u32_spec(s@) == Some(v as int),
            None => parse_u32_spec(s@) is None,
        },
{
    let v = chars_of(s);
    match parse_integer_chars(v.as_slice(), false, 0, u32::MAX as i128) {
        Some(x) => Some(x as u32),
        None => None,
    }
}

/// `str::parse::<u64>`.
pub fn parse_u64(s: &str) -> (r: Option<u64>)
    ensures
        match r {
            Some(v) => parse_u64_spec(s@) == Some(v as int),
            None => parse_u64_spec(s@) is None,
        },
{
    let v = chars_of(s);
    match parse_integer_chars(v.as_slice(), false, 0, u64::MAX as i128) {
        Some(x) => Some(x as u64),
        None => None,
    }
}

} // verus!
