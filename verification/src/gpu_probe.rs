//! The decisions of the GPU write-back probe: which buffer sizes to test,
//! which device, queue family and memory type to use, and whether the data
//! read back is right.
use vstd::prelude::*;

use crate::text::{
    chars_of, lossy_utf8, lowercase, parse_u64, parse_u64_spec, to_lowercase, decode_lossy,
};

verus! {

// ---------------------------------------------------------------------------
// Sizes
// ---------------------------------------------------------------------------

/// The sizes, in KiB, among `args` that parse as `u64`, in order.
pub open spec fn parsed_sizes(args: Seq<Seq<char>>) -> Seq<u64>
    decreases args.len(),
{
    if args.len() == 0 {
        Seq::empty()
    } else {
        let rest = parsed_sizes(args.drop_last());
        match parse_u64_spec(args.last()) {
            Some(v) => rest.push(v as u64),
            None => rest,
        }
    }
}

/// The sizes tested when no argument gives one.
pub open spec fn default_sizes() -> Seq<u64> {
    seq![64, 256, 512, 1024, 4096]
}

/// No argument that parses gives no size.
proof fn lemma_no_parsed_sizes(args: Seq<Seq<char>>)
    requires
        forall|k: int| 0 <= k < args.len() ==> parse_u64_spec(#[trigger] args[k]) is None,
    ensures
        parsed_sizes(args).len() == 0,
    decreases args.len(),
{
    if args.len() > 0 {
        assert(parse_u64_spec(args[args.len() - 1]) is None);
        assert forall|k: int| 0 <= k < args.drop_last().len() implies parse_u64_spec(
            #[trigger] args.drop_last()[k],
        ) is None by {
            assert(args.drop_last()[k] == args[k]);
        }
        lemma_no_parsed_sizes(args.drop_last());
    }
}

/// The buffer sizes to test, in KiB: those the arguments give, or the
/// default sizes when none does.
pub fn probe_sizes(args: &Vec<String>) -> (v: Vec<u64>)
    ensures
        v@ == (if parsed_sizes(args@.map_values(|s: String| s@)).len() == 0 {
            default_sizes()
        } else {
            parsed_sizes(args@.map_values(|s: String| s@))
        }),
        (forall|k: int| 0 <= k < args@.len() ==> parse_u64_spec(#[trigger] args@[k]@) is None)
            ==> v@ == seq![64u64, 256, 512, 1024, 4096],
{
    let ghost all = args@.map_values(|s: String| s@);
    let mut v: Vec<u64> = Vec::new();
    let n = args.len();
    let mut i: usize = 0;
    while i < n
        invariant
            n == args@.len(),
            all == args@.map_values(|s: String| s@),
            i <= n,
            v@ == parsed_sizes(all.take(i as int)),
        decreases n - i,
    {
        proof {
            assert(all.take(i + 1).drop_last() =~= all.take(i as int));
            assert(all.take(i + 1).last() == args@[i as int]@);
        }
        match parse_u64(args[i].as_str()) {
            Some(x) => {
                v.push(x);
            },
            None => {},
        }
        i = i + 1;
    }
    assert(all.take(n as int) =~= all);
    proof {
        if forall|k: int| 0 <= k < args@.len() ==> parse_u64_spec(#[trigger] args@[k]@) is None {
            assert forall|k: int| 0 <= k < all.len() implies parse_u64_spec(#[trigger] all[k])
                is None by {
                assert(all[k] == args@[k]@);
            }
            lemma_no_parsed_sizes(all);
        }
    }
    if v.len() == 0 {
        let d = vec![64u64, 256, 512, 1024, 4096];
        assert(d@ =~= default_sizes());
        d
    } else {
        v
    }
}

/// The number of `u32` elements in a buffer of `kib` KiB, rounded down to a
/// multiple of the shader's 64 invocations (the count is taken as a `u32`).
pub open spec fn element_count(kib: u64) -> u32 {
    (((kib * 1024 / 4) as u32) / 64 * 64) as u32
}

/// The elements and bytes of the buffer for a size of `kib` KiB.
pub fn buffer_layout(kib: u64) -> (r: (u32, u64))
    requires
        kib * 1024 <= u64::MAX,
    ensures
        r.0 == element_count(kib),
        r.1 == r.0 as u64 * 4,
        r.0 % 64 == 0,
        r.0 <= (kib * 256) as u32,
        ((kib * 256) as u32) < r.0 + 64,
{
    assert(kib * 1024 / 4 == kib * 256);
    let n = (kib * 1024 / 4) as u32;
    let n = n / 64 * 64;
    (n, n as u64 * 4)
}

// ---------------------------------------------------------------------------
// Devices, queues and memory
// ---------------------------------------------------------------------------

/// Offset of the device name within the device properties.
pub const DEVICE_NAME_OFFSET: usize = 20;

/// Size of the device name field.
pub const DEVICE_NAME_LEN: usize = 256;

/// The device name field of the properties.
pub open spec fn name_field(props: Seq<u8>) -> Seq<u8> {
    props.subrange(20, 276)
}

/// Where the name ends in its field: the first zero byte, or 256.
pub open spec fn name_end(field: Seq<u8>) -> int {
    if exists|i: int| 0 <= i < 256 && #[trigger] field[i] == 0 {
        choose|i: int|
            0 <= i < 256 && #[trigger] field[i] == 0 && forall|j: int|
                0 <= j < i ==> #[trigger] field[j] != 0
    } else {
        256
    }
}

/// The bytes of the device name: those of the name field before its first
/// zero (all 256 when there is none).
pub open spec fn name_bytes_spec(props: Seq<u8>) -> Seq<u8> {
    name_field(props).take(name_end(name_field(props)))
}

proof fn lemma_name_end(field: Seq<u8>, end: int)
    requires
        field.len() == 256,
        0 <= end <= 256,
        forall|j: int| 0 <= j < end ==> #[trigger] field[j] != 0,
        end < 256 ==> field[end] == 0,
    ensures
        name_end(field) == end,
{
    if end < 256 {
        assert(0 <= end < 256 && field[end] == 0 && forall|j: int|
            0 <= j < end ==> #[trigger] field[j] != 0);
        let k = choose|i: int|
            0 <= i < 256 && #[trigger] field[i] == 0 && forall|j: int|
                0 <= j < i ==> #[trigger] field[j] != 0;
        if k < end {
            assert(field[k] != 0);
        } else if k > end {
            assert(field[end] != 0);
        }
    } else {
        assert(!(exists|i: int| 0 <= i < 256 && #[trigger] field[i] == 0));
    }
}

/// The device name in the properties: the name field up to its first zero
/// byte, decoded leniently.
pub fn device_name(props: &[u8]) -> (s: String)
    requires
        props@.len() >= 276,
    ensures
        s@ == lossy_utf8(name_bytes_spec(props@)),
        exists|end: int|
            0 <= end <= 256 && (forall|j: int|
                0 <= j < end ==> #[trigger] props@.subrange(20, 276)[j] != 0) && (end < 256
                ==> props@.subrange(20, 276)[end] == 0) && s@ == lossy_utf8(
                #[trigger] props@.subrange(20, 276).take(end),
            ),
{
    let ghost field = name_field(props@);
    let mut end: usize = 0;
    while end < DEVICE_NAME_LEN && props[DEVICE_NAME_OFFSET + end] != 0
        invariant
            props@.len() >= 276,
            field == name_field(props@),
            end <= 256,
            forall|j: int| 0 <= j < end ==> #[trigger] field[j] != 0,
        decreases 256 - end,
    {
        assert(field[end as int] == props@[20 + end]);
        end = end + 1;
    }
    proof {
        if end < 256 {
            assert(field[end as int] == props@[20 + end]);
        }
        lemma_name_end(field, end as int);
    }
    let mut bytes: Vec<u8> = Vec::new();
    let mut i: usize = 0;
    while i < end
        invariant
            props@.len() >= 276,
            end <= 256,
            i <= end,
            bytes@ == props@.subrange(20, 20 + i),
        decreases end - i,
    {
        bytes.push(props[DEVICE_NAME_OFFSET + i]);
        i = i + 1;
        assert(bytes@ =~= props@.subrange(20, 20 + i));
    }
    assert(bytes@ =~= name_bytes_spec(props@));
    assert(bytes@ == props@.subrange(20, 276).take(end as int));
    decode_lossy(bytes.as_slice())
}

/// Whether `needle` occurs in `hay` as a contiguous run.
pub open spec fn occurs_in(needle: Seq<char>, hay: Seq<char>) -> bool {
    exists|i: int| 0 <= i && i + needle.len() <= hay.len() && #[trigger] hay.subrange(i, i + needle.len()) == needle
}

/// Whether `needle` occurs in `hay` (`str::contains` with a string pattern).
pub fn contains_chars(hay: &[char], needle: &[char]) -> (r: bool)
    ensures
        r == occurs_in(needle@, hay@),
{
    let n = hay.len();
    let m = needle.len();
    if m > n {
        return false;
    }
    let mut i: usize = 0;
    while i <= n - m
        invariant
            n == hay@.len(),
            m == needle@.len(),
            m <= n,
            i <= n - m + 1,
            forall|k: int| 0 <= k < i ==> #[trigger] hay@.subrange(k, k + m) != needle@,
        decreases n - m + 1 - i,
    {
        let mut j: usize = 0;
        while j < m && hay[i + j] == needle[j]
            invariant
                n == hay@.len(),
                m == needle@.len(),
                i + m <= n,
                j <= m,
                forall|t: int| 0 <= t < j ==> hay@[i + t] == needle@[t],
            decreases m - j,
        {
            j = j + 1;
        }
        if j == m {
            assert(hay@.subrange(i as int, i + m) =~= needle@);
            return true;
        }
        assert(hay@.subrange(i as int, i + m)[j as int] != needle@[j as int]);
        i = i + 1;
    }
    assert forall|k: int| 0 <= k && k + m <= n implies #[trigger] hay@.subrange(k, k + m)
        != needle@ by {
        assert(k < i);
    }
    false
}

/// The device filter from the environment, lowercased (empty when unset).
pub fn device_filter(env_value: Option<String>) -> (s: String)
    ensures
        match env_value {
            Some(v) => s@ == to_lowercase(v@),
            None => s@.len() == 0,
        },
{
    match env_value {
        Some(v) => lowercase(v.as_str()),
        None => String::new(),
    }
}

/// With no filter set in the environment, the first device is chosen.
pub proof fn lemma_unset_filter_selects_first(names: Seq<String>, want: Seq<char>, i: int)
    requires
        names.len() > 0,
        want.len() == 0,
        0 <= i < names.len(),
        forall|k: int| 0 <= k < i ==> !selects(want, #[trigger] names[k]@),
    ensures
        i == 0,
{
    if i > 0 {
        assert(selects(want, names[0]@));
    }
}

/// Whether the device named `name` is selected by the lowercased filter
/// `want`: an empty filter selects every device, otherwise the lowercased
/// name must contain it.
pub open spec fn selects(want: Seq<char>, name: Seq<char>) -> bool {
    want.len() == 0 || occurs_in(want, to_lowercase(name))
}

/// Whether a lowercased device name `lowered` is selected by the lowercased
/// filter `want`: an empty filter selects every device, otherwise the name
/// must contain it.
pub open spec fn matches_filter(want: Seq<char>, lowered: Seq<char>) -> bool {
    want.len() == 0 || occurs_in(want, lowered)
}

/// The index of the first lowercased name that the filter `want` selects,
/// or 0 when none does.
pub fn choose_lowered(names: &Vec<Vec<char>>, want: &[char]) -> (i: usize)
    requires
        names@.len() > 0,
    ensures
        i < names@.len(),
        (exists|k: int| 0 <= k < names@.len() && matches_filter(want@, #[trigger] names@[k]@))
            ==> (matches_filter(want@, names@[i as int]@) && forall|k: int|
            0 <= k < i ==> !matches_filter(want@, #[trigger] names@[k]@)),
        !(exists|k: int| 0 <= k < names@.len() && matches_filter(want@, #[trigger] names@[k]@))
            ==> i == 0,
        want@.len() == 0 ==> i == 0,
{
    let n = names.len();
    let mut i: usize = 0;
    while i < n
        invariant
            n == names@.len(),
            i <= n,
            want@.len() == 0 ==> i == 0,
            forall|k: int| 0 <= k < i ==> !matches_filter(want@, #[trigger] names@[k]@),
        decreases n - i,
    {
        if want.len() == 0 || contains_chars(names[i].as_slice(), want) {
            return i;
        }
        i = i + 1;
    }
    0
}

/// The device to use: the first one the filter selects, or the first
/// device when none is selected.
pub fn choose_device(names: &Vec<String>, want: &str) -> (i: usize)
    requires
        names@.len() > 0,
    ensures
        i < names@.len(),
        (exists|k: int| 0 <= k < names@.len() && selects(want@, #[trigger] names@[k]@)) ==> (
        selects(want@, names@[i as int]@) && forall|k: int|
            0 <= k < i ==> !selects(want@, #[trigger] names@[k]@)),
        !(exists|k: int| 0 <= k < names@.len() && selects(want@, #[trigger] names@[k]@)) ==> i
            == 0,
        want@.len() == 0 ==> i == 0,
{
    let w = chars_of(want);
    let n = names.len();
    let mut lowered: Vec<Vec<char>> = Vec::new();
    let mut j: usize = 0;
    while j < n
        invariant
            n == names@.len(),
            j <= n,
            lowered@.len() == j,
            forall|k: int| 0 <= k < j ==> #[trigger] lowered@[k]@ == to_lowercase(names@[k]@),
        decreases n - j,
    {
        let lower = lowercase(names[j].as_str());
        lowered.push(chars_of(lower.as_str()));
        j = j + 1;
    }
    assert forall|k: int| 0 <= k < n implies selects(want@, #[trigger] names@[k]@)
        == matches_filter(w@, lowered@[k]@) by {
        assert(lowered@[k]@ == to_lowercase(names@[k]@));
    }
    let i = choose_lowered(&lowered, w.as_slice());
    proof {
        if exists|k: int| 0 <= k < n && selects(want@, #[trigger] names@[k]@) {
            let k = choose|k: int| 0 <= k < n && selects(want@, #[trigger] names@[k]@);
            assert(matches_filter(w@, lowered@[k]@));
        } else {
            assert forall|k: int| 0 <= k < n implies !matches_filter(w@, #[trigger] lowered@[k]@) by {
                assert(!selects(want@, names@[k]@));
            }
        }
        assert forall|k: int| 0 <= k < i implies !selects(want@, #[trigger] names@[k]@) by {
            if exists|k2: int| 0 <= k2 < n && matches_filter(w@, #[trigger] lowered@[k2]@) {
                assert(!matches_filter(w@, lowered@[k]@));
            }
        }
    }
    i
}

/// Whether a size passed both the write and the read test.
pub open spec fn size_passed(r: (bool, bool)) -> bool {
    r.0 && r.1
}

/// Whether every tested size passed both the write and the read test.
pub open spec fn all_sizes_pass(results: Seq<(bool, bool)>) -> bool {
    forall|k: int| 0 <= k < results.len() ==> #[trigger] size_passed(results[k])
}

/// The probe's exit status from the (write, read) results of every size:
/// 2 when some size failed a test, 0 otherwise.
pub fn probe_exit_code(results: &[(bool, bool)]) -> (code: i32)
    ensures
        code == (if all_sizes_pass(results@) {
            0i32
        } else {
            2i32
        }),
        code == 0 <==> forall|k: int| 0 <= k < results@.len() ==> #[trigger] results@[k].0
            && results@[k].1,
        code == 2 <==> exists|k: int| 0 <= k < results@.len() && !(#[trigger] results@[k].0
            && results@[k].1),
{
    let n = results.len();
    let mut k: usize = 0;
    while k < n
        invariant
            n == results@.len(),
            k <= n,
            forall|t: int| 0 <= t < k ==> #[trigger] size_passed(results@[t]),
        decreases n - k,
    {
        if !results[k].0 || !results[k].1 {
            assert(!size_passed(results@[k as int]));
            return 2;
        }
        k = k + 1;
    }
    assert forall|t: int| 0 <= t < n implies #[trigger] results@[t].0 && results@[t].1 by {
        assert(size_passed(results@[t]));
    }
    0
}

/// Whether a Vulkan call succeeded (`VK_SUCCESS` is zero).
pub fn vk_succeeded(result: i32) -> (ok: bool)
    ensures
        ok == (result == 0),
{
    result == 0
}

/// The queue family flag for compute work.
pub const QUEUE_COMPUTE_BIT: u32 = 0x2;

/// The first queue family that supports compute work.
pub fn compute_queue_family(flags: &[u32]) -> (r: Option<usize>)
    ensures
        match r {
            Some(i) => i < flags@.len() && flags@[i as int] & 0x2 != 0 && forall|k: int|
                0 <= k < i ==> #[trigger] flags@[k] & 0x2 == 0,
            None => forall|k: int| 0 <= k < flags@.len() ==> #[trigger] flags@[k] & 0x2 == 0,
        },
{
    let n = flags.len();
    let mut i: usize = 0;
    while i < n
        invariant
            n == flags@.len(),
            i <= n,
            forall|k: int| 0 <= k < i ==> #[trigger] flags@[k] & 0x2 == 0,
        decreases n - i,
    {
        if flags[i] & QUEUE_COMPUTE_BIT != 0 {
            return Some(i);
        }
        i = i + 1;
    }
    None
}

/// Host-visible and host-coherent memory.
pub const HOST_MEMORY: u32 = 0x6;

/// Memory type `i` is allowed by the buffer's mask and is host visible and
/// coherent.
pub open spec fn usable_memory_type(flags: Seq<u32>, i: int, allowed: u32) -> bool {
    &&& allowed & (1u32 << i as u32) != 0
    &&& flags[i] & 0x6 == 0x6
}

/// The first of the first `count` memory types that the buffer allows and
/// that the host can see coherently.
pub fn host_memory_type(flags: &[u32], count: u32, allowed: u32) -> (r: Option<u32>)
    requires
        count <= 32,
        count <= flags@.len(),
    ensures
        match r {
            Some(i) => i < count && usable_memory_type(flags@, i as int, allowed) && forall|k: int|
                0 <= k < i ==> !#[trigger] usable_memory_type(flags@, k, allowed),
            None => forall|k: int|
                0 <= k < count ==> !#[trigger] usable_memory_type(flags@, k, allowed),
        },
{
    let mut i: u32 = 0;
    while i < count
        invariant
            count <= 32,
            count <= flags@.len(),
            i <= count,
            forall|k: int| 0 <= k < i ==> !#[trigger] usable_memory_type(flags@, k, allowed),
        decreases count - i,
    {
        let t = flags[i as usize];
        let ok_bits = allowed & (1u32 << i) != 0;
        let host = t & HOST_MEMORY == HOST_MEMORY;
        if ok_bits && host {
            return Some(i);
        }
        i = i + 1;
    }
    None
}

// ---------------------------------------------------------------------------
// Checking what was read back
// ---------------------------------------------------------------------------

/// Added by the host to each index before the read-modify-write pass.
pub const READ_TAG: u32 = 0x1000;

/// The indices checked in a buffer of `n` elements.
pub open spec fn sample_indices(n: int) -> Seq<int> {
    seq![0, 1, 2, 7, n / 2, n - 1]
}

/// Every sampled element `i` holds `i + offset`.
pub open spec fn samples_hold(data: Seq<u32>, offset: int) -> bool {
    forall|k: int|
        0 <= k < 6 ==> data[#[trigger] sample_indices(data.len() as int)[k]] == sample_indices(
            data.len() as int,
        )[k] + offset
}

/// The checked elements are those at 0, 1, 2, 7, the middle and the last
/// index, each of which must hold its index plus `offset`.
pub proof fn lemma_samples_positions(data: Seq<u32>, offset: int)
    ensures
        samples_hold(data, offset) <==> {
            let n = data.len() as int;
            &&& data[0] == offset
            &&& data[1] == 1 + offset
            &&& data[2] == 2 + offset
            &&& data[7] == 7 + offset
            &&& data[n / 2] == n / 2 + offset
            &&& data[n - 1] == n - 1 + offset
        },
{
    let n = data.len() as int;
    let ix = sample_indices(n);
    assert(ix[0] == 0 && ix[1] == 1 && ix[2] == 2 && ix[3] == 7 && ix[4] == n / 2 && ix[5] == n
        - 1);
    if !samples_hold(data, offset) {
        let k = choose|k: int| 0 <= k < 6 && !(data[#[trigger] sample_indices(n)[k]] == sample_indices(n)[k] + offset);
        assert(0 <= k < 6);
    }
}

/// Whether the sampled element `i` holds `i + offset`.
fn check_samples(data: &[u32], offset: u32) -> (ok: bool)
    requires
        data@.len() >= 8,
        data@.len() + offset <= u32::MAX,
    ensures
        ok == samples_hold(data@, offset as int),
{
    let n = data.len();
    let samples: [usize; 6] = [0, 1, 2, 7, n / 2, n - 1];
    let mut k: usize = 0;
    while k < 6
        invariant
            n == data@.len(),
            n >= 8,
            n + offset <= u32::MAX,
            samples@ == sample_indices(n as int).map_values(|x: int| x as usize),
            k <= 6,
            forall|t: int|
                0 <= t < k ==> data@[#[trigger] sample_indices(n as int)[t]] == sample_indices(
                    n as int,
                )[t] + offset,
        decreases 6 - k,
    {
        let i = samples[k];
        if data[i] != i as u32 + offset {
            return false;
        }
        k = k + 1;
    }
    true
}

/// The write test: the shader stored `i + 1` at every sampled index.
pub fn write_back_ok(data: &[u32]) -> (ok: bool)
    requires
        8 <= data@.len() < u32::MAX,
    ensures
        ok == samples_hold(data@, 1),
        ok <==> data@[0] == 1 && data@[1] == 2 && data@[2] == 3 && data@[7] == 8 && data@[(
        data@.len() / 2) as int] == data@.len() / 2 + 1 && data@[data@.len() - 1] == data@.len(),
{
    proof {
        lemma_samples_positions(data@, 1);
    }
    check_samples(data, 1)
}

/// The value the host stores at index `i` before the read-modify-write pass.
pub fn read_pattern(i: u32) -> (v: u32)
    requires
        i + READ_TAG <= u32::MAX,
    ensures
        v == i + READ_TAG,
{
    i + READ_TAG
}

/// The read test: the shader added one to the host's pattern at every
/// sampled index.
pub fn read_back_ok(data: &[u32]) -> (ok: bool)
    requires
        8 <= data@.len(),
        data@.len() + READ_TAG + 1 <= u32::MAX,
    ensures
        ok == samples_hold(data@, READ_TAG + 1),
        ok <==> data@[0] == 0x1001 && data@[1] == 0x1002 && data@[2] == 0x1003 && data@[7]
            == 0x1008 && data@[(data@.len() / 2) as int] == data@.len() / 2 + 0x1001 && data@[
        data@.len() - 1] == data@.len() + 0x1000,
{
    proof {
        lemma_samples_positions(data@, READ_TAG + 1);
    }
    check_samples(data, READ_TAG + 1)
}

} // verus!
