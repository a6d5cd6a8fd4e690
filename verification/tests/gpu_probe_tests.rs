use egg_llm::gpu_probe::{
    choose_lowered, probe_exit_code,
    buffer_layout, choose_device, compute_queue_family, contains_chars, device_filter,
    device_name, host_memory_type, probe_sizes, read_back_ok, read_pattern, vk_succeeded,
    write_back_ok, READ_TAG,
};

fn strings(v: &[&str]) -> Vec<String> {
    v.iter().map(|s| s.to_string()).collect()
}

#[test]
fn sizes_from_arguments() {
    assert_eq!(probe_sizes(&strings(&[])), vec![64, 256, 512, 1024, 4096]);
    assert_eq!(probe_sizes(&strings(&["x", "-1"])), vec![64, 256, 512, 1024, 4096]);
    assert_eq!(probe_sizes(&strings(&["128", "nope", "2048"])), vec![128, 2048]);
}

#[test]
fn layouts() {
    assert_eq!(buffer_layout(64), (16384, 65536));
    assert_eq!(buffer_layout(1), (256, 1024));
    assert_eq!(buffer_layout(0), (0, 0));
    // 2^24 KiB is 2^32 elements, which wraps to zero as a u32.
    assert_eq!(buffer_layout(1 << 24), (0, 0));
}

#[test]
fn device_names() {
    let mut props = vec![0u8; 1024];
    props[20..25].copy_from_slice(b"Venus");
    assert_eq!(device_name(&props), "Venus");
    let mut full = vec![0u8; 276];
    for b in &mut full[20..276] {
        *b = b'a';
    }
    assert_eq!(device_name(&full), "a".repeat(256));
    let empty = vec![0u8; 300];
    assert_eq!(device_name(&empty), "");
}

#[test]
fn device_choice() {
    let names = strings(&["llvmpipe (LLVM 17)", "Virtio-GPU Venus (Apple M5 Max)"]);
    assert_eq!(choose_device(&names, ""), 0);
    assert_eq!(choose_device(&names, "venus"), 1);
    assert_eq!(choose_device(&names, "llvm"), 0);
    assert_eq!(choose_device(&names, "nvidia"), 0);
    assert_eq!(device_filter(Some("VeNuS".into())), "venus");
    assert_eq!(device_filter(None), "");
}

#[test]
fn substring_search() {
    assert!(contains_chars(&['a', 'b', 'c'], &['b', 'c']));
    assert!(contains_chars(&['a'], &[]));
    assert!(!contains_chars(&['a', 'b'], &['b', 'a']));
    assert!(!contains_chars(&['a'], &['a', 'a']));
}

#[test]
fn queue_families() {
    assert_eq!(compute_queue_family(&[0x1, 0x4, 0x3]), Some(2));
    assert_eq!(compute_queue_family(&[0x2]), Some(0));
    assert_eq!(compute_queue_family(&[0x1, 0x8]), None);
}

#[test]
fn memory_types() {
    let flags = [0x1u32, 0x6, 0x7, 0xe];
    assert_eq!(host_memory_type(&flags, 4, 0b1111), Some(1));
    assert_eq!(host_memory_type(&flags, 4, 0b1100), Some(2));
    assert_eq!(host_memory_type(&flags, 2, 0b1100), None);
    assert_eq!(host_memory_type(&flags, 4, 0b0001), None);
}

#[test]
fn read_back_checks() {
    let n = 64usize;
    let written: Vec<u32> = (0..n as u32).map(|i| i + 1).collect();
    assert!(write_back_ok(&written));
    let zeros = vec![0u32; n];
    assert!(!write_back_ok(&zeros));
    let mut one_off = written.clone();
    one_off[n / 2] = 0;
    assert!(!write_back_ok(&one_off));
    let read: Vec<u32> = (0..n as u32).map(|i| read_pattern(i) + 1).collect();
    assert!(read_back_ok(&read));
    assert!(!read_back_ok(&vec![1u32; n]));
    assert_eq!(read_pattern(3), 3 + READ_TAG);
}

#[test]
fn vulkan_results() {
    assert!(vk_succeeded(0));
    assert!(!vk_succeeded(-4));
}

#[test]
fn unset_filter_selects_the_first_device() {
    let names = strings(&["Virtio-GPU Venus", "llvmpipe"]);
    let want = device_filter(None);
    assert!(want.is_empty());
    assert_eq!(choose_device(&names, &want), 0);
}

#[test]
fn choose_among_lowered_names() {
    let names: Vec<Vec<char>> = vec!["llvmpipe".chars().collect(), "virtio-gpu venus".chars().collect()];
    assert_eq!(choose_lowered(&names, &['v', 'e', 'n']), 1);
    assert_eq!(choose_lowered(&names, &[]), 0);
    assert_eq!(choose_lowered(&names, &['x']), 0);
    assert_eq!(choose_lowered(&names, &['l', 'l']), 0);
}

#[test]
fn probe_exit_codes() {
    assert_eq!(probe_exit_code(&[(true, true), (true, true)]), 0);
    assert_eq!(probe_exit_code(&[]), 0);
    assert_eq!(probe_exit_code(&[(true, true), (true, false)]), 2);
    assert_eq!(probe_exit_code(&[(false, true)]), 2);
}
