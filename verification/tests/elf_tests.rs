use rv_emu::elf::{load_elf, u8_slice_to_u16, u8_slice_to_u32, u8_slice_to_u64, ElfError};
use rv_emu::naming::{is_test_file, sanitize, select_tests};
use rv_emu::verdict::{default_markers, log_written, outcome_verdict, run_result, run_verdict, tally, FailReason};

#[test]
fn slices_are_little_endian() {
    assert_eq!(u8_slice_to_u16(&[0x34, 0x12]), 0x1234);
    assert_eq!(u8_slice_to_u32(&[0x78, 0x56, 0x34, 0x12]), 0x1234_5678);
    assert_eq!(
        u8_slice_to_u64(&[0xef, 0xcd, 0xab, 0x89, 0x67, 0x45, 0x23, 0x01]),
        0x0123_4567_89ab_cdef
    );
}

fn put(buf: &mut Vec<u8>, off: usize, bytes: &[u8]) {
    if buf.len() < off + bytes.len() {
        buf.resize(off + bytes.len(), 0);
    }
    buf[off..off + bytes.len()].copy_from_slice(bytes);
}

/// An ELF image with one program header of type `p_type` for a segment at `va` whose file
/// part is `data` and whose memory size is `memsize`.
fn elf_image(entry: u64, p_type: u32, va: u64, data: &[u8], memsize: u64) -> Vec<u8> {
    let mut e = vec![0u8; 0x40];
    put(&mut e, 0x18, &entry.to_le_bytes());
    put(&mut e, 0x20, &0x40u64.to_le_bytes());
    put(&mut e, 0x36, &0x38u16.to_le_bytes());
    put(&mut e, 0x38, &1u16.to_le_bytes());
    let ph = 0x40;
    let seg = 0x78u64;
    put(&mut e, ph, &p_type.to_le_bytes());
    put(&mut e, ph + 0x8, &seg.to_le_bytes());
    put(&mut e, ph + 0x10, &va.to_le_bytes());
    put(&mut e, ph + 0x20, &(data.len() as u64).to_le_bytes());
    put(&mut e, ph + 0x28, &memsize.to_le_bytes());
    put(&mut e, seg as usize, data);
    e
}

#[test]
fn load_segment_after_padding() {
    let elf = elf_image(0x8000_0010, 1, 0x8000_0008, &[1, 2, 3], 5);
    let mut code = vec![9, 9];
    assert_eq!(load_elf(&mut code, &elf, 0x8000_0000), Ok(0x8000_0010));
    assert_eq!(code, vec![9, 9, 0, 0, 0, 0, 0, 0, 1, 2, 3, 0, 0]);
}

#[test]
fn non_loadable_headers_are_skipped() {
    let elf = elf_image(0x42, 2, 0x8000_0000, &[1, 2, 3], 3);
    let mut code = vec![];
    assert_eq!(load_elf(&mut code, &elf, 0x8000_0000), Ok(0x42));
    assert!(code.is_empty());
}

#[test]
fn segment_inside_code_is_copied_at_its_address() {
    let elf = elf_image(0, 1, 2, &[7, 8], 2);
    let mut code = vec![0u8; 8];
    assert_eq!(load_elf(&mut code, &elf, 0), Ok(0));
    assert_eq!(code, vec![0, 0, 7, 8, 0, 0, 0, 0]);
}

#[test]
fn elf_errors() {
    let mut code = vec![];
    assert_eq!(load_elf(&mut code, &[0u8; 16], 0), Err(ElfError::Truncated));
    let elf = elf_image(0, 1, 0x10, &[1], 1);
    assert_eq!(load_elf(&mut vec![], &elf, 0x100), Err(ElfError::BaseAboveSegment));
    let elf = elf_image(0, 1, 0x100, &[1, 2], 1);
    assert_eq!(load_elf(&mut vec![], &elf, 0x100), Err(ElfError::BadSize));
    let elf = elf_image(0, 1, 0x104, &[1, 2, 3, 4], 4);
    assert_eq!(load_elf(&mut vec![0; 6], &elf, 0x100), Err(ElfError::Overlap));
    let elf = elf_image(0, 1, 0x102, &[1, 2], 2);
    assert_eq!(load_elf(&mut vec![0; 8], &elf, 0x100), Err(ElfError::OutsideCode));
    let mut elf = elf_image(0, 1, 0x100, &[1, 2], 2);
    elf.truncate(0x79);
    assert_eq!(load_elf(&mut vec![], &elf, 0x100), Err(ElfError::Truncated));
}

#[test]
fn sanitize_replaces_unsafe_characters() {
    let s: String = sanitize("rv64ui-p/add test.v1").into_iter().collect();
    assert_eq!(s, "rv64ui-p_add_test.v1");
    let s: String = sanitize("é").into_iter().collect();
    assert_eq!(s, "_");
}

#[test]
fn verdict_unsuccessful_exit_fails_with_its_code() {
    let markers = vec![b"FAIL".to_vec()];
    assert_eq!(run_verdict(false, 3, b"", b"", &markers), Some(FailReason::NonZeroExit(3)));
    assert_eq!(run_verdict(false, -1, b"all ok", b"", &markers), Some(FailReason::NonZeroExit(-1)));
}

#[test]
fn verdict_marker_in_either_stream_fails() {
    let markers = vec![b"panicked".to_vec(), b"FAIL".to_vec()];
    assert_eq!(run_verdict(true, 0, b"test FAIL here", b"", &markers), Some(FailReason::MarkerInOutput));
    assert_eq!(run_verdict(true, 0, b"", b"thread panicked at", &markers), Some(FailReason::MarkerInOutput));
    assert_eq!(run_verdict(true, 0, b"fine", b"quiet", &markers), None);
}

#[test]
fn verdict_marker_may_span_the_joining_newline() {
    let markers = vec![b"end\nstart".to_vec()];
    assert_eq!(run_verdict(true, 0, b"start of out", b"the end", &markers), Some(FailReason::MarkerInOutput));
    assert_eq!(run_verdict(true, 0, b"start", b"the en", &markers), None);
    assert_eq!(run_verdict(true, 0, b"x", b"y", &Vec::new()), None);
}

#[test]
fn test_files_are_chosen_by_suite_and_filter() {
    assert!(is_test_file("rv64ui-p-add", "rv64ui-p", None));
    assert!(!is_test_file("rv64ui-p-add.dump", "rv64ui-p", None));
    assert!(!is_test_file("rv64ui-p-add.hex", "rv64ui-p", None));
    assert!(!is_test_file("rv64ui-p-add.objdump", "rv64ui-p", None));
    assert!(!is_test_file("rv64ui-v-add", "rv64ui-p", None));
    assert!(!is_test_file("rv64ui-p", "rv64ui-p", None));
    assert!(is_test_file("rv64ui-p-addi", "rv64ui-p", Some("add")));
    assert!(!is_test_file("rv64ui-p-sub", "rv64ui-p", Some("add")));
    assert!(is_test_file("rv64ui-p-sub", "rv64ui-p", Some("")));
}

#[test]
fn default_markers_catch_failures_and_panics() {
    let markers = default_markers();
    assert_eq!(markers, vec![b"Test failed".to_vec(), b"panic".to_vec()]);
    assert_eq!(run_verdict(true, 0, b"Test failed: 3", b"", &markers), Some(FailReason::MarkerInOutput));
    assert_eq!(run_verdict(true, 0, b"", b"thread 'main' panicked", &markers), Some(FailReason::MarkerInOutput));
    assert_eq!(run_verdict(true, 0, b"all passed", b"", &markers), None);
}

#[test]
fn tests_are_selected_sorted_and_once() {
    let names: Vec<String> = ["rv64ui-p-sub", "rv64ui-p-add", "rv64ui-p-add.dump", "rv64um-p-div", "rv64ui-p-addi", "rv64ui-p-add"]
        .iter()
        .map(|s| s.to_string())
        .collect();
    let picked: Vec<&str> = select_tests(&names, "rv64ui-p", None).into_iter().map(|k| names[k].as_str()).collect();
    assert_eq!(picked, vec!["rv64ui-p-add", "rv64ui-p-addi", "rv64ui-p-sub"]);
    let picked: Vec<&str> = select_tests(&names, "rv64ui-p", Some("add")).into_iter().map(|k| names[k].as_str()).collect();
    assert_eq!(picked, vec!["rv64ui-p-add", "rv64ui-p-addi"]);
    assert!(select_tests(&names, "rv64si-p", None).is_empty());
}

#[test]
fn suite_results_follow_the_verdicts() {
    let markers = default_markers();
    assert_eq!(outcome_verdict(false, true, 0, b"", b"", &markers), Some(FailReason::SpawnFailed));
    assert_eq!(outcome_verdict(true, true, 0, b"ok", b"", &markers), None);
    assert_eq!(outcome_verdict(true, false, 2, b"ok", b"", &markers), Some(FailReason::NonZeroExit(2)));
    assert!(log_written(Some(FailReason::SpawnFailed), false));
    assert!(!log_written(None, false));
    assert!(log_written(None, true));
    let a = vec![None, Some(FailReason::MarkerInOutput), None];
    let b: Vec<Option<FailReason>> = vec![None];
    assert_eq!(tally(&a), (2, 1));
    assert_eq!(tally(&b), (1, 0));
    assert_eq!(run_result(&vec![tally(&b)]), Ok(()));
    assert_eq!(run_result(&vec![tally(&b), tally(&a)]), Err(()));
    assert_eq!(run_result(&vec![]), Ok(()));
}
