use chunkdiff::matcher::{compare_chunks, compare_files, truncate_to_byte, MatchInfo};

fn fields(records: &[MatchInfo]) -> Vec<(String, String, String)> {
    records
        .iter()
        .map(|r| (r.address.clone(), r.data0.clone(), r.data1.clone()))
        .collect()
}

#[test]
fn pair_found_at_aligned_position() {
    assert!(compare_chunks(&[0x00, 0xaa], &[0x0f, 0xbb], 0x00, 0x0f));
    assert!(compare_chunks(&[0xaa, 0x0f], &[0xbb, 0x00], 0x00, 0x0f));
}

#[test]
fn pair_in_either_order_at_one_position() {
    let chunk0 = [0x11u8, 0x22, 0x33];
    let chunk1 = [0x44u8, 0x55, 0x66];
    assert!(compare_chunks(&[0x01], &[0x02], 0x01, 0x02));
    assert!(compare_chunks(&[0x02], &[0x01], 0x01, 0x02));
    assert!(!compare_chunks(&chunk0, &chunk1, 0x01, 0x02));
}

#[test]
fn match_is_symmetric_in_targets() {
    let chunk0 = [0x10u8, 0x20, 0x30, 0x40];
    let chunk1 = [0x50u8, 0x20, 0x99, 0x40];
    for (v0, v1) in [(0x30u8, 0x99u8), (0x40, 0x40), (0x10, 0x50), (0x77, 0x88)] {
        assert_eq!(
            compare_chunks(&chunk0, &chunk1, v0, v1),
            compare_chunks(&chunk0, &chunk1, v1, v0)
        );
    }
}

#[test]
fn bytes_present_but_misaligned_do_not_match() {
    // Both target bytes occur, but never at the same position in both chunks.
    let chunk0 = [0x00u8, 0xaa];
    let chunk1 = [0xbbu8, 0x0f];
    assert!(!compare_chunks(&chunk0, &chunk1, 0x00, 0x0f));
}

#[test]
fn positions_past_shorter_chunk_are_ignored() {
    let chunk0 = [0x11u8, 0x00];
    let chunk1 = [0x11u8];
    assert!(!compare_chunks(&chunk0, &chunk1, 0x00, 0x0f));
    assert!(compare_chunks(&chunk0, &chunk1, 0x11, 0x11));
}

#[test]
fn end_to_end_single_chunk_example() {
    let file_a: Vec<u8> = (0..16).map(|i: i32| i as u8).collect();
    let file_b: Vec<u8> = (0..16).rev().map(|i: i32| i as u8).collect();
    let records = compare_files(&file_a, &file_b, 0x00, 0x0f);
    assert_eq!(records.len(), 1);
    assert_eq!(records[0].address, "00000000");
    assert_eq!(records[0].data0, "00 01 02 03 04 05 06 07 08 09 0a 0b 0c 0d 0e 0f");
    assert_eq!(records[0].data1, "0f 0e 0d 0c 0b 0a 09 08 07 06 05 04 03 02 01 00");
}

#[test]
fn empty_inputs_give_no_records() {
    let records = compare_files(&[], &[], 0x00, 0x0f);
    assert!(records.is_empty());
}

#[test]
fn one_empty_input_gives_no_records() {
    let data: Vec<u8> = vec![0u8; 32];
    assert!(compare_files(&data, &[], 0x00, 0x00).is_empty());
    assert!(compare_files(&[], &data, 0x00, 0x00).is_empty());
}

#[test]
fn only_addresses_present_in_both_files_are_reported() {
    // File A has 3 chunks, file B has 5: only the shared first 3 addresses
    // are eligible, and all of them match here.
    let file_a: Vec<u8> = vec![0u8; 48];
    let file_b: Vec<u8> = vec![0u8; 80];
    let records = compare_files(&file_a, &file_b, 0x00, 0x00);
    assert_eq!(records.len(), 3);
    let addresses: Vec<&str> = records.iter().map(|r| r.address.as_str()).collect();
    assert_eq!(addresses, vec!["00000000", "00000010", "00000020"]);
}

#[test]
fn no_false_match_without_aligned_pair() {
    let file_a: Vec<u8> = (0..64).map(|i: i32| i as u8).collect();
    let file_b: Vec<u8> = (0..64).map(|i: i32| (i + 100) as u8).collect();
    let records = compare_files(&file_a, &file_b, 0x05, 0x05);
    assert!(records.is_empty());
}

#[test]
fn records_come_in_ascending_address_order() {
    // Matching pairs only in chunks 0 and 2 of three.
    let mut file_a: Vec<u8> = vec![0x11u8; 48];
    let mut file_b: Vec<u8> = vec![0x22u8; 48];
    file_a[3] = 0xaa;
    file_b[3] = 0xbb;
    file_a[40] = 0xbb;
    file_b[40] = 0xaa;
    let records = compare_files(&file_a, &file_b, 0xaa, 0xbb);
    let addresses: Vec<&str> = records.iter().map(|r| r.address.as_str()).collect();
    assert_eq!(addresses, vec!["00000000", "00000020"]);
}

#[test]
fn short_final_chunks_can_match() {
    let file_a: Vec<u8> = vec![0x01u8, 0x02, 0x03];
    let file_b: Vec<u8> = vec![0x09u8, 0x02, 0x08];
    let records = compare_files(&file_a, &file_b, 0x02, 0x02);
    assert_eq!(records.len(), 1);
    assert_eq!(records[0].address, "00000000");
    assert_eq!(records[0].data0, "01 02 03");
    assert_eq!(records[0].data1, "09 02 08");
}

#[test]
fn truncation_keeps_low_byte() {
    assert_eq!(truncate_to_byte(0), 0);
    assert_eq!(truncate_to_byte(256), 0);
    assert_eq!(truncate_to_byte(255), 255);
    assert_eq!(truncate_to_byte(0x1ff), 0xff);
    assert_eq!(truncate_to_byte(0x12345678), 0x78);
}

#[test]
fn target_256_behaves_like_target_0() {
    let file_a: Vec<u8> = vec![0x00u8, 0x05, 0x07, 0x00];
    let file_b: Vec<u8> = vec![0x07u8, 0x05, 0x00, 0x01];
    let with_truncated = compare_files(
        &file_a,
        &file_b,
        truncate_to_byte(256),
        truncate_to_byte(7),
    );
    let with_zero = compare_files(&file_a, &file_b, truncate_to_byte(0), truncate_to_byte(7));
    assert_eq!(fields(&with_truncated), fields(&with_zero));
    assert_eq!(with_zero.len(), 1);
}
