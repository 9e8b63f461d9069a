use storage_continuity::header::{parse_commitment_records, parse_hashchain_header};

#[test]
fn header_is_read_from_a_json_document() {
    let contents = format!(
        "{{\"magic\":\"48434832\",\"format_version\":2,\"data_file_hash\":\"{}\",\"total_chunks\":3.0,\
         \"chunk_size\":4096,\"chain_length\":7,\"public_key\":\"{}\",\"initial_block_height\":12}}",
        "ab".repeat(32),
        "01".repeat(32)
    );
    let h = parse_hashchain_header(&contents, 99);
    assert_eq!(h.magic, b"HCH2".to_vec());
    assert_eq!(h.format_version, 2);
    assert_eq!(h.data_file_hash, vec![0xab; 32]);
    assert_eq!(h.total_chunks, 3);
    assert_eq!(h.chunk_size, 4096);
    assert_eq!(h.chain_length, 7);
    assert_eq!(h.public_key, vec![1u8; 32]);
    assert_eq!(h.initial_block_height, 12);
    // Absent texts decode as the empty text, absent numbers take defaults.
    assert_eq!(h.merkle_root, Vec::<u8>::new());
    assert_eq!(h.header_checksum, Vec::<u8>::new());
}

#[test]
fn header_fields_that_are_absent_or_not_hex_take_defaults() {
    let h = parse_hashchain_header("{\"magic\":\"zz\",\"merkle_root\":\"not hex\",\"chain_length\":-1}", 5);
    assert_eq!(h.magic, b"HCH2".to_vec());
    assert_eq!(h.merkle_root, vec![0u8; 32]);
    assert_eq!(h.total_chunks, 5);
    assert_eq!(h.chunk_size, 4096);
    assert_eq!(h.format_version, 2);
    assert_eq!(h.chain_length, 0);
    assert_eq!(h.initial_block_height, 0);
}

#[test]
fn header_of_a_text_that_is_not_one_json_document_is_the_legacy_one() {
    for contents in ["HCH2 legacy text", "{\"magic\":\"48434832\"}\n{\"type\":\"commitment\"}\n", ""] {
        let h = parse_hashchain_header(contents, 42);
        assert_eq!(h.magic, b"HCH2".to_vec());
        assert_eq!(h.total_chunks, 42);
        assert_eq!(h.chain_length, 0);
        assert_eq!(h.data_file_hash, vec![0u8; 32]);
        assert_eq!(h.public_key, vec![0u8; 32]);
    }
}

#[test]
fn header_of_a_json_value_that_is_not_an_object_has_only_defaults() {
    let h = parse_hashchain_header("[1, 2]", 8);
    assert_eq!(h.magic, Vec::<u8>::new());
    assert_eq!(h.total_chunks, 8);
    assert_eq!(h.data_file_hash, Vec::<u8>::new());
}

#[test]
fn commitment_records_are_read_in_file_order() {
    let first = format!(
        "{{\"type\":\"commitment\",\"block_height\":5.7,\"previous_commitment\":\"{}\",\"block_hash\":\"{}\",\
         \"selected_chunks\":[3,\"x\",70000000000,-1,2],\"chunk_hashes\":[\"{}\",7,\"bad\"],\"commitment_hash\":\"{}\"}}",
        "00".repeat(32),
        "11".repeat(32),
        "22".repeat(32),
        "33".repeat(32)
    );
    let second = "{\"type\":\"commitment\",\"block_height\":6}";
    let contents = format!(
        "{{\"magic\":\"48434832\"}}\r\n\r\n   \n{}\r\n{{\"type\":\"other\",\"block_height\":1}}\nnot json\n{}",
        first, second
    );
    let cs = parse_commitment_records(&contents);
    assert_eq!(cs.len(), 2);
    assert_eq!(cs[0].block_height, 5);
    assert_eq!(cs[0].previous_commitment, vec![0u8; 32]);
    assert_eq!(cs[0].block_hash, vec![0x11; 32]);
    assert_eq!(cs[0].selected_chunks, vec![3u32, 70000000000u64 as u32, 2]);
    assert_eq!(cs[0].chunk_hashes, vec![vec![0x22u8; 32]]);
    assert_eq!(cs[0].commitment_hash, vec![0x33; 32]);
    assert_eq!(cs[1].block_height, 6);
    assert_eq!(cs[1].block_hash, Vec::<u8>::new());
    assert!(cs[1].selected_chunks.is_empty());
    assert!(cs[1].chunk_hashes.is_empty());
}

#[test]
fn a_text_without_commitment_records_gives_none() {
    assert!(parse_commitment_records("").is_empty());
    assert!(parse_commitment_records("\n\n").is_empty());
    assert!(parse_commitment_records("{\"type\":\"header\"}\n").is_empty());
    assert!(parse_commitment_records("{\"type\":\"Commitment\"}").is_empty());
}
