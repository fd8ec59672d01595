use mwax_stats::{
    count_lost_packets, encode_packet_stats, lost_packets_in_byte, packet_stats_filename,
    packet_stats_record, parse_decimal, parse_header, parse_header_lines, read_subfile_header_key,
    split_header_lines, HeaderKey, SubfileError, SubfileHeader, HEADER_LEN,
};

fn header_block(lines: &[&str]) -> Vec<u8> {
    let mut text = lines.join("\n");
    text.push('\n');
    let mut buf = text.into_bytes();
    buf.resize(HEADER_LEN, 0);
    buf
}

fn golden_header_lines() -> Vec<&'static str> {
    vec![
        "HDR_SIZE 4096",
        "POPULATED 1",
        "OBS_ID 1419789248",
        "SUBOBS_ID 1419789248",
        "MODE MWAX_VCS",
        "NINPUTS 240",
        "COARSE_CHANNEL 91",
        "IDX_PACKET_MAP 6351360+150000",
    ]
}

#[test]
fn test_read_subfile_header_key_ok1() {
    let test_header = ["ABC 123", "DEF test", "TEST3", ""].to_vec();

    assert_eq!(read_subfile_header_key(&test_header, "ABC").expect("error"), "123");
}

#[test]
fn test_read_subfile_header_key_ok2() {
    let test_header = ["ABC 123", "DEF test", "TEST3", ""].to_vec();

    assert_eq!(read_subfile_header_key(&test_header, "DEF").expect("error"), "test");
}

#[test]
fn test_read_subfile_header_key_error_missing_value() {
    let test_header = ["ABC 123", "DEF test", "TEST3", ""].to_vec();

    assert!(read_subfile_header_key(&test_header, "TEST3").is_err());
}

#[test]
fn test_read_subfile_header_error_key_not_found() {
    let test_header = ["ABC 123", "DEF test", "TEST3", ""].to_vec();

    assert!(read_subfile_header_key(&test_header, "unknown_key").is_err());
}

#[test]
fn test_write_packet_stats() {
    // first u16= {8, 0} == 8
    // second u16={50,8} == 2098
    let packets_lost: Vec<u16> = [8, 2098].to_vec();

    let buf = encode_packet_stats(&packets_lost);

    assert_eq!(buf.len(), 4);
    assert_eq!(buf[0], 8);
    assert_eq!(buf[1], 0);
    assert_eq!(buf[2], 50);
    assert_eq!(buf[3], 8);
}

#[test]
fn test_read_psrdada_header() {
    let buf = header_block(&golden_header_lines());

    let p = parse_header(&buf).unwrap();

    assert_eq!(p.chan, "91");
    assert_eq!(p.map_start_index, 6351360);
    assert_eq!(p.map_length, 150000);
    assert_eq!(p.ninputs, 240);
    assert_eq!(p.subobs_id, "1419789248");
}

#[test]
fn missing_key_names_the_missing_key() {
    let test_header = ["ABC 123"].to_vec();
    let e = read_subfile_header_key(&test_header, "XYZ").unwrap_err();
    assert_eq!(e.key, "XYZ");
}

#[test]
fn line_without_space_matches_only_empty_key() {
    let test_header = ["TEST3", "ABC 123"].to_vec();
    assert_eq!(read_subfile_header_key(&test_header, "").unwrap(), "");
}

#[test]
fn value_keeps_text_after_first_space() {
    let test_header = ["KEY a b  c"].to_vec();
    assert_eq!(read_subfile_header_key(&test_header, "KEY").unwrap(), "a b  c");
}

#[test]
fn duplicated_key_takes_first_line() {
    let test_header = ["NINPUTS 16", "ABC 1", "NINPUTS 32"].to_vec();
    assert_eq!(read_subfile_header_key(&test_header, "NINPUTS").unwrap(), "16");

    let buf = header_block(&[
        "SUBOBS_ID 1",
        "NINPUTS 4",
        "COARSE_CHANNEL 7",
        "IDX_PACKET_MAP 0+8",
        "NINPUTS 8",
        "COARSE_CHANNEL 9",
    ]);
    let h = parse_header(&buf).unwrap();
    assert_eq!(h.ninputs, 4);
    assert_eq!(h.chan, "7");
}

#[test]
fn header_lines_split_at_every_newline() {
    let lines = split_header_lines("A 1\n\nB 2\n");
    assert_eq!(lines, vec!["A 1", "", "B 2", ""]);
    let one = split_header_lines("no newline");
    assert_eq!(one, vec!["no newline"]);
}

#[test]
fn missing_coarse_channel_is_refused() {
    let buf = header_block(&["SUBOBS_ID 1419789248", "NINPUTS 240", "IDX_PACKET_MAP 0+240"]);
    assert_eq!(
        parse_header(&buf).unwrap_err(),
        SubfileError::MissingKey(HeaderKey::CoarseChannel)
    );
}

#[test]
fn missing_keys_are_reported_in_lookup_order() {
    let buf = header_block(&["SUBOBS_ID 1"]);
    assert_eq!(
        parse_header(&buf).unwrap_err(),
        SubfileError::MissingKey(HeaderKey::IdxPacketMap)
    );
    let buf = header_block(&["IDX_PACKET_MAP 0+2"]);
    assert_eq!(parse_header(&buf).unwrap_err(), SubfileError::MissingKey(HeaderKey::Ninputs));
    let buf = header_block(&["IDX_PACKET_MAP 0+2", "NINPUTS 2"]);
    assert_eq!(parse_header(&buf).unwrap_err(), SubfileError::MissingKey(HeaderKey::SubobsId));
}

#[test]
fn packet_map_index_without_plus_is_malformed() {
    let buf = header_block(&[
        "SUBOBS_ID 1419789248",
        "NINPUTS 240",
        "COARSE_CHANNEL 91",
        "IDX_PACKET_MAP 1234",
    ]);
    assert_eq!(parse_header(&buf).unwrap_err(), SubfileError::MalformedPacketMapIndex);
}

#[test]
fn bad_numbers_are_refused() {
    let buf = header_block(&[
        "SUBOBS_ID 1",
        "NINPUTS 24O",
        "COARSE_CHANNEL 91",
        "IDX_PACKET_MAP 0+240",
    ]);
    assert_eq!(parse_header(&buf).unwrap_err(), SubfileError::InvalidNumber(HeaderKey::Ninputs));
    let buf = header_block(&[
        "SUBOBS_ID 1",
        "NINPUTS 240",
        "COARSE_CHANNEL 91",
        "IDX_PACKET_MAP 12+x",
    ]);
    assert_eq!(
        parse_header(&buf).unwrap_err(),
        SubfileError::InvalidNumber(HeaderKey::IdxPacketMap)
    );
    let buf = header_block(&[
        "SUBOBS_ID 1",
        "NINPUTS 240",
        "COARSE_CHANNEL 91",
        "IDX_PACKET_MAP +240",
    ]);
    assert_eq!(
        parse_header(&buf).unwrap_err(),
        SubfileError::InvalidNumber(HeaderKey::IdxPacketMap)
    );
}

#[test]
fn invalid_utf8_header_is_refused() {
    let mut buf = header_block(&golden_header_lines());
    buf[10] = 0xFF;
    assert_eq!(parse_header(&buf).unwrap_err(), SubfileError::InvalidUtf8);
}

#[test]
fn decimal_numbers() {
    assert_eq!(parse_decimal("0"), Some(0));
    assert_eq!(parse_decimal("6351360"), Some(6351360));
    assert_eq!(parse_decimal("+5"), Some(5));
    assert_eq!(parse_decimal("18446744073709551615"), Some(u64::MAX));
    assert_eq!(parse_decimal("18446744073709551616"), None);
    assert_eq!(parse_decimal(""), None);
    assert_eq!(parse_decimal("+"), None);
    assert_eq!(parse_decimal("-1"), None);
    assert_eq!(parse_decimal(" 1"), None);
    assert_eq!(parse_decimal("99999999999999999999x"), None);
}

#[test]
fn header_lines_parse_like_header_block() {
    let lines = golden_header_lines();
    let h = parse_header_lines(&lines).unwrap();
    assert_eq!(h.subobs_id, "1419789248");
    assert_eq!(h.ninputs, 240);
}

#[test]
fn packet_map_offset_follows_header_block() {
    let h = parse_header(&header_block(&golden_header_lines())).unwrap();
    assert_eq!(h.packet_map_offset(), Ok(4096 + 6351360));
    let far = SubfileHeader {
        subobs_id: "1".to_string(),
        ninputs: 2,
        chan: "1".to_string(),
        map_start_index: u64::MAX - 10,
        map_length: 2,
    };
    assert_eq!(far.packet_map_offset(), Err(SubfileError::PacketMapOutOfRange));
}

#[test]
fn golden_filename() {
    let h = parse_header(&header_block(&golden_header_lines())).unwrap();
    assert_eq!(
        packet_stats_filename(&h, "mwax01"),
        "packetstats_1419789248_120T_ch91_mwax01.dat"
    );
}

#[test]
fn odd_input_count_rounds_tiles_down() {
    let h = SubfileHeader {
        subobs_id: "7".to_string(),
        ninputs: 5,
        chan: "100".to_string(),
        map_start_index: 0,
        map_length: 5,
    };
    assert_eq!(packet_stats_filename(&h, "h"), "packetstats_7_2T_ch100_h.dat");
}

#[test]
fn byte_loss_values() {
    assert_eq!(lost_packets_in_byte(0x00), 8);
    assert_eq!(lost_packets_in_byte(0xFF), 0);
    assert_eq!(lost_packets_in_byte(0x55), 4);
    assert_eq!(lost_packets_in_byte(0x01), 7);
    assert_eq!(lost_packets_in_byte(0xF7), 1);
    for b in 0..=255u8 {
        assert_eq!(lost_packets_in_byte(b) as u32, b.count_zeros());
    }
}

#[test]
fn all_received_map_has_no_loss() {
    for ninputs in [1usize, 2, 16, 240] {
        let map = vec![0xFFu8; ninputs * 7];
        let counts = count_lost_packets(map, ninputs).unwrap();
        assert_eq!(counts, vec![0u16; ninputs]);
    }
}

#[test]
fn nothing_received_map_loses_eight_per_byte() {
    let map = vec![0u8; 150000];
    let counts = count_lost_packets(map, 240).unwrap();
    assert_eq!(counts, vec![5000u16; 240]);
}

#[test]
fn rows_are_counted_per_input_in_order() {
    // input 0: 0x00 0xFF -> 8; input 1: 0x55 0x0F -> 8; input 2: 0xFE 0xFF -> 1
    let map = vec![0x00, 0xFF, 0x55, 0x0F, 0xFE, 0xFF];
    assert_eq!(count_lost_packets(map, 3).unwrap(), vec![8, 8, 1]);
}

#[test]
fn counters_stop_at_u16_max() {
    let map = vec![0u8; 2 * 8192];
    let counts = count_lost_packets(map, 2).unwrap();
    assert_eq!(counts, vec![u16::MAX, u16::MAX]);
}

#[test]
fn zero_inputs_are_refused() {
    assert_eq!(count_lost_packets(vec![0u8; 4], 0), Err(SubfileError::ZeroInputs));
}

#[test]
fn uneven_map_is_refused() {
    assert_eq!(count_lost_packets(vec![0u8; 5], 2), Err(SubfileError::UnevenPacketMap));
}

#[test]
fn too_many_inputs_are_refused() {
    assert_eq!(
        count_lost_packets(vec![], usize::MAX),
        Err(SubfileError::UnevenPacketMap)
    );
}

#[test]
fn empty_map_gives_zero_counts() {
    assert_eq!(count_lost_packets(vec![], 4).unwrap(), vec![0u16; 4]);
}

#[test]
fn stats_record_reads_back() {
    let counts: Vec<u16> = vec![0, 1, 255, 256, 5000, u16::MAX];
    let bytes = encode_packet_stats(&counts);
    let back: Vec<u16> = bytes
        .chunks(2)
        .map(|c| u16::from_le_bytes([c[0], c[1]]))
        .collect();
    assert_eq!(back, counts);
    assert!(encode_packet_stats(&[]).is_empty());
}

#[test]
fn golden_record_of_a_subfile() {
    let h = parse_header(&header_block(&golden_header_lines())).unwrap();
    let mut map = vec![0xFFu8; h.map_length];
    // input 0 loses one packet, input 239 loses every packet
    map[0] = 0xFE;
    for b in &mut map[239 * 625..] {
        *b = 0;
    }
    let (name, bytes) = packet_stats_record(&h, map, "host").unwrap();
    assert_eq!(name, "packetstats_1419789248_120T_ch91_host.dat");
    assert_eq!(bytes.len(), 480);
    assert_eq!(&bytes[0..2], &[1, 0]);
    assert_eq!(&bytes[2..478], &vec![0u8; 476][..]);
    assert_eq!(&bytes[478..480], &5000u16.to_le_bytes());
}

#[test]
fn record_refuses_bad_shapes() {
    let mut h = parse_header(&header_block(&golden_header_lines())).unwrap();
    assert_eq!(
        packet_stats_record(&h, vec![0u8; 241], "host").unwrap_err(),
        SubfileError::UnevenPacketMap
    );
    h.ninputs = 0;
    assert_eq!(
        packet_stats_record(&h, vec![0u8; 240], "host").unwrap_err(),
        SubfileError::ZeroInputs
    );
}

#[test]
fn header_key_names() {
    assert_eq!(HeaderKey::SubobsId.name(), "SUBOBS_ID");
    assert_eq!(HeaderKey::Ninputs.name(), "NINPUTS");
    assert_eq!(HeaderKey::CoarseChannel.name(), "COARSE_CHANNEL");
    assert_eq!(HeaderKey::IdxPacketMap.name(), "IDX_PACKET_MAP");
}
