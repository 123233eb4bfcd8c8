use aquilla::ed137::{
    decode_word_b, decode_word_orig, encode_ed137b, parse_rtp_ed137, rtp_header_len, Ed137Fields,
    PttType,
};
use aquilla::rtp::parse_rtp_payload;

#[test]
fn round_trips_normal_ptt() {
    let fields = Ed137Fields {
        ptt_type: PttType::Normal,
        squ: false,
        ptt_id: 7,
        ptt_mute: false,
        ptt_summation: false,
        sct: false,
    };
    let ext = encode_ed137b(&fields);

    let mut packet = vec![0u8; 12];
    packet[0] = 0x90;
    packet.extend_from_slice(&ext);

    let decoded = parse_rtp_ed137(&packet).expect("should decode");
    assert_eq!(decoded.ptt_type, PttType::Normal);
    assert_eq!(decoded.ptt_id, 7);
    assert!(!decoded.squ);
}

#[test]
fn decodes_squelch_from_radio() {
    let fields = Ed137Fields {
        ptt_type: PttType::Off,
        squ: true,
        ptt_id: 3,
        ptt_mute: false,
        ptt_summation: false,
        sct: false,
    };
    let ext = encode_ed137b(&fields);
    let mut packet = vec![0u8; 12];
    packet[0] = 0x90;
    packet.extend_from_slice(&ext);

    let decoded = parse_rtp_ed137(&packet).unwrap();
    assert!(decoded.squ);
    assert_eq!(decoded.ptt_type, PttType::Off);
}

#[test]
fn header_len_accounts_for_extension() {
    let fields = Ed137Fields::default();
    let ext = encode_ed137b(&fields);
    let mut packet = vec![0u8; 12];
    packet[0] = 0x90;
    packet.extend_from_slice(&ext);
    packet.extend_from_slice(&[0xFFu8; 160]);

    assert_eq!(rtp_header_len(&packet), Some(12 + 8));
}

#[test]
fn no_extension_returns_none() {
    let mut packet = vec![0u8; 12 + 160];
    packet[0] = 0x80;
    assert_eq!(parse_rtp_ed137(&packet), None);
    assert_eq!(rtp_header_len(&packet), Some(12));
}

#[test]
fn extension_bytes_are_exact() {
    let fields = Ed137Fields {
        ptt_type: PttType::Emergency,
        squ: true,
        ptt_id: 0xff,
        ptt_mute: true,
        ptt_summation: false,
        sct: true,
    };
    // 100 1 111111 1 0 1 000
    assert_eq!(encode_ed137b(&fields), [0x01, 0x67, 0x00, 0x01, 0x9f, 0xe8, 0x00, 0x00]);
}

#[test]
fn identifier_keeps_six_bits_on_the_way() {
    let sent = Ed137Fields { ptt_id: 0x47, sct: true, ..Ed137Fields::default() };
    let mut packet = vec![0u8; 12];
    packet[0] = 0x90;
    packet.extend_from_slice(&encode_ed137b(&sent));
    packet.extend_from_slice(&[1, 2, 3]);
    let got = parse_rtp_ed137(&packet).unwrap();
    assert_eq!(got, Ed137Fields { ptt_id: 0x07, ..sent });
    assert_eq!(parse_rtp_payload(&packet), Some(&[1u8, 2, 3][..]));
}

#[test]
fn first_edition_word_is_understood() {
    // id 0x0067, one word: type 3, squelch, id 9, sct
    let mut packet = vec![0u8; 12];
    packet[0] = 0x90;
    packet.extend_from_slice(&[0x00, 0x67, 0x00, 0x01, 0x79, 0x80, 0x00, 0x00]);
    let got = parse_rtp_ed137(&packet).unwrap();
    assert_eq!(got.ptt_type, PttType::Priority);
    assert!(got.squ);
    assert_eq!(got.ptt_id, 9);
    assert!(got.sct);
    assert_eq!(got, decode_word_orig(0x7980_0000));
}

#[test]
fn sources_shift_the_extension() {
    let mut packet = vec![0u8; 12 + 8];
    packet[0] = 0x92;
    packet.extend_from_slice(&encode_ed137b(&Ed137Fields {
        ptt_type: PttType::Test,
        ..Ed137Fields::default()
    }));
    assert_eq!(rtp_header_len(&packet), Some(28));
    assert_eq!(parse_rtp_ed137(&packet).unwrap().ptt_type, PttType::Test);
}

#[test]
fn malformed_packets_are_refused() {
    assert_eq!(rtp_header_len(&[0x80; 11]), None);
    assert_eq!(rtp_header_len(&[0x40; 40]), None);
    let mut cut = vec![0u8; 12];
    cut[0] = 0x90;
    cut.extend_from_slice(&[0x01, 0x67, 0x00]);
    assert_eq!(rtp_header_len(&cut), None);
    assert_eq!(parse_rtp_ed137(&cut), None);
    cut.extend_from_slice(&[0x02, 0, 0, 0, 0]);
    assert_eq!(rtp_header_len(&cut), None);
    assert_eq!(parse_rtp_ed137(&cut), None);
    assert_eq!(parse_rtp_payload(&cut), None);
}

#[test]
fn other_profiles_are_not_ed137() {
    let mut packet = vec![0u8; 12];
    packet[0] = 0x90;
    packet.extend_from_slice(&[0xBE, 0xDE, 0x00, 0x01, 0x20, 0, 0, 0]);
    assert_eq!(parse_rtp_ed137(&packet), None);
    assert_eq!(rtp_header_len(&packet), Some(20));
}

#[test]
fn unused_type_numbers_mean_off() {
    assert_eq!(PttType::from_bits(6), PttType::Off);
    assert_eq!(PttType::from_bits(7), PttType::Off);
    assert_eq!(PttType::from_bits(0x0a), PttType::Coupling);
    assert!(PttType::Coupling.is_keyed());
    assert!(!PttType::Off.is_keyed());
    assert_eq!(decode_word_b(0xC000).ptt_type, PttType::Off);
}
