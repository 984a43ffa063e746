use sigma_rust::serialization::{SigmaByteReader, SigmaParsingError, SigmaSerializationError};
use sigma_rust::validation::{rule_id, RuleStatus, FIRST_RULE_ID};
use sigma_rust::vlq::{put_u16, put_u32, put_u64};

fn parse(bytes: &[u8]) -> Result<RuleStatus, SigmaParsingError> {
    RuleStatus::sigma_parse_bytes(bytes)
}

#[test]
fn enabled_and_disabled_rule_vectors() {
    assert_eq!(
        RuleStatus::EnabledRule.sigma_serialize_bytes().unwrap(),
        vec![0x00, 0x01]
    );
    assert_eq!(
        RuleStatus::DisabledRule.sigma_serialize_bytes().unwrap(),
        vec![0x00, 0x02]
    );
    assert_eq!(parse(&[0x00, 0x01]).unwrap(), RuleStatus::EnabledRule);
    assert_eq!(parse(&[0x00, 0x02]).unwrap(), RuleStatus::DisabledRule);
}

#[test]
fn replaced_rule_vector() {
    // offset 16 from FIRST_RULE_ID = rule 1016; VLQ(16) is one byte
    assert_eq!(
        RuleStatus::ReplacedRule(1016)
            .sigma_serialize_bytes()
            .unwrap(),
        vec![0x01, 0x03, 0x10]
    );
    assert_eq!(
        parse(&[0x01, 0x03, 0x10]).unwrap(),
        RuleStatus::ReplacedRule(1016)
    );
    // two-byte VLQ offset: rule 1000 + 300; VLQ(300) = [0xAC, 0x02]
    assert_eq!(
        RuleStatus::ReplacedRule(1300)
            .sigma_serialize_bytes()
            .unwrap(),
        vec![0x02, 0x03, 0xAC, 0x02]
    );
    assert_eq!(
        parse(&[0x02, 0x03, 0xAC, 0x02]).unwrap(),
        RuleStatus::ReplacedRule(1300)
    );
}

#[test]
fn changed_rule_vector() {
    assert_eq!(
        RuleStatus::ChangedRule(vec![0x0A, 0x14])
            .sigma_serialize_bytes()
            .unwrap(),
        vec![0x02, 0x04, 0x0A, 0x14]
    );
    assert_eq!(
        parse(&[0x02, 0x04, 0x0A, 0x14]).unwrap(),
        RuleStatus::ChangedRule(vec![0x0A, 0x14])
    );
    // empty payload round-trips
    assert_eq!(
        RuleStatus::ChangedRule(vec![])
            .sigma_serialize_bytes()
            .unwrap(),
        vec![0x00, 0x04]
    );
    assert_eq!(
        parse(&[0x00, 0x04]).unwrap(),
        RuleStatus::ChangedRule(vec![])
    );
}

#[test]
fn unknown_status_code_skips_data_size_bytes() {
    let unknown_code = 100u8;
    let bytes = [1, unknown_code, 10, 20];
    let mut r = SigmaByteReader::from_bytes(&bytes[..]);
    let s = RuleStatus::sigma_parse(&mut r).unwrap();
    assert_eq!(s, RuleStatus::ReplacedRule(0));
    assert_eq!(r.get_u8().unwrap(), 20);
}

#[test]
fn replaced_rule_id_wraps_like_jvm_toshort() {
    // offset 64536: 64536 + 1000 = 65536 -> 0
    let wrapped_to_zero = parse(&[0x03, 0x03, 0x98, 0xF8, 0x03]).unwrap();
    assert_eq!(wrapped_to_zero, RuleStatus::ReplacedRule(0));
    // offset 40000: 40000 + 1000 = 41000 -> -24536
    let wrapped_negative = parse(&[0x03, 0x03, 0xC0, 0xB8, 0x02]).unwrap();
    assert_eq!(wrapped_negative, RuleStatus::ReplacedRule(-24536));
    assert!(wrapped_to_zero.sigma_serialize_bytes().is_err());
    assert!(wrapped_negative.sigma_serialize_bytes().is_err());
}

#[test]
fn replaced_rule_data_size_is_not_validated() {
    assert_eq!(
        parse(&[0x7F, 0x03, 0x10]).unwrap(),
        RuleStatus::ReplacedRule(1016)
    );
}

#[test]
fn truncated_and_malformed_entries_are_rejected() {
    // empty input
    assert!(parse(&[]).is_err());
    // dataSize only, no status code
    assert!(parse(&[0x00]).is_err());
    // ChangedRule with dataSize=1 but no payload
    assert!(parse(&[0x01, 0x04]).is_err());
    // ChangedRule with dataSize beyond the remaining bytes
    assert!(parse(&[0x05, 0x04, 0xAA]).is_err());
    // ReplacedRule with the offset bytes missing
    assert!(parse(&[0x01, 0x03]).is_err());
    // unknown code whose dataSize overruns the buffer
    assert!(parse(&[0x05, 0x63]).is_err());
}

#[test]
fn replaced_rule_below_first_rule_id_fails_to_serialize() {
    assert!(RuleStatus::ReplacedRule(999)
        .sigma_serialize_bytes()
        .is_err());
    assert!(RuleStatus::ReplacedRule(0).sigma_serialize_bytes().is_err());
    assert!(RuleStatus::ReplacedRule(1000)
        .sigma_serialize_bytes()
        .is_ok());
}

#[test]
fn mainnet_1628160_status_updates_roundtrip() {
    let sample: [u8; 18] = [
        0x02, 0xD7, 0x01, 0x99, 0x03, // rulesToDisable: count 2, ids 215 and 409
        0x03, // statusUpdates: count 3
        0x0B, 0x01, 0x03, 0x10, // rule 1011 -> ReplacedRule(1016)
        0x07, 0x01, 0x03, 0x11, // rule 1007 -> ReplacedRule(1017)
        0x08, 0x01, 0x03, 0x12, // rule 1008 -> ReplacedRule(1018)
    ];

    let mut r = SigmaByteReader::from_bytes(&sample[..]);
    let disabled_count = r.get_u32().unwrap();
    assert_eq!(disabled_count, 2);
    let disabled: Vec<u16> = (0..disabled_count).map(|_| r.get_u16().unwrap()).collect();
    assert_eq!(disabled, vec![215, 409]);

    let updates_count = r.get_u32().unwrap();
    assert_eq!(updates_count, 3);
    let updates: Vec<(i16, RuleStatus)> = (0..updates_count)
        .map(|_| {
            let rule_id = rule_id(r.get_u16().unwrap());
            let status = RuleStatus::sigma_parse(&mut r).unwrap();
            (rule_id, status)
        })
        .collect();
    assert_eq!(
        updates,
        vec![
            (1011, RuleStatus::ReplacedRule(1016)),
            (1007, RuleStatus::ReplacedRule(1017)),
            (1008, RuleStatus::ReplacedRule(1018)),
        ]
    );
    // the sample is fully consumed
    assert!(r.get_u8().is_err());

    // re-encode byte-identically
    let mut encoded = Vec::new();
    put_u32(&mut encoded, disabled_count);
    for id in &disabled {
        put_u16(&mut encoded, *id);
    }
    put_u32(&mut encoded, updates_count);
    for (rule_id, status) in &updates {
        put_u16(&mut encoded, (*rule_id as i32 - FIRST_RULE_ID as i32) as u16);
        status.sigma_serialize(&mut encoded).unwrap();
    }
    assert_eq!(encoded, sample);
}

#[test]
fn status_codes() {
    assert_eq!(RuleStatus::EnabledRule.status_code(), 1);
    assert_eq!(RuleStatus::DisabledRule.status_code(), 2);
    assert_eq!(RuleStatus::ReplacedRule(-1).status_code(), 3);
    assert_eq!(RuleStatus::ChangedRule(vec![9]).status_code(), 4);
}

#[test]
fn statuses_read_back_and_leave_what_follows() {
    let statuses = vec![
        RuleStatus::EnabledRule,
        RuleStatus::DisabledRule,
        RuleStatus::ReplacedRule(1000),
        RuleStatus::ReplacedRule(1127),
        RuleStatus::ReplacedRule(1128),
        RuleStatus::ReplacedRule(i16::MAX),
        RuleStatus::ChangedRule((0..200).collect()),
        RuleStatus::ChangedRule(vec![7; 0xffff]),
    ];
    for status in statuses {
        let mut bytes = status.sigma_serialize_bytes().unwrap();
        let len = bytes.len();
        bytes.extend_from_slice(&[0xde, 0xad]);
        let mut r = SigmaByteReader::from_bytes(&bytes);
        assert_eq!(RuleStatus::sigma_parse(&mut r).unwrap(), status);
        assert_eq!(r.position(), len);
    }
}

#[test]
fn refused_statuses_say_why_and_write_nothing() {
    let mut w = vec![0xAA];
    assert_eq!(
        RuleStatus::ReplacedRule(999).sigma_serialize(&mut w),
        Err(SigmaSerializationError::NotSupported(
            "ReplacedRule id 999 is below FIRST_RULE_ID 1000 (negative wire offset)".to_string()
        ))
    );
    assert_eq!(
        RuleStatus::ReplacedRule(-24536).sigma_serialize(&mut w),
        Err(SigmaSerializationError::NotSupported(
            "ReplacedRule id -24536 is below FIRST_RULE_ID 1000 (negative wire offset)".to_string()
        ))
    );
    assert_eq!(
        RuleStatus::ChangedRule(vec![0; 0x10000]).sigma_serialize(&mut w),
        Err(SigmaSerializationError::NotSupported(
            "ChangedRule payload of 65536 bytes exceeds the UShort dataSize range".to_string()
        ))
    );
    assert_eq!(w, vec![0xAA]);
}

#[test]
fn parse_errors_are_told_apart() {
    assert_eq!(parse(&[]), Err(SigmaParsingError::UnexpectedEof));
    // dataSize 65536 does not fit in 16 bits
    assert_eq!(
        parse(&[0x80, 0x80, 0x04, 0x01]),
        Err(SigmaParsingError::TryFrom)
    );
    // eleven bytes without a last one
    assert_eq!(
        parse(&[0xff; 11]),
        Err(SigmaParsingError::VlqDecodingFailed)
    );
    assert_eq!(
        parse(&[0x05, 0x04, 0xAA]),
        Err(SigmaParsingError::UnexpectedEof)
    );
}

#[test]
fn only_a_payload_is_held_against_the_window() {
    // payload of a change starts at position 2
    let changed = [0x01, 0x04, 0xAA];
    let mut r = SigmaByteReader::with_position_limit(&changed, 1);
    assert_eq!(
        RuleStatus::sigma_parse(&mut r),
        Err(SigmaParsingError::PositionLimitExceeded {
            position: 2,
            limit: 1
        })
    );
    let mut r = SigmaByteReader::with_position_limit(&changed, 2);
    assert_eq!(
        RuleStatus::sigma_parse(&mut r),
        Ok(RuleStatus::ChangedRule(vec![0xAA]))
    );
    // an unknown code is skipped whatever the window is
    let unknown = [0x01, 0x63, 0xAA];
    let mut r = SigmaByteReader::with_position_limit(&unknown, 0);
    assert_eq!(
        RuleStatus::sigma_parse(&mut r),
        Ok(RuleStatus::ReplacedRule(0))
    );
    assert_eq!(r.position(), 3);
}

#[test]
fn rule_ids_wrap_to_sixteen_bits() {
    assert_eq!(rule_id(0), 1000);
    assert_eq!(rule_id(31767), i16::MAX);
    assert_eq!(rule_id(31768), i16::MIN);
    assert_eq!(rule_id(64535), -1);
    assert_eq!(rule_id(64536), 0);
    assert_eq!(rule_id(u16::MAX), 999);
}

#[test]
fn variable_length_numbers() {
    let mut w = Vec::new();
    put_u64(&mut w, u64::MAX);
    assert_eq!(
        w,
        vec![0xff, 0xff, 0xff, 0xff, 0xff, 0xff, 0xff, 0xff, 0xff, 0x01]
    );
    put_u16(&mut w, 300);
    put_u32(&mut w, 0);
    let mut r = SigmaByteReader::from_bytes(&w);
    assert_eq!(r.get_u64(), Ok(u64::MAX));
    assert_eq!(r.get_u16(), Ok(300));
    assert_eq!(r.get_u32(), Ok(0));
    assert_eq!(r.get_u32(), Err(SigmaParsingError::UnexpectedEof));

    let mut w = Vec::new();
    put_u64(&mut w, 1 << 32);
    let mut r = SigmaByteReader::from_bytes(&w);
    assert_eq!(r.get_u32(), Err(SigmaParsingError::TryFrom));
}
