use sigma_rust::autolykos_solution::{
    as_base16_string, bigint_as_str, bigint_from_number, bigint_from_serde_json_number,
    bigint_from_text, from_base16_string, Base16Error, BigNat, DeserializeBigIntFrom, FloatReading,
};

fn number(text: &str) -> Option<DeserializeBigIntFrom> {
    Some(DeserializeBigIntFrom::SerdeJsonNumber(text.to_string()))
}

fn string(text: &str) -> Option<DeserializeBigIntFrom> {
    Some(DeserializeBigIntFrom::String(text.to_string()))
}

fn read(source: Option<DeserializeBigIntFrom>) -> Result<Option<String>, String> {
    bigint_from_serde_json_number(&source).map(|n| bigint_as_str(&n))
}

#[test]
fn test_scientific_notion_deser() {
    let pow_d_parameter = r#"4.69094608138843e64"#;
    let j: serde_json::Value = serde_json::from_str(pow_d_parameter).unwrap();
    let result = bigint_from_serde_json_number(&number(&j.to_string())).unwrap();

    assert_eq!(
        bigint_as_str(&result).unwrap(),
        "46909460813884301641411510982628556119846083366464832536248844288"
    )
}

#[test]
fn whole_numbers_are_read_without_loss() {
    let d = "46909460813884301641411510982628556119846083366464832536248844289";
    assert_eq!(read(number(d)), Ok(Some(d.to_string())));
    assert_eq!(read(string(d)), Ok(Some(d.to_string())));
    assert_eq!(read(number("0")), Ok(Some("0".to_string())));
}

#[test]
fn absent_distance() {
    assert_eq!(read(None), Ok(None));
    assert_eq!(bigint_as_str(&None), None);
}

#[test]
fn floating_point_numbers_count_as_their_whole_part() {
    assert_eq!(read(number("1e3")), Ok(Some("1000".to_string())));
    assert_eq!(read(number("2.75")), Ok(Some("2".to_string())));
    assert_eq!(read(number("-0.5")), Ok(Some("0".to_string())));
    assert_eq!(
        read(number("-1.5")),
        Err("failed to create BigInt from f64".to_string())
    );
}

#[test]
fn what_is_no_natural_number_is_refused() {
    let invalid = Err("invalid digit found in string".to_string());
    assert_eq!(read(number("-5")), invalid);
    // beyond the range of floating-point numbers
    assert_eq!(read(number("1e999")), invalid);
    // text counts as it is spelled
    assert_eq!(read(string("1e3")), invalid);
    assert_eq!(read(string("0x10")), invalid);
    assert_eq!(read(string("_1")), invalid);
    assert_eq!(read(string("++1")), invalid);
    assert_eq!(
        read(string("")),
        Err("cannot parse integer from empty string".to_string())
    );
    assert_eq!(
        read(string("+")),
        Err("cannot parse integer from empty string".to_string())
    );
    assert_eq!(read(string("+1_000")), Ok(Some("1000".to_string())));
}

#[test]
fn readings_of_a_number() {
    assert_eq!(
        bigint_from_number("17", None),
        Ok(Some(BigNat { digits: vec![17] }))
    );
    assert_eq!(
        bigint_from_number("1e3", Some(FloatReading::Unreadable)),
        Err("failed to convert JSON number to f64".to_string())
    );
    assert_eq!(
        bigint_from_number("-1.5", Some(FloatReading::NotNatural)),
        Err("failed to create BigInt from f64".to_string())
    );
    assert_eq!(
        bigint_from_number("1e3", Some(FloatReading::Natural(BigNat { digits: vec![1000] }))),
        Ok(Some(BigNat { digits: vec![1000] }))
    );
}

#[test]
fn distances_read_back_from_their_text() {
    let n = BigNat {
        digits: vec![0, 0, 5, 0xffff_ffff],
    };
    let text = bigint_as_str(&Some(n.clone())).unwrap();
    // 5 * 2^64 + (2^32 - 1) * 2^96
    assert_eq!(text, "340282366841710301041343990206772019200");
    assert_eq!(bigint_from_text(&text), Ok(Some(n)));
    // high digits that are zero do not count
    assert_eq!(
        bigint_as_str(&Some(BigNat {
            digits: vec![7, 0, 0]
        })),
        Some("7".to_string())
    );
    assert_eq!(
        bigint_as_str(&Some(BigNat { digits: vec![] })),
        Some("0".to_string())
    );
}

#[test]
fn base16_text() {
    assert_eq!(as_base16_string(&[0x00, 0xff, 0x1a]), "00ff1a");
    assert_eq!(as_base16_string(&[]), "");
    assert_eq!(from_base16_string("00fF1A"), Ok(vec![0x00, 0xff, 0x1a]));
    assert_eq!(from_base16_string(""), Ok(vec![]));
    let bytes: Vec<u8> = (0..=255).collect();
    assert_eq!(from_base16_string(&as_base16_string(&bytes)), Ok(bytes));
}

#[test]
fn base16_errors() {
    assert_eq!(
        from_base16_string("abc"),
        Err(Base16Error::InvalidLength { length: 3 })
    );
    // the length is looked at first
    assert_eq!(
        from_base16_string("abz"),
        Err(Base16Error::InvalidLength { length: 3 })
    );
    assert_eq!(
        from_base16_string("abzx"),
        Err(Base16Error::InvalidByte {
            index: 2,
            byte: b'z'
        })
    );
    assert_eq!(
        from_base16_string("0xab"),
        Err(Base16Error::InvalidByte {
            index: 1,
            byte: b'x'
        })
    );
}
