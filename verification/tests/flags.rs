use copernicus_viewer::json::{JsonNumber, JsonValue};
use copernicus_viewer::plot::flags::{parse_cf_flags, parse_u64_token, CfFlagMode, CfFlags};

fn attr(key: &str, value: JsonValue) -> (String, JsonValue) {
    (key.to_string(), value)
}

#[test]
fn parses_bitmask_metadata() {
    let attrs = vec![
        attr("_FillValue", JsonValue::Number(JsonNumber::PosInt(255))),
        attr("flag_masks", JsonValue::Str("1 2 4 8".to_string())),
        attr("flag_meanings", JsonValue::Str("good saturation cloud shadow".to_string())),
    ];

    let flags = parse_cf_flags(&attrs).expect("flags");
    assert_eq!(flags.meanings.len(), 4);
    assert!(flags.uses_bitmasks());
    assert_eq!(flags.codes, vec![1, 2, 4, 8]);
}

#[test]
fn flag_values_from_json_array() {
    let attrs = vec![
        attr(
            "flag_meanings",
            JsonValue::Str("clear cloudy".to_string()),
        ),
        attr(
            "flag_values",
            JsonValue::Array(vec![
                JsonValue::Number(JsonNumber::PosInt(0)),
                JsonValue::Number(JsonNumber::PosInt(1)),
            ]),
        ),
    ];
    let flags = parse_cf_flags(&attrs).expect("flags");
    assert!(!flags.uses_bitmasks());
    assert_eq!(flags.mode, CfFlagMode::Values);
    assert_eq!(flags.codes, vec![0, 1]);
}

#[test]
fn mismatched_flag_counts_are_rejected() {
    let attrs = vec![
        attr("flag_masks", JsonValue::Str("1 2".to_string())),
        attr("flag_meanings", JsonValue::Str("good bad ugly".to_string())),
    ];
    assert!(parse_cf_flags(&attrs).is_none());
    assert!(parse_cf_flags(&Vec::new()).is_none());
}

#[test]
fn flag_labels_name_bits() {
    let flags = CfFlags {
        meanings: vec!["good".to_string(), "cloud".to_string()],
        codes: vec![1, 4],
        mode: CfFlagMode::Masks,
    };
    assert_eq!(flags.code_description(1), "bit 2, mask 4");
    assert_eq!(flags.flag_label(1), "[1] cloud (bit 2, mask 4)");
    assert_eq!(flags.flag_label(5), "[5] ? (mask 0)");
}

#[test]
fn tokens_parse_as_unsigned() {
    assert_eq!(parse_u64_token("42"), Some(42));
    assert_eq!(parse_u64_token("x"), None);
}
