use iot_server::decode::decode;
use iot_server::decode::DecodeError;

#[test]
fn full_payload_decodes() {
    let r = decode(br#"{"device":"sensor-1","temp":22.5,"humidity":55.0}"#).unwrap();
    assert_eq!(r.device, b"sensor-1".to_vec());
    assert_eq!(r.temp, b"22.5".to_vec());
    assert_eq!(r.humidity, b"55.0".to_vec());
    let temp: f64 = String::from_utf8(r.temp).unwrap().parse().unwrap();
    let humidity: f64 = String::from_utf8(r.humidity).unwrap().parse().unwrap();
    assert_eq!(temp, 22.5);
    assert_eq!(humidity, 55.0);
}

#[test]
fn missing_humidity_defaults_to_zero() {
    let r = decode(br#"{"device":"sensor-1","temp":22.5}"#).unwrap();
    assert_eq!(r.humidity, b"0".to_vec());
    let humidity: f64 = String::from_utf8(r.humidity).unwrap().parse().unwrap();
    assert_eq!(humidity, 0.0);
}

#[test]
fn null_humidity_defaults_to_zero() {
    let r = decode(br#"{"device":"sensor-1","temp":22.5,"humidity":null}"#).unwrap();
    assert_eq!(r.humidity, b"0".to_vec());
}

#[test]
fn supplied_humidity_is_kept_exactly() {
    let r = decode(br#"{"humidity":12.25,"device":"x","temp":-3}"#).unwrap();
    assert_eq!(r.humidity, b"12.25".to_vec());
    assert_eq!(r.temp, b"-3".to_vec());
}

#[test]
fn not_json_is_malformed() {
    assert_eq!(decode(b"not-json"), Err(DecodeError::Malformed));
}

#[test]
fn empty_payload_is_malformed() {
    assert_eq!(decode(b""), Err(DecodeError::Malformed));
    assert_eq!(decode(b"   "), Err(DecodeError::Malformed));
}

#[test]
fn missing_device_is_malformed() {
    assert_eq!(decode(br#"{"temp":22.5}"#), Err(DecodeError::Malformed));
}

#[test]
fn missing_temp_is_malformed() {
    assert_eq!(decode(br#"{"device":"sensor-1"}"#), Err(DecodeError::Malformed));
}

#[test]
fn empty_object_is_malformed() {
    assert_eq!(decode(b"{}"), Err(DecodeError::Malformed));
    assert_eq!(decode(b" { } "), Err(DecodeError::Malformed));
}

#[test]
fn empty_device_is_malformed() {
    assert_eq!(decode(br#"{"device":"","temp":1}"#), Err(DecodeError::Malformed));
}

#[test]
fn wrong_typed_device_is_malformed() {
    assert_eq!(decode(br#"{"device":7,"temp":1}"#), Err(DecodeError::Malformed));
    assert_eq!(decode(br#"{"device":null,"temp":1}"#), Err(DecodeError::Malformed));
}

#[test]
fn wrong_typed_temp_is_malformed() {
    assert_eq!(decode(br#"{"device":"a","temp":"22.5"}"#), Err(DecodeError::Malformed));
    assert_eq!(decode(br#"{"device":"a","temp":null}"#), Err(DecodeError::Malformed));
    assert_eq!(decode(br#"{"device":"a","temp":true}"#), Err(DecodeError::Malformed));
}

#[test]
fn wrong_typed_humidity_is_malformed() {
    assert_eq!(
        decode(br#"{"device":"a","temp":1,"humidity":"55"}"#),
        Err(DecodeError::Malformed)
    );
}

#[test]
fn duplicated_field_is_malformed() {
    assert_eq!(
        decode(br#"{"device":"a","device":"b","temp":1}"#),
        Err(DecodeError::Malformed)
    );
    assert_eq!(
        decode(br#"{"device":"a","temp":1,"temp":2}"#),
        Err(DecodeError::Malformed)
    );
    assert_eq!(
        decode(br#"{"device":"a","temp":1,"humidity":null,"humidity":2}"#),
        Err(DecodeError::Malformed)
    );
}

#[test]
fn unknown_fields_are_skipped() {
    let r = decode(
        br#"{"note":"x","flags":[1,[true,null],{"a":2}],"device":"d1","extra":{"deep":{"er":[]}},"temp":1e2}"#,
    )
    .unwrap();
    assert_eq!(r.device, b"d1".to_vec());
    assert_eq!(r.temp, b"1e2".to_vec());
    let temp: f64 = String::from_utf8(r.temp).unwrap().parse().unwrap();
    assert_eq!(temp, 100.0);
}

#[test]
fn whitespace_everywhere_is_accepted() {
    let r = decode(b" \t\r\n{ \"device\" : \"d\" , \"temp\" : 0.5 } \n").unwrap();
    assert_eq!(r.device, b"d".to_vec());
    assert_eq!(r.temp, b"0.5".to_vec());
}

#[test]
fn trailing_text_is_malformed() {
    assert_eq!(
        decode(br#"{"device":"a","temp":1} x"#),
        Err(DecodeError::Malformed)
    );
    assert_eq!(
        decode(br#"{"device":"a","temp":1}{"device":"b","temp":2}"#),
        Err(DecodeError::Malformed)
    );
}

#[test]
fn string_escapes_are_decoded() {
    let r = decode(br#"{"device":"a\"b\\c\/d\n","temp":1}"#).unwrap();
    assert_eq!(r.device, b"a\"b\\c/d\n".to_vec());
}

#[test]
fn unicode_escapes_are_decoded() {
    let r = decode(br#"{"device":"a\u0061b","temp":1}"#).unwrap();
    assert_eq!(r.device, b"aab".to_vec());
    let r = decode(br#"{"device":"caf\u00e9","temp":1}"#).unwrap();
    assert_eq!(r.device, "caf\u{e9}".as_bytes().to_vec());
    let r = decode(br#"{"device":"\u2603","temp":1}"#).unwrap();
    assert_eq!(r.device, "\u{2603}".as_bytes().to_vec());
    let r = decode(br#"{"device":"\ud83d\ude00","temp":1}"#).unwrap();
    assert_eq!(r.device, "\u{1f600}".as_bytes().to_vec());
}

#[test]
fn bad_unicode_escapes_are_malformed() {
    // a lone surrogate, leading or trailing
    assert_eq!(
        decode(br#"{"device":"\ud800x","temp":1}"#),
        Err(DecodeError::Malformed)
    );
    assert_eq!(
        decode(br#"{"device":"\ude00","temp":1}"#),
        Err(DecodeError::Malformed)
    );
    // too few or broken hexadecimal digits
    assert_eq!(
        decode(br#"{"device":"\u00g1","temp":1}"#),
        Err(DecodeError::Malformed)
    );
    assert_eq!(
        decode(br#"{"device":"\u12"}"#),
        Err(DecodeError::Malformed)
    );
}

#[test]
fn unsupported_escape_is_malformed() {
    assert_eq!(
        decode(br#"{"device":"a\x","temp":1}"#),
        Err(DecodeError::Malformed)
    );
}

#[test]
fn unterminated_payloads_are_malformed() {
    assert_eq!(decode(br#"{"device":"a","temp":1"#), Err(DecodeError::Malformed));
    assert_eq!(decode(br#"{"device":"a"#), Err(DecodeError::Malformed));
    assert_eq!(decode(br#"{"device":"a","temp":"#), Err(DecodeError::Malformed));
}

#[test]
fn number_grammar_edges() {
    assert!(decode(br#"{"device":"a","temp":0}"#).is_ok());
    assert!(decode(br#"{"device":"a","temp":-0.5}"#).is_ok());
    assert!(decode(br#"{"device":"a","temp":2.25E+2}"#).is_ok());
    assert!(decode(br#"{"device":"a","temp":1e-3}"#).is_ok());
    // not numbers of the grammar
    assert_eq!(decode(br#"{"device":"a","temp":01}"#), Err(DecodeError::Malformed));
    assert_eq!(decode(br#"{"device":"a","temp":.5}"#), Err(DecodeError::Malformed));
    assert_eq!(decode(br#"{"device":"a","temp":1.}"#), Err(DecodeError::Malformed));
    assert_eq!(decode(br#"{"device":"a","temp":1e}"#), Err(DecodeError::Malformed));
    assert_eq!(decode(br#"{"device":"a","temp":+1}"#), Err(DecodeError::Malformed));
}

#[test]
fn extreme_numbers_are_accepted_as_tokens() {
    let r = decode(br#"{"device":"a","temp":1e999}"#).unwrap();
    assert_eq!(r.temp, b"1e999".to_vec());
    let temp: f64 = String::from_utf8(r.temp).unwrap().parse().unwrap();
    assert!(temp.is_infinite());
}
