use capture_engine::ids::{
    card_url, decimal_digits, item_id_from_metadata_name, item_id_from_output_name, output_name,
    IdError,
};

fn bytes(s: &str) -> Vec<u8> {
    s.as_bytes().to_vec()
}

#[test]
fn metadata_name_parses_hex_tail() {
    // 32 leading hex digits, then the 32 that hold the id (0xff), then ".json".
    let name = format!("{}{}.json", "0".repeat(32), format!("{:0>32}", "ff"));
    let r = item_id_from_metadata_name(&bytes(&name)).unwrap();
    assert_eq!(r, Some(255));
}

#[test]
fn metadata_name_parses_large_id() {
    let name = format!("{}{}.json", "a".repeat(32), "f".repeat(32));
    let r = item_id_from_metadata_name(&bytes(&name)).unwrap();
    assert_eq!(r, Some(u128::MAX));
}

#[test]
fn metadata_name_mixed_case_hex() {
    let name = format!("{}{}.json", "0".repeat(32), format!("{:0>32}", "AbCdEf"));
    let r = item_id_from_metadata_name(&bytes(&name)).unwrap();
    assert_eq!(r, Some(0xabcdef));
}

#[test]
fn metadata_name_without_json_is_skipped() {
    let name = format!("{}{}", "0".repeat(32), "f".repeat(32));
    let r = item_id_from_metadata_name(&bytes(&name)).unwrap();
    assert_eq!(r, None);
}

#[test]
fn metadata_name_with_short_stem_is_skipped() {
    let r = item_id_from_metadata_name(&bytes("abc.json")).unwrap();
    assert_eq!(r, None);
}

#[test]
fn metadata_name_with_bad_hex_is_malformed() {
    // 64-byte stem whose tail holds a non-hex byte.
    let name = format!("{}{}zz.json", "0".repeat(32), "f".repeat(30));
    let r = item_id_from_metadata_name(&bytes(&name));
    assert_eq!(r, Err(IdError::MalformedIdentifier));
}

#[test]
fn metadata_name_uses_first_json_occurrence() {
    // ".json" occurs early, so the stem is shorter than 64 and is skipped.
    let name = format!("{}.json{}.json", "0".repeat(10), "f".repeat(54));
    let r = item_id_from_metadata_name(&bytes(&name)).unwrap();
    assert_eq!(r, None);
}

#[test]
fn output_name_parses_decimal_stem() {
    let r = item_id_from_output_name(&bytes("12.jpeg"), &bytes(".jpeg")).unwrap();
    assert_eq!(r, Some(12));
}

#[test]
fn output_name_with_leading_zeros() {
    let r = item_id_from_output_name(&bytes("007.jpeg"), &bytes(".jpeg")).unwrap();
    assert_eq!(r, Some(7));
}

#[test]
fn output_name_without_extension_is_skipped() {
    let r = item_id_from_output_name(&bytes("12.png"), &bytes(".jpeg")).unwrap();
    assert_eq!(r, None);
}

#[test]
fn output_name_with_bad_stem_is_malformed() {
    let r = item_id_from_output_name(&bytes("x7.jpeg"), &bytes(".jpeg"));
    assert_eq!(r, Err(IdError::MalformedIdentifier));
}

#[test]
fn output_name_with_empty_stem_is_malformed() {
    let r = item_id_from_output_name(&bytes(".jpeg"), &bytes(".jpeg"));
    assert_eq!(r, Err(IdError::MalformedIdentifier));
}

#[test]
fn output_name_too_large_for_128_bits_is_malformed() {
    // 2^128 exactly: one past the largest id.
    let r = item_id_from_output_name(
        &bytes("340282366920938463463374607431768211456.jpeg"),
        &bytes(".jpeg"),
    );
    assert_eq!(r, Err(IdError::MalformedIdentifier));
}

#[test]
fn largest_id_still_parses() {
    let r = item_id_from_output_name(
        &bytes("340282366920938463463374607431768211455.jpeg"),
        &bytes(".jpeg"),
    )
    .unwrap();
    assert_eq!(r, Some(u128::MAX));
}

#[test]
fn decimal_digits_of_zero() {
    assert_eq!(decimal_digits(0), b"0".to_vec());
}

#[test]
fn decimal_digits_of_number() {
    assert_eq!(decimal_digits(9012345), b"9012345".to_vec());
}

#[test]
fn output_name_concatenates_id_and_extension() {
    assert_eq!(output_name(42, &bytes(".jpeg")), b"42.jpeg".to_vec());
}

#[test]
fn written_output_name_scans_back_to_its_id() {
    let name = output_name(123456789012345678901234567890u128, &bytes(".png"));
    let r = item_id_from_output_name(&name, &bytes(".png")).unwrap();
    assert_eq!(r, Some(123456789012345678901234567890u128));
}

#[test]
fn card_url_places_id_between_prefix_and_suffix() {
    let url = card_url(
        &bytes("http://localhost:5000/card?tokenID="),
        7,
        &bytes("&referrer=generate_images"),
    );
    assert_eq!(
        url,
        b"http://localhost:5000/card?tokenID=7&referrer=generate_images".to_vec()
    );
}
