use astro_plan::digest::sha256_labelled;
use astro_plan::order::{contains_text, sorted_insert};
use astro_plan::rules::{dark_soft_records, hard_rule_string, DimRecord, SoftReading};
use astro_plan::text::{from_str, push_decimal, push_signed_decimal};

#[test]
fn hard_string_rules_need_both_values_and_equality() {
    assert!(hard_rule_string(Some("Ha"), Some("Ha")));
    assert!(!hard_rule_string(Some("Ha"), Some("OIII")));
    assert!(!hard_rule_string(None, Some("Ha")));
    assert!(!hard_rule_string(Some("Ha"), None));
    assert!(!hard_rule_string(None, None));
    assert!(!hard_rule_string(Some("ha"), Some("Ha")));
}

#[test]
fn decimals_render_without_padding() {
    let mut s = String::new();
    push_decimal(&mut s, 0);
    assert_eq!(s, "0");
    let mut s = String::new();
    push_decimal(&mut s, 1_234_567);
    assert_eq!(s, "1234567");
    let mut s = String::new();
    push_decimal(&mut s, u64::MAX);
    assert_eq!(s, "18446744073709551615");
    let mut s = from_str("n=");
    push_signed_decimal(&mut s, -42);
    assert_eq!(s, "n=-42");
    let mut s = String::new();
    push_signed_decimal(&mut s, i64::MIN);
    assert_eq!(s, "-9223372036854775808");
    let mut s = String::new();
    push_decimal(&mut s, 7);
    assert_eq!(s, "7");
}

#[test]
fn sorted_insert_keeps_order_and_drops_duplicates() {
    let mut v: Vec<String> = Vec::new();
    for x in ["p-3", "p-1", "p-2", "p-1", "p-3"] {
        sorted_insert(&mut v, x);
    }
    assert_eq!(v, vec!["p-1".to_owned(), "p-2".to_owned(), "p-3".to_owned()]);
    assert!(contains_text(&v, "p-2"));
    assert!(!contains_text(&v, "p-4"));
}

#[test]
fn labelled_sha256_of_known_inputs() {
    assert_eq!(
        sha256_labelled(b"abc"),
        "sha256:ba7816bf8f01cfea414140de5dae2223b00361a396177a9cb410ff61f20015ad"
    );
    assert_eq!(sha256_labelled(b"").len(), 71);
}

#[test]
fn a_digest_is_labelled_with_its_lowercase_hex() {
    assert_eq!(astro_plan::digest::label_digest(&[0x00, 0xab, 0x7f]), "sha256:00ab7f");
    assert_eq!(astro_plan::digest::label_digest(&[]), "sha256:");
}

#[test]
fn sorted_insert_orders_by_bytes() {
    let mut v: Vec<String> = Vec::new();
    for x in ["abd", "abc", "ab", "b", "B"] {
        sorted_insert(&mut v, x);
    }
    assert_eq!(v, vec!["B", "ab", "abc", "abd", "b"]);
}

#[test]
fn a_failed_hard_rule_excludes_the_dark_master() {
    assert!(dark_soft_records(false, true, true, SoftReading::Within, SoftReading::Within, None).is_none());
    assert!(dark_soft_records(true, false, true, SoftReading::Within, SoftReading::Within, None).is_none());
    assert!(dark_soft_records(true, true, false, SoftReading::Within, SoftReading::Within, None).is_none());
    let r = dark_soft_records(true, true, true, SoftReading::Missing, SoftReading::Outside, Some(true)).unwrap();
    assert!(r.exposure == DimRecord::MetadataMissing);
    assert!(r.temperature == DimRecord::OutOfTolerance);
    assert!(r.date_proximity == Some(DimRecord::Matched));
    let r = dark_soft_records(true, true, true, SoftReading::Within, SoftReading::Missing, None).unwrap();
    assert!(r.exposure == DimRecord::Matched);
    assert!(r.temperature == DimRecord::MetadataMissing);
    assert!(r.date_proximity.is_none());
    let r = dark_soft_records(true, true, true, SoftReading::Within, SoftReading::Within, Some(false)).unwrap();
    assert!(r.date_proximity == Some(DimRecord::OutOfTolerance));
}
