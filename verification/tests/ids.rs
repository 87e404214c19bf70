use astro_plan::ids::{
    format_iso, iso_fixed_micros, new_id, AuditId, ContentHash, EntityId, Timestamp, UtcParts,
};

#[test]
fn new_id_is_36_char_uuid() {
    let id = new_id();
    assert_eq!(id.len(), 36, "UUID string must be 36 chars, got {id:?}");
    // Standard hyphenated UUID: 8-4-4-4-12
    let parts: Vec<&str> = id.split('-').collect();
    assert_eq!(parts.len(), 5, "UUID must have 5 hyphen-separated groups: {id:?}");
    assert_eq!(parts[0].len(), 8);
    assert_eq!(parts[1].len(), 4);
    assert_eq!(parts[2].len(), 4);
    assert_eq!(parts[3].len(), 4);
    assert_eq!(parts[4].len(), 12);
}

/// Text order must equal chronological order even when the two instants have
/// different numbers of significant subsecond digits.
#[test]
fn iso_text_order_matches_chronological_order_across_subsecond_widths() {
    let base = time::OffsetDateTime::from_unix_timestamp(1_752_000_000)
        .expect("fixed unix timestamp is in range");
    let earlier = Timestamp::from_offset_date_time(base + time::Duration::milliseconds(100)).to_iso().unwrap();
    let later = Timestamp::from_offset_date_time(base + time::Duration::milliseconds(150)).to_iso().unwrap();

    assert!(earlier < later, "{earlier} must sort before {later}");
}

#[test]
fn now_iso_parses_as_rfc3339() {
    let s = Timestamp::now_iso();
    time::OffsetDateTime::parse(&s, &time::format_description::well_known::Rfc3339)
        .unwrap_or_else(|e| panic!("now_iso() produced non-RFC3339 output {s:?}: {e}"));
}

#[test]
fn a_fixed_instant_renders_with_six_fraction_digits() {
    let base = time::OffsetDateTime::from_unix_timestamp(1_752_000_000).unwrap();
    assert_eq!(iso_fixed_micros(base.unix_timestamp_nanos()).as_deref(), Some("2025-07-08T18:40:00.000000Z"));
    let later = base + time::Duration::microseconds(150_007);
    assert_eq!(iso_fixed_micros(later.unix_timestamp_nanos()).as_deref(), Some("2025-07-08T18:40:00.150007Z"));
}

#[test]
fn a_non_utc_instant_renders_in_utc() {
    let base = time::OffsetDateTime::from_unix_timestamp(1_752_000_000).unwrap();
    let shifted = base.to_offset(time::UtcOffset::from_hms(2, 0, 0).unwrap());
    assert_eq!(iso_fixed_micros(shifted.unix_timestamp_nanos()).as_deref(), Some("2025-07-08T18:40:00.000000Z"));
}

#[test]
fn timestamp_to_iso_matches_the_fixed_width_form() {
    let base = time::OffsetDateTime::from_unix_timestamp(0).unwrap();
    let ts = Timestamp::from_offset_date_time(base);
    assert_eq!(ts.to_iso().as_deref(), Some("1970-01-01T00:00:00.000000Z"));
    assert_eq!(ts.as_offset_date_time(), base);
}

#[test]
fn format_iso_pads_every_field() {
    let p = UtcParts { year: 7, month: 3, day: 4, hour: 5, minute: 6, second: 9, microsecond: 42 };
    assert_eq!(format_iso(&p), "0007-03-04T05:06:09.000042Z");
}

#[test]
fn format_iso_writes_a_negative_year_with_a_sign() {
    let p = UtcParts { year: -44, month: 3, day: 15, hour: 12, minute: 0, second: 0, microsecond: 0 };
    assert_eq!(format_iso(&p), "-0044-03-15T12:00:00.000000Z");
}

#[test]
fn entity_ids_round_trip_their_uuid_and_render_hyphenated() {
    let u = uuid::Uuid::from_u128(0x0123_4567_89ab_cdef_0123_4567_89ab_cdef);
    let id = EntityId::from_uuid(u);
    assert_eq!(id.as_uuid(), u);
    assert_eq!(id.to_text(), "01234567-89ab-cdef-0123-456789abcdef");
    let audit = AuditId::from_uuid(u);
    assert_eq!(audit.as_uuid(), u);
}

#[test]
fn fresh_ids_differ() {
    assert_ne!(EntityId::new().as_uuid(), EntityId::new().as_uuid());
    assert_ne!(AuditId::new().as_uuid(), AuditId::new().as_uuid());
    assert_ne!(new_id(), new_id());
}

#[test]
fn content_hash_keeps_its_hex_text() {
    let hex = "ab".repeat(32);
    let h = ContentHash::from_hex(hex.clone());
    assert_eq!(h.as_str(), hex);
}

#[test]
fn an_instant_whose_utc_date_leaves_the_range_has_no_text() {
    let last = time::PrimitiveDateTime::new(
        time::Date::from_calendar_date(9999, time::Month::December, 31).unwrap(),
        time::Time::from_hms(23, 59, 59).unwrap(),
    )
    .assume_offset(time::UtcOffset::from_hms(-1, 0, 0).unwrap());
    assert_eq!(iso_fixed_micros(last.unix_timestamp_nanos()), None);
    assert_eq!(Timestamp::from_offset_date_time(last).to_iso(), None);
}

#[test]
fn the_earlier_and_later_texts_are_exact() {
    let base = time::OffsetDateTime::from_unix_timestamp(1_752_000_000).unwrap();
    let at = |ms: i64| iso_fixed_micros((base + time::Duration::milliseconds(ms)).unix_timestamp_nanos());
    assert_eq!(at(100).as_deref(), Some("2025-07-08T18:40:00.100000Z"));
    assert_eq!(at(150).as_deref(), Some("2025-07-08T18:40:00.150000Z"));
}

#[test]
fn fresh_ids_are_version_4() {
    for _ in 0..64 {
        let id = new_id();
        let c: Vec<char> = id.chars().collect();
        assert_eq!(c[14], '4', "{id}");
        assert!(matches!(c[19], '8' | '9' | 'a' | 'b'), "{id}");
        assert!(EntityId::new().to_text().chars().nth(14) == Some('4'));
        let a = AuditId::new().as_uuid();
        assert_eq!(a.get_version_num(), 4);
        assert_eq!(a.get_variant(), uuid::Variant::RFC4122);
    }
}

#[test]
fn a_nil_uuid_renders_as_zeros() {
    let id = EntityId::from_uuid(uuid::Uuid::nil());
    assert_eq!(id.to_text(), "00000000-0000-0000-0000-000000000000");
    assert_eq!(id.as_uuid(), uuid::Uuid::nil());
}

#[test]
fn ids_round_trip_their_uuid() {
    let u = uuid::Uuid::from_u128(0xdead_beef_0000_4000_8000_0000_0000_0001);
    assert_eq!(EntityId::from_uuid(u).as_uuid(), u);
    assert_eq!(AuditId::from_uuid(u).as_uuid(), u);
}
