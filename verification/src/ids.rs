//! Stable identifier and timestamp primitives.
use vstd::prelude::*;
use vstd::utf8::encode_utf8;
use crate::digest::hex_digit;

verus! {

#[verifier::external_type_specification]
#[verifier::external_body]
pub struct ExUuid(uuid::Uuid);

#[verifier::external_type_specification]
#[verifier::external_body]
pub struct ExOffsetDateTime(time::OffsetDateTime);

/// A lowercase hexadecimal digit.
pub open spec fn is_lower_hex(c: char) -> bool {
    ('0' <= c && c <= '9') || ('a' <= c && c <= 'f')
}

/// The hyphenated UUID form: 36 characters, groups of 8-4-4-4-12 lowercase
/// hexadecimal digits separated by `-`.
pub open spec fn is_hyphenated_uuid(s: Seq<char>) -> bool {
    &&& s.len() == 36
    &&& forall|i: int|
        0 <= i < 36 ==> if i == 8 || i == 13 || i == 18 || i == 23 {
            #[trigger] s[i] == '-'
        } else {
            is_lower_hex(s[i])
        }
}

/// `16^n`.
pub open spec fn pow16(n: nat) -> nat
    decreases n,
{
    if n == 0 {
        1
    } else {
        16 * pow16((n - 1) as nat)
    }
}

/// Hexadecimal digit `k` of a 128-bit value, counting from the most
/// significant (`0 <= k < 32`).
pub open spec fn nibble(b: u128, k: int) -> nat {
    ((b as nat / pow16((31 - k) as nat)) % 16) as nat
}

/// The hexadecimal digit shown at position `i` of the hyphenated form.
pub open spec fn uuid_digit_index(i: int) -> int {
    if i < 8 {
        i
    } else if i < 13 {
        i - 1
    } else if i < 18 {
        i - 2
    } else if i < 23 {
        i - 3
    } else {
        i - 4
    }
}

/// The hyphenated lowercase text of a 128-bit UUID value: its 32 hex digits,
/// most significant first, in groups of 8-4-4-4-12.
pub open spec fn hyphenated_hex(b: u128) -> Seq<char> {
    Seq::new(
        36,
        |i: int|
            if i == 8 || i == 13 || i == 18 || i == 23 {
                '-'
            } else {
                hex_digit(nibble(b, uuid_digit_index(i)))
            },
    )
}

/// A random (version 4) UUID value: version digit 4, and the variant bits
/// `10`, so the digit after the third hyphen is one of `8`, `9`, `a`, `b`.
pub open spec fn is_v4(b: u128) -> bool {
    nibble(b, 12) == 4 && 8 <= nibble(b, 16) < 12
}

/// `uuid::Uuid::new_v4` as its 128-bit value (`as_u128`, most significant
/// byte first): random bits with the version nibble set to 4 and the two
/// variant bits set to `10`. Nothing else is promised of the value.
#[verifier::external_body]
fn random_v4_bits() -> (b: u128)
    ensures
        is_v4(b),
{
    uuid::Uuid::new_v4().as_u128()
}

/// The 128-bit value of a UUID (its 16 bytes, most significant first).
pub uninterp spec fn uuid_value(u: uuid::Uuid) -> u128;

/// `uuid::Uuid::as_u128`: the 128-bit value of a UUID.
#[verifier::external_body]
fn uuid_bits(u: &uuid::Uuid) -> (b: u128)
    ensures
        b == uuid_value(*u),
{
    u.as_u128()
}

/// `uuid::Uuid::from_u128`: the UUID with a 128-bit value, whose value is
/// that one (`as_u128` gives back the bytes `from_u128` stored).
#[verifier::external_body]
fn uuid_of_bits(b: u128) -> (u: uuid::Uuid)
    ensures
        uuid_value(u) == b,
{
    uuid::Uuid::from_u128(b)
}

/// `uuid::Uuid`'s `Display` for the UUID of value `b`: the hyphenated form
/// with the lowercase table, each byte as two digits, high nibble first.
#[verifier::external_body]
fn uuid_text(b: u128) -> (s: String)
    ensures
        s@ == hyphenated_hex(b),
{
    uuid::Uuid::from_u128(b).to_string()
}

proof fn lemma_hex_digit_lower(n: nat)
    requires
        n < 16,
    ensures
        is_lower_hex(hex_digit(n)),
{
}

/// The hyphenated text of any 128-bit value has the hyphenated UUID shape.
pub proof fn lemma_hyphenated_shape(b: u128)
    ensures
        is_hyphenated_uuid(hyphenated_hex(b)),
{
    let s = hyphenated_hex(b);
    assert forall|i: int|
        0 <= i < 36 implies if i == 8 || i == 13 || i == 18 || i == 23 {
            #[trigger] s[i] == '-'
        } else {
            is_lower_hex(s[i])
        } by {
        if !(i == 8 || i == 13 || i == 18 || i == 23) {
            lemma_hex_digit_lower(nibble(b, uuid_digit_index(i)));
        }
    }
}

/// Stable UUIDv4 identifier for any entity, held as the UUID's 128-bit value.
#[derive(Clone, Copy, Debug)]
pub struct EntityId(u128);

impl EntityId {
    /// The UUID's 128-bit value.
    pub closed spec fn bits(&self) -> u128 {
        self.0
    }

    /// A fresh random (version 4) identifier.
    pub fn new() -> (r: Self)
        ensures
            is_v4(r.bits()),
    {
        EntityId(random_v4_bits())
    }

    pub fn from_uuid(value: uuid::Uuid) -> (r: Self)
        ensures
            r.bits() == uuid_value(value),
    {
        EntityId(uuid_bits(&value))
    }

    pub fn as_uuid(self) -> (u: uuid::Uuid)
        ensures
            uuid_value(u) == self.bits(),
    {
        uuid_of_bits(self.0)
    }

    /// The hyphenated lowercase text of the identifier.
    pub fn to_text(&self) -> (s: String)
        ensures
            s@ == hyphenated_hex(self.bits()),
            is_hyphenated_uuid(s@),
    {
        proof {
            lemma_hyphenated_shape(self.0);
        }
        uuid_text(self.0)
    }
}

/// Opaque UUID identifier for an audit log entry, held as the UUID's 128-bit
/// value.
#[derive(Clone, Copy, Debug)]
pub struct AuditId(u128);

impl AuditId {
    /// The UUID's 128-bit value.
    pub closed spec fn bits(&self) -> u128 {
        self.0
    }

    /// A fresh random (version 4) identifier.
    pub fn new() -> (r: Self)
        ensures
            is_v4(r.bits()),
    {
        AuditId(random_v4_bits())
    }

    pub fn from_uuid(value: uuid::Uuid) -> (r: Self)
        ensures
            r.bits() == uuid_value(value),
    {
        AuditId(uuid_bits(&value))
    }

    pub fn as_uuid(self) -> (u: uuid::Uuid)
        ensures
            uuid_value(u) == self.bits(),
    {
        uuid_of_bits(self.0)
    }
}

/// A fresh UUIDv4 as a hyphenated lowercase string (36 characters): the
/// version digit (position 14) is `4` and the variant digit (position 19) is
/// one of `8`, `9`, `a`, `b`.
pub fn new_id() -> (s: String)
    ensures
        exists|b: u128| is_v4(b) && s@ == hyphenated_hex(b),
        is_hyphenated_uuid(s@),
        s@[14] == '4',
        s@[19] == '8' || s@[19] == '9' || s@[19] == 'a' || s@[19] == 'b',
{
    let id = EntityId::new();
    let s = id.to_text();
    proof {
        let b = id.bits();
        assert(uuid_digit_index(14) == 12);
        assert(uuid_digit_index(19) == 16);
        assert(s@[14] == hex_digit(nibble(b, 12)));
        assert(s@[19] == hex_digit(nibble(b, 16)));
    }
    s
}

/// 32-byte SHA-256 content hash, held as its 64-character hex text.
pub struct ContentHash(String);

impl ContentHash {
    pub closed spec fn text(&self) -> Seq<char> {
        self.0@
    }

    /// Wrap a lowercase hex digest; its text must be 64 bytes long.
    pub fn from_hex(hex: String) -> (h: Self)
        requires
            encode_utf8(hex@).len() == 64,
        ensures
            h.text() == hex@,
    {
        ContentHash(hex)
    }

    pub fn as_str(&self) -> (s: &str)
        ensures
            s@ == self.text(),
    {
        self.0.as_str()
    }
}

// ── Timestamps ───────────────────────────────────────────────────────────────

/// A UTC calendar date and time of day, to the microsecond.
pub struct UtcParts {
    pub year: i32,
    pub month: u8,
    pub day: u8,
    pub hour: u8,
    pub minute: u8,
    pub second: u8,
    pub microsecond: u32,
}

/// The ranges `time` documents for each field (years within the crate's
/// standard range).
pub open spec fn parts_in_range(p: UtcParts) -> bool {
    &&& -9999 <= p.year <= 9999
    &&& 1 <= p.month <= 12
    &&& 1 <= p.day <= 31
    &&& p.hour < 24
    &&& p.minute < 60
    &&& p.second < 60
    &&& p.microsecond < 1_000_000
}

/// The UTC date and time `time` gives the instant `nanos` nanoseconds after
/// the Unix epoch, or `None` when that date leaves the range `time` supports.
pub uninterp spec fn utc_parts_of(nanos: i128) -> Option<UtcParts>;

/// `time::OffsetDateTime::from_unix_timestamp_nanos` then its calendar
/// accessors: the UTC date and time of the instant `nanos` nanoseconds after
/// the epoch, or `None` (the crate's error) when its date leaves the
/// supported range. The calendar arithmetic is `time`'s and is named, not
/// restated; the field ranges are those `time` documents.
#[verifier::external_body]
fn utc_parts(nanos: i128) -> (p: Option<UtcParts>)
    ensures
        p == utc_parts_of(nanos),
        p matches Some(parts) ==> parts_in_range(parts),
{
    match time::OffsetDateTime::from_unix_timestamp_nanos(nanos) {
        Ok(u) => Some(UtcParts {
            year: u.year(),
            month: u.month() as u8,
            day: u.day(),
            hour: u.hour(),
            minute: u.minute(),
            second: u.second(),
            microsecond: u.microsecond(),
        }),
        Err(_) => None,
    }
}

/// The instant of a date-time, in nanoseconds after the Unix epoch.
pub uninterp spec fn unix_nanos_of(v: time::OffsetDateTime) -> i128;

/// `time::OffsetDateTime::unix_timestamp_nanos`: the instant of a date-time,
/// in nanoseconds after the Unix epoch.
#[verifier::external_body]
fn unix_nanos(v: &time::OffsetDateTime) -> (n: i128)
    ensures
        n == unix_nanos_of(*v),
{
    v.unix_timestamp_nanos()
}

/// `time::OffsetDateTime::now_utc`: the current instant, as the date-time
/// and as nanoseconds after the epoch. Which instant is not promised; being a
/// valid date-time, its UTC date lies in the supported range.
#[verifier::external_body]
fn current_time() -> (r: (time::OffsetDateTime, i128))
    ensures
        r.1 == unix_nanos_of(r.0),
        utc_parts_of(r.1) is Some,
        parts_in_range(utc_parts_of(r.1)->0),
{
    let u = time::OffsetDateTime::now_utc();
    (u, u.unix_timestamp_nanos())
}

/// `n` in exactly `width` decimal digits, zero-padded on the left.
pub open spec fn fixed_digits(n: nat, width: nat) -> Seq<char>
    decreases width,
{
    if width == 0 {
        Seq::empty()
    } else {
        fixed_digits(n / 10, (width - 1) as nat).push(crate::text::digit_char(n % 10))
    }
}

/// RFC 3339 UTC text with a fraction of exactly six digits:
/// `YYYY-MM-DDTHH:MM:SS.ffffffZ` (a negative year carries a leading `-`).
pub open spec fn iso_text(p: UtcParts) -> Seq<char> {
    (if p.year < 0 {
        seq!['-'] + fixed_digits((-p.year) as nat, 4)
    } else {
        fixed_digits(p.year as nat, 4)
    }) + seq!['-'] + fixed_digits(p.month as nat, 2) + seq!['-'] + fixed_digits(p.day as nat, 2) + seq!['T']
        + fixed_digits(p.hour as nat, 2) + seq![':'] + fixed_digits(p.minute as nat, 2) + seq![':']
        + fixed_digits(p.second as nat, 2) + seq!['.'] + fixed_digits(p.microsecond as nat, 6)
        + seq!['Z']
}

/// Append `n` in exactly `width` zero-padded digits.
fn push_fixed(s: &mut String, n: u32, width: u32)
    ensures
        final(s)@ == old(s)@ + fixed_digits(n as nat, width as nat),
    decreases width,
{
    if width == 0 {
        proof {
            assert(old(s)@ + fixed_digits(n as nat, 0) =~= old(s)@);
        }
        return;
    }
    push_fixed(s, n / 10, width - 1);
    let d = (n % 10) as u8;
    crate::text::push_char(s, (d + 48u8) as char);
    proof {
        assert(old(s)@ + fixed_digits(n as nat, width as nat) =~= old(s)@ + fixed_digits(
            (n / 10) as nat,
            (width - 1) as nat,
        ) + seq![crate::text::digit_char((n % 10) as nat)]);
    }
}

/// Format UTC calendar parts as fixed-width RFC 3339 text.
pub fn format_iso(p: &UtcParts) -> (s: String)
    requires
        parts_in_range(*p),
    ensures
        s@ == iso_text(*p),
        s@.len() == if p.year < 0 { 28nat } else { 27nat },
{
    let mut s = String::new();
    if p.year < 0 {
        crate::text::push_char(&mut s, '-');
        push_fixed(&mut s, (-p.year) as u32, 4);
    } else {
        push_fixed(&mut s, p.year as u32, 4);
    }
    crate::text::push_char(&mut s, '-');
    push_fixed(&mut s, p.month as u32, 2);
    crate::text::push_char(&mut s, '-');
    push_fixed(&mut s, p.day as u32, 2);
    crate::text::push_char(&mut s, 'T');
    push_fixed(&mut s, p.hour as u32, 2);
    crate::text::push_char(&mut s, ':');
    push_fixed(&mut s, p.minute as u32, 2);
    crate::text::push_char(&mut s, ':');
    push_fixed(&mut s, p.second as u32, 2);
    crate::text::push_char(&mut s, '.');
    push_fixed(&mut s, p.microsecond, 6);
    crate::text::push_char(&mut s, 'Z');
    proof {
        lemma_fixed_digits_len((-p.year) as nat, 4);
        lemma_fixed_digits_len(p.year as nat, 4);
        lemma_fixed_digits_len(p.month as nat, 2);
        lemma_fixed_digits_len(p.day as nat, 2);
        lemma_fixed_digits_len(p.hour as nat, 2);
        lemma_fixed_digits_len(p.minute as nat, 2);
        lemma_fixed_digits_len(p.second as nat, 2);
        lemma_fixed_digits_len(p.microsecond as nat, 6);
        assert(s@ =~= iso_text(*p));
    }
    s
}

pub proof fn lemma_fixed_digits_len(n: nat, width: nat)
    ensures
        fixed_digits(n, width).len() == width,
    decreases width,
{
    if width > 0 {
        lemma_fixed_digits_len(n / 10, (width - 1) as nat);
    }
}

/// The instant `nanos` nanoseconds after the epoch as RFC 3339 UTC text
/// with a constant-width fraction, or `None` when its UTC date leaves the
/// supported range.
pub fn iso_fixed_micros(nanos: i128) -> (s: Option<String>)
    ensures
        s is Some <==> utc_parts_of(nanos) is Some,
        s matches Some(text) ==> text@ == iso_text(utc_parts_of(nanos)->0),
{
    match utc_parts(nanos) {
        Some(p) => Some(format_iso(&p)),
        None => None,
    }
}

// ── Text order of timestamps ─────────────────────────────────────────────────

/// Lexicographic order on character sequences, by character value (for the
/// ASCII text of timestamps this is also their byte order).
pub open spec fn chars_lt(a: Seq<char>, b: Seq<char>) -> bool
    decreases a.len(),
{
    if a.len() == 0 {
        b.len() > 0
    } else if b.len() == 0 {
        false
    } else if (a[0] as u32) < (b[0] as u32) {
        true
    } else if (a[0] as u32) > (b[0] as u32) {
        false
    } else {
        chars_lt(a.drop_first(), b.drop_first())
    }
}

/// Chronological order of UTC calendar parts.
pub open spec fn parts_lt(p: UtcParts, q: UtcParts) -> bool {
    ||| p.year < q.year
    ||| p.year == q.year && p.month < q.month
    ||| p.year == q.year && p.month == q.month && p.day < q.day
    ||| p.year == q.year && p.month == q.month && p.day == q.day && p.hour < q.hour
    ||| p.year == q.year && p.month == q.month && p.day == q.day && p.hour == q.hour && p.minute < q.minute
    ||| p.year == q.year && p.month == q.month && p.day == q.day && p.hour == q.hour && p.minute == q.minute
        && p.second < q.second
    ||| p.year == q.year && p.month == q.month && p.day == q.day && p.hour == q.hour && p.minute == q.minute
        && p.second == q.second && p.microsecond < q.microsecond
}

pub open spec fn pow10(w: nat) -> nat
    decreases w,
{
    if w == 0 {
        1
    } else {
        10 * pow10((w - 1) as nat)
    }
}

proof fn lemma_lt_append(x1: Seq<char>, y1: Seq<char>, x2: Seq<char>, y2: Seq<char>)
    requires
        x1.len() == y1.len(),
        chars_lt(x1, y1),
    ensures
        chars_lt(x1 + x2, y1 + y2),
    decreases x1.len(),
{
    if x1.len() > 0 && (x1[0] as u32) == (y1[0] as u32) {
        assert((x1 + x2).drop_first() =~= x1.drop_first() + x2);
        assert((y1 + y2).drop_first() =~= y1.drop_first() + y2);
        lemma_lt_append(x1.drop_first(), y1.drop_first(), x2, y2);
    }
    if x1.len() > 0 {
        assert((x1 + x2)[0] == x1[0]);
        assert((y1 + y2)[0] == y1[0]);
    }
}

proof fn lemma_lt_prefix(x: Seq<char>, a: Seq<char>, b: Seq<char>)
    requires
        chars_lt(a, b),
    ensures
        chars_lt(x + a, x + b),
    decreases x.len(),
{
    if x.len() == 0 {
        assert(x + a =~= a);
        assert(x + b =~= b);
    } else {
        assert((x + a).drop_first() =~= x.drop_first() + a);
        assert((x + b).drop_first() =~= x.drop_first() + b);
        lemma_lt_prefix(x.drop_first(), a, b);
    }
}

proof fn lemma_fixed_lt(a: nat, b: nat, w: nat)
    requires
        a < b < pow10(w),
    ensures
        chars_lt(fixed_digits(a, w), fixed_digits(b, w)),
    decreases w,
{
    if w == 0 {
        assert(pow10(0) == 1);
    } else {
        let wp = (w - 1) as nat;
        let pa = fixed_digits(a / 10, wp);
        let pb = fixed_digits(b / 10, wp);
        lemma_fixed_digits_len(a / 10, wp);
        lemma_fixed_digits_len(b / 10, wp);
        assert(b / 10 < pow10(wp)) by (nonlinear_arith)
            requires
                b < 10 * pow10(wp),
        ;
        assert(a / 10 <= b / 10) by (nonlinear_arith)
            requires
                a < b,
        ;
        let da = crate::text::digit_char(a % 10);
        let db = crate::text::digit_char(b % 10);
        if a / 10 < b / 10 {
            lemma_fixed_lt(a / 10, b / 10, wp);
            lemma_lt_append(pa, pb, seq![da], seq![db]);
            assert(pa + seq![da] =~= pa.push(da));
            assert(pb + seq![db] =~= pb.push(db));
        } else {
            assert(a % 10 < b % 10) by (nonlinear_arith)
                requires
                    a < b,
                    a / 10 == b / 10,
            ;
            assert((da as u32) < (db as u32));
            assert(chars_lt(seq![da], seq![db])) by {
                assert(seq![da].drop_first() =~= Seq::<char>::empty());
            }
            lemma_lt_prefix(pa, seq![da], seq![db]);
            assert(pa + seq![da] =~= pa.push(da));
            assert(pa + seq![db] =~= pb.push(db));
        }
    }
}

spec fn tail7(p: UtcParts) -> Seq<char> {
    fixed_digits(p.microsecond as nat, 6) + seq!['Z']
}

spec fn tail6(p: UtcParts) -> Seq<char> {
    fixed_digits(p.second as nat, 2) + (seq!['.'] + tail7(p))
}

spec fn tail5(p: UtcParts) -> Seq<char> {
    fixed_digits(p.minute as nat, 2) + (seq![':'] + tail6(p))
}

spec fn tail4(p: UtcParts) -> Seq<char> {
    fixed_digits(p.hour as nat, 2) + (seq![':'] + tail5(p))
}

spec fn tail3(p: UtcParts) -> Seq<char> {
    fixed_digits(p.day as nat, 2) + (seq!['T'] + tail4(p))
}

spec fn tail2(p: UtcParts) -> Seq<char> {
    fixed_digits(p.month as nat, 2) + (seq!['-'] + tail3(p))
}

spec fn tail1(p: UtcParts) -> Seq<char> {
    fixed_digits(p.year as nat, 4) + (seq!['-'] + tail2(p))
}

/// A field that sorts first sorts its whole tail first; an equal field
/// defers to the rest of the tail.
proof fn lemma_field_step(fa: nat, fb: nat, w: nat, sep: char, ra: Seq<char>, rb: Seq<char>)
    requires
        fa < pow10(w),
        fb < pow10(w),
        fa < fb || (fa == fb && chars_lt(ra, rb)),
    ensures
        chars_lt(fixed_digits(fa, w) + (seq![sep] + ra), fixed_digits(fb, w) + (seq![sep] + rb)),
{
    lemma_fixed_digits_len(fa, w);
    lemma_fixed_digits_len(fb, w);
    if fa < fb {
        lemma_fixed_lt(fa, fb, w);
        lemma_lt_append(fixed_digits(fa, w), fixed_digits(fb, w), seq![sep] + ra, seq![sep] + rb);
    } else {
        lemma_lt_prefix(seq![sep], ra, rb);
        lemma_lt_prefix(fixed_digits(fa, w), seq![sep] + ra, seq![sep] + rb);
    }
}

/// Within one year, a later date and time of day renders a later tail (the
/// text after the year and its separator).
#[verifier::spinoff_prover]
#[verifier::rlimit(40)]
proof fn lemma_same_year_tail_order(p: UtcParts, q: UtcParts)
    requires
        parts_in_range(p),
        parts_in_range(q),
        p.year == q.year,
        parts_lt(p, q),
    ensures
        chars_lt(tail2(p), tail2(q)),
{
    assert(pow10(2) == 100) by {
        reveal_with_fuel(pow10, 3);
    }
    assert(pow10(6) == 1000000) by {
        reveal_with_fuel(pow10, 7);
    }
    let t7 = p.month == q.month && p.day == q.day && p.hour == q.hour && p.minute == q.minute
        && p.second == q.second;
    if t7 {
        lemma_fixed_digits_len(p.microsecond as nat, 6);
        lemma_fixed_digits_len(q.microsecond as nat, 6);
        lemma_fixed_lt(p.microsecond as nat, q.microsecond as nat, 6);
        lemma_lt_append(fixed_digits(p.microsecond as nat, 6), fixed_digits(q.microsecond as nat, 6), seq!['Z'], seq!['Z']);
    }
    if t7 || (p.month == q.month && p.day == q.day && p.hour == q.hour && p.minute == q.minute
        && p.second < q.second) {
        lemma_field_step(p.second as nat, q.second as nat, 2, '.', tail7(p), tail7(q));
    }
    if p.month == q.month && p.day == q.day && p.hour == q.hour && (p.minute < q.minute || (p.minute
        == q.minute && chars_lt(tail6(p), tail6(q)))) {
        lemma_field_step(p.minute as nat, q.minute as nat, 2, ':', tail6(p), tail6(q));
    }
    if p.month == q.month && p.day == q.day && (p.hour < q.hour || (p.hour == q.hour && chars_lt(
        tail5(p),
        tail5(q),
    ))) {
        lemma_field_step(p.hour as nat, q.hour as nat, 2, ':', tail5(p), tail5(q));
    }
    if p.month == q.month && (p.day < q.day || (p.day == q.day && chars_lt(tail4(p), tail4(q)))) {
        lemma_field_step(p.day as nat, q.day as nat, 2, 'T', tail4(p), tail4(q));
    }
    lemma_field_step(p.month as nat, q.month as nat, 2, '-', tail3(p), tail3(q));
}

/// The year field of the rendered text: a leading `-` for a negative year,
/// then four digits.
spec fn year_text(y: i32) -> Seq<char> {
    if y < 0 {
        seq!['-'] + fixed_digits((-y) as nat, 4)
    } else {
        fixed_digits(y as nat, 4)
    }
}

proof fn lemma_fixed_digits_first(n: nat, w: nat)
    requires
        w > 0,
    ensures
        48 <= (fixed_digits(n, w)[0] as u32) <= 57,
    decreases w,
{
    lemma_fixed_digits_len(n, w);
    if w > 1 {
        lemma_fixed_digits_first(n / 10, (w - 1) as nat);
        lemma_fixed_digits_len(n / 10, (w - 1) as nat);
        assert(fixed_digits(n, w)[0] == fixed_digits(n / 10, (w - 1) as nat)[0]);
    } else {
        assert(fixed_digits(n / 10, 0) =~= Seq::<char>::empty());
        assert(fixed_digits(n, w)[0] == crate::text::digit_char(n % 10));
    }
}

proof fn lemma_iso_text_split(p: UtcParts)
    ensures
        iso_text(p) == year_text(p.year) + (seq!['-'] + tail2(p)),
{
    assert(iso_text(p) =~= year_text(p.year) + (seq!['-'] + tail2(p)));
}

/// Fixed-width RFC 3339 text sorts chronologically: an earlier UTC date and
/// time renders as text that sorts first, and the same date and time renders
/// as the same text. This holds for every pair except two instants in
/// different negative years (`-0002` sorts after `-0001` as text).
#[verifier::spinoff_prover]
#[verifier::rlimit(60)]
pub proof fn lemma_iso_text_order_is_chronological(p: UtcParts, q: UtcParts)
    requires
        parts_in_range(p),
        parts_in_range(q),
        !(p.year < 0 && q.year < 0 && p.year != q.year),
    ensures
        parts_lt(p, q) ==> chars_lt(iso_text(p), iso_text(q)),
        p == q ==> iso_text(p) == iso_text(q),
{
    lemma_iso_text_split(p);
    lemma_iso_text_split(q);
    if parts_lt(p, q) {
        if p.year == q.year {
            lemma_same_year_tail_order(p, q);
            lemma_lt_prefix(seq!['-'], tail2(p), tail2(q));
            lemma_lt_prefix(year_text(p.year), seq!['-'] + tail2(p), seq!['-'] + tail2(q));
        } else if p.year >= 0 {
            assert(pow10(4) == 10000) by {
                reveal_with_fuel(pow10, 5);
            }
            lemma_field_step(p.year as nat, q.year as nat, 4, '-', tail2(p), tail2(q));
        } else {
            lemma_fixed_digits_first(q.year as nat, 4);
            lemma_fixed_digits_len(q.year as nat, 4);
            let a = iso_text(p);
            let b = iso_text(q);
            assert(a[0] == '-');
            assert(b[0] == fixed_digits(q.year as nat, 4)[0]);
            assert(a.len() > 0 && b.len() > 0);
            assert((a[0] as u32) < (b[0] as u32));
        }
    }
}

/// RFC 3339 UTC timestamp: the date-time, and its instant in nanoseconds
/// after the Unix epoch.
#[derive(Clone, Copy, Debug)]
pub struct Timestamp(time::OffsetDateTime, i128);

impl Timestamp {
    /// The date-time held.
    pub closed spec fn instant(&self) -> time::OffsetDateTime {
        self.0
    }

    /// Its instant, in nanoseconds after the Unix epoch.
    pub closed spec fn nanos(&self) -> i128 {
        self.1
    }

    /// The stored instant is the date-time's.
    #[verifier::type_invariant]
    spec fn nanos_of_instant(self) -> bool {
        self.1 == unix_nanos_of(self.0)
    }

    /// The current time; its UTC date lies in the supported range.
    pub fn now_utc() -> (t: Self)
        ensures
            t.nanos() == unix_nanos_of(t.instant()),
            utc_parts_of(t.nanos()) matches Some(p) && parts_in_range(p),
    {
        let (v, n) = current_time();
        Timestamp(v, n)
    }

    /// The current UTC time as fixed-width RFC 3339 text.
    pub fn now_iso() -> (s: String)
        ensures
            exists|n: i128|
                #![trigger utc_parts_of(n)]
                utc_parts_of(n) matches Some(p) && parts_in_range(p) && s@ == iso_text(p),
    {
        let (_, n) = current_time();
        match utc_parts(n) {
            Some(p) => format_iso(&p),
            None => {
                proof {
                    assert(false);
                }
                String::new()
            },
        }
    }

    /// This instant in the same form `now_iso` produces, or `None` when its
    /// UTC date leaves the supported range.
    pub fn to_iso(self) -> (s: Option<String>)
        ensures
            s is Some <==> utc_parts_of(self.nanos()) is Some,
            s matches Some(text) ==> text@ == iso_text(utc_parts_of(self.nanos())->0),
            self.nanos() == unix_nanos_of(self.instant()),
    {
        proof {
            use_type_invariant(self);
        }
        iso_fixed_micros(self.1)
    }

    pub fn from_offset_date_time(value: time::OffsetDateTime) -> (t: Self)
        ensures
            t.instant() == value,
            t.nanos() == unix_nanos_of(value),
    {
        let n = unix_nanos(&value);
        Timestamp(value, n)
    }

    pub fn as_offset_date_time(self) -> (v: time::OffsetDateTime)
        ensures
            v == self.instant(),
    {
        self.0
    }
}

} // verus!
