//! Timestamp formatting.
//!
//! A timestamp is a string of exactly 17 ASCII digits: four for the year,
//! two each for month, day, hour, minute and second, and three for the
//! millisecond, zero-padded and concatenated with no separators. The fixed
//! widths make the strings sort lexicographically in time order, which is
//! proved here as `lemma_timestamp_sorts`.

use vstd::arithmetic::div_mod::lemma_div_is_ordered;
use vstd::arithmetic::div_mod::lemma_fundamental_div_mod;
use vstd::prelude::*;

verus! {

/// A point in UTC time, split into calendar fields at millisecond
/// resolution.
pub struct TimeFields {
    pub year: u32,
    pub month: u32,
    pub day: u32,
    pub hour: u32,
    pub minute: u32,
    pub second: u32,
    pub millis: u32,
}

impl TimeFields {
    /// The instants the 17-digit format can represent: a four-digit year
    /// and calendar-range values for the remaining fields.
    pub open spec fn valid(self) -> bool {
        &&& self.year <= 9999
        &&& 1 <= self.month <= 12
        &&& 1 <= self.day <= 31
        &&& self.hour <= 23
        &&& self.minute <= 59
        &&& self.second <= 59
        &&& self.millis <= 999
    }
}

/// Strictly-earlier order on time fields: lexicographic from the most
/// significant field down. For valid fields this is wall-clock order at
/// millisecond resolution.
pub open spec fn fields_lt(a: TimeFields, b: TimeFields) -> bool {
    if a.year != b.year {
        a.year < b.year
    } else if a.month != b.month {
        a.month < b.month
    } else if a.day != b.day {
        a.day < b.day
    } else if a.hour != b.hour {
        a.hour < b.hour
    } else if a.minute != b.minute {
        a.minute < b.minute
    } else if a.second != b.second {
        a.second < b.second
    } else {
        a.millis < b.millis
    }
}

/// Ten to the `w`-th power.
pub open spec fn pow10(w: nat) -> nat
    decreases w,
{
    if w == 0 {
        1
    } else {
        10 * pow10((w - 1) as nat)
    }
}

/// The ASCII digit for `v`'s lowest decimal digit.
pub open spec fn dec_digit(v: nat) -> u8 {
    (48 + v % 10) as u8
}

/// The lowest `width` decimal digits of `v` as ASCII bytes, most
/// significant first, zero-padded to exactly `width` bytes.
pub open spec fn padded_decimal(v: nat, width: nat) -> Seq<u8>
    decreases width,
{
    if width == 0 {
        Seq::empty()
    } else {
        padded_decimal(v / 10, (width - 1) as nat) + seq![dec_digit(v)]
    }
}

/// The 17-digit rendering of the given time fields.
pub open spec fn timestamp_seq(t: TimeFields) -> Seq<u8> {
    padded_decimal(t.year as nat, 4) + (padded_decimal(t.month as nat, 2) + (padded_decimal(
        t.day as nat,
        2,
    ) + (padded_decimal(t.hour as nat, 2) + (padded_decimal(t.minute as nat, 2) + (padded_decimal(
        t.second as nat,
        2,
    ) + padded_decimal(t.millis as nat, 3))))))
}

/// Whether a byte is an ASCII decimal digit.
pub open spec fn is_digit_byte(b: u8) -> bool {
    48 <= b <= 57
}

/// A zero-padded decimal rendering has exactly `width` bytes, all of them
/// ASCII digits.
pub proof fn lemma_padded_decimal_wf(v: nat, width: nat)
    ensures
        padded_decimal(v, width).len() == width,
        forall|i: int|
            0 <= i < width ==> is_digit_byte(#[trigger] padded_decimal(v, width)[i]),
    decreases width,
{
    if width > 0 {
        lemma_padded_decimal_wf(v / 10, (width - 1) as nat);
    }
}

/// Every timestamp rendering consists of exactly 17 ASCII digit bytes.
pub proof fn lemma_timestamp_seq_wf(t: TimeFields)
    ensures
        timestamp_seq(t).len() == 17,
        forall|i: int|
            0 <= i < 17 ==> is_digit_byte(#[trigger] timestamp_seq(t)[i]),
{
    lemma_padded_decimal_wf(t.year as nat, 4);
    lemma_padded_decimal_wf(t.month as nat, 2);
    lemma_padded_decimal_wf(t.day as nat, 2);
    lemma_padded_decimal_wf(t.hour as nat, 2);
    lemma_padded_decimal_wf(t.minute as nat, 2);
    lemma_padded_decimal_wf(t.second as nat, 2);
    lemma_padded_decimal_wf(t.millis as nat, 3);
}

/// Append the lowest `width` decimal digits of `v` to `out`, most
/// significant first, zero-padded to exactly `width` bytes.
fn push_padded(out: &mut Vec<u8>, v: u32, width: u32)
    ensures
        final(out)@ == old(out)@ + padded_decimal(v as nat, width as nat),
    decreases width,
{
    if width > 0 {
        push_padded(out, v / 10, width - 1);
        let d: u8 = 48 + (v % 10) as u8;
        out.push(d);
        proof {
            assert(out@ =~= old(out)@ + padded_decimal(v as nat, width as nat));
        }
    } else {
        proof {
            assert(old(out)@ + padded_decimal(v as nat, 0) =~= old(out)@);
        }
    }
}

/// Render the given instant as its 17-digit timestamp.
pub fn format_timestamp(t: &TimeFields) -> (r: Vec<u8>)
    requires
        t.valid(),
    ensures
        r@ == timestamp_seq(*t),
        r@.len() == 17,
        forall|i: int| 0 <= i < 17 ==> is_digit_byte(#[trigger] r@[i]),
{
    let mut out: Vec<u8> = Vec::new();
    push_padded(&mut out, t.year, 4);
    push_padded(&mut out, t.month, 2);
    push_padded(&mut out, t.day, 2);
    push_padded(&mut out, t.hour, 2);
    push_padded(&mut out, t.minute, 2);
    push_padded(&mut out, t.second, 2);
    push_padded(&mut out, t.millis, 3);
    proof {
        assert(out@ =~= timestamp_seq(*t));
        lemma_timestamp_seq_wf(*t);
    }
    out
}

/// Build valid time fields from raw calendar values, rejecting instants
/// outside the representable range. A year outside `0..=9999` or a field
/// outside its calendar range yields `None`; a millisecond count of 1000
/// or more (as a leap second is rendered) is clamped to 999.
pub fn fields_from_raw(
    year: i32,
    month: u32,
    day: u32,
    hour: u32,
    minute: u32,
    second: u32,
    millis: u32,
) -> (r: Option<TimeFields>)
    ensures
        r is Some <==> (0 <= year <= 9999 && 1 <= month <= 12 && 1 <= day <= 31 && hour <= 23
            && minute <= 59 && second <= 59),
        r is Some ==> r->Some_0 == (TimeFields {
            year: year as u32,
            month,
            day,
            hour,
            minute,
            second,
            millis: if millis <= 999 { millis } else { 999u32 },
        }),
        r is Some ==> r->Some_0.valid(),
{
    if 0 <= year && year <= 9999 && 1 <= month && month <= 12 && 1 <= day && day <= 31 && hour <= 23
        && minute <= 59 && second <= 59 {
        let ms: u32 = if millis <= 999 {
            millis
        } else {
            999
        };
        Some(
            TimeFields {
                year: year as u32,
                month,
                day,
                hour,
                minute,
                second,
                millis: ms,
            },
        )
    } else {
        None
    }
}

/// Relies on `chrono::Utc::now`, the `chrono::Datelike` /
/// `chrono::Timelike` accessors and `DateTime::timestamp_subsec_millis`:
/// the current UTC wall-clock time split into calendar fields. Month is
/// 1..=12, day 1..=31, hour 0..=23, minute and second 0..=59; the
/// millisecond count can reach 1999 while a leap second is represented.
#[verifier::external_body]
fn utc_now_raw() -> (t: (i32, u32, u32, u32, u32, u32, u32))
    ensures
        1 <= t.1 <= 12,
        1 <= t.2 <= 31,
        t.3 <= 23,
        t.4 <= 59,
        t.5 <= 59,
        t.6 <= 1999,
{
    let now = chrono::Utc::now();
    (
        chrono::Datelike::year(&now),
        chrono::Datelike::month(&now),
        chrono::Datelike::day(&now),
        chrono::Timelike::hour(&now),
        chrono::Timelike::minute(&now),
        chrono::Timelike::second(&now),
        now.timestamp_subsec_millis(),
    )
}

/// The current UTC time as valid time fields, or `None` for an instant
/// whose year falls outside the four-digit range of the format.
pub fn now_fields() -> (r: Option<TimeFields>)
    ensures
        r is Some ==> r->Some_0.valid(),
{
    let (year, month, day, hour, minute, second, millis) = utc_now_raw();
    fields_from_raw(year, month, day, hour, minute, second, millis)
}

/// Strict lexicographic order on byte sequences.
pub open spec fn lex_lt(a: Seq<u8>, b: Seq<u8>) -> bool
    decreases a.len(),
{
    if b.len() == 0 {
        false
    } else if a.len() == 0 {
        true
    } else if a[0] < b[0] {
        true
    } else if a[0] == b[0] {
        lex_lt(a.skip(1), b.skip(1))
    } else {
        false
    }
}

/// Appending anything to two equal-length sequences preserves a strict
/// lexicographic difference.
proof fn lemma_lex_lt_append(a: Seq<u8>, b: Seq<u8>, x: Seq<u8>, y: Seq<u8>)
    requires
        a.len() == b.len(),
        lex_lt(a, b),
    ensures
        lex_lt(a + x, b + y),
    decreases a.len(),
{
    assert(b.len() > 0);
    assert(a.len() > 0);
    assert((a + x).len() > 0);
    assert((b + y).len() > 0);
    assert((a + x)[0] == a[0]);
    assert((b + y)[0] == b[0]);
    if a[0] == b[0] {
        assert((a + x).skip(1) =~= a.skip(1) + x);
        assert((b + y).skip(1) =~= b.skip(1) + y);
        lemma_lex_lt_append(a.skip(1), b.skip(1), x, y);
    }
}

/// A common prefix does not disturb a strict lexicographic difference of
/// the suffixes.
proof fn lemma_lex_lt_common_prefix(p: Seq<u8>, x: Seq<u8>, y: Seq<u8>)
    requires
        lex_lt(x, y),
    ensures
        lex_lt(p + x, p + y),
    decreases p.len(),
{
    if p.len() == 0 {
        assert(p + x =~= x);
        assert(p + y =~= y);
    } else {
        assert(y.len() > 0);
        assert((p + y).len() > 0);
        assert((p + x)[0] == (p + y)[0]);
        assert((p + x).skip(1) =~= p.skip(1) + x);
        assert((p + y).skip(1) =~= p.skip(1) + y);
        lemma_lex_lt_common_prefix(p.skip(1), x, y);
    }
}

/// Combine the two: equal-width leading fields decide the comparison when
/// they differ, and defer to the suffixes when they are equal.
proof fn lemma_lex_lt_concat(a: Seq<u8>, x: Seq<u8>, b: Seq<u8>, y: Seq<u8>)
    requires
        a.len() == b.len(),
        lex_lt(a, b) || (a == b && lex_lt(x, y)),
    ensures
        lex_lt(a + x, b + y),
{
    if lex_lt(a, b) {
        lemma_lex_lt_append(a, b, x, y);
    } else {
        lemma_lex_lt_common_prefix(a, x, y);
    }
}

/// Zero-padded renderings of two values below `pow10(width)` compare
/// lexicographically exactly as the values compare numerically.
proof fn lemma_padded_decimal_lt(v1: nat, v2: nat, width: nat)
    requires
        v1 < v2,
        v2 < pow10(width),
    ensures
        lex_lt(padded_decimal(v1, width), padded_decimal(v2, width)),
    decreases width,
{
    if width == 0 {
        assert(v2 < 1);
        assert(false);
    } else {
        let q1 = v1 / 10;
        let q2 = v2 / 10;
        lemma_fundamental_div_mod(v1 as int, 10);
        lemma_fundamental_div_mod(v2 as int, 10);
        lemma_div_is_ordered(v1 as int, v2 as int, 10);
        assert(10 * q2 <= v2);
        assert(q2 < pow10((width - 1) as nat));
        lemma_padded_decimal_wf(q1, (width - 1) as nat);
        lemma_padded_decimal_wf(q2, (width - 1) as nat);
        if q1 == q2 {
            assert(v1 % 10 < v2 % 10);
            let c1 = dec_digit(v1);
            let c2 = dec_digit(v2);
            assert(c1 < c2);
            assert(lex_lt(seq![c1], seq![c2]));
            lemma_lex_lt_concat(
                padded_decimal(q1, (width - 1) as nat),
                seq![c1],
                padded_decimal(q2, (width - 1) as nat),
                seq![c2],
            );
        } else {
            assert(q1 < q2);
            lemma_padded_decimal_lt(q1, q2, (width - 1) as nat);
            lemma_lex_lt_concat(
                padded_decimal(q1, (width - 1) as nat),
                seq![dec_digit(v1)],
                padded_decimal(q2, (width - 1) as nat),
                seq![dec_digit(v2)],
            );
        }
    }
}

/// Timestamps sort in time order: for two valid instants at least one
/// millisecond apart, the earlier instant's 17-digit string is strictly
/// lexicographically smaller.
pub proof fn lemma_timestamp_sorts(t1: TimeFields, t2: TimeFields)
    requires
        t1.valid(),
        t2.valid(),
        fields_lt(t1, t2),
    ensures
        lex_lt(timestamp_seq(t1), timestamp_seq(t2)),
{
    assert(pow10(0) == 1);
    assert(pow10(1) == 10);
    assert(pow10(2) == 100);
    assert(pow10(3) == 1000);
    assert(pow10(4) == 10000);
    lemma_padded_decimal_wf(t1.year as nat, 4);
    lemma_padded_decimal_wf(t2.year as nat, 4);
    lemma_padded_decimal_wf(t1.month as nat, 2);
    lemma_padded_decimal_wf(t2.month as nat, 2);
    lemma_padded_decimal_wf(t1.day as nat, 2);
    lemma_padded_decimal_wf(t2.day as nat, 2);
    lemma_padded_decimal_wf(t1.hour as nat, 2);
    lemma_padded_decimal_wf(t2.hour as nat, 2);
    lemma_padded_decimal_wf(t1.minute as nat, 2);
    lemma_padded_decimal_wf(t2.minute as nat, 2);
    lemma_padded_decimal_wf(t1.second as nat, 2);
    lemma_padded_decimal_wf(t2.second as nat, 2);
    let rest1_s = padded_decimal(t1.second as nat, 2) + padded_decimal(t1.millis as nat, 3);
    let rest2_s = padded_decimal(t2.second as nat, 2) + padded_decimal(t2.millis as nat, 3);
    let rest1_mi = padded_decimal(t1.minute as nat, 2) + rest1_s;
    let rest2_mi = padded_decimal(t2.minute as nat, 2) + rest2_s;
    let rest1_h = padded_decimal(t1.hour as nat, 2) + rest1_mi;
    let rest2_h = padded_decimal(t2.hour as nat, 2) + rest2_mi;
    let rest1_d = padded_decimal(t1.day as nat, 2) + rest1_h;
    let rest2_d = padded_decimal(t2.day as nat, 2) + rest2_h;
    let rest1_mo = padded_decimal(t1.month as nat, 2) + rest1_d;
    let rest2_mo = padded_decimal(t2.month as nat, 2) + rest2_d;
    if t1.year < t2.year {
        lemma_padded_decimal_lt(t1.year as nat, t2.year as nat, 4);
    } else {
        if t1.month < t2.month {
            lemma_padded_decimal_lt(t1.month as nat, t2.month as nat, 2);
        } else {
            if t1.day < t2.day {
                lemma_padded_decimal_lt(t1.day as nat, t2.day as nat, 2);
            } else {
                if t1.hour < t2.hour {
                    lemma_padded_decimal_lt(t1.hour as nat, t2.hour as nat, 2);
                } else {
                    if t1.minute < t2.minute {
                        lemma_padded_decimal_lt(t1.minute as nat, t2.minute as nat, 2);
                    } else {
                        if t1.second < t2.second {
                            lemma_padded_decimal_lt(t1.second as nat, t2.second as nat, 2);
                        } else {
                            lemma_padded_decimal_lt(t1.millis as nat, t2.millis as nat, 3);
                        }
                        lemma_lex_lt_concat(
                            padded_decimal(t1.second as nat, 2),
                            padded_decimal(t1.millis as nat, 3),
                            padded_decimal(t2.second as nat, 2),
                            padded_decimal(t2.millis as nat, 3),
                        );
                    }
                    lemma_lex_lt_concat(
                        padded_decimal(t1.minute as nat, 2),
                        rest1_s,
                        padded_decimal(t2.minute as nat, 2),
                        rest2_s,
                    );
                }
                lemma_lex_lt_concat(
                    padded_decimal(t1.hour as nat, 2),
                    rest1_mi,
                    padded_decimal(t2.hour as nat, 2),
                    rest2_mi,
                );
            }
            lemma_lex_lt_concat(
                padded_decimal(t1.day as nat, 2),
                rest1_h,
                padded_decimal(t2.day as nat, 2),
                rest2_h,
            );
        }
        lemma_lex_lt_concat(
            padded_decimal(t1.month as nat, 2),
            rest1_d,
            padded_decimal(t2.month as nat, 2),
            rest2_d,
        );
    }
    lemma_lex_lt_concat(
        padded_decimal(t1.year as nat, 4),
        rest1_mo,
        padded_decimal(t2.year as nat, 4),
        rest2_mo,
    );
}

} // verus!
