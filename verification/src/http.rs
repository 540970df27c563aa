use vstd::prelude::*;
use crate::bytes::ascii_lower;
use crate::bytes::matches_at;
use crate::bytes::matches_at_ci;
use crate::bytes::spec_ascii_lower;
use crate::bytes::spec_is_digit;
use crate::bytes::spec_is_space;
use crate::bytes::starts_with_at;
use crate::bytes::starts_with_at_ci;

verus! {

// ---------------------------------------------------------------------------
// Header fields
// ---------------------------------------------------------------------------

/// First index at or after `i` (and before `len`) that holds neither a space nor a tab.
pub open spec fn skip_blanks(buf: Seq<u8>, i: int, len: int) -> int
    decreases len - i,
{
    if i < len && (buf[i] == 32 || buf[i] == 9) {
        skip_blanks(buf, i + 1, len)
    } else {
        i
    }
}

/// First index at or after `i` (and before `len`) that holds `\r` or `\n`.
pub open spec fn line_end(buf: Seq<u8>, i: int, len: int) -> int
    decreases len - i,
{
    if i < len && buf[i] != 13 && buf[i] != 10 {
        line_end(buf, i + 1, len)
    } else {
        i
    }
}

pub proof fn lemma_skip_blanks(buf: Seq<u8>, i: int, len: int)
    requires
        i <= len,
    ensures
        i <= skip_blanks(buf, i, len) <= len,
    decreases len - i,
{
    if i < len && (buf[i] == 32 || buf[i] == 9) {
        lemma_skip_blanks(buf, i + 1, len);
    }
}

pub proof fn lemma_line_end(buf: Seq<u8>, i: int, len: int)
    requires
        i <= len,
    ensures
        i <= line_end(buf, i, len) <= len,
    decreases len - i,
{
    if i < len && buf[i] != 13 && buf[i] != 10 {
        lemma_line_end(buf, i + 1, len);
    }
}

/// The value of the first `name:` found at an offset from `i` to `last`, names compared
/// without case: the bounds of the rest of its line without leading blanks, `None` when
/// that is empty or no such name is found.
pub open spec fn header_from(buf: Seq<u8>, len: int, name: Seq<u8>, i: int, last: int) -> Option<
    (int, int),
>
    decreases last + 1 - i,
{
    if i > last {
        None
    } else if matches_at_ci(buf, i, name) && buf[i + name.len()] == 58 {
        let s = skip_blanks(buf, i + name.len() + 1, len);
        let e = line_end(buf, s, len);
        if s < e {
            Some((s, e))
        } else {
            None
        }
    } else {
        header_from(buf, len, name, i + 1, last)
    }
}

pub open spec fn spec_header_value(buf: Seq<u8>, len: int, name: Seq<u8>) -> Option<(int, int)> {
    header_from(buf, len, name, 0, len - name.len() - 2)
}

pub proof fn lemma_header_from(buf: Seq<u8>, len: int, name: Seq<u8>, i: int, last: int)
    requires
        0 <= i,
        last + name.len() + 1 < len + 1,
    ensures
        header_from(buf, len, name, i, last) matches Some((s, e)) ==> 0 <= s < e <= len,
    decreases last + 1 - i,
{
    if i > last {
    } else if matches_at_ci(buf, i, name) && buf[i + name.len()] == 58 {
        lemma_skip_blanks(buf, i + name.len() + 1, len);
        lemma_line_end(buf, skip_blanks(buf, i + name.len() + 1, len), len);
    } else {
        lemma_header_from(buf, len, name, i + 1, last);
    }
}

fn header_search(buf: &[u8], len: usize, name: &[u8], last: usize) -> (r: Option<(usize, usize)>)
    requires
        len <= buf.len(),
        last + name.len() + 1 <= len,
    ensures
        r matches Some((s, e)) ==> header_from(buf@, len as int, name@, 0, last as int) == Some(
            (s as int, e as int),
        ),
        r is None ==> header_from(buf@, len as int, name@, 0, last as int) is None,
{
    let mut i = 0usize;
    while i <= last
        invariant
            len <= buf.len(),
            last + name.len() + 1 <= len,
            header_from(buf@, len as int, name@, 0, last as int) == header_from(
                buf@,
                len as int,
                name@,
                i as int,
                last as int,
            ),
        decreases last + 1 - i,
    {
        if starts_with_at_ci(buf, len, i, name) && buf[i + name.len()] == 58u8 {
            let mut start = i + name.len() + 1;
            while start < len && (buf[start] == 32u8 || buf[start] == 9u8)
                invariant
                    i + name.len() + 1 <= start <= len <= buf.len(),
                    skip_blanks(buf@, start as int, len as int) == skip_blanks(
                        buf@,
                        i + name.len() + 1,
                        len as int,
                    ),
                decreases len - start,
            {
                start += 1;
            }
            let mut end = start;
            while end < len && buf[end] != 13u8 && buf[end] != 10u8
                invariant
                    start <= end <= len <= buf.len(),
                    line_end(buf@, end as int, len as int) == line_end(buf@, start as int, len as int),
                decreases len - end,
            {
                end += 1;
            }
            if start < end {
                return Some((start, end));
            }
            return None;
        }
        i += 1;
    }
    None
}

/// Bounds of the value of the header field `name` in the first `len` bytes of `buf`
/// (see `header_from`).
pub fn header_value(buf: &[u8], len: usize, name: &[u8]) -> (r: Option<(usize, usize)>)
    requires
        len <= buf.len(),
    ensures
        r matches Some((s, e)) ==> spec_header_value(buf@, len as int, name@) == Some(
            (s as int, e as int),
        ) && s < e <= len,
        r is None ==> spec_header_value(buf@, len as int, name@) is None,
{
    if name.len() > len || len - name.len() < 2 {
        return None;
    }
    let r = header_search(buf, len, name, len - name.len() - 2);
    proof {
        lemma_header_from(buf@, len as int, name@, 0, len - name.len() - 2);
    }
    r
}

pub open spec fn location_name() -> Seq<u8> {
    seq![108u8, 111, 99, 97, 116, 105, 111, 110]
}

/// Bounds of the value of a `Location:` field, found the way `header_value` finds one,
/// at any offset that leaves room for the name and its colon.
pub open spec fn spec_find_location(buf: Seq<u8>, len: int) -> Option<(int, int)> {
    header_from(buf, len, location_name(), 0, len - 9)
}

pub fn find_location(buf: &[u8], len: usize) -> (r: Option<(usize, usize)>)
    requires
        len <= buf.len(),
    ensures
        r matches Some((s, e)) ==> spec_find_location(buf@, len as int) == Some((s as int, e as int))
            && s < e <= len,
        r is None ==> spec_find_location(buf@, len as int) is None,
{
    let name: &[u8] = &[108u8, 111, 99, 97, 116, 105, 111, 110];
    assert(name@ =~= location_name());
    if len < 9 {
        return None;
    }
    let r = header_search(buf, len, name, len - 9);
    proof {
        lemma_header_from(buf@, len as int, name@, 0, len - 9);
    }
    r
}

// ---------------------------------------------------------------------------
// Status line
// ---------------------------------------------------------------------------

pub open spec fn digit_value(b: u8) -> int {
    b - 48
}

/// The status code of `HTTP/1.1` or `HTTP/1.0` followed by spaces and three digits within
/// the first `len` bytes; 0 for anything else or fewer than 12 bytes.
pub open spec fn spec_parse_status(buf: Seq<u8>, len: int) -> u16 {
    let i = crate::bytes::skip_spaces_only(buf, 8, len);
    if len < 12 || !(matches_at(buf, 0, seq![72u8, 84, 84, 80, 47, 49, 46, 49]) || matches_at(buf, 0, seq![72u8, 84, 84, 80, 47, 49, 46, 48])) {
        0
    } else if i + 2 >= len || !spec_is_digit(buf[i]) || !spec_is_digit(buf[i + 1]) || !spec_is_digit(
        buf[i + 2],
    ) {
        0
    } else {
        (digit_value(buf[i]) * 100 + digit_value(buf[i + 1]) * 10 + digit_value(buf[i + 2])) as u16
    }
}

pub fn parse_status(buf: &[u8], len: usize) -> (r: u16)
    requires
        len <= buf.len(),
    ensures
        r == spec_parse_status(buf@, len as int),
{
    if len < 12 {
        return 0;
    }
    let v11: &[u8] = &[72u8, 84, 84, 80, 47, 49, 46, 49];
    let v10: &[u8] = &[72u8, 84, 84, 80, 47, 49, 46, 48];
    assert(v11@ =~= seq![72u8, 84, 84, 80, 47, 49, 46, 49]);
    assert(v10@ =~= seq![72u8, 84, 84, 80, 47, 49, 46, 48]);
    if !(starts_with_at(buf, buf.len(), 0, v11) || starts_with_at(buf, buf.len(), 0, v10)) {
        return 0;
    }
    let mut i = 8usize;
    while i < len && buf[i] == 32u8
        invariant
            8 <= i <= len <= buf.len(),
            crate::bytes::skip_spaces_only(buf@, i as int, len as int) == crate::bytes::skip_spaces_only(
                buf@,
                8,
                len as int,
            ),
        decreases len - i,
    {
        i += 1;
    }
    if len - i <= 2 {
        return 0;
    }
    let a = buf[i];
    let b = buf[i + 1];
    let c = buf[i + 2];
    if !(48u8 <= a && a <= 57u8 && 48u8 <= b && b <= 57u8 && 48u8 <= c && c <= 57u8) {
        return 0;
    }
    ((a - 48u8) as u16) * 100 + ((b - 48u8) as u16) * 10 + (c - 48u8) as u16
}

// ---------------------------------------------------------------------------
// Dates (`Date:` fields, in the IMF-fixdate form)
// ---------------------------------------------------------------------------

pub open spec fn spec_is_leap(year: int) -> bool {
    (year % 4 == 0 && year % 100 != 0) || year % 400 == 0
}

pub fn is_leap(year: u16) -> (r: bool)
    ensures
        r == spec_is_leap(year as int),
{
    (year % 4 == 0 && year % 100 != 0) || (year % 400 == 0)
}

pub open spec fn month_offset(month: int) -> int {
    if month == 1 {
        0
    } else if month == 2 {
        31
    } else if month == 3 {
        59
    } else if month == 4 {
        90
    } else if month == 5 {
        120
    } else if month == 6 {
        151
    } else if month == 7 {
        181
    } else if month == 8 {
        212
    } else if month == 9 {
        243
    } else if month == 10 {
        273
    } else if month == 11 {
        304
    } else {
        334
    }
}

/// Days of `year` before the first of `month`; `None` for a month outside 1 to 12.
pub open spec fn spec_days_before_month(year: int, month: int) -> Option<u16> {
    if month < 1 || month > 12 {
        None
    } else {
        Some(
            (month_offset(month) + if spec_is_leap(year) && month > 2 {
                1int
            } else {
                0int
            }) as u16,
        )
    }
}

pub fn days_before_month(year: u16, month: u8) -> (r: Option<u16>)
    ensures
        r == spec_days_before_month(year as int, month as int),
{
    let leap = is_leap(year);
    let days: u16 = if month == 1 {
        0
    } else if month == 2 {
        31
    } else if month == 3 {
        31 + 28
    } else if month == 4 {
        31 + 28 + 31
    } else if month == 5 {
        31 + 28 + 31 + 30
    } else if month == 6 {
        31 + 28 + 31 + 30 + 31
    } else if month == 7 {
        31 + 28 + 31 + 30 + 31 + 30
    } else if month == 8 {
        31 + 28 + 31 + 30 + 31 + 30 + 31
    } else if month == 9 {
        31 + 28 + 31 + 30 + 31 + 30 + 31 + 31
    } else if month == 10 {
        31 + 28 + 31 + 30 + 31 + 30 + 31 + 31 + 30
    } else if month == 11 {
        31 + 28 + 31 + 30 + 31 + 30 + 31 + 31 + 30 + 31
    } else if month == 12 {
        31 + 28 + 31 + 30 + 31 + 30 + 31 + 31 + 30 + 31 + 30
    } else {
        return None;
    };
    Some(
        days + if leap && month > 2 {
            1
        } else {
            0
        },
    )
}

/// Days from 1970-01-01 to the first of January of `year`.
pub open spec fn days_until(year: int) -> int
    decreases year - 1970,
{
    if year <= 1970 {
        0
    } else {
        days_until(year - 1) + if spec_is_leap(year - 1) {
            366int
        } else {
            365int
        }
    }
}

pub proof fn lemma_days_until_bound(year: int)
    requires
        year >= 1970,
    ensures
        0 <= days_until(year) <= 366 * (year - 1970),
    decreases year - 1970,
{
    if year > 1970 {
        lemma_days_until_bound(year - 1);
    }
}

/// Seconds since 1970-01-01T00:00:00 of a calendar date and time; `None` before 1970, for
/// a month outside 1 to 12 or a day outside 1 to 31. Hours, minutes and seconds are not
/// range-checked, and every month is taken to have up to 31 days.
pub open spec fn spec_date_to_epoch(year: int, month: int, day: int, hour: int, min: int, sec: int) -> Option<
    u64,
> {
    if year < 1970 || month < 1 || month > 12 || day < 1 || day > 31 {
        None
    } else {
        Some(
            ((days_until(year) + spec_days_before_month(year, month).unwrap() + day - 1) * 86400 + hour
                * 3600 + min * 60 + sec) as u64,
        )
    }
}

pub fn date_to_epoch(year: u16, month: u8, day: u8, hour: u8, min: u8, sec: u8) -> (r: Option<u64>)
    ensures
        r == spec_date_to_epoch(
            year as int,
            month as int,
            day as int,
            hour as int,
            min as int,
            sec as int,
        ),
{
    if year < 1970 || month == 0 || month > 12 || day == 0 || day > 31 {
        return None;
    }
    let mut days: u64 = 0;
    let mut y: u16 = 1970;
    while y < year
        invariant
            1970 <= y <= year,
            days == days_until(y as int),
        decreases year - y,
    {
        proof {
            lemma_days_until_bound(y as int);
        }
        days += if is_leap(y) {
            366
        } else {
            365
        };
        y += 1;
    }
    proof {
        lemma_days_until_bound(year as int);
    }
    let month_days = match days_before_month(year, month) {
        Some(v) => v,
        None => return None,
    };
    days += month_days as u64;
    days += (day as u64) - 1;
    let secs = days * 86400 + (hour as u64) * 3600 + (min as u64) * 60 + (sec as u64);
    Some(secs)
}

/// Two decimal digits at `i`, when two bytes remain there.
pub open spec fn two_digits(buf: Seq<u8>, i: int) -> Option<u8> {
    if i + 1 >= buf.len() || !spec_is_digit(buf[i]) || !spec_is_digit(buf[i + 1]) {
        None
    } else {
        Some((digit_value(buf[i]) * 10 + digit_value(buf[i + 1])) as u8)
    }
}

pub fn parse_2digits(buf: &[u8], idx: &mut usize) -> (r: Option<u8>)
    ensures
        r == two_digits(buf@, *old(idx) as int),
        r is Some ==> *final(idx) == *old(idx) + 2,
        r is None ==> *final(idx) == *old(idx),
{
    if *idx >= buf.len() || buf.len() - *idx < 2 {
        return None;
    }
    let b0 = buf[*idx];
    let b1 = buf[*idx + 1];
    if !(48u8 <= b0 && b0 <= 57u8) || !(48u8 <= b1 && b1 <= 57u8) {
        return None;
    }
    *idx += 2;
    Some((b0 - 48u8) * 10 + (b1 - 48u8))
}

/// Four decimal digits at `i`, when four bytes remain there.
pub open spec fn four_digits(buf: Seq<u8>, i: int) -> Option<u16> {
    if i + 3 >= buf.len() || !spec_is_digit(buf[i]) || !spec_is_digit(buf[i + 1]) || !spec_is_digit(
        buf[i + 2],
    ) || !spec_is_digit(buf[i + 3]) {
        None
    } else {
        Some(
            (digit_value(buf[i]) * 1000 + digit_value(buf[i + 1]) * 100 + digit_value(buf[i + 2]) * 10
                + digit_value(buf[i + 3])) as u16,
        )
    }
}

pub fn parse_4digits(buf: &[u8], idx: &mut usize) -> (r: Option<u16>)
    ensures
        r == four_digits(buf@, *old(idx) as int),
        r is Some ==> *final(idx) == *old(idx) + 4,
{
    if *idx >= buf.len() || buf.len() - *idx < 4 {
        return None;
    }
    let i = *idx;
    let a = buf[i];
    let b = buf[i + 1];
    let c = buf[i + 2];
    let d = buf[i + 3];
    if !(48u8 <= a && a <= 57u8) || !(48u8 <= b && b <= 57u8) || !(48u8 <= c && c <= 57u8) || !(
    48u8 <= d && d <= 57u8) {
        return None;
    }
    *idx += 4;
    Some(((a - 48u8) as u16) * 1000 + ((b - 48u8) as u16) * 100 + ((c - 48u8) as u16) * 10 + (d
        - 48u8) as u16)
}

/// The month named by three letters at `i` (any case), when three bytes remain there.
pub open spec fn month_at(buf: Seq<u8>, i: int) -> Option<u8> {
    if i + 2 >= buf.len() {
        None
    } else {
        let a = spec_ascii_lower(buf[i]);
        let b = spec_ascii_lower(buf[i + 1]);
        let c = spec_ascii_lower(buf[i + 2]);
        month_number(a, b, c)
    }
}

pub open spec fn month_number(a: u8, b: u8, c: u8) -> Option<u8> {
    if a == 106 && b == 97 && c == 110 {
        Some(1)
    } else if a == 102 && b == 101 && c == 98 {
        Some(2)
    } else if a == 109 && b == 97 && c == 114 {
        Some(3)
    } else if a == 97 && b == 112 && c == 114 {
        Some(4)
    } else if a == 109 && b == 97 && c == 121 {
        Some(5)
    } else if a == 106 && b == 117 && c == 110 {
        Some(6)
    } else if a == 106 && b == 117 && c == 108 {
        Some(7)
    } else if a == 97 && b == 117 && c == 103 {
        Some(8)
    } else if a == 115 && b == 101 && c == 112 {
        Some(9)
    } else if a == 111 && b == 99 && c == 116 {
        Some(10)
    } else if a == 110 && b == 111 && c == 118 {
        Some(11)
    } else if a == 100 && b == 101 && c == 99 {
        Some(12)
    } else {
        None
    }
}

pub fn parse_month(buf: &[u8], idx: &mut usize) -> (r: Option<u8>)
    ensures
        r == month_at(buf@, *old(idx) as int),
        *old(idx) + 2 < buf.len() ==> *final(idx) == *old(idx) + 3,
{
    if *idx >= buf.len() || buf.len() - *idx < 3 {
        return None;
    }
    let a = ascii_lower(buf[*idx]);
    let b = ascii_lower(buf[*idx + 1]);
    let c = ascii_lower(buf[*idx + 2]);
    *idx += 3;
    if a == 106u8 && b == 97u8 && c == 110u8 {
        Some(1)
    } else if a == 102u8 && b == 101u8 && c == 98u8 {
        Some(2)
    } else if a == 109u8 && b == 97u8 && c == 114u8 {
        Some(3)
    } else if a == 97u8 && b == 112u8 && c == 114u8 {
        Some(4)
    } else if a == 109u8 && b == 97u8 && c == 121u8 {
        Some(5)
    } else if a == 106u8 && b == 117u8 && c == 110u8 {
        Some(6)
    } else if a == 106u8 && b == 117u8 && c == 108u8 {
        Some(7)
    } else if a == 97u8 && b == 117u8 && c == 103u8 {
        Some(8)
    } else if a == 115u8 && b == 101u8 && c == 112u8 {
        Some(9)
    } else if a == 111u8 && b == 99u8 && c == 116u8 {
        Some(10)
    } else if a == 110u8 && b == 111u8 && c == 118u8 {
        Some(11)
    } else if a == 100u8 && b == 101u8 && c == 99u8 {
        Some(12)
    } else {
        None
    }
}

/// Index after one optional `c` at `i`.
pub open spec fn skip_opt(buf: Seq<u8>, i: int, c: u8) -> int {
    if 0 <= i < buf.len() && buf[i] == c {
        i + 1
    } else {
        i
    }
}

/// First index at or after `i` that holds a comma (or the length).
pub open spec fn comma_from(buf: Seq<u8>, i: int) -> int
    decreases buf.len() - i,
{
    if i < buf.len() && buf[i] != 44 {
        comma_from(buf, i + 1)
    } else {
        i
    }
}

/// Where the day of an IMF-fixdate starts: after the first comma and the white space that
/// follows it.
pub open spec fn date_start(buf: Seq<u8>) -> int {
    let c = comma_from(buf, 0);
    crate::bytes::skip_spaces(buf, skip_opt(buf, c, 44), buf.len() as int)
}

/// Seconds since the epoch of a `Date:` value such as `Sun, 06 Nov 1994 08:49:37 GMT`:
/// day, month name, year, hour, minute and second after the first comma, each separator
/// optional; `None` when fewer than 17 bytes follow the comma, a part is malformed, or
/// `spec_date_to_epoch` refuses the date.
pub open spec fn spec_parse_http_date(buf: Seq<u8>) -> Option<u64> {
    let i0 = date_start(buf);
    if i0 + 16 >= buf.len() {
        None
    } else {
        match two_digits(buf, i0) {
            None => None,
            Some(day) => {
                let i1 = skip_opt(buf, i0 + 2, 32);
                match month_at(buf, i1) {
                    None => None,
                    Some(month) => {
                        let i2 = skip_opt(buf, i1 + 3, 32);
                        match four_digits(buf, i2) {
                            None => None,
                            Some(year) => {
                                let i3 = skip_opt(buf, i2 + 4, 32);
                                match two_digits(buf, i3) {
                                    None => None,
                                    Some(hour) => {
                                        let i4 = skip_opt(buf, i3 + 2, 58);
                                        match two_digits(buf, i4) {
                                            None => None,
                                            Some(min) => {
                                                let i5 = skip_opt(buf, i4 + 2, 58);
                                                match two_digits(buf, i5) {
                                                    None => None,
                                                    Some(sec) => spec_date_to_epoch(
                                                        year as int,
                                                        month as int,
                                                        day as int,
                                                        hour as int,
                                                        min as int,
                                                        sec as int,
                                                    ),
                                                }
                                            },
                                        }
                                    },
                                }
                            },
                        }
                    },
                }
            },
        }
    }
}

fn skip_opt_byte(buf: &[u8], i: &mut usize, c: u8)
    ensures
        *final(i) == skip_opt(buf@, *old(i) as int, c),
{
    if *i < buf.len() && buf[*i] == c {
        *i += 1;
    }
}

pub fn parse_http_date(buf: &[u8]) -> (r: Option<u64>)
    ensures
        r == spec_parse_http_date(buf@),
{
    let mut i = 0usize;
    while i < buf.len() && buf[i] != 44u8
        invariant
            i <= buf.len(),
            comma_from(buf@, i as int) == comma_from(buf@, 0),
        decreases buf.len() - i,
    {
        i += 1;
    }
    skip_opt_byte(buf, &mut i, 44u8);
    let ghost after = i;
    while i < buf.len() && crate::bytes::is_space(buf[i])
        invariant
            after <= i <= buf.len(),
            crate::bytes::skip_spaces(buf@, i as int, buf.len() as int) == crate::bytes::skip_spaces(
                buf@,
                after as int,
                buf.len() as int,
            ),
        decreases buf.len() - i,
    {
        i += 1;
    }
    if i >= buf.len() || buf.len() - i <= 16 {
        return None;
    }
    let day = match parse_2digits(buf, &mut i) {
        Some(v) => v,
        None => return None,
    };
    skip_opt_byte(buf, &mut i, 32u8);
    let month = match parse_month(buf, &mut i) {
        Some(v) => v,
        None => return None,
    };
    skip_opt_byte(buf, &mut i, 32u8);
    let year = match parse_4digits(buf, &mut i) {
        Some(v) => v,
        None => return None,
    };
    skip_opt_byte(buf, &mut i, 32u8);
    let hour = match parse_2digits(buf, &mut i) {
        Some(v) => v,
        None => return None,
    };
    skip_opt_byte(buf, &mut i, 58u8);
    let min = match parse_2digits(buf, &mut i) {
        Some(v) => v,
        None => return None,
    };
    skip_opt_byte(buf, &mut i, 58u8);
    let sec = match parse_2digits(buf, &mut i) {
        Some(v) => v,
        None => return None,
    };
    date_to_epoch(year, month, day, hour, min, sec)
}


// ---------------------------------------------------------------------------
// The header block
// ---------------------------------------------------------------------------

/// What the header block says about the response.
#[derive(Clone, Copy)]
pub struct HttpHeaderInfo {
    pub status: u16,
    pub chunked: bool,
    pub content_len: u64,
    pub json: bool,
    pub date: Option<u64>,
}

/// `pat` occurs (any case) at an offset from `s` to `last` of `buf`.
pub open spec fn occurs_ci(buf: Seq<u8>, pat: Seq<u8>, s: int, last: int) -> bool {
    exists|i: int| s <= i <= last && #[trigger] matches_at_ci(buf, i, pat)
}

/// The decimal digits of `buf[i..e]`, other bytes skipped, wrapping at 2^64.
pub open spec fn digit_fold(buf: Seq<u8>, i: int, e: int, acc: u64) -> u64
    decreases e - i,
{
    if i >= e {
        acc
    } else if spec_is_digit(buf[i]) {
        digit_fold(
            buf,
            i + 1,
            e,
            vstd::wrapping::u64_specs::wrapping_add(
                vstd::wrapping::u64_specs::wrapping_mul(acc, 10),
                (buf[i] - 48) as u64,
            ),
        )
    } else {
        digit_fold(buf, i + 1, e, acc)
    }
}

pub open spec fn chunked_word() -> Seq<u8> {
    seq![99u8, 104, 117, 110, 107, 101, 100]
}

pub open spec fn json_type() -> Seq<u8> {
    seq![97u8, 112, 112, 108, 105, 99, 97, 116, 105, 111, 110, 47, 106, 115, 111, 110]
}

/// The header block `buf[..len]` read: status line, `Transfer-Encoding` naming
/// `chunked`, `Content-Length` digits, `Content-Type` naming `application/json`, and the
/// `Date` in seconds since the epoch.
pub open spec fn spec_parse_headers(buf: Seq<u8>, len: int) -> HttpHeaderInfo {
    HttpHeaderInfo {
        status: spec_parse_status(buf, len),
        chunked: match spec_header_value(buf, len, seq![116u8, 114, 97, 110, 115, 102, 101, 114, 45, 101, 110, 99, 111, 100, 105, 110, 103]) {
            Some((s, e)) => occurs_ci(buf, chunked_word(), s, e - 6),
            None => false,
        },
        content_len: match spec_header_value(buf, len, seq![99u8, 111, 110, 116, 101, 110, 116, 45, 108, 101, 110, 103, 116, 104]) {
            Some((s, e)) => digit_fold(buf, s, e, 0),
            None => 0,
        },
        json: match spec_header_value(buf, len, seq![99u8, 111, 110, 116, 101, 110, 116, 45, 116, 121, 112, 101]) {
            Some((s, e)) => occurs_ci(buf, json_type(), s, e - 15),
            None => false,
        },
        date: match spec_header_value(buf, len, seq![100u8, 97, 116, 101]) {
            Some((s, e)) => spec_parse_http_date(buf.subrange(s, e)),
            None => None,
        },
    }
}

fn find_ci(buf: &[u8], pat: &[u8], s: usize, e: usize, slack: usize) -> (r: bool)
    requires
        s <= e <= buf.len(),
        0 < slack <= e,
    ensures
        r == occurs_ci(buf@, pat@, s as int, e - slack),
{
    let mut i = s;
    while i <= e - slack
        invariant
            s <= i <= e + 1,
            s <= e <= buf.len(),
            0 < slack <= e,
            forall|j: int| s <= j < i ==> !#[trigger] matches_at_ci(buf@, j, pat@),
        decreases e + 1 - i,
    {
        if starts_with_at_ci(buf, buf.len(), i, pat) {
            return true;
        }
        i += 1;
    }
    assert forall|j: int| s <= j <= e - slack implies !#[trigger] matches_at_ci(buf@, j, pat@) by {}
    false
}

fn fold_digits(buf: &[u8], s: usize, e: usize) -> (r: u64)
    requires
        s <= e <= buf.len(),
    ensures
        r == digit_fold(buf@, s as int, e as int, 0),
{
    let mut i = s;
    let mut v: u64 = 0;
    while i < e
        invariant
            s <= i <= e <= buf.len(),
            digit_fold(buf@, i as int, e as int, v) == digit_fold(buf@, s as int, e as int, 0),
        decreases e - i,
    {
        let b = buf[i];
        if 48u8 <= b && b <= 57u8 {
            v = v.wrapping_mul(10).wrapping_add((b - 48u8) as u64);
        }
        i += 1;
    }
    v
}

/// Reads the header block `buf[..len]` (see `spec_parse_headers`).
pub fn http_parse_headers(buf: &[u8], len: usize) -> (r: HttpHeaderInfo)
    requires
        len <= buf.len(),
    ensures
        r == spec_parse_headers(buf@, len as int),
{
    let status = parse_status(buf, len);
    let te: &[u8] = &[116u8, 114, 97, 110, 115, 102, 101, 114, 45, 101, 110, 99, 111, 100, 105, 110, 103];
    let cl: &[u8] = &[99u8, 111, 110, 116, 101, 110, 116, 45, 108, 101, 110, 103, 116, 104];
    let ct: &[u8] = &[99u8, 111, 110, 116, 101, 110, 116, 45, 116, 121, 112, 101];
    let dt: &[u8] = &[100u8, 97, 116, 101];
    let chunked_pat: &[u8] = &[99u8, 104, 117, 110, 107, 101, 100];
    let json_pat: &[u8] = &[97u8, 112, 112, 108, 105, 99, 97, 116, 105, 111, 110, 47, 106, 115, 111, 110];
    assert(te@ =~= seq![116u8, 114, 97, 110, 115, 102, 101, 114, 45, 101, 110, 99, 111, 100, 105, 110, 103]);
    assert(cl@ =~= seq![99u8, 111, 110, 116, 101, 110, 116, 45, 108, 101, 110, 103, 116, 104]);
    assert(ct@ =~= seq![99u8, 111, 110, 116, 101, 110, 116, 45, 116, 121, 112, 101]);
    assert(dt@ =~= seq![100u8, 97, 116, 101]);
    assert(chunked_pat@ =~= chunked_word());
    assert(json_pat@ =~= json_type());
    let chunked = match header_value(buf, len, te) {
        Some((s, e)) => {
            if e >= 6 {
                find_ci(buf, chunked_pat, s, e, 6)
            } else {
                assert forall|j: int| s <= j <= e - 6 implies !#[trigger] matches_at_ci(buf@, j, chunked_pat@) by {}
                false
            }
        },
        None => false,
    };
    let content_len = match header_value(buf, len, cl) {
        Some((s, e)) => fold_digits(buf, s, e),
        None => 0,
    };
    let json = match header_value(buf, len, ct) {
        Some((s, e)) => {
            if e >= 15 {
                find_ci(buf, json_pat, s, e, 15)
            } else {
                assert forall|j: int| s <= j <= e - 15 implies !#[trigger] matches_at_ci(buf@, j, json_pat@) by {}
                false
            }
        },
        None => false,
    };
    let date = match header_value(buf, len, dt) {
        Some((s, e)) => parse_http_date(vstd::slice::slice_subrange(buf, s, e)),
        None => None,
    };
    HttpHeaderInfo { status, chunked, content_len, json, date }
}


// ---------------------------------------------------------------------------
// The response stream: header block, then an identity or a chunked body
// ---------------------------------------------------------------------------

pub const HTTP_HEADER_MAX: usize = 4096;
pub const HTTP_STATE_HEADERS: u8 = 0;
pub const HTTP_STATE_BODY: u8 = 1;
pub const HTTP_STATE_CHUNK_SIZE: u8 = 2;
pub const HTTP_STATE_CHUNK_DATA: u8 = 3;
pub const HTTP_STATE_CHUNK_END: u8 = 4;
pub const HTTP_STATE_DONE: u8 = 5;

/// The parser's state apart from the header bytes gathered so far.
#[derive(Clone, Copy)]
pub struct HttpCore {
    pub info: HttpHeaderInfo,
    pub state: u8,
    pub body_recv: u64,
    pub chunk_remain: u64,
    pub chunk_parse: u64,
    pub chunk_have_digit: bool,
    pub chunk_ext: bool,
    pub chunk_expect_lf: bool,
    pub status_sent: bool,
}

/// What one call hands on: header bytes to forward, a status to report, body pieces in
/// order, whether the header block was read, whether it overflowed.
#[verifier::ext_equal]
pub struct FeedModel {
    pub header: Seq<u8>,
    pub status: Option<u16>,
    pub body: Seq<Seq<u8>>,
    pub complete: bool,
    pub too_large: bool,
}

pub open spec fn empty_feed() -> FeedModel {
    FeedModel {
        header: Seq::empty(),
        status: None,
        body: Seq::empty(),
        complete: false,
        too_large: false,
    }
}

pub open spec fn fresh_core() -> HttpCore {
    HttpCore {
        info: HttpHeaderInfo { status: 0, chunked: false, content_len: 0, json: false, date: None },
        state: 0,
        body_recv: 0,
        chunk_remain: 0,
        chunk_parse: 0,
        chunk_have_digit: false,
        chunk_ext: false,
        chunk_expect_lf: false,
        status_sent: false,
    }
}

/// `\r\n\r\n` starts at `i`.
pub open spec fn crlf2_at(d: Seq<u8>, i: int) -> bool {
    d[i] == 13 && d[i + 1] == 10 && d[i + 2] == 13 && d[i + 3] == 10
}

/// Where the first `\r\n\r\n` at or after `i` starts.
pub open spec fn crlf2_from(d: Seq<u8>, i: int) -> Option<int>
    decreases d.len() - i,
{
    if i + 3 >= d.len() {
        None
    } else if crlf2_at(d, i) {
        Some(i)
    } else {
        crlf2_from(d, i + 1)
    }
}

pub proof fn lemma_crlf2_from(d: Seq<u8>, i: int)
    ensures
        crlf2_from(d, i) matches Some(j) ==> i <= j && j + 3 < d.len(),
    decreases d.len() - i,
{
    if i + 3 < d.len() && !crlf2_at(d, i) {
        lemma_crlf2_from(d, i + 1);
    }
}

pub open spec fn sat_add(a: u64, b: int) -> u64 {
    if a + b > u64::MAX {
        u64::MAX
    } else {
        (a + b) as u64
    }
}

pub open spec fn sat_sub(a: u64, b: int) -> u64 {
    if a - b < 0 {
        0
    } else {
        (a - b) as u64
    }
}

pub open spec fn spec_hex_value(b: u8) -> u64 {
    crate::bytes::spec_hex_digit_value(b) as u64
}

/// One byte of a chunk-size line: digits accumulate, `;` starts an extension that is
/// skipped, `\r` then `\n` ends the line (a zero size ends the body).
pub open spec fn chunk_size_step(c: HttpCore, b: u8) -> HttpCore {
    if c.chunk_expect_lf {
        if b == 10 {
            HttpCore {
                chunk_parse: 0,
                chunk_have_digit: false,
                chunk_ext: false,
                chunk_expect_lf: false,
                chunk_remain: c.chunk_parse,
                state: if c.chunk_parse == 0 {
                    HTTP_STATE_DONE
                } else {
                    HTTP_STATE_CHUNK_DATA
                },
                ..c
            }
        } else {
            c
        }
    } else if b == 13 {
        HttpCore { chunk_expect_lf: true, ..c }
    } else if c.chunk_ext {
        c
    } else if b == 59 {
        HttpCore { chunk_ext: true, ..c }
    } else if crate::bytes::spec_is_hex(b) {
        HttpCore {
            chunk_parse: (c.chunk_parse << 4u64) | spec_hex_value(b),
            chunk_have_digit: true,
            ..c
        }
    } else {
        c
    }
}

pub open spec fn add_body(out: FeedModel, piece: Seq<u8>) -> FeedModel {
    FeedModel { body: out.body.push(piece), ..out }
}

/// The rest of `data` from `idx` fed to a parser with header bytes `h` and state `c`,
/// on top of what was handed on so far (`out`).
pub open spec fn feed_acc(h: Seq<u8>, c: HttpCore, data: Seq<u8>, idx: int, out: FeedModel) -> (
    Seq<u8>,
    HttpCore,
    FeedModel,
)
    decreases data.len() - idx,
{
    if idx < 0 || idx >= data.len() {
        (h, c, out)
    } else if c.state == HTTP_STATE_HEADERS {
        match crlf2_from(data, idx) {
            Some(i) => {
                let piece = data.subrange(idx, i + 4);
                let out1 = FeedModel { header: out.header + piece, ..out };
                if h.len() + piece.len() > HTTP_HEADER_MAX {
                    (h, c, FeedModel { too_large: true, ..out1 })
                } else {
                    let h2 = h + piece;
                    let info = spec_parse_headers(h2, h2.len() as int);
                    let send = !c.status_sent && info.status != 0;
                    let c2 = HttpCore {
                        info,
                        status_sent: c.status_sent || send,
                        state: if info.chunked {
                            HTTP_STATE_CHUNK_SIZE
                        } else {
                            HTTP_STATE_BODY
                        },
                        ..c
                    };
                    let out2 = FeedModel {
                        status: if send {
                            Some(info.status)
                        } else {
                            out1.status
                        },
                        complete: true,
                        ..out1
                    };
                    proof {
                        lemma_crlf2_from(data, idx);
                    }
                    feed_acc(h2, c2, data, i + 4, out2)
                }
            },
            None => {
                let piece = data.subrange(idx, data.len() as int);
                let out1 = FeedModel { header: out.header + piece, ..out };
                if h.len() + piece.len() > HTTP_HEADER_MAX {
                    (h, c, FeedModel { too_large: true, ..out1 })
                } else {
                    (h + piece, c, out1)
                }
            },
        }
    } else if c.state == HTTP_STATE_BODY {
        let avail = data.len() - idx;
        let limit = c.info.content_len;
        let take = if limit > 0 && avail > sat_sub(limit, c.body_recv as int) {
            sat_sub(limit, c.body_recv as int) as int
        } else {
            avail
        };
        if take == 0 {
            (h, c, out)
        } else {
            let recv = sat_add(c.body_recv, take);
            let out1 = add_body(out, data.subrange(idx, idx + take));
            if limit > 0 && recv >= limit {
                (h, HttpCore { body_recv: recv, state: HTTP_STATE_DONE, ..c }, out1)
            } else {
                feed_acc(h, HttpCore { body_recv: recv, ..c }, data, idx + take, out1)
            }
        }
    } else if c.state == HTTP_STATE_CHUNK_SIZE {
        feed_acc(h, chunk_size_step(c, data[idx]), data, idx + 1, out)
    } else if c.state == HTTP_STATE_CHUNK_DATA {
        let avail = data.len() - idx;
        let take = if avail > c.chunk_remain {
            c.chunk_remain as int
        } else {
            avail
        };
        if take == 0 {
            (h, c, out)
        } else {
            let remain = sat_sub(c.chunk_remain, take);
            let out1 = add_body(out, data.subrange(idx, idx + take));
            let c2 = HttpCore {
                chunk_remain: remain,
                state: if remain == 0 {
                    HTTP_STATE_CHUNK_END
                } else {
                    HTTP_STATE_CHUNK_DATA
                },
                ..c
            };
            feed_acc(h, c2, data, idx + take, out1)
        }
    } else if c.state == HTTP_STATE_CHUNK_END {
        if data[idx] == 13 {
            let next = if idx + 1 < data.len() && data[idx + 1] == 10 {
                idx + 2
            } else {
                idx + 1
            };
            feed_acc(h, HttpCore { state: HTTP_STATE_CHUNK_SIZE, ..c }, data, next, out)
        } else {
            feed_acc(h, c, data, idx + 1, out)
        }
    } else {
        (h, c, out)
    }
}

/// A hexadecimal digit, either case.
pub open spec fn is_hex_char(b: u8) -> bool {
    (48 <= b <= 57) || (97 <= b <= 102) || (65 <= b <= 70)
}

/// The value of a hexadecimal digit.
pub open spec fn hex_digit_of(b: u8) -> nat {
    if 48 <= b <= 57 {
        (b - 48) as nat
    } else if 97 <= b <= 102 {
        (b - 87) as nat
    } else if 65 <= b <= 70 {
        (b - 55) as nat
    } else {
        0
    }
}

/// The number that the hexadecimal digits `s` write, most significant first.
pub open spec fn hex_number(s: Seq<u8>) -> nat
    decreases s.len(),
{
    if s.len() == 0 {
        0
    } else {
        hex_number(s.drop_last()) * 16 + hex_digit_of(s.last())
    }
}

pub open spec fn pow16(n: nat) -> nat
    decreases n,
{
    if n == 0 {
        1
    } else {
        16 * pow16((n - 1) as nat)
    }
}

proof fn lemma_hex_number_bound(s: Seq<u8>)
    requires
        forall|k: int| 0 <= k < s.len() ==> is_hex_char(#[trigger] s[k]),
    ensures
        hex_number(s) < pow16(s.len()),
    decreases s.len(),
{
    if s.len() > 0 {
        let d = s.drop_last();
        assert forall|k: int| 0 <= k < d.len() implies is_hex_char(#[trigger] d[k]) by {
            assert(d[k] == s[k]);
        }
        lemma_hex_number_bound(d);
        assert(is_hex_char(s[s.len() - 1]));
        let x = hex_number(d);
        let v = hex_digit_of(s.last());
        assert(x * 16 + v < pow16(d.len()) * 16) by (nonlinear_arith)
            requires
                x < pow16(d.len()),
                v < 16,
        ;
    }
}

proof fn lemma_pow16_15()
    ensures
        pow16(15) == 0x1000_0000_0000_0000,
{
    reveal_with_fuel(pow16, 16);
}

proof fn lemma_pow16_mono(a: nat, b: nat)
    requires
        a <= b,
    ensures
        pow16(a) <= pow16(b),
    decreases b,
{
    if a < b {
        lemma_pow16_mono(a, (b - 1) as nat);
    }
}

/// Reading the hexadecimal digits `data[i..i + j]` of a chunk-size line accumulates their
/// value.
proof fn lemma_chunk_digits(h: Seq<u8>, c: HttpCore, data: Seq<u8>, i: int, j: int, out: FeedModel)
    requires
        0 <= i,
        0 <= j <= 15,
        i + j <= data.len(),
        c.state == HTTP_STATE_CHUNK_SIZE,
        c.chunk_parse == 0,
        !c.chunk_expect_lf,
        !c.chunk_ext,
        forall|k: int| i <= k < i + j ==> is_hex_char(#[trigger] data[k]),
    ensures
        feed_acc(h, c, data, i, out) == feed_acc(
            h,
            HttpCore {
                chunk_parse: hex_number(data.subrange(i, i + j)) as u64,
                chunk_have_digit: c.chunk_have_digit || j > 0,
                ..c
            },
            data,
            i + j,
            out,
        ),
    decreases j,
{
    let s = data.subrange(i, i + j);
    if j == 0 {
        assert(s =~= Seq::<u8>::empty());
        assert(HttpCore { chunk_parse: 0u64, chunk_have_digit: c.chunk_have_digit, ..c } == c);
    } else {
        lemma_chunk_digits(h, c, data, i, j - 1, out);
        let s1 = data.subrange(i, i + j - 1);
        assert(s.drop_last() =~= s1);
        assert forall|k: int| 0 <= k < s1.len() implies is_hex_char(#[trigger] s1[k]) by {
            assert(s1[k] == data[i + k]);
        }
        lemma_hex_number_bound(s1);
        lemma_pow16_mono((j - 1) as nat, 14);
        reveal_with_fuel(pow16, 16);
        let x = hex_number(s1);
        assert(x < 0x100_0000_0000_0000);
        let b = data[i + j - 1];
        assert(is_hex_char(b));
        let v = spec_hex_value(b);
        assert(v as nat == hex_digit_of(b) && v < 16);
        let xu = x as u64;
        assert((xu << 4u64) | v == xu * 16 + v) by (bit_vector)
            requires
                xu < 0x100_0000_0000_0000u64,
                v < 16u64,
        ;
        let cj = HttpCore { chunk_parse: xu, chunk_have_digit: c.chunk_have_digit || j - 1 > 0, ..c };
        assert(s.last() == b);
        assert(chunk_size_step(cj, b) == HttpCore {
            chunk_parse: hex_number(s) as u64,
            chunk_have_digit: c.chunk_have_digit || j > 0,
            ..c
        });
    }
}

/// A chunk-size line of hexadecimal digits `data[i..i + k]` (at most 15) ended by CRLF
/// sets the length of the chunk to their base-16 value; a zero size ends the body.
pub proof fn lemma_chunk_size_line(h: Seq<u8>, c: HttpCore, data: Seq<u8>, i: int, k: int, out: FeedModel)
    requires
        0 <= i,
        1 <= k <= 15,
        i + k + 2 <= data.len(),
        c.state == HTTP_STATE_CHUNK_SIZE,
        c.chunk_parse == 0,
        !c.chunk_expect_lf,
        !c.chunk_ext,
        forall|m: int| i <= m < i + k ==> is_hex_char(#[trigger] data[m]),
        data[i + k] == 13,
        data[i + k + 1] == 10,
    ensures
        feed_acc(h, c, data, i, out) == feed_acc(
            h,
            HttpCore {
                chunk_parse: 0,
                chunk_have_digit: false,
                chunk_ext: false,
                chunk_expect_lf: false,
                chunk_remain: hex_number(data.subrange(i, i + k)) as u64,
                state: if hex_number(data.subrange(i, i + k)) == 0 {
                    HTTP_STATE_DONE
                } else {
                    HTTP_STATE_CHUNK_DATA
                },
                ..c
            },
            data,
            i + k + 2,
            out,
        ),
{
    lemma_chunk_digits(h, c, data, i, k, out);
    let ck = HttpCore {
        chunk_parse: hex_number(data.subrange(i, i + k)) as u64,
        chunk_have_digit: true,
        ..c
    };
    let cr = chunk_size_step(ck, 13);
    assert(cr == HttpCore { chunk_expect_lf: true, ..ck });
    let s = data.subrange(i, i + k);
    assert forall|m: int| 0 <= m < s.len() implies is_hex_char(#[trigger] s[m]) by {
        assert(s[m] == data[i + m]);
    }
    lemma_hex_number_bound(s);
    lemma_pow16_mono(k as nat, 15);
    lemma_pow16_15();
    assert((hex_number(s) as u64) as nat == hex_number(s));
    assert(feed_acc(h, ck, data, i + k, out) == feed_acc(h, cr, data, i + k + 1, out));
}

/// A chunked body of one chunk is decoded to that chunk's payload: the size line (at
/// most 15 hexadecimal digits and CRLF), `n` payload bytes where the digits write `n`, CRLF,
/// then the last chunk `0` and CRLF; the payload is handed on as it is and the body ends.
pub proof fn lemma_one_chunk_body(h: Seq<u8>, c: HttpCore, data: Seq<u8>, i: int, k: int, out: FeedModel)
    requires
        0 <= i,
        1 <= k <= 15,
        c.state == HTTP_STATE_CHUNK_SIZE,
        c.chunk_parse == 0,
        !c.chunk_expect_lf,
        !c.chunk_ext,
        forall|m: int| i <= m < i + k ==> is_hex_char(#[trigger] data[m]),
        data[i + k] == 13,
        data[i + k + 1] == 10,
        hex_number(data.subrange(i, i + k)) > 0,
        i + k + 2 + hex_number(data.subrange(i, i + k)) + 5 <= data.len(),
        data[i + k + 2 + hex_number(data.subrange(i, i + k))] == 13,
        data[i + k + 2 + hex_number(data.subrange(i, i + k)) + 1] == 10,
        data[i + k + 2 + hex_number(data.subrange(i, i + k)) + 2] == 48,
        data[i + k + 2 + hex_number(data.subrange(i, i + k)) + 3] == 13,
        data[i + k + 2 + hex_number(data.subrange(i, i + k)) + 4] == 10,
    ensures
        ({
            let n = hex_number(data.subrange(i, i + k));
            let r = feed_acc(h, c, data, i, out);
            &&& r.0 == h
            &&& r.1.state == HTTP_STATE_DONE
            &&& r.2 == add_body(out, data.subrange(i + k + 2, i + k + 2 + n))
        }),
{
    let n = hex_number(data.subrange(i, i + k));
    lemma_chunk_size_line(h, c, data, i, k, out);
    let p = i + k + 2;
    let c1 = HttpCore {
        chunk_parse: 0,
        chunk_have_digit: false,
        chunk_ext: false,
        chunk_expect_lf: false,
        chunk_remain: n as u64,
        state: HTTP_STATE_CHUNK_DATA,
        ..c
    };
    let s = data.subrange(i, i + k);
    assert forall|m: int| 0 <= m < s.len() implies is_hex_char(#[trigger] s[m]) by {
        assert(s[m] == data[i + m]);
    }
    lemma_hex_number_bound(s);
    lemma_pow16_mono(k as nat, 15);
    lemma_pow16_15();
    let out1 = add_body(out, data.subrange(p, p + n));
    let c2 = HttpCore { chunk_remain: 0, state: HTTP_STATE_CHUNK_END, ..c1 };
    assert(feed_acc(h, c1, data, p, out) == feed_acc(h, c2, data, p + n, out1));
    let j = p + n;
    let c3 = HttpCore { state: HTTP_STATE_CHUNK_SIZE, ..c2 };
    assert(feed_acc(h, c2, data, j, out1) == feed_acc(h, c3, data, j + 2, out1));
    assert(data.subrange(j + 2, j + 3) =~= seq![48u8]);
    reveal_with_fuel(hex_number, 2);
    assert(hex_number(seq![48u8]) == 0) by {
        assert(seq![48u8].drop_last() =~= Seq::<u8>::empty());
    }
    lemma_chunk_size_line(h, c3, data, j + 2, 1, out1);
}

/// The bytes of a list of pieces, one after the other.
pub open spec fn joined(p: Seq<Seq<u8>>) -> Seq<u8>
    decreases p.len(),
{
    if p.len() == 0 {
        Seq::empty()
    } else {
        joined(p.drop_last()) + p.last()
    }
}

/// How many of `n` arriving body bytes belong to the body: all of them without a
/// content length, else no more than the length still missing.
pub open spec fn body_take(c: HttpCore, n: int) -> int {
    if c.info.content_len > 0 && n > sat_sub(c.info.content_len, c.body_recv as int) {
        sat_sub(c.info.content_len, c.body_recv as int) as int
    } else {
        n
    }
}

/// The parser after `n` body bytes went to the body: counted, and done once the content
/// length is reached.
pub open spec fn body_after(c: HttpCore, n: int) -> HttpCore {
    let recv = sat_add(c.body_recv, n);
    HttpCore {
        body_recv: recv,
        state: if c.info.content_len > 0 && recv >= c.info.content_len {
            HTTP_STATE_DONE
        } else {
            HTTP_STATE_BODY
        },
        ..c
    }
}

/// While the body of a response with no chunked framing arrives, the bytes fed are handed
/// on as they are, as one piece, up to the content length when there is one; the header
/// and what else was handed on stay as they were.
pub proof fn lemma_body_feed(h: Seq<u8>, c: HttpCore, data: Seq<u8>, out: FeedModel)
    requires
        c.state == HTTP_STATE_BODY,
        c.info.content_len == 0 || c.body_recv < c.info.content_len,
    ensures
        ({
            let take = body_take(c, data.len() as int);
            let r = feed_acc(h, c, data, 0, out);
            &&& r.0 == h
            &&& r.1 == (if take == 0 { c } else { body_after(c, take) })
            &&& r.2 == (if take == 0 { out } else { add_body(out, data.take(take)) })
        }),
{
    let take = body_take(c, data.len() as int);
    if data.len() > 0 && take > 0 {
        assert(data.subrange(0, take) =~= data.take(take));
        let recv = sat_add(c.body_recv, take);
        if !(c.info.content_len > 0 && recv >= c.info.content_len) {
            let c1 = HttpCore { body_recv: recv, ..c };
            assert(take == data.len());
            assert(feed_acc(h, c1, data, take, add_body(out, data.subrange(0, take))) == (
                h,
                c1,
                add_body(out, data.subrange(0, take)),
            ));
        }
    }
}

/// The body of a response with no chunked framing does not depend on how its bytes
/// arrive: fed in two parts, the parser hands on the same bytes, and ends in the same
/// state, as fed at once (while its byte count stays below `u64::MAX`).
pub proof fn lemma_body_split(h: Seq<u8>, c: HttpCore, d1: Seq<u8>, d2: Seq<u8>)
    requires
        c.state == HTTP_STATE_BODY,
        c.info.content_len == 0 || c.body_recv < c.info.content_len,
        c.body_recv + d1.len() + d2.len() <= u64::MAX,
    ensures
        ({
            let r1 = feed_acc(h, c, d1, 0, empty_feed());
            let r2 = feed_acc(r1.0, r1.1, d2, 0, empty_feed());
            let r = feed_acc(h, c, d1 + d2, 0, empty_feed());
            &&& r2.0 == r.0
            &&& r2.1 == r.1
            &&& joined(r1.2.body) + joined(r2.2.body) == joined(r.2.body)
        }),
{
    let d = d1 + d2;
    lemma_body_feed(h, c, d1, empty_feed());
    lemma_body_feed(h, c, d, empty_feed());
    let t1 = body_take(c, d1.len() as int);
    let t = body_take(c, d.len() as int);
    let r1 = feed_acc(h, c, d1, 0, empty_feed());
    let c1 = r1.1;
    reveal_with_fuel(joined, 2);
    if t1 == 0 {
        assert(d1.len() == 0);
        assert(d =~= d2);
        assert(joined(Seq::<Seq<u8>>::empty()) =~= Seq::<u8>::empty());
        assert(Seq::<u8>::empty() + joined(feed_acc(h, c, d2, 0, empty_feed()).2.body) =~= joined(feed_acc(
            h,
            c,
            d2,
            0,
            empty_feed(),
        ).2.body));
    } else if c1.state == HTTP_STATE_DONE {
        assert(feed_acc(h, c1, d2, 0, empty_feed()) == (h, c1, empty_feed()));
        assert(t == t1);
        assert(d1.take(t1) =~= d.take(t));
        assert(seq![d1.take(t1)].drop_last() =~= Seq::<Seq<u8>>::empty());
        assert(joined(seq![d1.take(t1)]) =~= d1.take(t1));
        assert(joined(Seq::<Seq<u8>>::empty()) =~= Seq::<u8>::empty());
        assert(d1.take(t1) + Seq::<u8>::empty() =~= d1.take(t1));
    } else {
        assert(t1 == d1.len());
        lemma_body_feed(h, c1, d2, empty_feed());
        let t2 = body_take(c1, d2.len() as int);
        assert(t == t1 + t2);
        assert(seq![d1.take(t1)].drop_last() =~= Seq::<Seq<u8>>::empty());
        assert(joined(seq![d1.take(t1)]) =~= d1.take(t1));
        assert(joined(Seq::<Seq<u8>>::empty()) =~= Seq::<u8>::empty());
        assert(seq![d.take(t)].drop_last() =~= Seq::<Seq<u8>>::empty());
        assert(joined(seq![d.take(t)]) =~= d.take(t));
        if t2 == 0 {
            assert(d.take(t) =~= d1.take(t1));
            assert(d1.take(t1) + Seq::<u8>::empty() =~= d1.take(t1));
        } else {
            assert(seq![d2.take(t2)].drop_last() =~= Seq::<Seq<u8>>::empty());
            assert(joined(seq![d2.take(t2)]) =~= d2.take(t2));
            assert(d1.take(t1) + d2.take(t2) =~= d.take(t));
        }
    }
}

/// The bytes of an HTTP response as they arrive, parsed incrementally.
pub struct HttpParser {
    pub header: Vec<u8>,
    pub core: HttpCore,
}

/// What one call of `http_feed` hands on (see `FeedModel`).
pub struct HttpFeedOutput {
    pub header_bytes: Vec<u8>,
    pub status: Option<u16>,
    pub body: Vec<Vec<u8>>,
    pub headers_complete: bool,
    pub too_large: bool,
}

impl HttpFeedOutput {
    pub open spec fn model(&self) -> FeedModel {
        FeedModel {
            header: self.header_bytes@,
            status: self.status,
            body: self.body@.map_values(|v: Vec<u8>| v@),
            complete: self.headers_complete,
            too_large: self.too_large,
        }
    }
}

impl HttpParser {
    pub open spec fn wf(&self) -> bool {
        self.header.len() <= HTTP_HEADER_MAX
    }

    /// A parser waiting for the status line.
    pub fn new() -> (r: Self)
        ensures
            r.wf(),
            r.header@ == Seq::<u8>::empty(),
            r.core == fresh_core(),
    {
        HttpParser {
            header: Vec::new(),
            core: HttpCore {
                info: HttpHeaderInfo { status: 0, chunked: false, content_len: 0, json: false, date: None },
                state: 0,
                body_recv: 0,
                chunk_remain: 0,
                chunk_parse: 0,
                chunk_have_digit: false,
                chunk_ext: false,
                chunk_expect_lf: false,
                status_sent: false,
            },
        }
    }

    /// Back to waiting for a status line.
    pub fn http_reset(&mut self)
        ensures
            final(self).wf(),
            final(self).header@ == Seq::<u8>::empty(),
            final(self).core == fresh_core(),
    {
        *self = Self::new();
    }

    /// Whether the response has been read to its end.
    pub fn response_complete(&self) -> (r: bool)
        ensures
            r == (self.core.state == HTTP_STATE_DONE),
    {
        self.core.state == HTTP_STATE_DONE
    }

    /// Feeds the next bytes of the response (see `feed_acc`).
    pub fn http_feed(&mut self, data: &[u8]) -> (out: HttpFeedOutput)
        requires
            old(self).wf(),
        ensures
            final(self).wf(),
            (final(self).header@, final(self).core, out.model()) == feed_acc(
                old(self).header@,
                old(self).core,
                data@,
                0,
                empty_feed(),
            ),
    {
        let mut out = HttpFeedOutput {
            header_bytes: Vec::new(),
            status: None,
            body: Vec::new(),
            headers_complete: false,
            too_large: false,
        };
        assert(out.model().body =~= Seq::<Seq<u8>>::empty());
        let ghost target = feed_acc(self.header@, self.core, data@, 0, empty_feed());
        let mut idx = 0usize;
        let mut done = false;
        while idx < data.len() && !done
            invariant
                self.wf(),
                idx <= data.len(),
                !done ==> feed_acc(self.header@, self.core, data@, idx as int, out.model()) == target,
                done ==> (self.header@, self.core, out.model()) == target,
            decreases data.len() - idx, if done { 0int } else { 1int },
        {
            let st = self.core.state;
            if st == HTTP_STATE_HEADERS {
                let found = find_crlf2(data, idx);
                proof {
                    lemma_crlf2_from(data@, idx as int);
                }
                let end = match found {
                    Some(i) => i + 4,
                    None => data.len(),
                };
                let piece = vstd::slice::slice_subrange(data, idx, end);
                let ghost out0 = out.model();
                let ghost body0 = out.body@;
                crate::bytes::append_all(&mut out.header_bytes, piece);
                assert(out.body@ == body0);
                assert(out.model().body =~= out0.body);
                assert(out.model().header =~= out0.header + data@.subrange(idx as int, end as int));
                let ghost h0 = self.header@;
                let ghost want_out1 = FeedModel {
                    header: out0.header + data@.subrange(idx as int, end as int),
                    ..out0
                };
                if piece.len() > HTTP_HEADER_MAX - self.header.len() {
                    out.too_large = true;
                    assert(out.model() == FeedModel { too_large: true, ..want_out1 });
                    assert(feed_acc(h0, self.core, data@, idx as int, out0) == (
                        h0,
                        self.core,
                        FeedModel { too_large: true, ..want_out1 },
                    ));
                    done = true;
                }
                if !done {
                    crate::bytes::append_all(&mut self.header, piece);
                }
                if !done && found.is_none() {
                    assert(out.model() == want_out1);
                    assert(feed_acc(h0, self.core, data@, idx as int, out0) == (
                        h0 + data@.subrange(idx as int, end as int),
                        self.core,
                        want_out1,
                    ));
                    done = true;
                }
                if !done {
                let info = http_parse_headers(self.header.as_slice(), self.header.len());
                let send = !self.core.status_sent && info.status != 0;
                if send {
                    out.status = Some(info.status);
                }
                self.core.info = info;
                self.core.status_sent = self.core.status_sent || send;
                self.core.state = if info.chunked {
                    HTTP_STATE_CHUNK_SIZE
                } else {
                    HTTP_STATE_BODY
                };
                out.headers_complete = true;
                idx = end;
                }
            } else if st == HTTP_STATE_BODY {
                let avail = data.len() - idx;
                let limit = self.core.info.content_len;
                let remaining = limit.saturating_sub(self.core.body_recv);
                let take: usize = if limit > 0 && (avail as u64) > remaining {
                    remaining as usize
                } else {
                    avail
                };
                if take == 0 {
                    done = true;
                } else {
                    let mut piece: Vec<u8> = Vec::new();
                    crate::bytes::append_all(&mut piece, vstd::slice::slice_subrange(data, idx, idx + take));
                    let ghost before = out.body@;
                    out.body.push(piece);
                    assert(out.model().body =~= before.map_values(|v: Vec<u8>| v@).push(
                        data@.subrange(idx as int, idx + take),
                    ));
                    self.core.body_recv = self.core.body_recv.saturating_add(take as u64);
                    idx = idx + take;
                    if limit > 0 && self.core.body_recv >= limit {
                        self.core.state = HTTP_STATE_DONE;
                        done = true;
                    }
                }
            } else if st == HTTP_STATE_CHUNK_SIZE {
                let b = data[idx];
                idx = idx + 1;
                self.core = chunk_size_byte(self.core, b);
            } else if st == HTTP_STATE_CHUNK_DATA {
                let avail = data.len() - idx;
                let take: usize = if (avail as u64) > self.core.chunk_remain {
                    self.core.chunk_remain as usize
                } else {
                    avail
                };
                if take == 0 {
                    done = true;
                } else {
                    let mut piece: Vec<u8> = Vec::new();
                    crate::bytes::append_all(&mut piece, vstd::slice::slice_subrange(data, idx, idx + take));
                    let ghost before = out.body@;
                    out.body.push(piece);
                    assert(out.model().body =~= before.map_values(|v: Vec<u8>| v@).push(
                        data@.subrange(idx as int, idx + take),
                    ));
                    self.core.chunk_remain = self.core.chunk_remain.saturating_sub(take as u64);
                    if self.core.chunk_remain == 0 {
                        self.core.state = HTTP_STATE_CHUNK_END;
                    }
                    idx = idx + take;
                }
            } else if st == HTTP_STATE_CHUNK_END {
                if data[idx] == 13u8 {
                    idx = idx + 1;
                    if idx < data.len() && data[idx] == 10u8 {
                        idx = idx + 1;
                    }
                    self.core.state = HTTP_STATE_CHUNK_SIZE;
                } else {
                    idx = idx + 1;
                }
            } else {
                done = true;
            }
        }
        out
    }
}

fn find_crlf2(data: &[u8], from: usize) -> (r: Option<usize>)
    requires
        from <= data.len(),
    ensures
        r matches Some(i) ==> crlf2_from(data@, from as int) == Some(i as int),
        r is None ==> crlf2_from(data@, from as int) is None,
{
    let mut i = from;
    while i < data.len() && data.len() - i > 3
        invariant
            from <= i <= data.len(),
            crlf2_from(data@, i as int) == crlf2_from(data@, from as int),
        decreases data.len() - i,
    {
        if data[i] == 13u8 && data[i + 1] == 10u8 && data[i + 2] == 13u8 && data[i + 3] == 10u8 {
            return Some(i);
        }
        i += 1;
    }
    None
}

fn chunk_size_byte(c: HttpCore, b: u8) -> (r: HttpCore)
    ensures
        r == chunk_size_step(c, b),
{
    if c.chunk_expect_lf {
        if b == 10u8 {
            HttpCore {
                chunk_parse: 0,
                chunk_have_digit: false,
                chunk_ext: false,
                chunk_expect_lf: false,
                chunk_remain: c.chunk_parse,
                state: if c.chunk_parse == 0 {
                    HTTP_STATE_DONE
                } else {
                    HTTP_STATE_CHUNK_DATA
                },
                ..c
            }
        } else {
            c
        }
    } else if b == 13u8 {
        HttpCore { chunk_expect_lf: true, ..c }
    } else if c.chunk_ext {
        c
    } else if b == 59u8 {
        HttpCore { chunk_ext: true, ..c }
    } else if crate::bytes::is_hex(b) {
        HttpCore {
            chunk_parse: (c.chunk_parse << 4u64) | (crate::bytes::hex_val(b) as u64),
            chunk_have_digit: true,
            ..c
        }
    } else {
        c
    }
}

} // verus!
