use vstd::prelude::*;
use crate::decimal::{all_digits, append_digit, digit_char, digit_val, digits_val, is_digit};

verus! {

/// A calendar date, held as plain year, month and day numbers.
#[derive(Clone, Copy, PartialEq, Eq, Structural, Debug, Hash)]
pub struct Date {
    pub year: u16,
    pub month: u8,
    pub day: u8,
}

pub open spec fn is_leap_year(y: int) -> bool {
    y % 4 == 0 && (y % 100 != 0 || y % 400 == 0)
}

pub open spec fn days_in_month(y: int, m: int) -> int {
    if m == 2 {
        if is_leap_year(y) {
            29
        } else {
            28
        }
    } else if m == 4 || m == 6 || m == 9 || m == 11 {
        30
    } else {
        31
    }
}

/// The date names a real day of the Gregorian calendar.
pub open spec fn date_valid(d: Date) -> bool {
    &&& 1 <= d.month <= 12
    &&& 1 <= d.day <= days_in_month(d.year as int, d.month as int)
}

/// Two-digit years denote 1969 through 2068: 69..99 the twentieth century,
/// 00..68 the twenty-first.
pub open spec fn year_of_yy(yy: int) -> int {
    if yy >= 69 {
        1900 + yy
    } else {
        2000 + yy
    }
}

pub open spec fn char_ieq(c: char, up: char, lo: char) -> bool {
    c == up || c == lo
}

/// The month number of a three-letter English abbreviation, compared without
/// regard to letter case; 0 when the letters name no month.
pub open spec fn month_num(c0: char, c1: char, c2: char) -> int {
    if char_ieq(c0, 'J', 'j') && char_ieq(c1, 'A', 'a') && char_ieq(c2, 'N', 'n') { 1 }
    else if char_ieq(c0, 'F', 'f') && char_ieq(c1, 'E', 'e') && char_ieq(c2, 'B', 'b') { 2 }
    else if char_ieq(c0, 'M', 'm') && char_ieq(c1, 'A', 'a') && char_ieq(c2, 'R', 'r') { 3 }
    else if char_ieq(c0, 'A', 'a') && char_ieq(c1, 'P', 'p') && char_ieq(c2, 'R', 'r') { 4 }
    else if char_ieq(c0, 'M', 'm') && char_ieq(c1, 'A', 'a') && char_ieq(c2, 'Y', 'y') { 5 }
    else if char_ieq(c0, 'J', 'j') && char_ieq(c1, 'U', 'u') && char_ieq(c2, 'N', 'n') { 6 }
    else if char_ieq(c0, 'J', 'j') && char_ieq(c1, 'U', 'u') && char_ieq(c2, 'L', 'l') { 7 }
    else if char_ieq(c0, 'A', 'a') && char_ieq(c1, 'U', 'u') && char_ieq(c2, 'G', 'g') { 8 }
    else if char_ieq(c0, 'S', 's') && char_ieq(c1, 'E', 'e') && char_ieq(c2, 'P', 'p') { 9 }
    else if char_ieq(c0, 'O', 'o') && char_ieq(c1, 'C', 'c') && char_ieq(c2, 'T', 't') { 10 }
    else if char_ieq(c0, 'N', 'n') && char_ieq(c1, 'O', 'o') && char_ieq(c2, 'V', 'v') { 11 }
    else if char_ieq(c0, 'D', 'd') && char_ieq(c1, 'E', 'e') && char_ieq(c2, 'C', 'c') { 12 }
    else { 0 }
}

/// The parse of a `YYMMDD` date: exactly six digits naming a valid day.
pub open spec fn spec_parse_yymmdd(s: Seq<char>) -> Option<Date> {
    if s.len() == 6 && all_digits(s) {
        let yy = digits_val(s.subrange(0, 2));
        let mm = digits_val(s.subrange(2, 4));
        let dd = digits_val(s.subrange(4, 6));
        let d = Date { year: year_of_yy(yy) as u16, month: mm as u8, day: dd as u8 };
        if date_valid(d) {
            Some(d)
        } else {
            None
        }
    } else {
        None
    }
}

/// The parse of a `DMMMYY` or `DDMMMYY` date: a one- or two-digit day, a
/// three-letter month abbreviation, and a two-digit year, naming a valid day.
pub open spec fn spec_parse_ddmmmyy(s: Seq<char>) -> Option<Date> {
    if s.len() != 6 && s.len() != 7 {
        None
    } else {
        let dlen = (s.len() - 5) as int;
        let daypart = s.take(dlen);
        let mon = month_num(s[dlen], s[dlen + 1], s[dlen + 2]);
        let yypart = s.subrange(dlen + 3, dlen + 5);
        if all_digits(daypart) && mon != 0 && all_digits(yypart) {
            let dd = digits_val(daypart);
            let yy = digits_val(yypart);
            let d = Date { year: year_of_yy(yy) as u16, month: mon as u8, day: dd as u8 };
            if date_valid(d) {
                Some(d)
            } else {
                None
            }
        } else {
            None
        }
    }
}

/// A number below 100 as exactly two digits.
pub open spec fn two_digits(n: int) -> Seq<char> {
    seq![digit_char(n / 10), digit_char(n % 10)]
}

/// The canonical `YYMMDD` text of a date.
pub open spec fn spec_format_yymmdd(d: Date) -> Seq<char> {
    two_digits(d.year as int % 100) + two_digits(d.month as int) + two_digits(d.day as int)
}

/// The upper-case three-letter abbreviation of a month number.
pub open spec fn month_abbrev(m: int) -> Seq<char> {
    if m == 1 { seq!['J', 'A', 'N'] }
    else if m == 2 { seq!['F', 'E', 'B'] }
    else if m == 3 { seq!['M', 'A', 'R'] }
    else if m == 4 { seq!['A', 'P', 'R'] }
    else if m == 5 { seq!['M', 'A', 'Y'] }
    else if m == 6 { seq!['J', 'U', 'N'] }
    else if m == 7 { seq!['J', 'U', 'L'] }
    else if m == 8 { seq!['A', 'U', 'G'] }
    else if m == 9 { seq!['S', 'E', 'P'] }
    else if m == 10 { seq!['O', 'C', 'T'] }
    else if m == 11 { seq!['N', 'O', 'V'] }
    else { seq!['D', 'E', 'C'] }
}

/// The canonical `DDMMMYY` text of a date, the day zero-padded.
pub open spec fn spec_format_ddmmmyy(d: Date) -> Seq<char> {
    two_digits(d.day as int) + month_abbrev(d.month as int) + two_digits(d.year as int % 100)
}

/// Dates whose two-digit year form is unambiguous.
pub open spec fn year_in_window(d: Date) -> bool {
    1969 <= d.year <= 2068
}

impl Date {
    /// Read one digit of the view.
    fn digit_at(s: &str, i: usize) -> (r: Option<u16>)
        requires
            i < s@.len(),
        ensures
            r matches Some(v) ==> is_digit(s@[i as int]) && v == digit_val(s@[i as int]) && v
                <= 9,
            r is None ==> !is_digit(s@[i as int]),
    {
        let c = s.get_char(i);
        if '0' <= c && c <= '9' {
            Some(((c as u32) - 48) as u16)
        } else {
            None
        }
    }

    /// Parse a `YYMMDD` date, accepting exactly what
    /// [`spec_parse_yymmdd`] describes.
    pub fn parse_yymmdd(s: &str) -> (r: Option<Date>)
        ensures
            r == spec_parse_yymmdd(s@),
            r matches Some(d) ==> date_valid(d) && year_in_window(d),
    {
        let n = s.unicode_len();
        if n != 6 {
            return None;
        }
        let d0 = Date::digit_at(s, 0);
        let d1 = Date::digit_at(s, 1);
        let d2 = Date::digit_at(s, 2);
        let d3 = Date::digit_at(s, 3);
        let d4 = Date::digit_at(s, 4);
        let d5 = Date::digit_at(s, 5);
        match (d0, d1, d2, d3, d4, d5) {
            (Some(y1), Some(y2), Some(m1), Some(m2), Some(a1), Some(a2)) => {
                proof {
                    lemma_two_digit_val(s@, 0);
                    lemma_two_digit_val(s@, 2);
                    lemma_two_digit_val(s@, 4);
                }
                let yy = y1 * 10 + y2;
                let mm = m1 * 10 + m2;
                let dd = a1 * 10 + a2;
                let year: u16 = if yy >= 69 {
                    1900 + yy
                } else {
                    2000 + yy
                };
                let d = Date { year, month: mm as u8, day: dd as u8 };
                if d.check_valid() {
                    Some(d)
                } else {
                    None
                }
            },
            _ => None,
        }
    }

    /// Parse a `DMMMYY` or `DDMMMYY` date, accepting exactly what
    /// [`spec_parse_ddmmmyy`] describes.
    pub fn parse_ddmmmyy(s: &str) -> (r: Option<Date>)
        ensures
            r == spec_parse_ddmmmyy(s@),
            r matches Some(d) ==> date_valid(d) && year_in_window(d),
    {
        let n = s.unicode_len();
        if n != 6 && n != 7 {
            return None;
        }
        let dlen: usize = n - 5;
        let dd: u16 = if dlen == 1 {
            match Date::digit_at(s, 0) {
                Some(v) => {
                    proof {
                        assert(s@.take(1).drop_last() =~= Seq::<char>::empty());
                        assert(s@.take(1).last() == s@[0]);
                        assert(digits_val(Seq::<char>::empty()) == 0);
                        assert(digits_val(s@.take(1)) == digit_val(s@[0]));
                        assert(all_digits(s@.take(1)));
                    }
                    v
                },
                None => {
                    proof {
                        assert(s@.take(1)[0] == s@[0]);
                    }
                    return None;
                },
            }
        } else {
            match (Date::digit_at(s, 0), Date::digit_at(s, 1)) {
                (Some(v1), Some(v2)) => {
                    proof {
                        lemma_two_digit_val(s@, 0);
                        assert(s@.take(2) =~= s@.subrange(0, 2));
                    }
                    v1 * 10 + v2
                },
                _ => {
                    proof {
                        assert(s@.take(2)[0] == s@[0]);
                        assert(s@.take(2)[1] == s@[1]);
                    }
                    return None;
                },
            }
        };
        let mon = Date::month_at(s, dlen);
        if mon == 0 {
            return None;
        }
        let yy: u16 = match (Date::digit_at(s, dlen + 3), Date::digit_at(s, dlen + 4)) {
            (Some(v1), Some(v2)) => {
                proof {
                    lemma_two_digit_val(s@, dlen as int + 3);
                }
                v1 * 10 + v2
            },
            _ => {
                proof {
                    assert(s@.subrange(dlen as int + 3, dlen as int + 5)[0] == s@[dlen as int
                        + 3]);
                    assert(s@.subrange(dlen as int + 3, dlen as int + 5)[1] == s@[dlen as int
                        + 4]);
                }
                return None;
            },
        };
        let year: u16 = if yy >= 69 {
            1900 + yy
        } else {
            2000 + yy
        };
        let d = Date { year, month: mon, day: dd as u8 };
        if d.check_valid() {
            Some(d)
        } else {
            None
        }
    }

    /// The month named at position `i`, or 0.
    fn month_at(s: &str, i: usize) -> (r: u8)
        requires
            i + 3 <= s@.len(),
            i + 3 <= usize::MAX,
        ensures
            r == month_num(s@[i as int], s@[i as int + 1], s@[i as int + 2]),
            r <= 12,
    {
        let c0 = s.get_char(i);
        let c1 = s.get_char(i + 1);
        let c2 = s.get_char(i + 2);
        if (c0 == 'J' || c0 == 'j') && (c1 == 'A' || c1 == 'a') && (c2 == 'N' || c2 == 'n') { 1 }
        else if (c0 == 'F' || c0 == 'f') && (c1 == 'E' || c1 == 'e') && (c2 == 'B' || c2 == 'b') { 2 }
        else if (c0 == 'M' || c0 == 'm') && (c1 == 'A' || c1 == 'a') && (c2 == 'R' || c2 == 'r') { 3 }
        else if (c0 == 'A' || c0 == 'a') && (c1 == 'P' || c1 == 'p') && (c2 == 'R' || c2 == 'r') { 4 }
        else if (c0 == 'M' || c0 == 'm') && (c1 == 'A' || c1 == 'a') && (c2 == 'Y' || c2 == 'y') { 5 }
        else if (c0 == 'J' || c0 == 'j') && (c1 == 'U' || c1 == 'u') && (c2 == 'N' || c2 == 'n') { 6 }
        else if (c0 == 'J' || c0 == 'j') && (c1 == 'U' || c1 == 'u') && (c2 == 'L' || c2 == 'l') { 7 }
        else if (c0 == 'A' || c0 == 'a') && (c1 == 'U' || c1 == 'u') && (c2 == 'G' || c2 == 'g') { 8 }
        else if (c0 == 'S' || c0 == 's') && (c1 == 'E' || c1 == 'e') && (c2 == 'P' || c2 == 'p') { 9 }
        else if (c0 == 'O' || c0 == 'o') && (c1 == 'C' || c1 == 'c') && (c2 == 'T' || c2 == 't') { 10 }
        else if (c0 == 'N' || c0 == 'n') && (c1 == 'O' || c1 == 'o') && (c2 == 'V' || c2 == 'v') { 11 }
        else if (c0 == 'D' || c0 == 'd') && (c1 == 'E' || c1 == 'e') && (c2 == 'C' || c2 == 'c') { 12 }
        else { 0 }
    }

    /// Whether the fields name a real calendar day.
    pub fn check_valid(&self) -> (r: bool)
        ensures
            r == date_valid(*self),
    {
        if self.month < 1 || self.month > 12 {
            return false;
        }
        let leap = self.year % 4 == 0 && (self.year % 100 != 0 || self.year % 400 == 0);
        let dim: u8 = if self.month == 2 {
            if leap {
                29
            } else {
                28
            }
        } else if self.month == 4 || self.month == 6 || self.month == 9 || self.month == 11 {
            30
        } else {
            31
        };
        1 <= self.day && self.day <= dim
    }
}

/// Two adjacent digits denote `10 * first + second`.
proof fn lemma_two_digit_val(s: Seq<char>, i: int)
    requires
        0 <= i,
        i + 2 <= s.len(),
        is_digit(s[i]),
        is_digit(s[i + 1]),
    ensures
        digits_val(s.subrange(i, i + 2)) == 10 * digit_val(s[i]) + digit_val(s[i + 1]),
        all_digits(s.subrange(i, i + 2)),
{
    let t = s.subrange(i, i + 2);
    assert(t.drop_last() =~= s.subrange(i, i + 1));
    assert(t.last() == s[i + 1]);
    assert(s.subrange(i, i + 1).drop_last() =~= Seq::<char>::empty());
    assert(s.subrange(i, i + 1).last() == s[i]);
    assert(digits_val(Seq::<char>::empty()) == 0);
    assert(digits_val(s.subrange(i, i + 1)) == digit_val(s[i]));
    assert(digits_val(t) == digits_val(s.subrange(i, i + 1)) * 10 + digit_val(s[i + 1]));
    assert forall|j: int| 0 <= j < 2 implies is_digit(#[trigger] t[j]) by {
        assert(t[j] == s[i + j]);
    }
}

/// Append a number below 100 as exactly two digits.
pub(crate) fn append_two_digits(out: &mut String, n: u16)
    requires
        n <= 99,
    ensures
        final(out)@ == old(out)@ + two_digits(n as int),
{
    append_digit(out, (n / 10) as u128);
    append_digit(out, (n % 10) as u128);
    proof {
        assert(final(out)@ =~= old(out)@ + two_digits(n as int));
    }
}

impl Date {
    /// The canonical `YYMMDD` text of this date.
    pub fn format_yymmdd(&self) -> (r: String)
        requires
            date_valid(*self),
        ensures
            r@ == spec_format_yymmdd(*self),
    {
        let mut out = String::new();
        append_two_digits(&mut out, self.year % 100);
        append_two_digits(&mut out, self.month as u16);
        append_two_digits(&mut out, self.day as u16);
        proof {
            assert(out@ =~= spec_format_yymmdd(*self));
        }
        out
    }

    /// The canonical `DDMMMYY` text of this date.
    pub fn format_ddmmmyy(&self) -> (r: String)
        requires
            date_valid(*self),
        ensures
            r@ == spec_format_ddmmmyy(*self),
    {
        let mut out = String::new();
        append_two_digits(&mut out, self.day as u16);
        let m = self.month;
        let abbrev: &str = if m == 1 { "JAN" }
        else if m == 2 { "FEB" }
        else if m == 3 { "MAR" }
        else if m == 4 { "APR" }
        else if m == 5 { "MAY" }
        else if m == 6 { "JUN" }
        else if m == 7 { "JUL" }
        else if m == 8 { "AUG" }
        else if m == 9 { "SEP" }
        else if m == 10 { "OCT" }
        else if m == 11 { "NOV" }
        else { "DEC" };
        proof {
            reveal_strlit("JAN");
            reveal_strlit("FEB");
            reveal_strlit("MAR");
            reveal_strlit("APR");
            reveal_strlit("MAY");
            reveal_strlit("JUN");
            reveal_strlit("JUL");
            reveal_strlit("AUG");
            reveal_strlit("SEP");
            reveal_strlit("OCT");
            reveal_strlit("NOV");
            reveal_strlit("DEC");
            assert(abbrev@ =~= month_abbrev(m as int));
        }
        out.append(abbrev);
        append_two_digits(&mut out, self.year % 100);
        proof {
            assert(out@ =~= spec_format_ddmmmyy(*self));
        }
        out
    }
}

/// The two-digit form of a number below 100 denotes it exactly.
pub proof fn lemma_two_digits_val(n: int)
    requires
        0 <= n <= 99,
    ensures
        digits_val(two_digits(n)) == n,
        all_digits(two_digits(n)),
        two_digits(n).len() == 2,
{
    let t = two_digits(n);
    assert(is_digit(digit_char(n / 10)) && digit_val(digit_char(n / 10)) == n / 10);
    assert(is_digit(digit_char(n % 10)) && digit_val(digit_char(n % 10)) == n % 10);
    assert(t.drop_last() =~= seq![digit_char(n / 10)]);
    assert(t.last() == digit_char(n % 10));
    assert(seq![digit_char(n / 10)].drop_last() =~= Seq::<char>::empty());
    assert(digits_val(Seq::<char>::empty()) == 0);
    assert(digits_val(seq![digit_char(n / 10)]) == n / 10);
    assert(n / 10 * 10 + n % 10 == n);
    assert forall|j: int| 0 <= j < 2 implies is_digit(#[trigger] t[j]) by {
    }
}

/// A two-digit year recovered through [`year_of_yy`] names the year again,
/// inside the window.
pub proof fn lemma_year_window(y: int)
    requires
        1969 <= y <= 2068,
    ensures
        year_of_yy(y % 100) == y,
{
    if y <= 1999 {
        assert(y % 100 == y - 1900);
    } else if y <= 2068 {
        assert(y % 100 == y - 2000);
    }
}

/// Reparsing a formatted `YYMMDD` date restores it exactly.
pub proof fn lemma_yymmdd_roundtrip(d: Date)
    requires
        date_valid(d),
        year_in_window(d),
    ensures
        spec_parse_yymmdd(spec_format_yymmdd(d)) == Some(d),
{
    let f = spec_format_yymmdd(d);
    let a = two_digits(d.year as int % 100);
    let b = two_digits(d.month as int);
    let c = two_digits(d.day as int);
    lemma_two_digits_val(d.year as int % 100);
    lemma_two_digits_val(d.month as int);
    lemma_two_digits_val(d.day as int);
    lemma_year_window(d.year as int);
    assert(f.len() == 6);
    assert(f.subrange(0, 2) =~= a);
    assert(f.subrange(2, 4) =~= b);
    assert(f.subrange(4, 6) =~= c);
    assert forall|i: int| 0 <= i < 6 implies is_digit(#[trigger] f[i]) by {
        if i < 2 {
            assert(f[i] == a[i]);
        } else if i < 4 {
            assert(f[i] == b[i - 2]);
        } else {
            assert(f[i] == c[i - 4]);
        }
    }
}

/// Reparsing a formatted `DDMMMYY` date restores it exactly.
pub proof fn lemma_ddmmmyy_roundtrip(d: Date)
    requires
        date_valid(d),
        year_in_window(d),
    ensures
        spec_parse_ddmmmyy(spec_format_ddmmmyy(d)) == Some(d),
{
    let f = spec_format_ddmmmyy(d);
    let a = two_digits(d.day as int);
    let b = month_abbrev(d.month as int);
    let c = two_digits(d.year as int % 100);
    lemma_two_digits_val(d.day as int);
    lemma_two_digits_val(d.year as int % 100);
    lemma_year_window(d.year as int);
    assert(f.len() == 7);
    assert(f.take(2) =~= a);
    assert(f[2] == b[0] && f[3] == b[1] && f[4] == b[2]);
    assert(f.subrange(5, 7) =~= c);
    assert(month_num(b[0], b[1], b[2]) == d.month);
}

/// What a successful `YYMMDD` parse yields.
pub proof fn lemma_parse_yymmdd_props(s: Seq<char>)
    ensures
        spec_parse_yymmdd(s) matches Some(d) ==> date_valid(d) && year_in_window(d),
{
    if spec_parse_yymmdd(s) is Some {
        crate::decimal::lemma_digits_val_bounds(s.subrange(0, 2));
        assert(crate::decimal::pow10(2) == 100) by {
            reveal_with_fuel(crate::decimal::pow10, 3);
        }
        assert(all_digits(s.subrange(0, 2))) by {
            assert forall|j: int| 0 <= j < 2 implies is_digit(#[trigger] s.subrange(0, 2)[j]) by {
                assert(s.subrange(0, 2)[j] == s[j]);
            }
        }
    }
}

/// What a successful `DDMMMYY` parse yields.
pub proof fn lemma_parse_ddmmmyy_props(s: Seq<char>)
    ensures
        spec_parse_ddmmmyy(s) matches Some(d) ==> date_valid(d) && year_in_window(d),
{
    if spec_parse_ddmmmyy(s) is Some {
        let dlen = (s.len() - 5) as int;
        crate::decimal::lemma_digits_val_bounds(s.subrange(dlen + 3, dlen + 5));
        assert(crate::decimal::pow10(2) == 100) by {
            reveal_with_fuel(crate::decimal::pow10, 3);
        }
    }
}

/// The `YYMMDD` form is six digits.
pub proof fn lemma_format_yymmdd_chars(d: Date)
    ensures
        spec_format_yymmdd(d).len() == 6,
        all_digits(spec_format_yymmdd(d)),
{
    let f = spec_format_yymmdd(d);
    let a = two_digits(d.year as int % 100);
    let b = two_digits(d.month as int);
    let c = two_digits(d.day as int);
    assert forall|i: int| 0 <= i < 6 implies is_digit(#[trigger] f[i]) by {
        if i < 2 {
            assert(f[i] == a[i]);
        } else if i < 4 {
            assert(f[i] == b[i - 2]);
        } else {
            assert(f[i] == c[i - 4]);
        }
    }
}

/// The `DDMMMYY` form is seven characters, none a dash.
pub proof fn lemma_format_ddmmmyy_chars(d: Date)
    ensures
        spec_format_ddmmmyy(d).len() == 7,
        forall|i: int| 0 <= i < 7 ==> spec_format_ddmmmyy(d)[i] != '-',
{
    let f = spec_format_ddmmmyy(d);
    let a = two_digits(d.day as int);
    let b = month_abbrev(d.month as int);
    let c = two_digits(d.year as int % 100);
    assert(b.len() == 3);
    assert forall|i: int| 0 <= i < 7 implies f[i] != '-' by {
        if i < 2 {
            assert(f[i] == a[i]);
        } else if i < 5 {
            assert(f[i] == b[i - 2]);
        } else {
            assert(f[i] == c[i - 5]);
        }
    }
}

/// The ISO text of a date: `YYYY-MM-DD`, for years up to 9999.
pub open spec fn spec_format_iso(d: Date) -> Seq<char> {
    two_digits(d.year as int / 100) + two_digits(d.year as int % 100) + seq!['-'] + two_digits(
        d.month as int,
    ) + seq!['-'] + two_digits(d.day as int)
}

impl Date {
    /// The ISO `YYYY-MM-DD` text of this date.
    pub fn format_iso(&self) -> (r: String)
        requires
            date_valid(*self),
            self.year <= 9999,
        ensures
            r@ == spec_format_iso(*self),
    {
        let mut out = String::new();
        append_two_digits(&mut out, self.year / 100);
        append_two_digits(&mut out, self.year % 100);
        crate::json::push_char(&mut out, '-');
        append_two_digits(&mut out, self.month as u16);
        crate::json::push_char(&mut out, '-');
        append_two_digits(&mut out, self.day as u16);
        proof {
            assert(out@ =~= spec_format_iso(*self));
        }
        out
    }
}

} // verus!
