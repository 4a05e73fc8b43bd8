use vstd::prelude::*;
use crate::text::{
    after_first, digit_val, digits_val, is_digit, is_space, is_word, opt_str_is, prefix_before,
    str_after_first, str_prefix_before,
};

verus! {

/// A calendar day, held as plain numbers so that every rule about it
/// can be checked.
#[derive(Clone, Copy, Debug, PartialEq, Eq, Structural)]
pub struct Date {
    pub year: u32,
    pub month: u32,
    pub day: u32,
}

/// The Gregorian leap-year rule.
pub open spec fn is_leap_year(y: int) -> bool {
    (y % 4 == 0 && y % 100 != 0) || y % 400 == 0
}

/// How many days the month has in the year.
pub open spec fn days_in_month(y: int, m: int) -> int {
    if m == 2 {
        if is_leap_year(y) {
            29
        } else {
            28
        }
    } else if m == 4 || m == 6 || m == 9 || m == 11 {
        30
    } else {
        31
    }
}

/// A real calendar day with a four-digit year.
pub open spec fn date_valid(d: Date) -> bool {
    &&& d.year <= 9999
    &&& 1 <= d.month <= 12
    &&& 1 <= d.day <= days_in_month(d.year as int, d.month as int)
}

/// The date when the numbers make a real calendar day, nothing
/// otherwise.
pub open spec fn mk_date(y: int, m: int, d: int) -> Option<Date> {
    if 0 <= y <= 9999 && 1 <= m <= 12 && 1 <= d && d <= days_in_month(y, m) {
        Some(Date { year: y as u32, month: m as u32, day: d as u32 })
    } else {
        None
    }
}

/// How many days the month has in the year.
fn days_in_month_exec(y: u32, m: u32) -> (r: u32)
    requires
        1 <= m <= 12,
    ensures
        r == days_in_month(y as int, m as int),
{
    if m == 2 {
        if (y % 4 == 0 && y % 100 != 0) || y % 400 == 0 {
            29
        } else {
            28
        }
    } else if m == 4 || m == 6 || m == 9 || m == 11 {
        30
    } else {
        31
    }
}

/// The date when the numbers make a real calendar day.
fn mk_date_exec(y: u32, m: u32, d: u32) -> (r: Option<Date>)
    ensures
        r == mk_date(y as int, m as int, d as int),
{
    if y <= 9999 && 1 <= m && m <= 12 && 1 <= d {
        if d <= days_in_month_exec(y, m) {
            Some(Date { year: y, month: m, day: d })
        } else {
            None
        }
    } else {
        None
    }
}

/// A date written `YYYY-MM-DD`, zero-padded, so that the lexicographic
/// order on such strings is the chronological order.
pub open spec fn spec_format_ymd(d: Date) -> Seq<char> {
    crate::text::dec_pad4(d.year as nat) + seq!['-'] + crate::text::dec_pad2(d.month as nat)
        + seq!['-'] + crate::text::dec_pad2(d.day as nat)
}

/// Write the date as `YYYY-MM-DD`.
pub fn format_ymd(d: &Date) -> (r: String)
    requires
        date_valid(*d),
    ensures
        r@ == spec_format_ymd(*d),
{
    let mut s = crate::text::u32_pad4(d.year);
    s.push('-');
    let m = crate::text::u32_pad2(d.month);
    s.append(m.as_str());
    s.push('-');
    let day = crate::text::u32_pad2(d.day);
    s.append(day.as_str());
    proof {
        assert(s@ =~= spec_format_ymd(*d));
    }
    s
}

/// The month number of a three-letter English month abbreviation.
pub open spec fn month_of_chars(a: char, b: char, c: char) -> Option<u32> {
    if a == 'J' && b == 'a' && c == 'n' {
        Some(1u32)
    } else if a == 'F' && b == 'e' && c == 'b' {
        Some(2u32)
    } else if a == 'M' && b == 'a' && c == 'r' {
        Some(3u32)
    } else if a == 'A' && b == 'p' && c == 'r' {
        Some(4u32)
    } else if a == 'M' && b == 'a' && c == 'y' {
        Some(5u32)
    } else if a == 'J' && b == 'u' && c == 'n' {
        Some(6u32)
    } else if a == 'J' && b == 'u' && c == 'l' {
        Some(7u32)
    } else if a == 'A' && b == 'u' && c == 'g' {
        Some(8u32)
    } else if a == 'S' && b == 'e' && c == 'p' {
        Some(9u32)
    } else if a == 'O' && b == 'c' && c == 't' {
        Some(10u32)
    } else if a == 'N' && b == 'o' && c == 'v' {
        Some(11u32)
    } else if a == 'D' && b == 'e' && c == 'c' {
        Some(12u32)
    } else {
        None
    }
}

fn month_of_chars_exec(a: char, b: char, c: char) -> (r: Option<u32>)
    ensures
        r == month_of_chars(a, b, c),
{
    if a == 'J' && b == 'a' && c == 'n' {
        Some(1u32)
    } else if a == 'F' && b == 'e' && c == 'b' {
        Some(2u32)
    } else if a == 'M' && b == 'a' && c == 'r' {
        Some(3u32)
    } else if a == 'A' && b == 'p' && c == 'r' {
        Some(4u32)
    } else if a == 'M' && b == 'a' && c == 'y' {
        Some(5u32)
    } else if a == 'J' && b == 'u' && c == 'n' {
        Some(6u32)
    } else if a == 'J' && b == 'u' && c == 'l' {
        Some(7u32)
    } else if a == 'A' && b == 'u' && c == 'g' {
        Some(8u32)
    } else if a == 'S' && b == 'e' && c == 'p' {
        Some(9u32)
    } else if a == 'O' && b == 'c' && c == 't' {
        Some(10u32)
    } else if a == 'N' && b == 'o' && c == 'v' {
        Some(11u32)
    } else if a == 'D' && b == 'e' && c == 'c' {
        Some(12u32)
    } else {
        None
    }
}

fn is_digit_c(c: char) -> (r: bool)
    ensures
        r == is_digit(c),
{
    '0' <= c && c <= '9'
}

fn is_word_c(c: char) -> (r: bool)
    ensures
        r == is_word(c),
{
    ('a' <= c && c <= 'z') || ('A' <= c && c <= 'Z') || ('0' <= c && c <= '9') || c == '_'
}

fn is_space_c(c: char) -> (r: bool)
    ensures
        r == is_space(c),
{
    c == ' ' || c == '\t' || c == '\n' || c == '\r'
}

fn digit_value(c: char) -> (v: u32)
    requires
        is_digit(c),
    ensures
        v == digit_val(c),
        v <= 9,
{
    c as u32 - 48
}

/// Four decimal digits stand at position `i`.
pub open spec fn digits4_at(s: Seq<char>, i: int) -> bool {
    &&& 0 <= i && i + 4 <= s.len()
    &&& is_digit(s[i]) && is_digit(s[i + 1]) && is_digit(s[i + 2]) && is_digit(s[i + 3])
}

/// The number the four digits at position `i` write.
pub open spec fn num4_at(s: Seq<char>, i: int) -> int {
    digit_val(s[i]) * 1000 + digit_val(s[i + 1]) * 100 + digit_val(s[i + 2]) * 10 + digit_val(
        s[i + 3],
    )
}

fn digits4_check(s: &str, n: usize, i: usize) -> (r: bool)
    requires
        n == s@.len(),
        i <= n,
    ensures
        r == digits4_at(s@, i as int),
{
    if n - i < 4 {
        return false;
    }
    is_digit_c(s.get_char(i)) && is_digit_c(s.get_char(i + 1)) && is_digit_c(s.get_char(i + 2))
        && is_digit_c(s.get_char(i + 3))
}

fn num4_exec(s: &str, n: usize, i: usize) -> (r: u32)
    requires
        n == s@.len(),
        digits4_at(s@, i as int),
        i <= n,
    ensures
        r == num4_at(s@, i as int),
        r <= 9999,
{
    let d0 = digit_value(s.get_char(i));
    let d1 = digit_value(s.get_char(i + 1));
    let d2 = digit_value(s.get_char(i + 2));
    let d3 = digit_value(s.get_char(i + 3));
    d0 * 1000 + d1 * 100 + d2 * 10 + d3
}

/// The written-month date pattern at position `i`: three word
/// characters, a space, a one- or two-digit day, a comma, a space and a
/// four-digit year (as in `Aug 21, 2023`).  With a digit after the
/// first day digit, only the two-digit reading can close the pattern.
pub open spec fn shape1_at(s: Seq<char>, i: int) -> bool {
    &&& 0 <= i && i + 5 <= s.len()
    &&& is_word(s[i]) && is_word(s[i + 1]) && is_word(s[i + 2])
    &&& s[i + 3] == ' '
    &&& is_digit(s[i + 4])
    &&& if i + 5 < s.len() && is_digit(s[i + 5]) {
        s.len() >= i + 12 && s[i + 6] == ',' && s[i + 7] == ' ' && digits4_at(s, i + 8)
    } else {
        s.len() >= i + 11 && s[i + 5] == ',' && s[i + 6] == ' ' && digits4_at(s, i + 7)
    }
}

/// The date the written-month pattern at `i` denotes, when its word is
/// a month name and the day exists in that month.
pub open spec fn date1_value(s: Seq<char>, i: int) -> Option<Date>
    recommends
        shape1_at(s, i),
{
    let two = i + 5 < s.len() && is_digit(s[i + 5]);
    let day = if two {
        digit_val(s[i + 4]) * 10 + digit_val(s[i + 5])
    } else {
        digit_val(s[i + 4])
    };
    let year = if two {
        num4_at(s, i + 8)
    } else {
        num4_at(s, i + 7)
    };
    match month_of_chars(s[i], s[i + 1], s[i + 2]) {
        Some(m) => mk_date(year, m as int, day),
        None => None,
    }
}

fn shape1_check(s: &str, n: usize, i: usize) -> (r: bool)
    requires
        n == s@.len(),
        i <= n,
    ensures
        r == shape1_at(s@, i as int),
{
    if n - i < 11 {
        return false;
    }
    if !(is_word_c(s.get_char(i)) && is_word_c(s.get_char(i + 1)) && is_word_c(
        s.get_char(i + 2),
    )) {
        return false;
    }
    if s.get_char(i + 3) != ' ' {
        return false;
    }
    if !is_digit_c(s.get_char(i + 4)) {
        return false;
    }
    if is_digit_c(s.get_char(i + 5)) {
        if n - i < 12 {
            return false;
        }
        s.get_char(i + 6) == ',' && s.get_char(i + 7) == ' ' && digits4_check(s, n, i + 8)
    } else {
        s.get_char(i + 5) == ',' && s.get_char(i + 6) == ' ' && digits4_check(s, n, i + 7)
    }
}

fn date1_value_exec(s: &str, n: usize, i: usize) -> (r: Option<Date>)
    requires
        n == s@.len(),
        i <= n,
        shape1_at(s@, i as int),
    ensures
        r == date1_value(s@, i as int),
{
    let two = i + 5 < n && is_digit_c(s.get_char(i + 5));
    let day = if two {
        digit_value(s.get_char(i + 4)) * 10 + digit_value(s.get_char(i + 5))
    } else {
        digit_value(s.get_char(i + 4))
    };
    let year = if two {
        num4_exec(s, n, i + 8)
    } else {
        num4_exec(s, n, i + 7)
    };
    match month_of_chars_exec(s.get_char(i), s.get_char(i + 1), s.get_char(i + 2)) {
        Some(m) => mk_date_exec(year, m, day),
        None => None,
    }
}

/// The slash date pattern at position `i`: a one- or two-digit month, a
/// slash, a one- or two-digit day, a slash and a four-digit year (as in
/// `08/21/2023`).
pub open spec fn shape2_at(s: Seq<char>, i: int) -> bool {
    &&& 0 <= i && i < s.len() && is_digit(s[i])
    &&& {
        let a: int = if i + 1 < s.len() && is_digit(s[i + 1]) {
            2
        } else {
            1
        };
        &&& i + a < s.len() && s[i + a] == '/'
        &&& i + a + 1 < s.len() && is_digit(s[i + a + 1])
        &&& {
            let b: int = if i + a + 2 < s.len() && is_digit(s[i + a + 2]) {
                2
            } else {
                1
            };
            &&& i + a + 1 + b < s.len() && s[i + a + 1 + b] == '/'
            &&& digits4_at(s, i + a + b + 2)
        }
    }
}

/// The date the slash pattern at `i` denotes, when month and day make a
/// real calendar day.
pub open spec fn date2_value(s: Seq<char>, i: int) -> Option<Date>
    recommends
        shape2_at(s, i),
{
    let a: int = if i + 1 < s.len() && is_digit(s[i + 1]) {
        2
    } else {
        1
    };
    let m = if a == 2 {
        digit_val(s[i]) * 10 + digit_val(s[i + 1])
    } else {
        digit_val(s[i])
    };
    let b: int = if i + a + 2 < s.len() && is_digit(s[i + a + 2]) {
        2
    } else {
        1
    };
    let d = if b == 2 {
        digit_val(s[i + a + 1]) * 10 + digit_val(s[i + a + 2])
    } else {
        digit_val(s[i + a + 1])
    };
    mk_date(num4_at(s, i + a + b + 2), m, d)
}

fn shape2_check(s: &str, n: usize, i: usize) -> (r: bool)
    requires
        n == s@.len(),
        i <= n,
    ensures
        r == shape2_at(s@, i as int),
{
    if n - i < 8 {
        return false;
    }
    if !is_digit_c(s.get_char(i)) {
        return false;
    }
    let a: usize = if is_digit_c(s.get_char(i + 1)) {
        2
    } else {
        1
    };
    if !(i + a < n && s.get_char(i + a) == '/') {
        return false;
    }
    if !(i + a + 1 < n && is_digit_c(s.get_char(i + a + 1))) {
        return false;
    }
    let b: usize = if i + a + 2 < n && is_digit_c(s.get_char(i + a + 2)) {
        2
    } else {
        1
    };
    if !(i + a + 1 + b < n && s.get_char(i + a + 1 + b) == '/') {
        return false;
    }
    digits4_check(s, n, i + a + b + 2)
}

fn date2_value_exec(s: &str, n: usize, i: usize) -> (r: Option<Date>)
    requires
        n == s@.len(),
        i <= n,
        shape2_at(s@, i as int),
    ensures
        r == date2_value(s@, i as int),
{
    let a: usize = if i + 1 < n && is_digit_c(s.get_char(i + 1)) {
        2
    } else {
        1
    };
    let m = if a == 2 {
        digit_value(s.get_char(i)) * 10 + digit_value(s.get_char(i + 1))
    } else {
        digit_value(s.get_char(i))
    };
    let b: usize = if i + a + 2 < n && is_digit_c(s.get_char(i + a + 2)) {
        2
    } else {
        1
    };
    let d = if b == 2 {
        digit_value(s.get_char(i + a + 1)) * 10 + digit_value(s.get_char(i + a + 2))
    } else {
        digit_value(s.get_char(i + a + 1))
    };
    let y = num4_exec(s, n, i + a + b + 2);
    mk_date_exec(y, m, d)
}

/// The dashed date pattern at position `i`: a four-digit year, a dash,
/// two month digits, a dash and two day digits (as in `2023-08-21`).
pub open spec fn shape3_at(s: Seq<char>, i: int) -> bool {
    &&& 0 <= i && i + 10 <= s.len()
    &&& digits4_at(s, i)
    &&& s[i + 4] == '-' && is_digit(s[i + 5]) && is_digit(s[i + 6])
    &&& s[i + 7] == '-' && is_digit(s[i + 8]) && is_digit(s[i + 9])
}

/// The date the dashed pattern at `i` denotes, when it makes a real
/// calendar day.
pub open spec fn date3_value(s: Seq<char>, i: int) -> Option<Date>
    recommends
        shape3_at(s, i),
{
    mk_date(
        num4_at(s, i),
        digit_val(s[i + 5]) * 10 + digit_val(s[i + 6]),
        digit_val(s[i + 8]) * 10 + digit_val(s[i + 9]),
    )
}

fn shape3_check(s: &str, n: usize, i: usize) -> (r: bool)
    requires
        n == s@.len(),
        i <= n,
    ensures
        r == shape3_at(s@, i as int),
{
    if n - i < 10 {
        return false;
    }
    digits4_check(s, n, i) && s.get_char(i + 4) == '-' && is_digit_c(s.get_char(i + 5))
        && is_digit_c(s.get_char(i + 6)) && s.get_char(i + 7) == '-' && is_digit_c(
        s.get_char(i + 8),
    ) && is_digit_c(s.get_char(i + 9))
}

fn date3_value_exec(s: &str, n: usize, i: usize) -> (r: Option<Date>)
    requires
        n == s@.len(),
        i <= n,
        shape3_at(s@, i as int),
    ensures
        r == date3_value(s@, i as int),
{
    let y = num4_exec(s, n, i);
    let m = digit_value(s.get_char(i + 5)) * 10 + digit_value(s.get_char(i + 6));
    let d = digit_value(s.get_char(i + 8)) * 10 + digit_value(s.get_char(i + 9));
    mk_date_exec(y, m, d)
}

/// The first position at or after `i` where the written-month pattern
/// stands.
pub open spec fn first_shape1(s: Seq<char>, i: int) -> Option<int>
    decreases s.len() - i,
{
    if !(0 <= i <= s.len()) {
        None
    } else if shape1_at(s, i) {
        Some(i)
    } else if i == s.len() {
        None
    } else {
        first_shape1(s, i + 1)
    }
}

/// The first position at or after `i` where the slash pattern stands.
pub open spec fn first_shape2(s: Seq<char>, i: int) -> Option<int>
    decreases s.len() - i,
{
    if !(0 <= i <= s.len()) {
        None
    } else if shape2_at(s, i) {
        Some(i)
    } else if i == s.len() {
        None
    } else {
        first_shape2(s, i + 1)
    }
}

/// The first position at or after `i` where the dashed pattern stands.
pub open spec fn first_shape3(s: Seq<char>, i: int) -> Option<int>
    decreases s.len() - i,
{
    if !(0 <= i <= s.len()) {
        None
    } else if shape3_at(s, i) {
        Some(i)
    } else if i == s.len() {
        None
    } else {
        first_shape3(s, i + 1)
    }
}

proof fn lemma_first_shape1_from(s: Seq<char>, i: int)
    requires
        0 <= i <= s.len(),
        forall|j: int| 0 <= j < i ==> !shape1_at(s, j),
    ensures
        first_shape1(s, 0) == first_shape1(s, i),
    decreases i,
{
    if i > 0 {
        lemma_first_shape1_from(s, i - 1);
    }
}

proof fn lemma_first_shape2_from(s: Seq<char>, i: int)
    requires
        0 <= i <= s.len(),
        forall|j: int| 0 <= j < i ==> !shape2_at(s, j),
    ensures
        first_shape2(s, 0) == first_shape2(s, i),
    decreases i,
{
    if i > 0 {
        lemma_first_shape2_from(s, i - 1);
    }
}

proof fn lemma_first_shape3_from(s: Seq<char>, i: int)
    requires
        0 <= i <= s.len(),
        forall|j: int| 0 <= j < i ==> !shape3_at(s, j),
    ensures
        first_shape3(s, 0) == first_shape3(s, i),
    decreases i,
{
    if i > 0 {
        lemma_first_shape3_from(s, i - 1);
    }
}

fn find_shape1(s: &str, n: usize) -> (r: Option<usize>)
    requires
        n == s@.len(),
    ensures
        first_shape1(s@, 0) is None ==> r is None,
        first_shape1(s@, 0) matches Some(j) ==> (r matches Some(k) && k == j && k <= n
            && shape1_at(s@, k as int)),
{
    let mut i: usize = 0;
    loop
        invariant
            i <= n,
            n == s@.len(),
            forall|j: int| 0 <= j < i ==> !shape1_at(s@, j),
        decreases n - i,
    {
        if shape1_check(s, n, i) {
            proof {
                lemma_first_shape1_from(s@, i as int);
            }
            return Some(i);
        }
        if i == n {
            proof {
                lemma_first_shape1_from(s@, i as int);
            }
            return None;
        }
        i = i + 1;
    }
}

fn find_shape2(s: &str, n: usize) -> (r: Option<usize>)
    requires
        n == s@.len(),
    ensures
        first_shape2(s@, 0) is None ==> r is None,
        first_shape2(s@, 0) matches Some(j) ==> (r matches Some(k) && k == j && k <= n
            && shape2_at(s@, k as int)),
{
    let mut i: usize = 0;
    loop
        invariant
            i <= n,
            n == s@.len(),
            forall|j: int| 0 <= j < i ==> !shape2_at(s@, j),
        decreases n - i,
    {
        if shape2_check(s, n, i) {
            proof {
                lemma_first_shape2_from(s@, i as int);
            }
            return Some(i);
        }
        if i == n {
            proof {
                lemma_first_shape2_from(s@, i as int);
            }
            return None;
        }
        i = i + 1;
    }
}

fn find_shape3(s: &str, n: usize) -> (r: Option<usize>)
    requires
        n == s@.len(),
    ensures
        first_shape3(s@, 0) is None ==> r is None,
        first_shape3(s@, 0) matches Some(j) ==> (r matches Some(k) && k == j && k <= n
            && shape3_at(s@, k as int)),
{
    let mut i: usize = 0;
    loop
        invariant
            i <= n,
            n == s@.len(),
            forall|j: int| 0 <= j < i ==> !shape3_at(s@, j),
        decreases n - i,
    {
        if shape3_check(s, n, i) {
            proof {
                lemma_first_shape3_from(s@, i as int);
            }
            return Some(i);
        }
        if i == n {
            proof {
                lemma_first_shape3_from(s@, i as int);
            }
            return None;
        }
        i = i + 1;
    }
}

/// The watched date a scraped line carries, if any: the first
/// written-month pattern, or failing that the first slash pattern, or
/// failing that the first dashed pattern, each accepted only where it
/// names a real calendar day.
pub open spec fn extract_date_spec(s: Seq<char>) -> Option<Date> {
    let r1 = match first_shape1(s, 0) {
        Some(i) => date1_value(s, i),
        None => None,
    };
    if r1 is Some {
        r1
    } else {
        let r2 = match first_shape2(s, 0) {
            Some(i) => date2_value(s, i),
            None => None,
        };
        if r2 is Some {
            r2
        } else {
            match first_shape3(s, 0) {
                Some(i) => date3_value(s, i),
                None => None,
            }
        }
    }
}

/// Find the watched date in a scraped line.
pub fn extract_date(text: &str) -> (r: Option<Date>)
    ensures
        r == extract_date_spec(text@),
{
    let n = text.unicode_len();
    let r1 = match find_shape1(text, n) {
        Some(i) => date1_value_exec(text, n, i),
        None => None,
    };
    if r1.is_some() {
        return r1;
    }
    let r2 = match find_shape2(text, n) {
        Some(i) => date2_value_exec(text, n, i),
        None => None,
    };
    if r2.is_some() {
        return r2;
    }
    match find_shape3(text, n) {
        Some(i) => date3_value_exec(text, n, i),
        None => None,
    }
}

/// The sequence without its leading whitespace.
pub open spec fn ltrim(s: Seq<char>) -> Seq<char>
    decreases s.len(),
{
    if s.len() == 0 {
        s
    } else if is_space(s[0]) {
        ltrim(s.skip(1))
    } else {
        s
    }
}

/// The sequence without its trailing whitespace.
pub open spec fn rtrim(s: Seq<char>) -> Seq<char>
    decreases s.len(),
{
    if s.len() == 0 {
        s
    } else if is_space(s.last()) {
        rtrim(s.drop_last())
    } else {
        s
    }
}

/// The sequence without leading and trailing whitespace.
pub open spec fn trim_spec(s: Seq<char>) -> Seq<char> {
    rtrim(ltrim(s))
}

proof fn lemma_ltrim_at(s: Seq<char>, a: int)
    requires
        0 <= a <= s.len(),
        forall|j: int| 0 <= j < a ==> is_space(s[j]),
        a < s.len() ==> !is_space(s[a]),
    ensures
        ltrim(s) == s.skip(a),
    decreases a,
{
    if a == 0 {
        assert(s.skip(0) =~= s);
    } else {
        lemma_ltrim_at(s.skip(1), a - 1);
        assert(s.skip(1).skip(a - 1) =~= s.skip(a));
    }
}

proof fn lemma_rtrim_at(s: Seq<char>, b: int)
    requires
        0 <= b <= s.len(),
        forall|j: int| b <= j < s.len() ==> is_space(s[j]),
        b > 0 ==> !is_space(s[b - 1]),
    ensures
        rtrim(s) == s.take(b),
    decreases s.len(),
{
    if b == s.len() {
        assert(s.take(b) =~= s);
    } else {
        lemma_rtrim_at(s.drop_last(), b);
        assert(s.drop_last().take(b) =~= s.take(b));
    }
}

fn first_non_space(s: &str, n: usize) -> (a: usize)
    requires
        n == s@.len(),
    ensures
        a <= n,
        forall|j: int| 0 <= j < a ==> is_space(s@[j]),
        a < n ==> !is_space(s@[a as int]),
{
    let mut a: usize = 0;
    loop
        invariant
            a <= n,
            n == s@.len(),
            forall|j: int| 0 <= j < a ==> is_space(s@[j]),
        decreases n - a,
    {
        if a == n {
            return a;
        }
        if !is_space_c(s.get_char(a)) {
            return a;
        }
        a = a + 1;
    }
}

fn last_non_space_end(s: &str, n: usize) -> (b: usize)
    requires
        n == s@.len(),
    ensures
        b <= n,
        forall|j: int| b <= j < n ==> is_space(s@[j]),
        b > 0 ==> !is_space(s@[b - 1]),
{
    let mut b: usize = n;
    loop
        invariant
            b <= n,
            n == s@.len(),
            forall|j: int| b <= j < n ==> is_space(s@[j]),
        decreases b,
    {
        if b == 0 {
            return b;
        }
        if !is_space_c(s.get_char(b - 1)) {
            return b;
        }
        b = b - 1;
    }
}

/// The string without leading and trailing whitespace.
pub fn trim_str(s: &str) -> (r: String)
    ensures
        r@ == trim_spec(s@),
{
    let n = s.unicode_len();
    let a = first_non_space(s, n);
    let b = last_non_space_end(s, n);
    if a >= b {
        proof {
            lemma_ltrim_at(s@, a as int);
            assert(s@.skip(a as int).len() == n - a);
            if a < n {
                assert(is_space(s@[a as int]) && !is_space(s@[a as int]));
            }
            assert(a == n);
            assert(s@.skip(a as int) =~= Seq::<char>::empty());
        }
        return String::new();
    }
    proof {
        lemma_ltrim_at(s@, a as int);
        let rest = s@.skip(a as int);
        assert forall|j: int| (b - a) <= j < rest.len() implies is_space(rest[j]) by {
            assert(rest[j] == s@[j + a]);
        }
        assert(rest[b - a - 1] == s@[b - 1]);
        lemma_rtrim_at(rest, b - a);
        assert(rest.take(b - a) =~= s@.subrange(a as int, b as int));
    }
    let sub = s.substring_char(a, b);
    String::from_str(sub)
}

/// The title and, for a localized listing, the original title, read
/// from a scraped line.  The text inside the line's first parenthesis
/// group decides: when it is the watched date, the title is everything
/// before it; otherwise the group holds the original title and the text
/// before it the localized one, in which case the original becomes the
/// title.  A line without a parenthesis group is all title.  Every
/// piece is given without surrounding whitespace.
pub open spec fn extract_title_spec(s: Seq<char>) -> (Seq<char>, Option<Seq<char>>) {
    match after_first(s, '(') {
        None => (trim_spec(s), None::<Seq<char>>),
        Some(rest) => match after_first(rest, ')') {
            None => (trim_spec(s), None),
            Some(_) => {
                let inner = prefix_before(rest, ')');
                let before = prefix_before(s, '(');
                if extract_date_spec(inner) is Some {
                    (trim_spec(before), None)
                } else {
                    (trim_spec(inner), Some(trim_spec(before)))
                }
            },
        },
    }
}

/// Split a scraped line into title and optional original title.
pub fn extract_title(text: &str) -> (r: (String, Option<String>))
    ensures
        r.0@ == extract_title_spec(text@).0,
        opt_str_is(r.1, extract_title_spec(text@).1),
{
    match str_after_first(text, '(') {
        None => (trim_str(text), None),
        Some(rest) => {
            match str_after_first(rest.as_str(), ')') {
                None => (trim_str(text), None),
                Some(_) => {
                    let inner = str_prefix_before(rest.as_str(), ')');
                    let before = str_prefix_before(text, '(');
                    if extract_date(inner.as_str()).is_some() {
                        (trim_str(before.as_str()), None)
                    } else {
                        (trim_str(inner.as_str()), Some(trim_str(before.as_str())))
                    }
                },
            }
        },
    }
}

/// The digit test, as a reusable predicate.
pub open spec fn digit_pred() -> spec_fn(char) -> bool {
    |c: char| is_digit(c)
}

/// The whitespace test, as a reusable predicate.
pub open spec fn space_pred() -> spec_fn(char) -> bool {
    |c: char| is_space(c)
}

/// Where the run of `p`-characters beginning at `i` ends: the first
/// position at or after `i` whose character fails `p`, or the length.
pub open spec fn run_end(s: Seq<char>, i: int, p: spec_fn(char) -> bool) -> int
    decreases s.len() - i,
{
    if !(0 <= i < s.len()) {
        i
    } else if p(s[i]) {
        run_end(s, i + 1, p)
    } else {
        i
    }
}

proof fn lemma_run_end_bounds(s: Seq<char>, i: int, p: spec_fn(char) -> bool)
    requires
        0 <= i <= s.len(),
    ensures
        i <= run_end(s, i, p) <= s.len(),
        forall|j: int| i <= j < run_end(s, i, p) ==> p(s[j]),
    decreases s.len() - i,
{
    if i < s.len() && p(s[i]) {
        lemma_run_end_bounds(s, i + 1, p);
    }
}

fn digit_run_end(s: &str, n: usize, i: usize) -> (j: usize)
    requires
        n == s@.len(),
        i <= n,
    ensures
        j == run_end(s@, i as int, digit_pred()),
        i <= j <= n,
{
    let mut j: usize = i;
    loop
        invariant
            i <= j <= n,
            n == s@.len(),
            run_end(s@, i as int, digit_pred()) == run_end(s@, j as int, digit_pred()),
        decreases n - j,
    {
        if j == n {
            return j;
        }
        if !is_digit_c(s.get_char(j)) {
            return j;
        }
        j = j + 1;
    }
}

fn space_run_end(s: &str, n: usize, i: usize) -> (j: usize)
    requires
        n == s@.len(),
        i <= n,
    ensures
        j == run_end(s@, i as int, space_pred()),
        i <= j <= n,
{
    let mut j: usize = i;
    loop
        invariant
            i <= j <= n,
            n == s@.len(),
            run_end(s@, i as int, space_pred()) == run_end(s@, j as int, space_pred()),
        decreases n - j,
    {
        if j == n {
            return j;
        }
        if !is_space_c(s.get_char(j)) {
            return j;
        }
        j = j + 1;
    }
}

/// The word `season`, in either letter case, stands at position `i`.
pub open spec fn season_at(s: Seq<char>, i: int) -> bool {
    &&& 0 <= i && i + 6 <= s.len()
    &&& (s[i] == 's' || s[i] == 'S')
    &&& (s[i + 1] == 'e' || s[i + 1] == 'E')
    &&& (s[i + 2] == 'a' || s[i + 2] == 'A')
    &&& (s[i + 3] == 's' || s[i + 3] == 'S')
    &&& (s[i + 4] == 'o' || s[i + 4] == 'O')
    &&& (s[i + 5] == 'n' || s[i + 5] == 'N')
}

/// The word `episode`, in either letter case, stands at position `i`.
pub open spec fn episode_at(s: Seq<char>, i: int) -> bool {
    &&& 0 <= i && i + 7 <= s.len()
    &&& (s[i] == 'e' || s[i] == 'E')
    &&& (s[i + 1] == 'p' || s[i + 1] == 'P')
    &&& (s[i + 2] == 'i' || s[i + 2] == 'I')
    &&& (s[i + 3] == 's' || s[i + 3] == 'S')
    &&& (s[i + 4] == 'o' || s[i + 4] == 'O')
    &&& (s[i + 5] == 'd' || s[i + 5] == 'D')
    &&& (s[i + 6] == 'e' || s[i + 6] == 'E')
}

fn season_check(s: &str, n: usize, i: usize) -> (r: bool)
    requires
        n == s@.len(),
        i <= n,
    ensures
        r == season_at(s@, i as int),
{
    if n - i < 6 {
        return false;
    }
    let c0 = s.get_char(i);
    let c1 = s.get_char(i + 1);
    let c2 = s.get_char(i + 2);
    let c3 = s.get_char(i + 3);
    let c4 = s.get_char(i + 4);
    let c5 = s.get_char(i + 5);
    (c0 == 's' || c0 == 'S') && (c1 == 'e' || c1 == 'E') && (c2 == 'a' || c2 == 'A') && (c3 == 's'
        || c3 == 'S') && (c4 == 'o' || c4 == 'O') && (c5 == 'n' || c5 == 'N')
}

fn episode_check(s: &str, n: usize, i: usize) -> (r: bool)
    requires
        n == s@.len(),
        i <= n,
    ensures
        r == episode_at(s@, i as int),
{
    if n - i < 7 {
        return false;
    }
    let c0 = s.get_char(i);
    let c1 = s.get_char(i + 1);
    let c2 = s.get_char(i + 2);
    let c3 = s.get_char(i + 3);
    let c4 = s.get_char(i + 4);
    let c5 = s.get_char(i + 5);
    let c6 = s.get_char(i + 6);
    (c0 == 'e' || c0 == 'E') && (c1 == 'p' || c1 == 'P') && (c2 == 'i' || c2 == 'I') && (c3 == 's'
        || c3 == 'S') && (c4 == 'o' || c4 == 'O') && (c5 == 'd' || c5 == 'D') && (c6 == 'e' || c6
        == 'E')
}

/// The long episode pattern at position `i`: the word `season`,
/// whitespace, a digit run, whitespace, the word `episode`, whitespace
/// and a digit run, case-insensitively.  The value is the two digit
/// runs' bounds.
pub open spec fn match1_at(s: Seq<char>, i: int) -> Option<(int, int, int, int)> {
    if !season_at(s, i) {
        None
    } else {
        let sp1 = i + 6;
        if !(sp1 < s.len() && is_space(s[sp1])) {
            None
        } else {
            let g1s = run_end(s, sp1, space_pred());
            if !(g1s < s.len() && is_digit(s[g1s])) {
                None
            } else {
                let g1e = run_end(s, g1s, digit_pred());
                if !(g1e < s.len() && is_space(s[g1e])) {
                    None
                } else {
                    let ep = run_end(s, g1e, space_pred());
                    if !episode_at(s, ep) {
                        None
                    } else {
                        let sp2 = ep + 7;
                        if !(sp2 < s.len() && is_space(s[sp2])) {
                            None
                        } else {
                            let g2s = run_end(s, sp2, space_pred());
                            if !(g2s < s.len() && is_digit(s[g2s])) {
                                None
                            } else {
                                Some((g1s, g1e, g2s, run_end(s, g2s, digit_pred())))
                            }
                        }
                    }
                }
            }
        }
    }
}

/// The short episode pattern at position `i`: an `s`, a digit run, an
/// `e` and a digit run, case-insensitively.  The value is the two digit
/// runs' bounds.
pub open spec fn match2_at(s: Seq<char>, i: int) -> Option<(int, int, int, int)> {
    if !(0 <= i && i < s.len() && (s[i] == 's' || s[i] == 'S')) {
        None
    } else {
        let g1s = i + 1;
        if !(g1s < s.len() && is_digit(s[g1s])) {
            None
        } else {
            let g1e = run_end(s, g1s, digit_pred());
            if !(g1e < s.len() && (s[g1e] == 'e' || s[g1e] == 'E')) {
                None
            } else {
                let g2s = g1e + 1;
                if !(g2s < s.len() && is_digit(s[g2s])) {
                    None
                } else {
                    Some((g1s, g1e, g2s, run_end(s, g2s, digit_pred())))
                }
            }
        }
    }
}

/// The bare episode pattern at position `i`: the word `episode`,
/// whitespace and a digit run, case-insensitively.  The value is the
/// digit run's bounds.
pub open spec fn match3_at(s: Seq<char>, i: int) -> Option<(int, int)> {
    if !episode_at(s, i) {
        None
    } else {
        let sp = i + 7;
        if !(sp < s.len() && is_space(s[sp])) {
            None
        } else {
            let g1s = run_end(s, sp, space_pred());
            if !(g1s < s.len() && is_digit(s[g1s])) {
                None
            } else {
                Some((g1s, run_end(s, g1s, digit_pred())))
            }
        }
    }
}

fn match1_check(s: &str, n: usize, i: usize) -> (r: Option<(usize, usize, usize, usize)>)
    requires
        n == s@.len(),
        i <= n,
    ensures
        match1_at(s@, i as int) is None ==> r is None,
        match1_at(s@, i as int) matches Some(g) ==> (r matches Some(e) && g == (
            e.0 as int,
            e.1 as int,
            e.2 as int,
            e.3 as int,
        ) && e.0 <= e.1 <= n && e.2 <= e.3 <= n && (forall|j: int|
            e.0 <= j < e.1 ==> is_digit(s@[j])) && (forall|j: int|
            e.2 <= j < e.3 ==> is_digit(s@[j]))),
{
    if !season_check(s, n, i) {
        return None;
    }
    let sp1 = i + 6;
    if !(sp1 < n && is_space_c(s.get_char(sp1))) {
        return None;
    }
    let g1s = space_run_end(s, n, sp1);
    if !(g1s < n && is_digit_c(s.get_char(g1s))) {
        return None;
    }
    let g1e = digit_run_end(s, n, g1s);
    if !(g1e < n && is_space_c(s.get_char(g1e))) {
        return None;
    }
    let ep = space_run_end(s, n, g1e);
    if !episode_check(s, n, ep) {
        return None;
    }
    let sp2 = ep + 7;
    if !(sp2 < n && is_space_c(s.get_char(sp2))) {
        return None;
    }
    let g2s = space_run_end(s, n, sp2);
    if !(g2s < n && is_digit_c(s.get_char(g2s))) {
        return None;
    }
    let g2e = digit_run_end(s, n, g2s);
    proof {
        lemma_run_end_bounds(s@, g1s as int, digit_pred());
        lemma_run_end_bounds(s@, g2s as int, digit_pred());
    }
    Some((g1s, g1e, g2s, g2e))
}

fn match2_check(s: &str, n: usize, i: usize) -> (r: Option<(usize, usize, usize, usize)>)
    requires
        n == s@.len(),
        i <= n,
    ensures
        match2_at(s@, i as int) is None ==> r is None,
        match2_at(s@, i as int) matches Some(g) ==> (r matches Some(e) && g == (
            e.0 as int,
            e.1 as int,
            e.2 as int,
            e.3 as int,
        ) && e.0 <= e.1 <= n && e.2 <= e.3 <= n && (forall|j: int|
            e.0 <= j < e.1 ==> is_digit(s@[j])) && (forall|j: int|
            e.2 <= j < e.3 ==> is_digit(s@[j]))),
{
    if i == n {
        return None;
    }
    let c = s.get_char(i);
    if !(c == 's' || c == 'S') {
        return None;
    }
    let g1s = i + 1;
    if !(g1s < n && is_digit_c(s.get_char(g1s))) {
        return None;
    }
    let g1e = digit_run_end(s, n, g1s);
    if g1e == n {
        return None;
    }
    let e = s.get_char(g1e);
    if !(e == 'e' || e == 'E') {
        return None;
    }
    let g2s = g1e + 1;
    if !(g2s < n && is_digit_c(s.get_char(g2s))) {
        return None;
    }
    let g2e = digit_run_end(s, n, g2s);
    proof {
        lemma_run_end_bounds(s@, g1s as int, digit_pred());
        lemma_run_end_bounds(s@, g2s as int, digit_pred());
    }
    Some((g1s, g1e, g2s, g2e))
}

fn match3_check(s: &str, n: usize, i: usize) -> (r: Option<(usize, usize)>)
    requires
        n == s@.len(),
        i <= n,
    ensures
        match3_at(s@, i as int) is None ==> r is None,
        match3_at(s@, i as int) matches Some(g) ==> (r matches Some(e) && g == (
            e.0 as int,
            e.1 as int,
        ) && e.0 <= e.1 <= n && (forall|j: int| e.0 <= j < e.1 ==> is_digit(s@[j]))),
{
    if !episode_check(s, n, i) {
        return None;
    }
    let sp = i + 7;
    if !(sp < n && is_space_c(s.get_char(sp))) {
        return None;
    }
    let g1s = space_run_end(s, n, sp);
    if !(g1s < n && is_digit_c(s.get_char(g1s))) {
        return None;
    }
    let g1e = digit_run_end(s, n, g1s);
    proof {
        lemma_run_end_bounds(s@, g1s as int, digit_pred());
    }
    Some((g1s, g1e))
}

/// The first position at or after `i` where the long episode pattern
/// matches, with its groups.
pub open spec fn first_match1(s: Seq<char>, i: int) -> Option<(int, int, int, int)>
    decreases s.len() - i,
{
    if !(0 <= i <= s.len()) {
        None
    } else if match1_at(s, i) is Some {
        match1_at(s, i)
    } else if i == s.len() {
        None
    } else {
        first_match1(s, i + 1)
    }
}

/// The first position at or after `i` where the short episode pattern
/// matches, with its groups.
pub open spec fn first_match2(s: Seq<char>, i: int) -> Option<(int, int, int, int)>
    decreases s.len() - i,
{
    if !(0 <= i <= s.len()) {
        None
    } else if match2_at(s, i) is Some {
        match2_at(s, i)
    } else if i == s.len() {
        None
    } else {
        first_match2(s, i + 1)
    }
}

/// The first position at or after `i` where the bare episode pattern
/// matches, with its group.
pub open spec fn first_match3(s: Seq<char>, i: int) -> Option<(int, int)>
    decreases s.len() - i,
{
    if !(0 <= i <= s.len()) {
        None
    } else if match3_at(s, i) is Some {
        match3_at(s, i)
    } else if i == s.len() {
        None
    } else {
        first_match3(s, i + 1)
    }
}

proof fn lemma_first_match1_from(s: Seq<char>, i: int)
    requires
        0 <= i <= s.len(),
        forall|j: int| 0 <= j < i ==> match1_at(s, j) is None,
    ensures
        first_match1(s, 0) == first_match1(s, i),
    decreases i,
{
    if i > 0 {
        lemma_first_match1_from(s, i - 1);
    }
}

proof fn lemma_first_match2_from(s: Seq<char>, i: int)
    requires
        0 <= i <= s.len(),
        forall|j: int| 0 <= j < i ==> match2_at(s, j) is None,
    ensures
        first_match2(s, 0) == first_match2(s, i),
    decreases i,
{
    if i > 0 {
        lemma_first_match2_from(s, i - 1);
    }
}

proof fn lemma_first_match3_from(s: Seq<char>, i: int)
    requires
        0 <= i <= s.len(),
        forall|j: int| 0 <= j < i ==> match3_at(s, j) is None,
    ensures
        first_match3(s, 0) == first_match3(s, i),
    decreases i,
{
    if i > 0 {
        lemma_first_match3_from(s, i - 1);
    }
}

fn find_match1(s: &str, n: usize) -> (r: Option<(usize, usize, usize, usize)>)
    requires
        n == s@.len(),
    ensures
        first_match1(s@, 0) is None ==> r is None,
        first_match1(s@, 0) matches Some(g) ==> (r matches Some(e) && g == (
            e.0 as int,
            e.1 as int,
            e.2 as int,
            e.3 as int,
        ) && e.0 <= e.1 <= n && e.2 <= e.3 <= n && (forall|j: int|
            e.0 <= j < e.1 ==> is_digit(s@[j])) && (forall|j: int|
            e.2 <= j < e.3 ==> is_digit(s@[j]))),
{
    let mut i: usize = 0;
    loop
        invariant
            i <= n,
            n == s@.len(),
            forall|j: int| 0 <= j < i ==> match1_at(s@, j) is None,
        decreases n - i,
    {
        let m = match1_check(s, n, i);
        if m.is_some() {
            proof {
                lemma_first_match1_from(s@, i as int);
            }
            return m;
        }
        if i == n {
            proof {
                lemma_first_match1_from(s@, i as int);
            }
            return None;
        }
        i = i + 1;
    }
}

fn find_match2(s: &str, n: usize) -> (r: Option<(usize, usize, usize, usize)>)
    requires
        n == s@.len(),
    ensures
        first_match2(s@, 0) is None ==> r is None,
        first_match2(s@, 0) matches Some(g) ==> (r matches Some(e) && g == (
            e.0 as int,
            e.1 as int,
            e.2 as int,
            e.3 as int,
        ) && e.0 <= e.1 <= n && e.2 <= e.3 <= n && (forall|j: int|
            e.0 <= j < e.1 ==> is_digit(s@[j])) && (forall|j: int|
            e.2 <= j < e.3 ==> is_digit(s@[j]))),
{
    let mut i: usize = 0;
    loop
        invariant
            i <= n,
            n == s@.len(),
            forall|j: int| 0 <= j < i ==> match2_at(s@, j) is None,
        decreases n - i,
    {
        let m = match2_check(s, n, i);
        if m.is_some() {
            proof {
                lemma_first_match2_from(s@, i as int);
            }
            return m;
        }
        if i == n {
            proof {
                lemma_first_match2_from(s@, i as int);
            }
            return None;
        }
        i = i + 1;
    }
}

fn find_match3(s: &str, n: usize) -> (r: Option<(usize, usize)>)
    requires
        n == s@.len(),
    ensures
        first_match3(s@, 0) is None ==> r is None,
        first_match3(s@, 0) matches Some(g) ==> (r matches Some(e) && g == (
            e.0 as int,
            e.1 as int,
        ) && e.0 <= e.1 <= n && (forall|j: int| e.0 <= j < e.1 ==> is_digit(s@[j]))),
{
    let mut i: usize = 0;
    loop
        invariant
            i <= n,
            n == s@.len(),
            forall|j: int| 0 <= j < i ==> match3_at(s@, j) is None,
        decreases n - i,
    {
        let m = match3_check(s, n, i);
        if m.is_some() {
            proof {
                lemma_first_match3_from(s@, i as int);
            }
            return m;
        }
        if i == n {
            proof {
                lemma_first_match3_from(s@, i as int);
            }
            return None;
        }
        i = i + 1;
    }
}

/// The number a digit run writes, when it fits the type.
pub open spec fn parse_u32_spec(ds: Seq<char>) -> Option<u32> {
    if digits_val(ds) <= u32::MAX {
        Some(digits_val(ds) as u32)
    } else {
        None
    }
}

/// Read the digit run `s[from..to]` as a number, refusing one too large
/// for the type.
fn parse_digits_u32(s: &str, n: usize, from: usize, to: usize) -> (r: Option<u32>)
    requires
        n == s@.len(),
        from <= to <= n,
        forall|j: int| from <= j < to ==> is_digit(s@[j]),
    ensures
        r == parse_u32_spec(s@.subrange(from as int, to as int)),
{
    let mut acc: u64 = 0;
    let mut over = false;
    let mut j = from;
    proof {
        assert(s@.subrange(from as int, from as int) =~= Seq::<char>::empty());
    }
    while j < to
        invariant
            from <= j <= to,
            to <= n == s@.len(),
            forall|k: int| from <= k < to ==> is_digit(s@[k]),
            !over ==> acc == digits_val(s@.subrange(from as int, j as int)) && acc <= u32::MAX,
            over ==> digits_val(s@.subrange(from as int, j as int)) > u32::MAX,
        decreases to - j,
    {
        let d = digit_value(s.get_char(j));
        proof {
            let pre = s@.subrange(from as int, j as int);
            let cur = s@.subrange(from as int, j + 1);
            assert(cur.drop_last() =~= pre);
            assert(cur.last() == s@[j as int]);
            if over {
                assert(digits_val(pre) * 10 + digit_val(s@[j as int]) > u32::MAX)
                    by (nonlinear_arith)
                    requires
                        digits_val(pre) > u32::MAX,
                        digit_val(s@[j as int]) >= 0,
                ;
            }
        }
        if !over {
            let next = acc * 10 + d as u64;
            if next > 0xffff_ffff {
                over = true;
                acc = 0;
            } else {
                acc = next;
            }
        }
        j = j + 1;
    }
    if over {
        None
    } else {
        Some(acc as u32)
    }
}

/// The kind of a scraped item: a movie, or an episode of a show with
/// whatever season and episode numbers the line shows.
pub enum MediaType {
    Movie,
    TvShow { season: Option<u32>, episode: Option<u32>, episode_title: Option<String> },
}

/// The kind a scraped line denotes.  The three episode patterns are
/// tried in order — `season N episode M`, `sNeM`, `episode N` — and the
/// first to match anywhere in the line makes the item a show, with the
/// matched numbers (a number too large for its type is left out; the
/// bare pattern fills only the first field).  A line matching none of
/// them is a movie.
pub open spec fn determine_media_type_spec(s: Seq<char>) -> MediaType {
    match first_match1(s, 0) {
        Some(g) => MediaType::TvShow {
            season: parse_u32_spec(s.subrange(g.0, g.1)),
            episode: parse_u32_spec(s.subrange(g.2, g.3)),
            episode_title: None,
        },
        None => match first_match2(s, 0) {
            Some(g) => MediaType::TvShow {
                season: parse_u32_spec(s.subrange(g.0, g.1)),
                episode: parse_u32_spec(s.subrange(g.2, g.3)),
                episode_title: None,
            },
            None => match first_match3(s, 0) {
                Some(g) => MediaType::TvShow {
                    season: parse_u32_spec(s.subrange(g.0, g.1)),
                    episode: None,
                    episode_title: None,
                },
                None => MediaType::Movie,
            },
        },
    }
}

/// Decide the kind of a scraped line.
pub fn determine_media_type(text: &str) -> (r: MediaType)
    ensures
        r == determine_media_type_spec(text@),
{
    let n = text.unicode_len();
    if let Some(g) = find_match1(text, n) {
        proof {
            lemma_run_end_bounds(text@, g.0 as int, digit_pred());
            lemma_run_end_bounds(text@, g.2 as int, digit_pred());
        }
        let season = parse_digits_u32(text, n, g.0, g.1);
        let episode = parse_digits_u32(text, n, g.2, g.3);
        return MediaType::TvShow { season, episode, episode_title: None };
    }
    if let Some(g) = find_match2(text, n) {
        proof {
            lemma_run_end_bounds(text@, g.0 as int, digit_pred());
            lemma_run_end_bounds(text@, g.2 as int, digit_pred());
        }
        let season = parse_digits_u32(text, n, g.0, g.1);
        let episode = parse_digits_u32(text, n, g.2, g.3);
        return MediaType::TvShow { season, episode, episode_title: None };
    }
    if let Some(g) = find_match3(text, n) {
        proof {
            lemma_run_end_bounds(text@, g.0 as int, digit_pred());
        }
        let season = parse_digits_u32(text, n, g.0, g.1);
        return MediaType::TvShow { season, episode: None, episode_title: None };
    }
    MediaType::Movie
}

/// Every date the grammar yields is a real calendar day: each pattern
/// hands its numbers to `mk_date`, which checks them.
pub proof fn lemma_extract_date_valid(s: Seq<char>)
    ensures
        extract_date_spec(s) matches Some(d) ==> date_valid(d),
{
}

/// One scraped watch-history entry: the raw line, the title (and the
/// original title where the listing was localized), the kind with any
/// episode numbers, and the watched date.
pub struct HistoryItem {
    pub raw_text: String,
    pub title: String,
    pub original_title: Option<String>,
    pub media_type: MediaType,
    pub watched_at: Date,
    pub is_original_language: bool,
}

impl HistoryItem {
    /// Read one scraped line.  An entry comes back exactly when the
    /// line carries a watched date; its fields are the line's date,
    /// title split and kind, and it counts as original-language when no
    /// separate original title was listed.
    pub fn parse(raw_text: &str) -> (r: Option<HistoryItem>)
        ensures
            extract_date_spec(raw_text@) is None ==> r is None,
            extract_date_spec(raw_text@) matches Some(d) ==> (r matches Some(it) && {
                &&& it.raw_text@ == raw_text@
                &&& it.watched_at == d
                &&& date_valid(it.watched_at)
                &&& it.title@ == extract_title_spec(raw_text@).0
                &&& opt_str_is(it.original_title, extract_title_spec(raw_text@).1)
                &&& it.media_type == determine_media_type_spec(raw_text@)
                &&& it.is_original_language == (extract_title_spec(raw_text@).1 is None)
            }),
    {
        proof {
            lemma_extract_date_valid(raw_text@);
        }
        let watched_at = match extract_date(raw_text) {
            Some(d) => d,
            None => {
                return None;
            },
        };
        let (title, original_title) = extract_title(raw_text);
        let media_type = determine_media_type(raw_text);
        let is_original_language = original_title.is_none();
        Some(
            HistoryItem {
                raw_text: String::from_str(raw_text),
                title,
                original_title,
                media_type,
                watched_at,
                is_original_language,
            },
        )
    }
}

} // verus!
