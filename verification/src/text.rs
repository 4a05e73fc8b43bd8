use vstd::prelude::*;

verus! {

/// Relies on std's `String::push`: appends exactly the given character.
pub assume_specification[ String::push ](s: &mut String, c: char)
    ensures
        final(s)@ == old(s)@.push(c),
;

/// The whitespace characters this library's text handling recognizes.
pub open spec fn is_space(c: char) -> bool {
    c == ' ' || c == '\t' || c == '\n' || c == '\r'
}

/// An ASCII decimal digit.
pub open spec fn is_digit(c: char) -> bool {
    '0' <= c && c <= '9'
}

/// An ASCII word character: a letter, a digit or an underscore.
pub open spec fn is_word(c: char) -> bool {
    ('a' <= c && c <= 'z') || ('A' <= c && c <= 'Z') || is_digit(c) || c == '_'
}

/// An optional string reads as the given optional text.
pub open spec fn opt_str_is(o: Option<String>, v: Option<Seq<char>>) -> bool {
    match o {
        Some(s) => v matches Some(t) && s@ == t,
        None => v is None,
    }
}

/// The numeric value of a decimal digit.
pub open spec fn digit_val(c: char) -> int {
    c as int - '0' as int
}

/// The decimal digit character for a value below ten.
pub open spec fn digit_char(d: int) -> char {
    if d == 0 {
        '0'
    } else if d == 1 {
        '1'
    } else if d == 2 {
        '2'
    } else if d == 3 {
        '3'
    } else if d == 4 {
        '4'
    } else if d == 5 {
        '5'
    } else if d == 6 {
        '6'
    } else if d == 7 {
        '7'
    } else if d == 8 {
        '8'
    } else {
        '9'
    }
}

/// The decimal digit string of `n`, without padding.
pub open spec fn dec_digits(n: nat) -> Seq<char>
    decreases n,
{
    if n < 10 {
        seq![digit_char(n as int)]
    } else {
        dec_digits(n / 10).push(digit_char((n % 10) as int))
    }
}

/// The decimal string of `n`, zero-padded to at least two digits.
pub open spec fn dec_pad2(n: nat) -> Seq<char> {
    if n < 10 {
        seq!['0'].push(digit_char(n as int))
    } else {
        dec_digits(n)
    }
}

/// The decimal string of `n`, zero-padded to exactly four digits for
/// values below ten thousand.
pub open spec fn dec_pad4(n: nat) -> Seq<char> {
    if n < 10 {
        seq!['0', '0', '0'] + dec_digits(n)
    } else if n < 100 {
        seq!['0', '0'] + dec_digits(n)
    } else if n < 1000 {
        seq!['0'] + dec_digits(n)
    } else {
        dec_digits(n)
    }
}

/// The decimal string of a signed value: a minus sign for negatives.
pub open spec fn dec_signed(n: int) -> Seq<char> {
    if n >= 0 {
        dec_digits(n as nat)
    } else {
        seq!['-'] + dec_digits((-n) as nat)
    }
}

fn digit_char_exec(d: u64) -> (c: char)
    requires
        d < 10,
    ensures
        c == digit_char(d as int),
{
    match d {
        0 => '0',
        1 => '1',
        2 => '2',
        3 => '3',
        4 => '4',
        5 => '5',
        6 => '6',
        7 => '7',
        8 => '8',
        _ => '9',
    }
}

/// Append the decimal digits of `n` to `out`.
pub fn push_decimal(n: u64, out: &mut String)
    ensures
        final(out)@ == old(out)@ + dec_digits(n as nat),
    decreases n,
{
    if n < 10 {
        let c = digit_char_exec(n);
        out.push(c);
        proof {
            assert(final(out)@ =~= old(out)@ + dec_digits(n as nat));
        }
    } else {
        push_decimal(n / 10, out);
        let c = digit_char_exec(n % 10);
        out.push(c);
        proof {
            assert(final(out)@ =~= old(out)@ + dec_digits(n as nat));
        }
    }
}

/// The decimal string of `n`.
pub fn u64_string(n: u64) -> (r: String)
    ensures
        r@ == dec_digits(n as nat),
{
    let mut s = String::new();
    push_decimal(n, &mut s);
    proof {
        assert(s@ =~= dec_digits(n as nat));
    }
    s
}

/// The decimal string of `n`, zero-padded to at least two digits.
pub fn u32_pad2(n: u32) -> (r: String)
    ensures
        r@ == dec_pad2(n as nat),
{
    let mut s = String::new();
    if n < 10 {
        s.push('0');
        let c = digit_char_exec(n as u64);
        s.push(c);
        proof {
            assert(s@ =~= dec_pad2(n as nat));
        }
    } else {
        push_decimal(n as u64, &mut s);
        proof {
            assert(s@ =~= dec_pad2(n as nat));
        }
    }
    s
}

/// The decimal string of `n`, zero-padded to four digits.
pub fn u32_pad4(n: u32) -> (r: String)
    requires
        n < 10000,
    ensures
        r@ == dec_pad4(n as nat),
{
    let mut s = String::new();
    if n < 10 {
        s.push('0');
        s.push('0');
        s.push('0');
    } else if n < 100 {
        s.push('0');
        s.push('0');
    } else if n < 1000 {
        s.push('0');
    }
    push_decimal(n as u64, &mut s);
    proof {
        assert(s@ =~= dec_pad4(n as nat));
    }
    s
}

/// The decimal string of a signed value.
pub fn i32_string(n: i32) -> (r: String)
    ensures
        r@ == dec_signed(n as int),
{
    if n >= 0 {
        u64_string(n as u64)
    } else {
        let mut s = String::new();
        s.push('-');
        let m: u64 = (-(n as i64)) as u64;
        push_decimal(m, &mut s);
        proof {
            assert(s@ =~= dec_signed(n as int));
        }
        s
    }
}

/// The number a run of decimal digits writes.
pub open spec fn digits_val(ds: Seq<char>) -> int
    decreases ds.len(),
{
    if ds.len() == 0 {
        0
    } else {
        digits_val(ds.drop_last()) * 10 + digit_val(ds.last())
    }
}

/// Every character of the run is a decimal digit.
pub open spec fn all_digits(ds: Seq<char>) -> bool {
    forall|i: int| 0 <= i < ds.len() ==> is_digit(#[trigger] ds[i])
}

/// What signed decimal parsing yields for the whole string: one
/// optional `+` or `-` sign, then at least one digit and nothing else,
/// with the value inside the type's range.
pub open spec fn spec_parse_i32(s: Seq<char>) -> Option<i32> {
    let neg = s.len() > 0 && s[0] == '-';
    let ds = if s.len() > 0 && (s[0] == '-' || s[0] == '+') {
        s.skip(1)
    } else {
        s
    };
    if ds.len() == 0 || !all_digits(ds) {
        None
    } else {
        let v = digits_val(ds);
        if neg {
            if -v >= i32::MIN {
                Some((-v) as i32)
            } else {
                None
            }
        } else {
            if v <= i32::MAX {
                Some(v as i32)
            } else {
                None
            }
        }
    }
}

/// Read a whole string as a signed decimal number, refusing anything
/// but an optionally signed digit run that fits the type.
#[verifier::loop_isolation(false)]
pub fn parse_i32_str(s: &str) -> (r: Option<i32>)
    ensures
        r == spec_parse_i32(s@),
{
    let n = s.unicode_len();
    if n == 0 {
        return None;
    }
    let c0 = s.get_char(0);
    let neg = c0 == '-';
    let start: usize = if c0 == '-' || c0 == '+' {
        1
    } else {
        0
    };
    let ghost ds = if c0 == '-' || c0 == '+' {
        s@.skip(1)
    } else {
        s@
    };
    proof {
        assert(ds =~= s@.skip(start as int));
    }
    if start == n {
        proof {
            assert(ds.len() == 0);
            assert(spec_parse_i32(s@) is None);
        }
        return None;
    }
    let mut acc: u64 = 0;
    let mut over = false;
    let mut j = start;
    proof {
        assert(s@.subrange(start as int, start as int) =~= Seq::<char>::empty());
    }
    while j < n
        invariant
            start <= j <= n,
            forall|k: int| start <= k < j ==> is_digit(s@[k]),
            !over ==> acc == digits_val(s@.subrange(start as int, j as int)) && acc
                <= 0x8000_0000,
            over ==> digits_val(s@.subrange(start as int, j as int)) > 0x8000_0000,
        decreases n - j,
    {
        let c = s.get_char(j);
        if !('0' <= c && c <= '9') {
            proof {
                assert(0 <= j - start < ds.len());
                assert(!is_digit(ds[j - start]));
                assert(!all_digits(ds));
            }
            return None;
        }
        proof {
            let pre = s@.subrange(start as int, j as int);
            let cur = s@.subrange(start as int, j + 1);
            assert(cur.drop_last() =~= pre);
            assert(cur.last() == s@[j as int]);
            if over {
                assert(digits_val(pre) * 10 + digit_val(s@[j as int]) > 0x8000_0000)
                    by (nonlinear_arith)
                    requires
                        digits_val(pre) > 0x8000_0000,
                        digit_val(s@[j as int]) >= 0,
                ;
            }
        }
        if !over {
            let next = acc * 10 + (c as u64 - 48);
            if next > 0x8000_0000 {
                over = true;
                acc = 0;
            } else {
                acc = next;
            }
        }
        j = j + 1;
    }
    proof {
        assert(s@.subrange(start as int, n as int) =~= ds);
        assert(all_digits(ds));
    }
    if over {
        return None;
    }
    if neg {
        Some(-(acc as i64) as i32)
    } else {
        if acc <= 0x7fff_ffff {
            Some(acc as i32)
        } else {
            None
        }
    }
}

/// Strict lexicographic order on character sequences: the usual order on
/// the first differing position, with a proper prefix ordered first.
pub open spec fn lex_lt(a: Seq<char>, b: Seq<char>) -> bool
    decreases a.len(),
{
    if b.len() == 0 {
        false
    } else if a.len() == 0 {
        true
    } else if a[0] != b[0] {
        (a[0] as int) < (b[0] as int)
    } else {
        lex_lt(a.skip(1), b.skip(1))
    }
}

/// Nothing is lexicographically below itself.
pub proof fn lemma_lex_irrefl(a: Seq<char>)
    ensures
        !lex_lt(a, a),
    decreases a.len(),
{
    if a.len() > 0 {
        lemma_lex_irrefl(a.skip(1));
    }
}

/// Any two character sequences are comparable.
pub proof fn lemma_lex_total(a: Seq<char>, b: Seq<char>)
    ensures
        lex_lt(a, b) || lex_lt(b, a) || a == b,
    decreases a.len(),
{
    if a.len() == 0 && b.len() == 0 {
        assert(a =~= b);
    } else if a.len() > 0 && b.len() > 0 && a[0] == b[0] {
        lemma_lex_total(a.skip(1), b.skip(1));
        if !lex_lt(a, b) && !lex_lt(b, a) {
            assert(a.skip(1) == b.skip(1));
            assert(a.len() == b.len());
            assert forall|i: int| 0 <= i < a.len() implies a[i] == b[i] by {
                if i >= 1 {
                    assert(a[i] == a.skip(1)[i - 1]);
                    assert(b[i] == b.skip(1)[i - 1]);
                }
            }
            assert(a =~= b);
        }
    }
}

/// Lexicographic order is transitive.
pub proof fn lemma_lex_trans(a: Seq<char>, b: Seq<char>, c: Seq<char>)
    requires
        lex_lt(a, b),
        lex_lt(b, c),
    ensures
        lex_lt(a, c),
    decreases a.len(),
{
    if a.len() > 0 && b.len() > 0 && c.len() > 0 && a[0] == b[0] && b[0] == c[0] {
        lemma_lex_trans(a.skip(1), b.skip(1), c.skip(1));
    }
}

/// Compare two strings in lexicographic character order.
pub fn str_lt(a: &str, b: &str) -> (r: bool)
    ensures
        r == lex_lt(a@, b@),
{
    let alen = a.unicode_len();
    let blen = b.unicode_len();
    let mut i: usize = 0;
    proof {
        assert(a@.skip(0) =~= a@);
        assert(b@.skip(0) =~= b@);
    }
    loop
        invariant
            i <= alen,
            i <= blen,
            alen == a@.len(),
            blen == b@.len(),
            lex_lt(a@, b@) == lex_lt(a@.skip(i as int), b@.skip(i as int)),
        decreases alen - i,
    {
        if i >= alen || i >= blen {
            proof {
                reveal_with_fuel(lex_lt, 2);
            }
            return alen < blen;
        }
        let ca = a.get_char(i);
        let cb = b.get_char(i);
        if ca != cb {
            proof {
                reveal_with_fuel(lex_lt, 2);
            }
            return ca < cb;
        }
        proof {
            let ai = a@.skip(i as int);
            let bi = b@.skip(i as int);
            assert(ai[0] == bi[0]);
            assert(ai.skip(1) =~= a@.skip(i + 1));
            assert(bi.skip(1) =~= b@.skip(i + 1));
        }
        i = i + 1;
    }
}

/// Compare two owned strings in lexicographic character order.
pub fn string_lt(a: &String, b: &String) -> (r: bool)
    ensures
        r == lex_lt(a@, b@),
{
    str_lt(a.as_str(), b.as_str())
}

/// The prefix of `s` before the first occurrence of `stop`: all of `s`
/// when `stop` does not occur.
pub open spec fn prefix_before(s: Seq<char>, stop: char) -> Seq<char>
    decreases s.len(),
{
    if s.len() == 0 {
        s
    } else if s[0] == stop {
        Seq::empty()
    } else {
        seq![s[0]] + prefix_before(s.skip(1), stop)
    }
}

/// When the first `stop` stands at position `i` (or none stands at all
/// and `i` is the length), the prefix is the first `i` characters.
proof fn lemma_prefix_before_take(s: Seq<char>, stop: char, i: int)
    requires
        0 <= i <= s.len(),
        forall|j: int| 0 <= j < i ==> s[j] != stop,
        i < s.len() ==> s[i] == stop,
    ensures
        prefix_before(s, stop) == s.take(i),
    decreases i,
{
    if s.len() == 0 {
        assert(s.take(0) =~= s);
    } else if i == 0 {
        if s[0] == stop {
            assert(prefix_before(s, stop) =~= s.take(0));
        } else {
            assert(s.take(0) =~= Seq::<char>::empty());
        }
    } else {
        lemma_prefix_before_take(s.skip(1), stop, i - 1);
        assert(seq![s[0]] + s.skip(1).take(i - 1) =~= s.take(i));
    }
}

/// What follows the first occurrence of `mark` in `s`, when any does.
pub open spec fn after_first(s: Seq<char>, mark: char) -> Option<Seq<char>>
    decreases s.len(),
{
    if s.len() == 0 {
        None
    } else if s[0] == mark {
        Some(s.skip(1))
    } else {
        after_first(s.skip(1), mark)
    }
}

/// With the first `mark` at position `i`, what follows it is the tail
/// from `i + 1`.
proof fn lemma_after_first_at(s: Seq<char>, mark: char, i: int)
    requires
        0 <= i < s.len(),
        forall|j: int| 0 <= j < i ==> s[j] != mark,
        s[i] == mark,
    ensures
        after_first(s, mark) == Some(s.skip(i + 1)),
    decreases i,
{
    if i == 0 {
    } else {
        lemma_after_first_at(s.skip(1), mark, i - 1);
        assert(s.skip(1).skip(i) =~= s.skip(i + 1));
    }
}

/// Without any `mark`, nothing follows one.
proof fn lemma_after_first_none(s: Seq<char>, mark: char)
    requires
        forall|j: int| 0 <= j < s.len() ==> s[j] != mark,
    ensures
        after_first(s, mark) is None,
    decreases s.len(),
{
    if s.len() > 0 {
        lemma_after_first_none(s.skip(1), mark);
    }
}

/// The part of the string before its first `stop` character.
pub fn str_prefix_before(s: &str, stop: char) -> (r: String)
    ensures
        r@ == prefix_before(s@, stop),
{
    let n = s.unicode_len();
    let mut i: usize = 0;
    while i < n
        invariant
            i <= n,
            n == s@.len(),
            forall|j: int| 0 <= j < i ==> s@[j] != stop,
        decreases n - i,
    {
        if s.get_char(i) == stop {
            proof {
                lemma_prefix_before_take(s@, stop, i as int);
            }
            let sub = s.substring_char(0, i);
            proof {
                assert(sub@ =~= s@.take(i as int));
            }
            return String::from_str(sub);
        }
        i = i + 1;
    }
    proof {
        lemma_prefix_before_take(s@, stop, n as int);
        assert(s@.take(n as int) =~= s@);
    }
    String::from_str(s)
}

/// `pat` occurs somewhere in `s` as a contiguous run.
pub open spec fn contains_seq(s: Seq<char>, pat: Seq<char>) -> bool {
    exists|i: int|
        0 <= i && i + pat.len() <= s.len() && #[trigger] s.subrange(i, i + pat.len()) == pat
}

/// Whether the pattern stands at position `i` of the string.
fn match_at(s: &str, n: usize, pat: &str, m: usize, i: usize) -> (r: bool)
    requires
        n == s@.len(),
        m == pat@.len(),
        i + m <= n,
    ensures
        r == (s@.subrange(i as int, i + pat@.len()) == pat@),
{
    let mut k: usize = 0;
    while k < m
        invariant
            i + m <= n,
            n == s@.len(),
            m == pat@.len(),
            k <= m,
            forall|t: int| 0 <= t < k ==> s@[i + t] == pat@[t],
        decreases m - k,
    {
        if s.get_char(i + k) != pat.get_char(k) {
            proof {
                if s@.subrange(i as int, i + pat@.len()) == pat@ {
                    assert(s@.subrange(i as int, i + pat@.len())[k as int] == pat@[k as int]);
                }
            }
            return false;
        }
        k = k + 1;
    }
    proof {
        assert(s@.subrange(i as int, i + pat@.len()) =~= pat@);
    }
    true
}

/// Whether the pattern occurs in the string.
pub fn str_contains(s: &str, pat: &str) -> (r: bool)
    ensures
        r == contains_seq(s@, pat@),
{
    let n = s.unicode_len();
    let m = pat.unicode_len();
    if m > n {
        return false;
    }
    if m == 0 {
        proof {
            assert(s@.subrange(0, 0 + pat@.len() as int) =~= pat@);
        }
        return true;
    }
    let mut i: usize = 0;
    while i <= n - m
        invariant
            1 <= m <= n,
            n == s@.len(),
            m == pat@.len(),
            i <= n - m + 1,
            forall|j: int| 0 <= j < i ==> #[trigger] s@.subrange(j, j + pat@.len()) != pat@,
        decreases n - m - i + 1,
    {
        if match_at(s, n, pat, m, i) {
            return true;
        }
        i = i + 1;
    }
    proof {
        if contains_seq(s@, pat@) {
            let j = choose|j: int|
                0 <= j && j + pat@.len() <= s@.len() && #[trigger] s@.subrange(j, j + pat@.len())
                    == pat@;
            assert(s@.subrange(j, j + pat@.len()) != pat@);
        }
    }
    false
}

/// The part of the string after its first `mark` character, when one
/// occurs.
pub fn str_after_first(s: &str, mark: char) -> (r: Option<String>)
    ensures
        after_first(s@, mark) is None ==> r is None,
        after_first(s@, mark) matches Some(t) ==> (r matches Some(x) && x@ == t),
{
    let n = s.unicode_len();
    let mut i: usize = 0;
    while i < n
        invariant
            i <= n,
            n == s@.len(),
            forall|j: int| 0 <= j < i ==> s@[j] != mark,
        decreases n - i,
    {
        if s.get_char(i) == mark {
            proof {
                lemma_after_first_at(s@, mark, i as int);
            }
            let sub = s.substring_char(i + 1, n);
            proof {
                assert(sub@ =~= s@.skip(i + 1));
            }
            return Some(String::from_str(sub));
        }
        i = i + 1;
    }
    proof {
        lemma_after_first_none(s@, mark);
    }
    None
}

} // verus!
