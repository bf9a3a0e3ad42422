//! Character-level helpers shared by the parser and the ledger:
//! ASCII classification, whitespace scanning, case mapping and small
//! string transformations.

use vstd::prelude::*;

verus! {

/// ASCII whitespace accepted as a separator in signal text.
pub open spec fn spec_is_ws(c: char) -> bool {
    c == ' ' || c == '\t' || c == '\n' || c == '\r'
}

/// ASCII decimal digit.
pub open spec fn spec_is_digit(c: char) -> bool {
    '0' <= c && c <= '9'
}

/// ASCII letter.
pub open spec fn spec_is_alpha(c: char) -> bool {
    ('a' <= c && c <= 'z') || ('A' <= c && c <= 'Z')
}

/// Numeric value of an ASCII digit.
pub open spec fn spec_digit_val(c: char) -> int {
    c as int - '0' as int
}

/// ASCII lowercase letters map to uppercase; all else is unchanged.
pub open spec fn spec_to_upper(c: char) -> char {
    if 'a' <= c && c <= 'z' {
        ((c as u8) - 0x20) as char
    } else {
        c
    }
}

/// ASCII uppercase letters map to lowercase; all else is unchanged.
pub open spec fn spec_to_lower(c: char) -> char {
    if 'A' <= c && c <= 'Z' {
        ((c as u8) + 0x20) as char
    } else {
        c
    }
}

/// The sequence with every ASCII letter mapped to uppercase.
pub open spec fn spec_upper_seq(s: Seq<char>) -> Seq<char> {
    s.map_values(|c: char| spec_to_upper(c))
}

/// Two character sequences are equal up to ASCII case.
pub open spec fn spec_eq_ignore_case(a: Seq<char>, b: Seq<char>) -> bool {
    a.len() == b.len() && (forall|i: int|
        0 <= i < a.len() ==> spec_to_lower(a[i]) == spec_to_lower(b[i]))
}

/// Index of the first non-whitespace character at or after `i`.
pub open spec fn scan_ws(s: Seq<char>, i: int) -> int
    decreases s.len() - i when 0 <= i <= s.len()
{
    if i < s.len() && spec_is_ws(s[i]) {
        scan_ws(s, i + 1)
    } else {
        i
    }
}

/// End (exclusive) of the trailing whitespace run that ends at `j`.
pub open spec fn scan_ws_back(s: Seq<char>, j: int) -> int
    decreases j when 0 <= j <= s.len()
{
    if j > 0 && spec_is_ws(s[j - 1]) {
        scan_ws_back(s, j - 1)
    } else {
        j
    }
}

/// Index of the first non-digit character at or after `i`.
pub open spec fn scan_digits(s: Seq<char>, i: int) -> int
    decreases s.len() - i when 0 <= i <= s.len()
{
    if i < s.len() && spec_is_digit(s[i]) {
        scan_digits(s, i + 1)
    } else {
        i
    }
}

/// Index of the first non-letter character at or after `i`.
pub open spec fn scan_letters(s: Seq<char>, i: int) -> int
    decreases s.len() - i when 0 <= i <= s.len()
{
    if i < s.len() && spec_is_alpha(s[i]) {
        scan_letters(s, i + 1)
    } else {
        i
    }
}

pub proof fn lemma_scan_ws_back_bounds(s: Seq<char>, j: int)
    requires
        0 <= j <= s.len(),
    ensures
        0 <= scan_ws_back(s, j) <= j,
    decreases j,
{
    if j > 0 && spec_is_ws(s[j - 1]) {
        lemma_scan_ws_back_bounds(s, j - 1);
    }
}

/// The sequence with leading and trailing ASCII whitespace removed.
pub open spec fn spec_trim(s: Seq<char>) -> Seq<char> {
    let lo = scan_ws(s, 0);
    let hi = scan_ws_back(s, s.len() as int);
    if lo <= hi {
        s.subrange(lo, hi)
    } else {
        Seq::empty()
    }
}

/// The subsequence of ASCII digits, in order.
pub open spec fn spec_digits_of(s: Seq<char>) -> Seq<char>
    decreases s.len(),
{
    if s.len() == 0 {
        Seq::empty()
    } else if spec_is_digit(s.last()) {
        spec_digits_of(s.drop_last()).push(s.last())
    } else {
        spec_digits_of(s.drop_last())
    }
}

pub fn is_ws(c: char) -> (r: bool)
    ensures
        r == spec_is_ws(c),
{
    c == ' ' || c == '\t' || c == '\n' || c == '\r'
}

pub fn is_digit(c: char) -> (r: bool)
    ensures
        r == spec_is_digit(c),
{
    '0' <= c && c <= '9'
}

pub fn is_alpha(c: char) -> (r: bool)
    ensures
        r == spec_is_alpha(c),
{
    ('a' <= c && c <= 'z') || ('A' <= c && c <= 'Z')
}

pub fn digit_val(c: char) -> (v: u32)
    requires
        spec_is_digit(c),
    ensures
        v == spec_digit_val(c),
        v < 10,
{
    (c as u32) - ('0' as u32)
}

pub fn to_upper(c: char) -> (r: char)
    ensures
        r == spec_to_upper(c),
{
    if 'a' <= c && c <= 'z' {
        (((c as u8) - 0x20) as char)
    } else {
        c
    }
}

pub fn to_lower(c: char) -> (r: char)
    ensures
        r == spec_to_lower(c),
{
    if 'A' <= c && c <= 'Z' {
        (((c as u8) + 0x20) as char)
    } else {
        c
    }
}

/// Relies on `String::push`: appends exactly the given character.
#[verifier::external_body]
pub fn push_char(s: &mut String, c: char)
    ensures
        final(s)@ == old(s)@.push(c),
{
    s.push(c);
}

/// The characters of a string as a vector, in order.
pub fn chars_of(s: &str) -> (v: Vec<char>)
    ensures
        v@ == s@,
{
    let n = s.unicode_len();
    let mut v: Vec<char> = Vec::new();
    let mut i: usize = 0;
    while i < n
        invariant
            i <= n,
            n == s@.len(),
            v@ == s@.subrange(0, i as int),
        decreases n - i,
    {
        v.push(s.get_char(i));
        i = i + 1;
        proof {
            assert(v@ =~= s@.subrange(0, i as int));
        }
    }
    proof {
        assert(v@ =~= s@);
    }
    v
}

/// The characters `v[i..j]` as a freshly built string.
pub fn string_of_range(v: &Vec<char>, i: usize, j: usize) -> (s: String)
    requires
        i <= j <= v@.len(),
    ensures
        s@ == v@.subrange(i as int, j as int),
{
    let mut s = String::new();
    let mut k: usize = i;
    while k < j
        invariant
            i <= k <= j <= v@.len(),
            s@ == v@.subrange(i as int, k as int),
        decreases j - k,
    {
        push_char(&mut s, v[k]);
        k = k + 1;
        proof {
            assert(s@ =~= v@.subrange(i as int, k as int));
        }
    }
    s
}

/// The characters of `v` with leading and trailing ASCII whitespace
/// removed.
pub fn trim_chars(v: &Vec<char>) -> (t: Vec<char>)
    ensures
        t@ == spec_trim(v@),
{
    let n = v.len();
    let mut lo: usize = 0;
    while lo < n && is_ws(v[lo])
        invariant
            lo <= n,
            n == v@.len(),
            scan_ws(v@, 0) == scan_ws(v@, lo as int),
        decreases n - lo,
    {
        lo = lo + 1;
    }
    assert(lo == scan_ws(v@, 0));
    let mut hi: usize = n;
    while hi > lo && is_ws(v[hi - 1])
        invariant
            lo <= hi <= n,
            n == v@.len(),
            lo == scan_ws(v@, 0),
            scan_ws_back(v@, n as int) == scan_ws_back(v@, hi as int),
        decreases hi,
    {
        hi = hi - 1;
    }
    proof {
        lemma_scan_ws_back_bounds(v@, lo as int);
        if hi > lo {
            assert(scan_ws_back(v@, hi as int) == hi);
        }
        assert(spec_trim(v@) =~= v@.subrange(lo as int, hi as int));
    }
    let mut t: Vec<char> = Vec::new();
    let mut k: usize = lo;
    while k < hi
        invariant
            lo <= k <= hi <= n,
            n == v@.len(),
            t@ == v@.subrange(lo as int, k as int),
        decreases hi - k,
    {
        t.push(v[k]);
        k = k + 1;
        proof {
            assert(t@ =~= v@.subrange(lo as int, k as int));
        }
    }
    proof {
        assert(t@ =~= spec_trim(v@));
    }
    t
}

/// Whether two strings hold the same characters up to ASCII case.
pub fn eq_ignore_case(a: &str, b: &str) -> (r: bool)
    ensures
        r == spec_eq_ignore_case(a@, b@),
{
    let na = a.unicode_len();
    let nb = b.unicode_len();
    if na != nb {
        return false;
    }
    let mut i: usize = 0;
    while i < na
        invariant
            i <= na,
            na == a@.len(),
            na == b@.len(),
            forall|k: int| 0 <= k < i ==> spec_to_lower(a@[k]) == spec_to_lower(b@[k]),
        decreases na - i,
    {
        if to_lower(a.get_char(i)) != to_lower(b.get_char(i)) {
            return false;
        }
        i = i + 1;
    }
    true
}

/// Whether two strings hold exactly the same characters.
pub fn str_eq(a: &str, b: &str) -> (r: bool)
    ensures
        r == (a@ == b@),
{
    let na = a.unicode_len();
    let nb = b.unicode_len();
    if na != nb {
        proof {
            assert(a@.len() != b@.len());
        }
        return false;
    }
    let mut i: usize = 0;
    while i < na
        invariant
            i <= na,
            na == a@.len(),
            na == b@.len(),
            forall|k: int| 0 <= k < i ==> a@[k] == b@[k],
        decreases na - i,
    {
        if a.get_char(i) != b.get_char(i) {
            return false;
        }
        i = i + 1;
    }
    proof {
        assert(a@ =~= b@);
    }
    true
}

/// Trimmed, ASCII-uppercased copy of a ticker symbol.
pub fn sanitize_symbol(sym: &str) -> (r: String)
    ensures
        r@ == spec_upper_seq(spec_trim(sym@)),
{
    let v = chars_of(sym);
    let n = v.len();
    let mut lo: usize = 0;
    while lo < n && is_ws(v[lo])
        invariant
            lo <= n,
            n == v@.len(),
            scan_ws(v@, 0) == scan_ws(v@, lo as int),
        decreases n - lo,
    {
        lo = lo + 1;
    }
    assert(lo == scan_ws(v@, 0));
    let mut hi: usize = n;
    while hi > lo && is_ws(v[hi - 1])
        invariant
            lo <= hi <= n,
            n == v@.len(),
            lo == scan_ws(v@, 0),
            scan_ws_back(v@, n as int) == scan_ws_back(v@, hi as int),
        decreases hi,
    {
        hi = hi - 1;
    }
    proof {
        lemma_scan_ws_back_bounds(v@, lo as int);
        if hi > lo {
            assert(scan_ws_back(v@, hi as int) == hi);
        }
        assert(spec_trim(sym@) =~= v@.subrange(lo as int, hi as int));
    }
    let mut r = String::new();
    let mut k: usize = lo;
    while k < hi
        invariant
            lo <= k <= hi <= n,
            n == v@.len(),
            r@ == spec_upper_seq(v@.subrange(lo as int, k as int)),
        decreases hi - k,
    {
        push_char(&mut r, to_upper(v[k]));
        k = k + 1;
        proof {
            assert(r@ =~= spec_upper_seq(v@.subrange(lo as int, k as int)));
        }
    }
    proof {
        assert(r@ =~= spec_upper_seq(spec_trim(sym@)));
    }
    r
}

/// The digits of `s`, kept when there are exactly four (an `MM/DD` or
/// `MM-DD` expiry collapses to `MMDD`).
pub fn mmdd_digits(s: &str) -> (r: Option<String>)
    ensures
        (match r {
            Some(d) => spec_digits_of(s@).len() == 4 && d@ == spec_digits_of(s@),
            None => spec_digits_of(s@).len() != 4,
        }),
{
    let d = digit_string(s);
    if d.unicode_len() == 4 {
        Some(d)
    } else {
        None
    }
}

/// The last four digits of a date-like string, e.g. a full date ending
/// in month and day.
pub fn last4_digits(s: &str) -> (r: Option<String>)
    ensures
        (match r {
            Some(d) => {
                let ds = spec_digits_of(s@);
                ds.len() >= 4 && d@ == ds.subrange(ds.len() - 4, ds.len() as int)
            },
            None => spec_digits_of(s@).len() < 4,
        }),
{
    let d = digit_string(s);
    let n = d.unicode_len();
    if n >= 4 {
        let v = chars_of(d.as_str());
        Some(string_of_range(&v, n - 4, n))
    } else {
        None
    }
}

/// The digit characters of `s`, in order, as a string.
fn digit_string(s: &str) -> (r: String)
    ensures
        r@ == spec_digits_of(s@),
{
    let v = chars_of(s);
    let n = v.len();
    let mut r = String::new();
    let mut i: usize = 0;
    while i < n
        invariant
            i <= n,
            n == v@.len(),
            v@ == s@,
            r@ == spec_digits_of(s@.subrange(0, i as int)),
        decreases n - i,
    {
        if is_digit(v[i]) {
            push_char(&mut r, v[i]);
        }
        i = i + 1;
        proof {
            let pre = s@.subrange(0, i as int);
            assert(pre.drop_last() =~= s@.subrange(0, i - 1));
            assert(pre.last() == s@[i - 1]);
        }
    }
    proof {
        assert(s@.subrange(0, s@.len() as int) =~= s@);
    }
    r
}

/// ASCII-uppercased copy of a string.
pub fn upper_string(s: &str) -> (r: String)
    ensures
        r@ == spec_upper_seq(s@),
{
    let n = s.unicode_len();
    let mut r = String::new();
    let mut i: usize = 0;
    while i < n
        invariant
            i <= n,
            n == s@.len(),
            r@ == spec_upper_seq(s@.subrange(0, i as int)),
        decreases n - i,
    {
        push_char(&mut r, to_upper(s.get_char(i)));
        i = i + 1;
        proof {
            assert(r@ =~= spec_upper_seq(s@.subrange(0, i as int)));
        }
    }
    proof {
        assert(r@ =~= spec_upper_seq(s@));
    }
    r
}

/// Character of a single decimal digit value.
pub open spec fn spec_digit_char(d: int) -> char {
    ((d + 48) as u8) as char
}

/// Decimal digit characters of a nonnegative number, most significant
/// first.
pub open spec fn spec_dec_digits(n: int) -> Seq<char>
    decreases n when n >= 0
{
    if n < 10 {
        seq![spec_digit_char(n)]
    } else {
        spec_dec_digits(n / 10).push(spec_digit_char(n % 10))
    }
}

/// The sequence with its trailing `'0'` characters removed.
pub open spec fn spec_trim_zeros(s: Seq<char>) -> Seq<char>
    decreases s.len(),
{
    if s.len() > 0 && s.last() == '0' {
        spec_trim_zeros(s.drop_last())
    } else {
        s
    }
}

/// Decimal rendering of a fixed-point price in ten-thousandth units:
/// the whole part, then a dot and the fraction digits with trailing
/// zeros removed, or no dot at all for a whole number.
pub open spec fn spec_fmt_units(u: u64) -> Seq<char> {
    let ip = u as int / 10_000;
    let fr = u as int % 10_000;
    if fr == 0 {
        spec_dec_digits(ip)
    } else {
        spec_dec_digits(ip) + seq!['.'] + spec_trim_zeros(
            seq![
                spec_digit_char(fr / 1000),
                spec_digit_char((fr / 100) % 10),
                spec_digit_char((fr / 10) % 10),
                spec_digit_char(fr % 10),
            ],
        )
    }
}

/// Human-readable option description: uppercased symbol, strike,
/// call/put letter and expiry, as in `AAPL 150C 08/16`.
pub open spec fn spec_option_label(
    sym: Seq<char>,
    strike: u64,
    cp: char,
    expiry: Seq<char>,
) -> Seq<char> {
    spec_upper_seq(sym) + seq![' '] + spec_fmt_units(strike) + seq![spec_to_upper(cp), ' ']
        + expiry
}

/// Decimal digit characters of `n`, most significant first.
pub fn dec_string(n: u64) -> (r: String)
    ensures
        r@ == spec_dec_digits(n as int),
    decreases n,
{
    if n < 10 {
        let mut r = String::new();
        push_char(&mut r, (48 + n as u8) as char);
        proof {
            assert(r@ =~= seq![spec_digit_char(n as int)]);
        }
        r
    } else {
        let mut r = dec_string(n / 10);
        push_char(&mut r, (48 + (n % 10) as u8) as char);
        r
    }
}

/// Decimal rendering of a fixed-point price in ten-thousandth units.
pub fn fmt_units(u: u64) -> (r: String)
    ensures
        r@ == spec_fmt_units(u),
{
    let ip = u / 10_000;
    let fr = u % 10_000;
    let mut r = dec_string(ip);
    if fr > 0 {
        push_char(&mut r, '.');
        let d0 = (48 + (fr / 1000) as u8) as char;
        let d1 = (48 + ((fr / 100) % 10) as u8) as char;
        let d2 = (48 + ((fr / 10) % 10) as u8) as char;
        let d3 = (48 + (fr % 10) as u8) as char;
        let ghost whole = seq![
            spec_digit_char(fr as int / 1000),
            spec_digit_char((fr as int / 100) % 10),
            spec_digit_char((fr as int / 10) % 10),
            spec_digit_char(fr as int % 10),
        ];
        let v1 = (fr / 100) % 10;
        let v2 = (fr / 10) % 10;
        let v3 = fr % 10;
        push_char(&mut r, d0);
        if v1 == 0 && v2 == 0 && v3 == 0 {
            proof {
                reveal_with_fuel(spec_trim_zeros, 5);
                assert(whole.drop_last() =~= seq![whole[0], whole[1], whole[2]]);
                assert(whole.drop_last().drop_last() =~= seq![whole[0], whole[1]]);
                assert(whole.drop_last().drop_last().drop_last() =~= seq![whole[0]]);
                assert(spec_trim_zeros(whole) =~= seq![whole[0]]);
                assert(r@ =~= spec_fmt_units(u));
            }
        } else if v2 == 0 && v3 == 0 {
            push_char(&mut r, d1);
            proof {
                reveal_with_fuel(spec_trim_zeros, 5);
                assert(whole.drop_last() =~= seq![whole[0], whole[1], whole[2]]);
                assert(whole.drop_last().drop_last() =~= seq![whole[0], whole[1]]);
                assert(spec_trim_zeros(whole) =~= seq![whole[0], whole[1]]);
                assert(r@ =~= spec_fmt_units(u));
            }
        } else if v3 == 0 {
            push_char(&mut r, d1);
            push_char(&mut r, d2);
            proof {
                reveal_with_fuel(spec_trim_zeros, 5);
                assert(whole[2] != '0');
                assert(whole.drop_last() =~= seq![whole[0], whole[1], whole[2]]);
                assert(spec_trim_zeros(whole) =~= seq![whole[0], whole[1], whole[2]]);
                assert(r@ =~= spec_fmt_units(u));
            }
        } else {
            push_char(&mut r, d1);
            push_char(&mut r, d2);
            push_char(&mut r, d3);
            proof {
                reveal_with_fuel(spec_trim_zeros, 5);
                assert(whole[3] != '0');
                assert(spec_trim_zeros(whole) =~= whole);
                assert(r@ =~= spec_fmt_units(u));
            }
        }
    }
    r
}

/// Human-readable option description, as in `AAPL 150C 08/16`.
pub fn option_label(sym: &str, strike: u64, cp: char, expiry: &str) -> (r: String)
    ensures
        r@ == spec_option_label(sym@, strike, cp, expiry@),
{
    let mut r = upper_string(sym);
    push_char(&mut r, ' ');
    let f = fmt_units(strike);
    r.append(f.as_str());
    push_char(&mut r, to_upper(cp));
    push_char(&mut r, ' ');
    r.append(expiry);
    proof {
        assert(r@ =~= spec_option_label(sym@, strike, cp, expiry@));
    }
    r
}

/// First two characters (or `*` placeholders) followed by four `*`
/// characters, for logging a user name without exposing it.
pub fn mask_user(u: &str) -> (r: String)
    ensures
        r@ == seq![spec_mask_char(u@, 0), spec_mask_char(u@, 1), '*', '*', '*', '*'],
{
    let n = u.unicode_len();
    let a = if n > 0 { u.get_char(0) } else { '*' };
    let b = if n > 1 { u.get_char(1) } else { '*' };
    let mut r = String::new();
    push_char(&mut r, a);
    push_char(&mut r, b);
    push_char(&mut r, '*');
    push_char(&mut r, '*');
    push_char(&mut r, '*');
    push_char(&mut r, '*');
    proof {
        assert(r@ =~= seq![spec_mask_char(u@, 0), spec_mask_char(u@, 1), '*', '*', '*', '*']);
    }
    r
}

/// Character `i` of `s`, or `*` when `s` is too short.
pub open spec fn spec_mask_char(s: Seq<char>, i: int) -> char {
    if i < s.len() {
        s[i]
    } else {
        '*'
    }
}

} // verus!
