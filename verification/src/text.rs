//! Small text utilities: string equality, character pushes and decimal
//! rendering of integers.

use vstd::prelude::*;

verus! {

/// Whether two string slices hold the same characters.
pub(crate) fn str_eq(a: &str, b: &str) -> (r: bool)
    ensures
        r == (a@ == b@),
{
    let x = chars_of(a);
    let y = chars_of(b);
    if x.len() != y.len() {
        return false;
    }
    let mut i: usize = 0;
    while i < x.len()
        invariant
            x@ == a@,
            y@ == b@,
            x@.len() == y@.len(),
            i <= x@.len(),
            forall|j: int| 0 <= j < i ==> x@[j] == y@[j],
        decreases x@.len() - i,
    {
        if x[i] != y[i] {
            return false;
        }
        i += 1;
    }
    assert(a@ =~= b@);
    true
}

/// `String::push`: appends one character (std documents it as such).
#[verifier::external_body]
pub(crate) fn push_char(s: &mut String, c: char)
    ensures
        final(s)@ == old(s)@.push(c),
{
    s.push(c)
}

/// The ASCII digit for a value below ten.
pub open spec fn digit_char(d: nat) -> char {
    if d == 0 {
        '0'
    } else if d == 1 {
        '1'
    } else if d == 2 {
        '2'
    } else if d == 3 {
        '3'
    } else if d == 4 {
        '4'
    } else if d == 5 {
        '5'
    } else if d == 6 {
        '6'
    } else if d == 7 {
        '7'
    } else if d == 8 {
        '8'
    } else {
        '9'
    }
}

/// Decimal digits of a natural number, most significant first, no leading zeros.
pub open spec fn decimal(n: nat) -> Seq<char>
    decreases n,
{
    if n < 10 {
        seq![digit_char(n)]
    } else {
        decimal(n / 10).push(digit_char(n % 10))
    }
}

/// Decimal text of a signed integer: a minus sign before the digits of its magnitude.
pub open spec fn signed_decimal(n: int) -> Seq<char> {
    if n < 0 {
        seq!['-'] + decimal((-n) as nat)
    } else {
        decimal(n as nat)
    }
}

fn digit_of(d: u64) -> (c: char)
    requires
        d < 10,
    ensures
        c == digit_char(d as nat),
{
    if d == 0 {
        '0'
    } else if d == 1 {
        '1'
    } else if d == 2 {
        '2'
    } else if d == 3 {
        '3'
    } else if d == 4 {
        '4'
    } else if d == 5 {
        '5'
    } else if d == 6 {
        '6'
    } else if d == 7 {
        '7'
    } else if d == 8 {
        '8'
    } else {
        '9'
    }
}

proof fn lemma_decimal_len(n: nat)
    ensures
        decimal(n).len() >= 1,
    decreases n,
{
    if n >= 10 {
        lemma_decimal_len(n / 10);
    }
}

/// Appends the decimal digits of `n` to `out`.
pub fn push_decimal(out: &mut String, n: u64)
    ensures
        final(out)@ == old(out)@ + decimal(n as nat),
    decreases n,
{
    if n < 10 {
        push_char(out, digit_of(n));
        assert(decimal(n as nat) =~= seq![digit_char(n as nat)]);
    } else {
        push_decimal(out, n / 10);
        push_char(out, digit_of(n % 10));
        assert(old(out)@ + decimal(n as nat) =~= old(out)@ + decimal((n / 10) as nat) + seq![
            digit_char((n % 10) as nat),
        ]);
    }
}

/// Appends the decimal text of a signed `n` to `out`.
pub fn push_signed_decimal(out: &mut String, n: i64)
    ensures
        final(out)@ == old(out)@ + signed_decimal(n as int),
{
    if n < 0 {
        push_char(out, '-');
        let magnitude: u64 = ((-(n + 1)) as u64) + 1;
        push_decimal(out, magnitude);
        assert(old(out)@ + signed_decimal(n as int) =~= old(out)@.push('-') + decimal(
            magnitude as nat,
        ));
    } else {
        push_decimal(out, n as u64);
    }
}

/// The decimal text of `n`, as `u64::to_string` writes it.
pub fn u64_to_decimal(n: u64) -> (r: String)
    ensures
        r@ == decimal(n as nat),
{
    let mut out = String::new();
    push_decimal(&mut out, n);
    assert(out@ =~= decimal(n as nat));
    out
}

/// The decimal text of `n`, as `i64::to_string` writes it.
pub fn i64_to_decimal(n: i64) -> (r: String)
    ensures
        r@ == signed_decimal(n as int),
{
    let mut out = String::new();
    push_signed_decimal(&mut out, n);
    assert(out@ =~= signed_decimal(n as int));
    out
}

/// Appends a string slice.
pub fn push_str(out: &mut String, s: &str)
    ensures
        final(out)@ == old(out)@ + s@,
{
    out.append(s);
}


/// The characters of a string slice, in order.
pub fn chars_of(s: &str) -> (r: Vec<char>)
    ensures
        r@ == s@,
{
    let n = s.unicode_len();
    let mut out: Vec<char> = Vec::new();
    let mut i: usize = 0;
    while i < n
        invariant
            n == s@.len(),
            i <= n,
            out@ == s@.take(i as int),
        decreases n - i,
    {
        out.push(s.get_char(i));
        i += 1;
        assert(out@ =~= s@.take(i as int));
    }
    assert(out@ =~= s@);
    out
}

/// `needle` occurs in `text` at position `at`.
pub open spec fn occurs_at(text: Seq<char>, needle: Seq<char>, at: int) -> bool {
    0 <= at && at + needle.len() <= text.len() && text.subrange(at, at + needle.len()) == needle
}

/// `needle` occurs somewhere in `text` (`str::contains`).
pub open spec fn contains_text(text: Seq<char>, needle: Seq<char>) -> bool {
    exists|at: int| occurs_at(text, needle, at)
}

fn matches_at(text: &Vec<char>, needle: &Vec<char>, at: usize) -> (r: bool)
    requires
        at + needle.len() <= text.len(),
    ensures
        r == occurs_at(text@, needle@, at as int),
{
    let mut k: usize = 0;
    while k < needle.len()
        invariant
            at + needle.len() <= text.len(),
            k <= needle@.len(),
            forall|j: int| 0 <= j < k ==> text@[at + j] == needle@[j],
        decreases needle@.len() - k,
    {
        if text[at + k] != needle[k] {
            assert(text@.subrange(at as int, at + needle@.len())[k as int] != needle@[k as int]);
            return false;
        }
        k += 1;
    }
    assert(text@.subrange(at as int, at + needle@.len()) =~= needle@);
    true
}

/// Whether `needle` occurs in `text`.
pub fn contains(text: &str, needle: &str) -> (r: bool)
    ensures
        r == contains_text(text@, needle@),
{
    let t = chars_of(text);
    let n = chars_of(needle);
    if n.len() > t.len() {
        assert forall|at: int| !occurs_at(text@, needle@, at) by {}
        return false;
    }
    let last = t.len() - n.len();
    let mut at: usize = 0;
    while at < last
        invariant
            t@ == text@,
            n@ == needle@,
            last == t@.len() - n@.len(),
            at <= last,
            forall|j: int| 0 <= j < at ==> !occurs_at(text@, needle@, j),
        decreases last - at,
    {
        if matches_at(&t, &n, at) {
            return true;
        }
        at += 1;
    }
    let r = matches_at(&t, &n, last);
    assert(!r ==> forall|j: int| !occurs_at(text@, needle@, j));
    r
}

/// Whether `text` begins with `prefix`.
pub fn starts_with(text: &str, prefix: &str) -> (r: bool)
    ensures
        r == prefix@.is_prefix_of(text@),
{
    let t = chars_of(text);
    let p = chars_of(prefix);
    if p.len() > t.len() {
        return false;
    }
    let r = matches_at(&t, &p, 0);
    assert(r == occurs_at(text@, prefix@, 0));
    assert(text@.subrange(0, prefix@.len() as int) =~= text@.take(prefix@.len() as int));
    r
}

/// `c` with an ASCII capital letter turned into its small letter.
pub open spec fn ascii_lower(c: char) -> char {
    if 'A' <= c && c <= 'Z' {
        ((c as u32) + 32) as char
    } else {
        c
    }
}

/// `str::to_ascii_lowercase`: every ASCII capital letter made small, other
/// characters kept.
pub fn to_ascii_lowercase(text: &str) -> (r: String)
    ensures
        r@ == text@.map_values(|c: char| ascii_lower(c)),
{
    let chars = chars_of(text);
    let mut out = String::new();
    let mut i: usize = 0;
    while i < chars.len()
        invariant
            chars@ == text@,
            i <= chars@.len(),
            out@ == text@.take(i as int).map_values(|c: char| ascii_lower(c)),
        decreases chars@.len() - i,
    {
        let c = chars[i];
        let lower = if 'A' <= c && c <= 'Z' {
            let code: u8 = ((c as u32) + 32) as u8;
            code as char
        } else {
            c
        };
        push_char(&mut out, lower);
        i += 1;
        assert(out@ =~= text@.take(i as int).map_values(|c: char| ascii_lower(c)));
    }
    assert(text@.take(chars@.len() as int) =~= text@);
    out
}

pub open spec fn is_digit(c: char) -> bool {
    '0' <= c && c <= '9'
}

pub open spec fn all_digits(s: Seq<char>) -> bool {
    forall|i: int| 0 <= i < s.len() ==> is_digit(#[trigger] s[i])
}

pub open spec fn digit_value(c: char) -> nat {
    (c as int - '0' as int) as nat
}

/// The number that a run of decimal digits spells.
pub open spec fn digits_value(s: Seq<char>) -> nat
    decreases s.len(),
{
    if s.len() == 0 {
        0
    } else {
        digits_value(s.drop_last()) * 10 + digit_value(s.last())
    }
}

/// The digits that Rust's unsigned `FromStr` reads: everything after one optional leading '+'.
pub open spec fn unsigned_body(s: Seq<char>) -> Seq<char> {
    if s.len() > 0 && s[0] == '+' {
        s.drop_first()
    } else {
        s
    }
}

/// A non-empty run of digits whose value is at most `max`.
pub open spec fn digits_within(d: Seq<char>, max: nat) -> Option<nat> {
    if d.len() > 0 && all_digits(d) && digits_value(d) <= max {
        Some(digits_value(d))
    } else {
        None
    }
}

/// What `str::parse` gives for an unsigned integer type whose largest value is `max`.
pub open spec fn parse_unsigned(s: Seq<char>, max: nat) -> Option<nat> {
    digits_within(unsigned_body(s), max)
}

/// What `str::parse::<i64>()` gives.
pub open spec fn parse_i64(s: Seq<char>) -> Option<int> {
    if s.len() > 0 && s[0] == '-' {
        match digits_within(s.drop_first(), 0x8000_0000_0000_0000) {
            Some(v) => Some(-(v as int)),
            None => None,
        }
    } else {
        match parse_unsigned(s, 0x7fff_ffff_ffff_ffff) {
            Some(v) => Some(v as int),
            None => None,
        }
    }
}

proof fn lemma_digits_value_prefix(s: Seq<char>, k: int)
    requires
        0 <= k <= s.len(),
    ensures
        digits_value(s.take(k)) <= digits_value(s),
    decreases s.len(),
{
    if k < s.len() {
        assert(s.drop_last().take(k) =~= s.take(k));
        lemma_digits_value_prefix(s.drop_last(), k);
    } else {
        assert(s.take(k) =~= s);
    }
}

/// Reads `d[start..]` as a run of decimal digits no larger than `max`.
fn digits_in_range(d: &Vec<char>, start: usize, max: u64) -> (r: Option<u64>)
    requires
        start <= d@.len(),
        max >= 9,
    ensures
        r matches Some(v) ==> digits_within(d@.subrange(start as int, d@.len() as int), max as nat)
            == Some(v as nat),
        r is None ==> digits_within(d@.subrange(start as int, d@.len() as int), max as nat) is None,
{
    let ghost sub = d@.subrange(start as int, d@.len() as int);
    let n = d.len();
    if start >= n {
        return None;
    }
    let mut i: usize = start;
    while i < n
        invariant
            start <= i <= n,
            n == d@.len(),
            sub == d@.subrange(start as int, n as int),
            forall|j: int| 0 <= j < i - start ==> is_digit(#[trigger] sub[j]),
        decreases n - i,
    {
        let c = d[i];
        if !('0' <= c && c <= '9') {
            assert(!is_digit(sub[i - start]));
            return None;
        }
        i += 1;
    }
    assert(all_digits(sub));
    let mut acc: u64 = 0;
    let mut i: usize = start;
    while i < n
        invariant
            start <= i <= n,
            n == d@.len(),
            sub == d@.subrange(start as int, n as int),
            all_digits(sub),
            acc as nat == digits_value(sub.take(i - start)),
            acc <= max,
            max >= 9,
        decreases n - i,
    {
        let c = d[i];
        assert(is_digit(sub[i - start]));
        let digit: u64 = (c as u32 - '0' as u32) as u64;
        assert(digit <= 9);
        let ghost prefix = sub.take(i + 1 - start);
        assert(prefix.drop_last() =~= sub.take(i - start));
        assert(prefix.last() == c);
        if acc > (max - digit) / 10 {
            assert(acc * 10 + digit > max) by (nonlinear_arith)
                requires
                    acc > (max - digit) / 10,
                    digit <= 9,
                    max >= 9,
            {
            }
            proof {
                lemma_digits_value_prefix(sub, i + 1 - start);
            }
            return None;
        }
        assert(acc * 10 + digit <= max) by (nonlinear_arith)
            requires
                acc <= (max - digit) / 10,
                digit <= max,
        {
        }
        acc = acc * 10 + digit;
        i += 1;
    }
    assert(sub.take(n - start) =~= sub);
    Some(acc)
}

/// `str::parse::<u64>()`, with the error mapped to `None`.
pub fn parse_u64_text(s: &str) -> (r: Option<u64>)
    ensures
        r matches Some(v) ==> parse_unsigned(s@, u64::MAX as nat) == Some(v as nat),
        r is None ==> parse_unsigned(s@, u64::MAX as nat) is None,
{
    let d = chars_of(s);
    let start: usize = if d.len() > 0 && d[0] == '+' { 1 } else { 0 };
    assert(unsigned_body(s@) =~= d@.subrange(start as int, d@.len() as int));
    digits_in_range(&d, start, u64::MAX)
}

/// `str::parse::<usize>()`, with the error mapped to `None`.
pub fn parse_usize_text(s: &str) -> (r: Option<usize>)
    ensures
        r matches Some(v) ==> parse_unsigned(s@, usize::MAX as nat) == Some(v as nat),
        r is None ==> parse_unsigned(s@, usize::MAX as nat) is None,
{
    let d = chars_of(s);
    let start: usize = if d.len() > 0 && d[0] == '+' { 1 } else { 0 };
    assert(unsigned_body(s@) =~= d@.subrange(start as int, d@.len() as int));
    match digits_in_range(&d, start, usize::MAX as u64) {
        Some(v) => Some(v as usize),
        None => None,
    }
}

/// `str::parse::<i64>()`, with the error mapped to `None`.
pub fn parse_i64_text(s: &str) -> (r: Option<i64>)
    ensures
        r matches Some(v) ==> parse_i64(s@) == Some(v as int),
        r is None ==> parse_i64(s@) is None,
{
    let d = chars_of(s);
    if d.len() > 0 && d[0] == '-' {
        assert(s@.drop_first() =~= d@.subrange(1, d@.len() as int));
        match digits_in_range(&d, 1, 0x8000_0000_0000_0000u64) {
            Some(v) => {
                if v == 0x8000_0000_0000_0000u64 {
                    Some(i64::MIN)
                } else {
                    Some(-(v as i64))
                }
            },
            None => None,
        }
    } else {
        let start: usize = if d.len() > 0 && d[0] == '+' { 1 } else { 0 };
        assert(unsigned_body(s@) =~= d@.subrange(start as int, d@.len() as int));
        match digits_in_range(&d, start, 0x7fff_ffff_ffff_ffffu64) {
            Some(v) => Some(v as i64),
            None => None,
        }
    }
}

} // verus!
