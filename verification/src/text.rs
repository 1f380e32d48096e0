//! Reading numbers and words out of command-line arguments.
//!
//! Integers follow the grammar of the standard library's integer parsing:
//! an optional `+` (or `-` where the type is signed), then one or more digits
//! of the radix, rejected when the value does not fit. Whitespace is the
//! Unicode `White_Space` property, as `char::is_whitespace` defines it.

use vstd::prelude::*;

verus! {

/// Unicode `White_Space`.
pub open spec fn is_white_space(c: char) -> bool {
    let u = c as u32;
    ||| 0x09 <= u <= 0x0D
    ||| u == 0x20
    ||| u == 0x85
    ||| u == 0xA0
    ||| u == 0x1680
    ||| 0x2000 <= u <= 0x200A
    ||| u == 0x2028
    ||| u == 0x2029
    ||| u == 0x202F
    ||| u == 0x205F
    ||| u == 0x3000
}

/// `s` without its leading whitespace.
pub open spec fn trim_start(s: Seq<char>) -> Seq<char>
    decreases s.len(),
{
    if s.len() > 0 && is_white_space(s[0]) {
        trim_start(s.drop_first())
    } else {
        s
    }
}

/// `s` without its trailing whitespace.
pub open spec fn trim_end(s: Seq<char>) -> Seq<char>
    decreases s.len(),
{
    if s.len() > 0 && is_white_space(s.last()) {
        trim_end(s.drop_last())
    } else {
        s
    }
}

/// `s` without leading and trailing whitespace.
pub open spec fn spec_trim(s: Seq<char>) -> Seq<char> {
    trim_end(trim_start(s))
}

/// Value of one digit in the given radix (at most 36).
pub open spec fn digit_value(c: char, radix: nat) -> Option<nat> {
    let u = c as u32;
    let d: int = if 0x30 <= u <= 0x39 {
        u - 0x30
    } else if 0x61 <= u <= 0x7A {
        u - 0x61 + 10
    } else if 0x41 <= u <= 0x5A {
        u - 0x41 + 10
    } else {
        99
    };
    if d < radix {
        Some(d as nat)
    } else {
        None
    }
}

/// Value of a string of digits, most significant first; `None` when a
/// character is not a digit of the radix. The empty string has value 0.
pub open spec fn digits_value(s: Seq<char>, radix: nat) -> Option<nat>
    decreases s.len(),
{
    if s.len() == 0 {
        Some(0)
    } else {
        match (digits_value(s.drop_last(), radix), digit_value(s.last(), radix)) {
            (Some(v), Some(d)) => Some(v * radix + d),
            _ => None,
        }
    }
}

/// Is `c` a sign character.
pub open spec fn is_sign(c: char) -> bool {
    c == '+' || c == '-'
}

/// An unsigned integer no larger than `max`, in the given radix: an optional
/// `+`, then at least one digit.
pub open spec fn spec_parse_unsigned(s: Seq<char>, radix: nat, max: nat) -> Option<nat> {
    if s.len() == 0 || (s.len() == 1 && is_sign(s[0])) {
        None
    } else {
        let digits = if s[0] == '+' {
            s.drop_first()
        } else {
            s
        };
        match digits_value(digits, radix) {
            Some(v) => if v <= max {
                Some(v)
            } else {
                None
            },
            None => None,
        }
    }
}

/// A `u16` in the given radix.
pub open spec fn spec_parse_u16(s: Seq<char>, radix: nat) -> Option<u16> {
    match spec_parse_unsigned(s, radix, 0xFFFF) {
        Some(v) => Some(v as u16),
        None => None,
    }
}

/// A decimal `i32`: an optional sign, then at least one digit.
pub open spec fn spec_parse_i32(s: Seq<char>) -> Option<i32> {
    if s.len() == 0 || (s.len() == 1 && is_sign(s[0])) {
        None
    } else {
        let digits = if is_sign(s[0]) {
            s.drop_first()
        } else {
            s
        };
        match digits_value(digits, 10) {
            Some(v) => if s[0] == '-' {
                if v <= 0x8000_0000 {
                    Some((0 - v) as i32)
                } else {
                    None
                }
            } else if v <= 0x7FFF_FFFF {
                Some(v as i32)
            } else {
                None
            },
            None => None,
        }
    }
}

/// A field id: `0x`/`0X` and hexadecimal digits, or decimal, with
/// surrounding whitespace ignored.
pub open spec fn spec_parse_id(s: Seq<char>) -> Option<u16> {
    let t = spec_trim(s);
    if t.len() >= 2 && t[0] == '0' && (t[1] == 'x' || t[1] == 'X') {
        spec_parse_u16(t.skip(2), 16)
    } else {
        spec_parse_u16(t, 10)
    }
}

/// The character of digit `d` (below 36): `0`-`9`, then letters, upper- or
/// lower-case.
pub open spec fn digit_char(d: nat, upper: bool) -> char {
    if d < 10 {
        (0x30 + d) as char
    } else if upper {
        (0x41 + d - 10) as char
    } else {
        (0x61 + d - 10) as char
    }
}

/// The digits of `n` in the given radix, most significant first, without
/// leading zeros (`0` is the single digit `0`).
pub open spec fn spec_digits(n: nat, radix: nat, upper: bool) -> Seq<char>
    decreases n,
{
    if radix < 2 || n < radix {
        seq![digit_char(n, upper)]
    } else {
        proof {
            vstd::arithmetic::div_mod::lemma_div_decreases(n as int, radix as int);
        }
        spec_digits(n / radix, radix, upper).push(digit_char(n % radix, upper))
    }
}

/// `k` zeros.
pub open spec fn zeros(k: nat) -> Seq<char> {
    Seq::new(k, |i: int| '0')
}

proof fn lemma_digit_char_value(d: nat, radix: nat, upper: bool)
    requires
        d < radix <= 16,
    ensures
        digit_value(digit_char(d, upper), radix) == Some(d),
        !is_white_space(digit_char(d, upper)),
        digit_char(d, upper) != '+',
        digit_char(d, upper) != '-',
        digit_char(d, upper) != 'x',
        digit_char(d, upper) != 'X',
{
}

proof fn lemma_digits_value(n: nat, radix: nat, upper: bool)
    requires
        2 <= radix <= 16,
    ensures
        digits_value(spec_digits(n, radix, upper), radix) == Some(n),
        spec_digits(n, radix, upper).len() >= 1,
        forall|i: int|
            0 <= i < spec_digits(n, radix, upper).len() ==> {
                let c = #[trigger] spec_digits(n, radix, upper)[i];
                &&& digit_value(c, radix) is Some
                &&& !is_white_space(c)
                &&& c != '+'
                &&& c != '-'
                &&& c != 'x'
                &&& c != 'X'
            },
    decreases n,
{
    let s = spec_digits(n, radix, upper);
    if n < radix {
        lemma_digit_char_value(n, radix, upper);
        assert(s =~= seq![digit_char(n, upper)]);
        assert(s.drop_last() =~= Seq::<char>::empty());
        assert(digits_value(Seq::<char>::empty(), radix) == Some(0nat));
        assert(s.last() == digit_char(n, upper));
        assert(digits_value(s, radix) == Some(0 * radix + n));
    } else {
        vstd::arithmetic::div_mod::lemma_div_decreases(n as int, radix as int);
        vstd::arithmetic::div_mod::lemma_fundamental_div_mod(n as int, radix as int);
        vstd::arithmetic::mul::lemma_mul_is_commutative(radix as int, (n / radix) as int);
        vstd::arithmetic::div_mod::lemma_mod_bound(n as int, radix as int);
        let prev = spec_digits(n / radix, radix, upper);
        lemma_digits_value(n / radix, radix, upper);
        lemma_digit_char_value(n % radix, radix, upper);
        assert(s == prev.push(digit_char(n % radix, upper)));
        assert(s.drop_last() =~= prev);
        assert(s.last() == digit_char(n % radix, upper));
        assert(digits_value(s, radix) == Some((n / radix) * radix + n % radix));
        assert forall|i: int| 0 <= i < s.len() implies {
            let c = #[trigger] s[i];
            &&& digit_value(c, radix) is Some
            &&& !is_white_space(c)
            &&& c != '+'
            &&& c != '-'
            &&& c != 'x'
            &&& c != 'X'
        } by {
            if i < prev.len() {
                assert(s[i] == prev[i]);
            }
        }
    }
}

/// Leading zeros do not change the value of a digit string.
proof fn lemma_zeros_prefix(k: nat, s: Seq<char>, radix: nat)
    requires
        2 <= radix <= 16,
    ensures
        digits_value(zeros(k) + s, radix) == digits_value(s, radix),
    decreases s.len(), k,
{
    assert(digits_value(Seq::<char>::empty(), radix) == Some(0nat));
    if s.len() == 0 {
        assert(zeros(k) + s =~= zeros(k));
        if k > 0 {
            assert(zeros(k).drop_last() =~= zeros((k - 1) as nat));
            assert(zeros(k).last() == '0');
            assert(digit_value('0', radix) == Some(0nat));
            lemma_zeros_prefix((k - 1) as nat, s, radix);
            assert(zeros((k - 1) as nat) + s =~= zeros((k - 1) as nat));
            assert(digits_value(zeros(k), radix) == Some(0 * radix + 0));
        } else {
            assert(zeros(k) =~= Seq::<char>::empty());
        }
    } else {
        let t = zeros(k) + s;
        assert(t.drop_last() =~= zeros(k) + s.drop_last());
        assert(t.last() == s.last());
        lemma_zeros_prefix(k, s.drop_last(), radix);
        assert(digits_value(t, radix) == digits_value(s, radix));
    }
}

/// `zeros(k)` then the digits of `n`: every character is a digit, not
/// whitespace, not a sign and not an `x`.
pub proof fn lemma_padded(n: nat, k: nat, radix: nat, upper: bool)
    requires
        2 <= radix <= 16,
    ensures
        ({
            let t = zeros(k) + spec_digits(n, radix, upper);
            &&& digits_value(t, radix) == Some(n)
            &&& t.len() >= 1
            &&& !is_white_space(t[0])
            &&& !is_white_space(t.last())
            &&& t[0] != '+'
            &&& t[0] != '-'
            &&& (t.len() >= 2 ==> t[1] != 'x' && t[1] != 'X')
        }),
{
    let d = spec_digits(n, radix, upper);
    let t = zeros(k) + d;
    lemma_digits_value(n, radix, upper);
    lemma_zeros_prefix(k, d, radix);
    assert(t.last() == d[d.len() - 1]);
    if k == 0 {
        assert(t =~= d);
        assert(t[0] == d[0]);
        if t.len() >= 2 {
            assert(t[1] == d[1]);
        }
    } else {
        assert(t[0] == '0');
        if k == 1 {
            assert(t[1] == d[0]);
        } else {
            assert(t[1] == '0');
        }
    }
}

/// Law: a field id written in decimal, or as `0x` or `0X` and hexadecimal
/// digits in either case, with or without leading zeros, reads back as
/// itself.
pub proof fn lemma_parse_id_round_trip(n: u16, pad: nat, upper: bool)
    ensures
        spec_parse_id(zeros(pad) + spec_digits(n as nat, 10, false)) == Some(n),
        spec_parse_id(seq!['0', 'x'] + zeros(pad) + spec_digits(n as nat, 16, upper)) == Some(n),
        spec_parse_id(seq!['0', 'X'] + zeros(pad) + spec_digits(n as nat, 16, upper)) == Some(n),
{
    let dec = zeros(pad) + spec_digits(n as nat, 10, false);
    lemma_padded(n as nat, pad, 10, false);
    assert(trim_start(dec) == dec);
    assert(trim_end(dec) == dec);
    assert(spec_trim(dec) == dec);

    let hex = zeros(pad) + spec_digits(n as nat, 16, upper);
    lemma_padded(n as nat, pad, 16, upper);
    let lower = seq!['0', 'x'] + hex;
    let capital = seq!['0', 'X'] + hex;
    assert(lower.last() == hex.last());
    assert(capital.last() == hex.last());
    assert(trim_start(lower) == lower);
    assert(trim_end(lower) == lower);
    assert(trim_start(capital) == capital);
    assert(trim_end(capital) == capital);
    assert(lower[0] == '0' && lower[1] == 'x');
    assert(capital[0] == '0' && capital[1] == 'X');
    assert(lower.skip(2) =~= hex);
    assert(capital.skip(2) =~= hex);
    assert(spec_trim(lower) == lower);
    assert(spec_trim(capital) == capital);
    assert(lower =~= seq!['0', 'x'] + zeros(pad) + spec_digits(n as nat, 16, upper));
    assert(capital =~= seq!['0', 'X'] + zeros(pad) + spec_digits(n as nat, 16, upper));
}

/// An unsigned number that parses ends in a digit of its radix.
pub proof fn lemma_parsed_ends_in_digit(s: Seq<char>, radix: nat, max: nat)
    requires
        spec_parse_unsigned(s, radix, max) is Some,
    ensures
        s.len() > 0,
        digit_value(s.last(), radix) is Some,
{
    let digits = if s[0] == '+' {
        s.drop_first()
    } else {
        s
    };
    assert(digits.len() > 0);
    assert(digits.last() == s.last());
}

/// Law: a decimal number that fits an `i32`, written with or without a sign
/// and leading zeros, reads back as itself (negated after a `-`).
pub proof fn lemma_parse_i32_round_trip(n: nat, pad: nat)
    requires
        n <= 0x7FFF_FFFF,
    ensures
        spec_parse_i32(zeros(pad) + spec_digits(n, 10, false)) == Some(n as i32),
        spec_parse_i32(seq!['+'] + zeros(pad) + spec_digits(n, 10, false)) == Some(n as i32),
        spec_parse_i32(seq!['-'] + zeros(pad) + spec_digits(n, 10, false)) == Some((0 - n) as i32),
{
    let t = zeros(pad) + spec_digits(n, 10, false);
    lemma_padded(n, pad, 10, false);
    let plus = seq!['+'] + t;
    let minus = seq!['-'] + t;
    assert(plus.drop_first() =~= t);
    assert(minus.drop_first() =~= t);
    assert(plus[0] == '+' && minus[0] == '-');
    assert(plus =~= seq!['+'] + zeros(pad) + spec_digits(n, 10, false));
    assert(minus =~= seq!['-'] + zeros(pad) + spec_digits(n, 10, false));
}

/// Law: spaces, tabs and line breaks around a field id are ignored.
pub proof fn lemma_parse_id_ignores_spaces(t: Seq<char>, before: nat, after: nat)
    requires
        t.len() > 0,
        !is_white_space(t[0]),
        !is_white_space(t.last()),
    ensures
        spec_parse_id(Seq::new(before, |i: int| ' ') + t + Seq::new(after, |i: int| '\t'))
            == spec_parse_id(t),
        spec_parse_id(t + seq!['\n']) == spec_parse_id(t),
{
    let s = Seq::new(before, |i: int| ' ') + t + Seq::new(after, |i: int| '\t');
    assert(trim_start(s) == t + Seq::new(after, |i: int| '\t')) by {
        lemma_trim_start_spaces(before, t + Seq::new(after, |i: int| '\t'));
        assert(s =~= Seq::new(before, |i: int| ' ') + (t + Seq::new(after, |i: int| '\t')));
    }
    assert(trim_end(t + Seq::new(after, |i: int| '\t')) == t) by {
        lemma_trim_end_tabs(t, after);
    }
    let u = t + seq!['\n'];
    assert(u.drop_last() =~= t);
    assert(trim_start(u) == u);
    assert(trim_start(t) == t);
    assert(trim_end(t) == t);
}

proof fn lemma_trim_start_spaces(k: nat, t: Seq<char>)
    requires
        t.len() > 0,
        !is_white_space(t[0]),
    ensures
        trim_start(Seq::new(k, |i: int| ' ') + t) == t,
    decreases k,
{
    let s = Seq::new(k, |i: int| ' ') + t;
    if k == 0 {
        assert(s =~= t);
    } else {
        assert(s.drop_first() =~= Seq::new((k - 1) as nat, |i: int| ' ') + t);
        lemma_trim_start_spaces((k - 1) as nat, t);
    }
}

proof fn lemma_trim_end_tabs(t: Seq<char>, k: nat)
    requires
        t.len() > 0,
        !is_white_space(t.last()),
    ensures
        trim_end(t + Seq::new(k, |i: int| '\t')) == t,
    decreases k,
{
    let s = t + Seq::new(k, |i: int| '\t');
    if k == 0 {
        assert(s =~= t);
    } else {
        assert(s.drop_last() =~= t + Seq::new((k - 1) as nat, |i: int| '\t'));
        lemma_trim_end_tabs(t, (k - 1) as nat);
    }
}

/// A digit string parses only if each of its prefixes does, and no prefix
/// has a larger value.
proof fn lemma_digits_prefix(s: Seq<char>, radix: nat, j: int)
    requires
        0 <= j <= s.len(),
        radix >= 1,
        digits_value(s, radix) is Some,
    ensures
        digits_value(s.take(j), radix) is Some,
        digits_value(s.take(j), radix)->0 <= digits_value(s, radix)->0,
    decreases s.len(),
{
    if j == s.len() {
        assert(s.take(j) =~= s);
    } else {
        let p = s.drop_last();
        assert(p.take(j) =~= s.take(j));
        let v = digits_value(p, radix)->0;
        let d = digit_value(s.last(), radix)->0;
        assert(v * radix + d >= v) by (nonlinear_arith)
            requires
                radix >= 1,
        ;
        lemma_digits_prefix(p, radix, j);
    }
}

fn is_white_space_char(c: char) -> (b: bool)
    ensures
        b == is_white_space(c),
{
    let u = c as u32;
    (0x09 <= u && u <= 0x0D) || u == 0x20 || u == 0x85 || u == 0xA0 || u == 0x1680 || (0x2000 <= u
        && u <= 0x200A) || u == 0x2028 || u == 0x2029 || u == 0x202F || u == 0x205F || u == 0x3000
}

/// Character positions `[lo, hi)` of `s` without its surrounding whitespace.
fn trim_bounds(s: &str) -> (r: (usize, usize))
    ensures
        r.0 <= r.1 <= s@.len(),
        s@.subrange(r.0 as int, r.1 as int) == spec_trim(s@),
{
    let n = s.unicode_len();
    let mut lo: usize = 0;
    assert(s@.subrange(0, n as int) =~= s@);
    while lo < n && is_white_space_char(s.get_char(lo))
        invariant
            lo <= n,
            n == s@.len(),
            trim_start(s@) == trim_start(s@.subrange(lo as int, n as int)),
        decreases n - lo,
    {
        assert(s@.subrange(lo as int, n as int).drop_first() =~= s@.subrange(
            lo as int + 1,
            n as int,
        ));
        lo = lo + 1;
    }
    let ghost t = s@.subrange(lo as int, n as int);
    assert(trim_start(s@) == t);
    let mut hi: usize = n;
    while hi > lo && is_white_space_char(s.get_char(hi - 1))
        invariant
            lo <= hi <= n,
            n == s@.len(),
            trim_start(s@) == t,
            t == s@.subrange(lo as int, n as int),
            trim_end(t) == trim_end(s@.subrange(lo as int, hi as int)),
        decreases hi - lo,
    {
        assert(s@.subrange(lo as int, hi as int).drop_last() =~= s@.subrange(
            lo as int,
            hi as int - 1,
        ));
        hi = hi - 1;
    }
    (lo, hi)
}

/// Value of the digits at character positions `[lo, hi)` of `s`, when every
/// character there is a digit of the radix and the value is at most `max`.
fn digits_in(s: &str, lo: usize, hi: usize, radix: u32, max: u64) -> (r: Option<u64>)
    requires
        lo <= hi <= s@.len(),
        2 <= radix <= 16,
        max <= 0x1_0000_0000,
    ensures
        r == (match digits_value(s@.subrange(lo as int, hi as int), radix as nat) {
            Some(v) => if v <= max {
                Some(v as u64)
            } else {
                None
            },
            None => None,
        }),
{
    let ghost sub = s@.subrange(lo as int, hi as int);
    let mut v: u64 = 0;
    let mut i: usize = lo;
    while i < hi
        invariant
            lo <= i <= hi <= s@.len(),
            2 <= radix <= 16,
            max <= 0x1_0000_0000,
            sub == s@.subrange(lo as int, hi as int),
            digits_value(sub.take(i - lo), radix as nat) == Some(v as nat),
            v <= max,
        decreases hi - i,
    {
        let c = s.get_char(i);
        let ghost pre = sub.take(i - lo + 1);
        assert(pre.drop_last() =~= sub.take(i - lo));
        assert(pre.last() == c);
        let u = c as u32;
        let d: u32 = if 0x30 <= u && u <= 0x39 {
            u - 0x30
        } else if 0x61 <= u && u <= 0x7A {
            u - 0x61 + 10
        } else if 0x41 <= u && u <= 0x5A {
            u - 0x41 + 10
        } else {
            99
        };
        if d >= radix {
            proof {
                assert(digits_value(pre, radix as nat) is None);
                if digits_value(sub, radix as nat) is Some {
                    lemma_digits_prefix(sub, radix as nat, i - lo + 1);
                }
            }
            return None;
        }
        assert(v * (radix as u64) <= 0x1_0000_0000 * 16) by (nonlinear_arith)
            requires
                v <= 0x1_0000_0000,
                radix <= 16,
        ;
        let next: u64 = v * (radix as u64) + d as u64;
        assert(digits_value(pre, radix as nat) == Some(next as nat));
        if next > max {
            proof {
                if digits_value(sub, radix as nat) is Some {
                    lemma_digits_prefix(sub, radix as nat, i - lo + 1);
                }
            }
            return None;
        }
        v = next;
        i = i + 1;
    }
    assert(sub.take(hi - lo) =~= sub);
    Some(v)
}

/// A `u16` in the given radix, read from character positions `[lo, hi)`.
fn u16_in(s: &str, lo: usize, hi: usize, radix: u32) -> (r: Option<u16>)
    requires
        lo <= hi <= s@.len(),
        2 <= radix <= 16,
    ensures
        r == spec_parse_u16(s@.subrange(lo as int, hi as int), radix as nat),
{
    let ghost sub = s@.subrange(lo as int, hi as int);
    if lo == hi {
        return None;
    }
    let first = s.get_char(lo);
    assert(sub[0] == first);
    if hi - lo == 1 && (first == '+' || first == '-') {
        return None;
    }
    let start = if first == '+' {
        lo + 1
    } else {
        lo
    };
    assert(first == '+' ==> s@.subrange(start as int, hi as int) =~= sub.drop_first());
    assert(first != '+' ==> s@.subrange(start as int, hi as int) =~= sub);
    match digits_in(s, start, hi, radix, 0xFFFF) {
        Some(v) => Some(v as u16),
        None => None,
    }
}

/// Parse a decimal `u16`, as `str::parse::<u16>` does.
pub fn parse_u16(s: &str) -> (r: Option<u16>)
    ensures
        r == spec_parse_u16(s@, 10),
{
    let n = s.unicode_len();
    assert(s@.subrange(0, n as int) =~= s@);
    u16_in(s, 0, n, 10)
}

/// Parse a decimal `i32`, as `str::parse::<i32>` does.
pub fn parse_i32(s: &str) -> (r: Option<i32>)
    ensures
        r == spec_parse_i32(s@),
{
    let n = s.unicode_len();
    if n == 0 {
        return None;
    }
    let first = s.get_char(0);
    if n == 1 && (first == '+' || first == '-') {
        return None;
    }
    let start: usize = if first == '+' || first == '-' {
        1
    } else {
        0
    };
    assert(start == 1 ==> s@.subrange(1, n as int) =~= s@.drop_first());
    assert(start == 0 ==> s@.subrange(0, n as int) =~= s@);
    if first == '-' {
        match digits_in(s, start, n, 10, 0x8000_0000) {
            Some(v) => Some((0 - (v as i64)) as i32),
            None => None,
        }
    } else {
        match digits_in(s, start, n, 10, 0x7FFF_FFFF) {
            Some(v) => Some(v as i32),
            None => None,
        }
    }
}

/// Read a field id: `0x208e` (or `0X208E`) in hexadecimal, or plain decimal.
/// Surrounding whitespace is ignored.
pub fn parse_id(s: &str) -> (r: Option<u16>)
    ensures
        r == spec_parse_id(s@),
{
    let (lo, hi) = trim_bounds(s);
    let ghost t = s@.subrange(lo as int, hi as int);
    if hi - lo >= 2 {
        let c0 = s.get_char(lo);
        let c1 = s.get_char(lo + 1);
        assert(t[0] == c0 && t[1] == c1);
        if c0 == '0' && (c1 == 'x' || c1 == 'X') {
            assert(s@.subrange(lo + 2, hi as int) =~= t.skip(2));
            return u16_in(s, lo + 2, hi, 16);
        }
    }
    u16_in(s, lo, hi, 10)
}

} // verus!
