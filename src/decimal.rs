//! Decimal text: unsigned integers, and amounts with up to four places.

use vstd::prelude::*;

verus! {

pub open spec fn is_digit(c: char) -> bool {
    '0' <= c && c <= '9'
}

pub open spec fn digit_value(c: char) -> int {
    c as int - '0' as int
}

pub open spec fn all_digits(s: Seq<char>) -> bool {
    forall|i: int| 0 <= i < s.len() ==> is_digit(#[trigger] s[i])
}

/// The number that the digits of `s` write in base ten.
pub open spec fn digits_value(s: Seq<char>) -> int
    decreases s.len(),
{
    if s.len() == 0 {
        0
    } else {
        digits_value(s.drop_last()) * 10 + digit_value(s.last())
    }
}

/// The digits of an unsigned integer's text: one leading `+` is allowed.
pub open spec fn unsigned_digits(s: Seq<char>) -> Seq<char> {
    if s.len() > 0 && s[0] == '+' {
        s.drop_first()
    } else {
        s
    }
}

/// The value of the text of an unsigned integer: an optional `+`, then one
/// digit or more.
pub open spec fn unsigned_value(s: Seq<char>) -> Option<int> {
    let d = unsigned_digits(s);
    if d.len() > 0 && all_digits(d) {
        Some(digits_value(d))
    } else {
        None
    }
}

/// The integer that `s` writes, where it is at most `max`.
pub open spec fn unsigned_at_most(s: Seq<char>, max: u64) -> Option<u64> {
    match unsigned_value(s) {
        Some(v) => if v <= max {
            Some(v as u64)
        } else {
            None
        },
        None => None,
    }
}

pub proof fn lemma_digits_value_nonneg(s: Seq<char>)
    requires
        all_digits(s),
    ensures
        digits_value(s) >= 0,
    decreases s.len(),
{
    if s.len() > 0 {
        lemma_digits_value_nonneg(s.drop_last());
    }
}

/// Appending digits never makes the value smaller.
pub proof fn lemma_digits_value_prefix(s: Seq<char>, k: int)
    requires
        all_digits(s),
        0 <= k <= s.len(),
    ensures
        digits_value(s.take(k)) <= digits_value(s),
    decreases s.len(),
{
    if k < s.len() {
        let p = s.drop_last();
        assert(p.take(k) == s.take(k));
        lemma_digits_value_prefix(p, k);
        lemma_digits_value_nonneg(p);
    } else {
        assert(s.take(k) == s);
    }
}

pub proof fn lemma_digits_value_push(s: Seq<char>, i: int, j: int)
    requires
        0 <= i <= j < s.len(),
    ensures
        digits_value(s.subrange(i, j + 1)) == digits_value(s.subrange(i, j)) * 10 + digit_value(
            s[j],
        ),
{
    assert(s.subrange(i, j + 1).drop_last() == s.subrange(i, j));
}

fn char_digit(c: char) -> (r: Option<u64>)
    ensures
        r == (if is_digit(c) {
            Some(digit_value(c) as u64)
        } else {
            None::<u64>
        }),
{
    if '0' <= c && c <= '9' {
        Some((c as u32 - '0' as u32) as u64)
    } else {
        None
    }
}

/// The sign of an amount's text, and the rest: one leading `+` or `-` is allowed.
pub open spec fn sign_split(s: Seq<char>) -> (bool, Seq<char>) {
    if s.len() > 0 && (s[0] == '+' || s[0] == '-') {
        (s[0] == '-', s.drop_first())
    } else {
        (false, s)
    }
}

/// The index of the first `.` in `s`, or its length where there is none.
pub open spec fn point_index(s: Seq<char>) -> int
    decreases s.len(),
{
    if s.len() == 0 {
        0
    } else if s[0] == '.' {
        0
    } else {
        1 + point_index(s.drop_first())
    }
}

/// What stands before the decimal point.
pub open spec fn whole_part(body: Seq<char>) -> Seq<char> {
    body.take(point_index(body))
}

/// What stands after the decimal point, if there is one.
pub open spec fn fraction_part(body: Seq<char>) -> Seq<char> {
    if point_index(body) < body.len() {
        body.skip(point_index(body) + 1)
    } else {
        Seq::empty()
    }
}

pub open spec fn pow10(n: nat) -> int
    decreases n,
{
    if n == 0 {
        1
    } else {
        10 * pow10((n - 1) as nat)
    }
}

/// The digits of a fraction that count: the first four.
pub open spec fn kept_digits(f: Seq<char>) -> Seq<char> {
    if f.len() <= 4 {
        f
    } else {
        f.take(4)
    }
}

/// The first four digits of a fraction, in ten-thousandths, rounded half up
/// by the fifth.
pub open spec fn fraction_units(f: Seq<char>) -> int {
    let kept = kept_digits(f);
    digits_value(kept) * pow10((4 - kept.len()) as nat) + if f.len() > 4 && digit_value(f[4])
        >= 5 {
        1int
    } else {
        0int
    }
}

/// The size of an unsigned amount's text, in ten-thousandths: digits with
/// at most one `.` among them, and at least one digit.
pub open spec fn magnitude_value(body: Seq<char>) -> Option<int> {
    let w = whole_part(body);
    let f = fraction_part(body);
    if all_digits(w) && all_digits(f) && w.len() + f.len() > 0 {
        Some(digits_value(w) * 10000 + fraction_units(f))
    } else {
        None
    }
}

/// The amount, in ten-thousandths, that `s` writes: an optional sign, then
/// decimal digits with an optional decimal point; beyond the fourth place the
/// value is rounded half away from zero. `None` where the text is not of that
/// form or the amount is not a value of `i64`.
pub open spec fn amount_value(s: Seq<char>) -> Option<i64> {
    let (negative, body) = sign_split(s);
    match magnitude_value(body) {
        Some(m) => if m <= i64::MAX {
            Some(
                if negative {
                    (-m) as i64
                } else {
                    m as i64
                },
            )
        } else {
            None
        },
        None => None,
    }
}

proof fn lemma_point_index(s: Seq<char>, k: int)
    requires
        0 <= k <= s.len(),
        forall|j: int| 0 <= j < k ==> s[j] != '.',
        k == s.len() || s[k] == '.',
    ensures
        point_index(s) == k,
    decreases s.len(),
{
    if s.len() > 0 && s[0] != '.' {
        let t = s.drop_first();
        assert forall|j: int| 0 <= j < k - 1 implies t[j] != '.' by {
            assert(t[j] == s[j + 1]);
        }
        lemma_point_index(t, k - 1);
    }
}

proof fn lemma_pow10_small()
    ensures
        pow10(0) == 1,
        pow10(1) == 10,
        pow10(2) == 100,
        pow10(3) == 1000,
        pow10(4) == 10000,
{
    assert(pow10(0) == 1);
    assert(pow10(1) == 10);
    assert(pow10(2) == 100);
    assert(pow10(3) == 1000);
    assert(pow10(4) == 10000);
}

proof fn lemma_fraction_units_nonneg(f: Seq<char>)
    requires
        all_digits(f),
    ensures
        fraction_units(f) >= 0,
{
    let kept = kept_digits(f);
    assert(all_digits(kept));
    lemma_digits_value_nonneg(kept);
    lemma_pow10_small();
    let p = pow10((4 - kept.len()) as nat);
    assert(p >= 1);
    let v = digits_value(kept);
    assert(v * p >= 0) by (nonlinear_arith)
        requires
            v >= 0,
            p >= 1,
    ;
}


/// Reads the digits of `s` from `from` to `to` as a number no greater than
/// `max`; `None` where one is not a digit or the number is greater.
fn digits_at_most(s: &str, from: usize, to: usize, max: u64) -> (r: Option<u64>)
    requires
        from <= to <= s@.len(),
    ensures
        ({
            let d = s@.subrange(from as int, to as int);
            match r {
                Some(v) => all_digits(d) && v == digits_value(d) && v <= max,
                None => !all_digits(d) || digits_value(d) > max,
            }
        }),
{
    let ghost d = s@.subrange(from as int, to as int);
    let mut value: u64 = 0;
    let mut i: usize = from;
    while i < to
        invariant
            from <= i <= to <= s@.len(),
            d == s@.subrange(from as int, to as int),
            all_digits(s@.subrange(from as int, i as int)),
            value == digits_value(s@.subrange(from as int, i as int)),
            value <= max,
        decreases to - i,
    {
        let c = s.get_char(i);
        proof {
            lemma_digits_value_push(s@, from as int, i as int);
        }
        match char_digit(c) {
            None => {
                assert(d[i - from] == c);
                return None;
            },
            Some(digit) => {
                let next: u128 = value as u128 * 10 + digit as u128;
                if next > max as u128 {
                    proof {
                        if all_digits(d) {
                            assert(d.take(i - from + 1) == s@.subrange(from as int, i + 1));
                            lemma_digits_value_prefix(d, i - from + 1);
                        }
                    }
                    return None;
                }
                value = next as u64;
            },
        }
        i = i + 1;
    }
    assert(d == s@.subrange(from as int, i as int));
    Some(value)
}

/// Reads an unsigned integer no greater than `max`: an optional `+`, then
/// decimal digits, and nothing else.
pub fn parse_unsigned(s: &str, max: u64) -> (r: Option<u64>)
    ensures
        r == unsigned_at_most(s@, max),
{
    let n = s.unicode_len();
    let mut start: usize = 0;
    if n > 0 && s.get_char(0) == '+' {
        start = 1;
    }
    assert(unsigned_digits(s@) == s@.subrange(start as int, n as int));
    if start == n {
        return None;
    }
    digits_at_most(s, start, n, max)
}

/// Reads the digits of a fraction, from `from` to the end of `s`: the value
/// of the first four, and whether a fifth rounds up; `None` where one is not
/// a digit.
fn fraction_digits(s: &str, from: usize) -> (r: Option<(u64, bool)>)
    requires
        from <= s@.len(),
    ensures
        ({
            let f = s@.subrange(from as int, s@.len() as int);
            match r {
                Some((units, round_up)) => {
                    &&& all_digits(f)
                    &&& units == digits_value(kept_digits(f))
                    &&& units < 10000
                    &&& round_up == (f.len() > 4 && digit_value(f[4]) >= 5)
                },
                None => !all_digits(f),
            }
        }),
{
    let n = s.unicode_len();
    let ghost f = s@.subrange(from as int, n as int);
    let mut units: u64 = 0;
    let mut round_up = false;
    let mut i: usize = from;
    proof {
        lemma_pow10_small();
    }
    while i < n
        invariant
            n == s@.len(),
            from <= i <= n,
            f == s@.subrange(from as int, n as int),
            all_digits(s@.subrange(from as int, i as int)),
            units == digits_value(
                s@.subrange(from as int, if i - from <= 4 { i as int } else { from + 4 }),
            ),
            units < pow10(if i - from <= 4 { (i - from) as nat } else { 4 }),
            round_up == (i - from > 4 && digit_value(s@[from + 4]) >= 5),
            pow10(4) == 10000,
        decreases n - i,
    {
        let c = s.get_char(i);
        match char_digit(c) {
            None => {
                assert(f[i - from] == c);
                return None;
            },
            Some(digit) => {
                if i - from < 4 {
                    proof {
                        lemma_digits_value_push(s@, from as int, i as int);
                        lemma_pow10_small();
                        assert(pow10((i - from + 1) as nat) == 10 * pow10((i - from) as nat));
                    }
                    units = units * 10 + digit;
                } else if i - from == 4 {
                    round_up = digit >= 5;
                }
            },
        }
        i = i + 1;
    }
    proof {
        assert(f == s@.subrange(from as int, i as int));
        if f.len() > 4 {
            assert(f.take(4) == s@.subrange(from as int, from + 4));
            assert(f[4] == s@[from + 4]);
        }
    }
    Some((units, round_up))
}

/// Reads an amount, in ten-thousandths: an optional sign, then decimal
/// digits with an optional decimal point; beyond the fourth place the value
/// is rounded half away from zero.
pub fn parse_amount(s: &str) -> (r: Option<i64>)
    ensures
        r == amount_value(s@),
{
    let n = s.unicode_len();
    let mut negative = false;
    let mut start: usize = 0;
    if n > 0 {
        let c = s.get_char(0);
        if c == '+' || c == '-' {
            negative = c == '-';
            start = 1;
        }
    }
    let ghost body = s@.subrange(start as int, n as int);
    assert(sign_split(s@) == (negative, body));
    // Find the point, or the end.
    let mut point: usize = start;
    while point < n && s.get_char(point) != '.'
        invariant
            n == s@.len(),
            start <= point <= n,
            forall|j: int| start <= j < point ==> s@[j] != '.',
        decreases n - point,
    {
        point = point + 1;
    }
    let ghost w = whole_part(body);
    let ghost f = fraction_part(body);
    proof {
        assert forall|j: int| 0 <= j < point - start implies body[j] != '.' by {
            assert(body[j] == s@[start + j]);
        }
        lemma_point_index(body, point - start);
        assert(w == s@.subrange(start as int, point as int));
        if point < n {
            assert(f == s@.subrange(point + 1, n as int));
        }
        lemma_pow10_small();
    }
    let whole = match digits_at_most(s, start, point, i64::MAX as u64) {
        Some(v) => v,
        None => {
            proof {
                if all_digits(w) && all_digits(f) {
                    lemma_fraction_units_nonneg(f);
                }
            }
            return None;
        },
    };
    let (units, round_up, count) = if point < n {
        match fraction_digits(s, point + 1) {
            Some((u, r)) => (u, r, n - point - 1),
            None => {
                return None;
            },
        }
    } else {
        (0, false, 0)
    };
    assert(count == f.len());
    if point - start + count == 0 {
        return None;
    }
    let scaled: u64 = if count == 0 {
        units * 10000
    } else if count == 1 {
        units * 1000
    } else if count == 2 {
        units * 100
    } else if count == 3 {
        units * 10
    } else {
        units
    };
    assert(scaled + if round_up { 1int } else { 0int } == fraction_units(f));
    let magnitude: u128 = whole as u128 * 10000 + scaled as u128 + if round_up {
        1
    } else {
        0
    };
    if magnitude > i64::MAX as u128 {
        return None;
    }
    if negative {
        Some(-(magnitude as i64))
    } else {
        Some(magnitude as i64)
    }
}

pub open spec fn digit_char(d: int) -> char {
    if d == 0 {
        '0'
    } else if d == 1 {
        '1'
    } else if d == 2 {
        '2'
    } else if d == 3 {
        '3'
    } else if d == 4 {
        '4'
    } else if d == 5 {
        '5'
    } else if d == 6 {
        '6'
    } else if d == 7 {
        '7'
    } else if d == 8 {
        '8'
    } else {
        '9'
    }
}

/// The decimal digits of `n`, without leading zeros.
pub open spec fn decimal_text(n: nat) -> Seq<char>
    decreases n,
{
    if n < 10 {
        seq![digit_char(n as int)]
    } else {
        decimal_text(n / 10).push(digit_char((n % 10) as int))
    }
}

/// Four digits for `f` below 10000, leading zeros included.
pub open spec fn four_digits(f: nat) -> Seq<char> {
    seq![
        digit_char((f / 1000 % 10) as int),
        digit_char((f / 100 % 10) as int),
        digit_char((f / 10 % 10) as int),
        digit_char((f % 10) as int),
    ]
}

pub open spec fn without_trailing_zeros(s: Seq<char>) -> Seq<char>
    decreases s.len(),
{
    if s.len() > 0 && s.last() == '0' {
        without_trailing_zeros(s.drop_last())
    } else {
        s
    }
}

pub open spec fn abs(v: int) -> nat {
    if v < 0 {
        (-v) as nat
    } else {
        v as nat
    }
}

/// The text of an amount `v` in ten-thousandths: a whole amount as an
/// integer, any other with its four places and no trailing zeros.
pub open spec fn amount_text(v: int) -> Seq<char> {
    let m = abs(v);
    let sign = if v < 0 {
        seq!['-']
    } else {
        Seq::<char>::empty()
    };
    if m % 10000 == 0 {
        sign + decimal_text(m / 10000)
    } else {
        sign + decimal_text(m / 10000) + seq!['.'] + without_trailing_zeros(
            four_digits(m % 10000),
        )
    }
}

fn digit_to_char(d: u128) -> (c: char)
    requires
        d < 10,
    ensures
        c == digit_char(d as int),
{
    if d == 0 {
        '0'
    } else if d == 1 {
        '1'
    } else if d == 2 {
        '2'
    } else if d == 3 {
        '3'
    } else if d == 4 {
        '4'
    } else if d == 5 {
        '5'
    } else if d == 6 {
        '6'
    } else if d == 7 {
        '7'
    } else if d == 8 {
        '8'
    } else {
        '9'
    }
}

fn push_decimal(n: u128, out: &mut Vec<char>)
    ensures
        final(out)@ == old(out)@ + decimal_text(n as nat),
    decreases n,
{
    if n < 10 {
        out.push(digit_to_char(n));
    } else {
        push_decimal(n / 10, out);
        out.push(digit_to_char(n % 10));
    }
}

/// Relies on `String: FromIterator<char>`: the string holds the characters
/// in their order.
#[verifier::external_body]
fn string_from_chars(chars: &Vec<char>) -> (r: String)
    ensures
        r@ == chars@,
{
    chars.iter().collect()
}

/// Renders an amount given in ten-thousandths: a whole amount as an
/// integer (`3`), any other with up to four places and no trailing zeros
/// (`4.5556`, `-0.5`).
pub fn format_amount(value: i128) -> (r: String)
    ensures
        r@ == amount_text(value as int),
{
    let m: u128 = if value < 0 {
        (-(value + 1)) as u128 + 1
    } else {
        value as u128
    };
    assert(m == abs(value as int));
    let mut out: Vec<char> = Vec::new();
    if value < 0 {
        out.push('-');
    }
    push_decimal(m / 10000, &mut out);
    let f = m % 10000;
    if f != 0 {
        out.push('.');
        let digits = [f / 1000 % 10, f / 100 % 10, f / 10 % 10, f % 10];
        let mut keep: usize = 4;
        let ghost full = four_digits(f as nat);
        assert(full.take(4) == full);
        while keep > 0 && digits[keep - 1] == 0
            invariant
                keep <= 4,
                digits@ == seq![f / 1000 % 10, f / 100 % 10, f / 10 % 10, f % 10],
                without_trailing_zeros(full) == without_trailing_zeros(full.take(keep as int)),
                full == four_digits(f as nat),
            decreases keep,
        {
            assert(full.take(keep as int).drop_last() == full.take(keep - 1));
            keep = keep - 1;
        }
        assert(without_trailing_zeros(full.take(keep as int)) == full.take(keep as int));
        let ghost before = out@;
        let mut j: usize = 0;
        while j < keep
            invariant
                j <= keep <= 4,
                digits@ == seq![f / 1000 % 10, f / 100 % 10, f / 10 % 10, f % 10],
                full == four_digits(f as nat),
                out@ == before + full.take(j as int),
            decreases keep - j,
        {
            out.push(digit_to_char(digits[j]));
            assert(full.take(j + 1) == full.take(j as int).push(full[j as int]));
            j = j + 1;
        }
    }
    string_from_chars(&out)
}

} // verus!
