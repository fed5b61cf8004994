//! Text primitives shared by the parsers: comparison, splitting at a
//! separator, and the two number grammars the wire formats rely on.

use vstd::prelude::*;
use vstd::string::*;

verus! {

/// The upper-case form of a text, as `str::to_uppercase` computes it from
/// the Unicode case tables.
pub uninterp spec fn uppercase(s: Seq<char>) -> Seq<char>;

/// Upper-cases a string slice with `str::to_uppercase`.
///
/// Trusted: states only that the result is [`uppercase`] of the input.
#[verifier::external_body]
pub(crate) fn to_uppercase(s: &str) -> (r: String)
    ensures
        r@ == uppercase(s@),
{
    s.to_uppercase()
}

/// The characters of `s`, in order.
pub fn chars_of(s: &str) -> (v: Vec<char>)
    ensures
        v@ == s@,
{
    let mut v: Vec<char> = Vec::new();
    for c in it: s.chars()
        invariant
            v@ == it.seq().take(it.index() as int),
            it.seq() == s@,
    {
        v.push(c);
    }
    v
}

/// Whether two string slices hold the same characters.
pub(crate) fn str_eq(a: &str, b: &str) -> (r: bool)
    ensures
        r == (a@ == b@),
{
    let x = chars_of(a);
    let y = chars_of(b);
    if x.len() != y.len() {
        return false;
    }
    let mut i: usize = 0;
    while i < x.len()
        invariant
            i <= x.len(),
            x.len() == y.len(),
            x@ == a@,
            y@ == b@,
            forall|k: int| 0 <= k < i ==> x@[k] == y@[k],
        decreases x.len() - i,
    {
        if x[i] != y[i] {
            return false;
        }
        i += 1;
    }
    proof {
        assert(a@ =~= b@);
    }
    true
}

/// `i` is the position of the first occurrence of `c` in `s`.
pub open spec fn is_first(s: Seq<char>, c: char, i: int) -> bool {
    &&& 0 <= i < s.len()
    &&& s[i] == c
    &&& forall|k: int| 0 <= k < i ==> s[k] != c
}

/// The position of the first occurrence of `c` in `s`, or `s.len()` when
/// `c` does not occur.
pub open spec fn first_index(s: Seq<char>, c: char) -> int {
    if exists|i: int| is_first(s, c, i) {
        choose|i: int| is_first(s, c, i)
    } else {
        s.len() as int
    }
}

/// The first occurrence of a character is unique, so finding one position
/// that satisfies [`is_first`] determines [`first_index`].
pub proof fn lemma_first_index_unique(s: Seq<char>, c: char, i: int)
    requires
        is_first(s, c, i),
    ensures
        first_index(s, c) == i,
{
    let j = first_index(s, c);
    assert(is_first(s, c, j));
    if j < i {
        assert(s[j] != c);
    }
    if i < j {
        assert(s[i] != c);
    }
}

/// A text without `c` has its [`first_index`] at its end.
pub proof fn lemma_first_index_absent(s: Seq<char>, c: char)
    requires
        forall|k: int| 0 <= k < s.len() ==> s[k] != c,
    ensures
        first_index(s, c) == s.len(),
        !s.contains(c),
{
}

/// What lies before and after the first occurrence of `c`; `None` when `c`
/// does not occur.
pub open spec fn split_first(s: Seq<char>, c: char) -> Option<(Seq<char>, Seq<char>)> {
    let i = first_index(s, c);
    if i < s.len() {
        Some((s.take(i), s.skip(i + 1)))
    } else {
        None
    }
}

/// Finds the first occurrence of `c`.
pub fn find_char(v: &Vec<char>, c: char) -> (r: Option<usize>)
    ensures
        match r {
            Some(i) => i == first_index(v@, c) && i < v.len(),
            None => first_index(v@, c) == v.len(),
        },
{
    let mut i: usize = 0;
    while i < v.len()
        invariant
            i <= v.len(),
            forall|k: int| 0 <= k < i ==> v@[k] != c,
        decreases v.len() - i,
    {
        if v[i] == c {
            proof {
                lemma_first_index_unique(v@, c, i as int);
            }
            return Some(i);
        }
        i += 1;
    }
    proof {
        lemma_first_index_absent(v@, c);
    }
    None
}

/// Splits `s` at the first occurrence of `sep`, which belongs to neither
/// half. `None` when `sep` does not occur.
pub fn split_once(s: &str, sep: char) -> (r: Option<(String, String)>)
    ensures
        match r {
            Some((a, b)) => split_first(s@, sep) == Some((a@, b@)),
            None => split_first(s@, sep) is None,
        },
{
    let chars = chars_of(s);
    match find_char(&chars, sep) {
        Some(i) => {
            let head = s.substring_char(0, i).to_owned();
            let tail = s.substring_char(i + 1, chars.len()).to_owned();
            Some((head, tail))
        },
        None => None,
    }
}

/// An ASCII decimal digit.
pub open spec fn is_digit(c: char) -> bool {
    '0' <= c && c <= '9'
}

/// A leading sign of a number.
pub open spec fn is_sign(c: char) -> bool {
    c == '+' || c == '-'
}

/// Every character of `s` from `from` up to, not including, `to` is a digit.
pub open spec fn digits_between(s: Seq<char>, from: int, to: int) -> bool {
    forall|k: int| from <= k < to ==> is_digit(#[trigger] s[k])
}

/// The number that the digits of `s` denote in base ten.
pub open spec fn decimal_value(s: Seq<char>) -> nat
    decreases s.len(),
{
    if s.len() == 0 {
        0
    } else {
        decimal_value(s.drop_last()) * 10 + (s.last() as nat - '0' as nat) as nat
    }
}

/// What an unsigned 64-bit integer in decimal notation denotes: an optional
/// `+`, then one or more digits and nothing else, with a value that fits.
pub open spec fn parse_u64_spec(s: Seq<char>) -> Option<u64> {
    let digits = if s.len() > 0 && s[0] == '+' {
        s.skip(1)
    } else {
        s
    };
    if digits.len() > 0 && digits_between(digits, 0, digits.len() as int) && decimal_value(digits)
        <= u64::MAX {
        Some(decimal_value(digits) as u64)
    } else {
        None
    }
}

/// A longer run of digits never denotes a smaller number than its prefix.
pub proof fn lemma_decimal_value_grows(s: Seq<char>, n: int)
    requires
        0 <= n <= s.len(),
        digits_between(s, 0, s.len() as int),
    ensures
        decimal_value(s.take(n)) <= decimal_value(s),
    decreases s.len() - n,
{
    if n == s.len() {
        assert(s.take(n) =~= s);
    } else {
        lemma_decimal_value_grows(s, n + 1);
        let t = s.take(n + 1);
        assert(t.drop_last() =~= s.take(n));
        assert(is_digit(s[n]));
        assert(t.last() == s[n]);
    }
}

fn digit_of(c: char) -> (r: Option<u8>)
    ensures
        match r {
            Some(d) => is_digit(c) && d == c as nat - '0' as nat,
            None => !is_digit(c),
        },
{
    if '0' <= c && c <= '9' {
        Some((c as u32 - 48) as u8)
    } else {
        None
    }
}

/// Reads an unsigned 64-bit integer in decimal notation. `None` for the
/// empty text, for any character that is not a digit (a single leading `+`
/// apart) and for a value beyond `u64::MAX`.
pub fn parse_u64(s: &str) -> (r: Option<u64>)
    ensures
        r == parse_u64_spec(s@),
{
    let chars = chars_of(s);
    let n = chars.len();
    let start: usize = if n > 0 && chars[0] == '+' {
        1
    } else {
        0
    };
    if start == n {
        return None;
    }
    let ghost digits = s@.skip(start as int);
    let mut value: u64 = 0;
    let mut i: usize = start;
    while i < n
        invariant
            start <= i <= n,
            start < n,
            n == chars@.len(),
            chars@ == s@,
            start == (if s@.len() > 0 && s@[0] == '+' {
                1int
            } else {
                0int
            }),
            digits == s@.skip(start as int),
            digits_between(digits, 0, i - start),
            value == decimal_value(digits.take(i - start)),
        decreases n - i,
    {
        let ghost prefix = digits.take(i - start);
        let ghost next = digits.take(i + 1 - start);
        proof {
            assert(next.drop_last() =~= prefix);
            assert(next.last() == chars@[i as int]);
        }
        match digit_of(chars[i]) {
            None => {
                proof {
                    assert(digits[i - start] == chars@[i as int]);
                    assert(!digits_between(digits, 0, digits.len() as int));
                }
                return None;
            },
            Some(d) => {
                let grown = match value.checked_mul(10) {
                    Some(tens) => tens.checked_add(d as u64),
                    None => None,
                };
                match grown {
                    Some(v) => {
                        value = v;
                    },
                    None => {
                        proof {
                            assert(decimal_value(next) == value * 10 + d);
                            assert(decimal_value(next) > u64::MAX);
                            assert(s@.skip(0) =~= s@);
                            if digits_between(digits, 0, digits.len() as int) {
                                lemma_decimal_value_grows(digits, i + 1 - start);
                            }
                        }
                        return None;
                    },
                }
            },
        }
        i += 1;
    }
    proof {
        assert(digits.take(n - start) =~= digits);
        assert(s@.skip(0) =~= s@);
    }
    Some(value)
}

/// `c` is the letter `lower` in either case.
pub open spec fn is_letter(c: char, lower: char, upper: char) -> bool {
    c == lower || c == upper
}

/// Where the digits of an exponent start, if one starts at `from`: behind
/// the letter and the optional sign.
pub open spec fn exponent_digits(s: Seq<char>, from: int) -> int {
    if from + 1 < s.len() && is_sign(s[from + 1]) {
        from + 2
    } else {
        from + 1
    }
}

/// From `from` to its end, `s` is an exponent: `e` or `E`, an optional
/// sign, then one or more digits.
pub open spec fn exponent_at(s: Seq<char>, from: int) -> bool {
    &&& 0 <= from < s.len()
    &&& is_letter(s[from], 'e', 'E')
    &&& exponent_digits(s, from) < s.len()
    &&& digits_between(s, exponent_digits(s, from), s.len() as int)
}

/// From `from` to its end, `s` is a decimal number whose integer digits end
/// at `p` and whose fraction, if any, ends at `q`: digits, then optionally
/// a point and more digits, with at least one digit before or behind the
/// point, then optionally an exponent.
pub open spec fn number_shape(s: Seq<char>, from: int, p: int, q: int) -> bool {
    &&& 0 <= from <= p <= q <= s.len()
    &&& digits_between(s, from, p)
    &&& (q == p || (s[p] == '.' && digits_between(s, p + 1, q)))
    &&& (p > from || q > p + 1)
    &&& (q == s.len() || exponent_at(s, q))
}

/// Where the text behind an optional leading sign starts.
pub open spec fn sign_end(s: Seq<char>) -> int {
    if s.len() > 0 && is_sign(s[0]) {
        1
    } else {
        0
    }
}

/// The digits of a number: its integer digits followed by the digits of
/// its fraction, without the point.
pub open spec fn mantissa(s: Seq<char>, from: int, p: int, q: int) -> Seq<char> {
    if q > p {
        s.subrange(from, p) + s.subrange(p + 1, q)
    } else {
        s.subrange(from, p)
    }
}

/// `i` is the position of the first character of `d` that is not `0`.
pub open spec fn is_first_nonzero(d: Seq<char>, i: int) -> bool {
    &&& 0 <= i < d.len()
    &&& d[i] != '0'
    &&& forall|k: int| 0 <= k < i ==> d[k] == '0'
}

/// How many zeros `d` starts with: the position of its first character
/// that is not `0`, or its length where it holds nothing but zeros.
pub open spec fn leading_zeros(d: Seq<char>) -> int {
    if exists|i: int| is_first_nonzero(d, i) {
        choose|i: int| is_first_nonzero(d, i)
    } else {
        d.len() as int
    }
}

/// The first character that is not `0` is the only position that
/// [`is_first_nonzero`] accepts.
pub proof fn lemma_leading_zeros_unique(d: Seq<char>, i: int)
    requires
        is_first_nonzero(d, i),
    ensures
        leading_zeros(d) == i,
{
    let j = leading_zeros(d);
    assert(is_first_nonzero(d, j));
    if j < i {
        assert(d[j] == '0');
    }
    if i < j {
        assert(d[i] == '0');
    }
}

/// The number that the exponent of a number denotes; zero where the number
/// ends at `q` and so has no exponent.
pub open spec fn exponent_value(s: Seq<char>, q: int) -> int {
    if q >= s.len() {
        0
    } else {
        let digits = s.subrange(exponent_digits(s, q), s.len() as int);
        if s[q + 1] == '-' {
            -(decimal_value(digits) as int)
        } else {
            decimal_value(digits) as int
        }
    }
}

/// The power of ten of the first digit of a number that is not zero: that
/// of its first digit, less the zeros it starts with, plus its exponent.
pub open spec fn order_of_magnitude(s: Seq<char>, from: int, p: int, q: int) -> int {
    (p - from) - 1 - leading_zeros(mantissa(s, from, p, q)) + exponent_value(s, q)
}

/// The digits of the least number that is too large for a double: half a
/// step above the largest double, at 2^1024 - 2^970, which is a number of
/// 309 digits. A number below it denotes a finite double; this number and
/// every number above it round to infinity.
pub open spec fn double_bound() -> Seq<char> {
    "179769313486231580793728971405303415079934132710037826936173778980444968292764750946649017977587207096330286416692887910946555547851940402630657488671505820681908902000708383676273854845817711531764475730270069855571366959622842914819860834936475292719074168444365510704342711559699508093042880177904174497792"@
}

/// The power of ten of the first digit of [`double_bound`].
pub const DOUBLE_BOUND_ORDER: i128 = 308;

/// The digit of `d` at `i`, where the digits are followed by zeros without
/// end.
pub open spec fn digit_or_zero(d: Seq<char>, i: int) -> char {
    if 0 <= i < d.len() {
        d[i]
    } else {
        '0'
    }
}

/// `k` is the first position at which `d` and `bound` differ, and `d` holds
/// the smaller digit there.
pub open spec fn is_first_smaller(d: Seq<char>, bound: Seq<char>, k: int) -> bool {
    &&& 0 <= k < bound.len()
    &&& digit_or_zero(d, k) < bound[k]
    &&& forall|i: int| 0 <= i < k ==> digit_or_zero(d, i) == bound[i]
}

/// The digits `d` denote less than the digits `bound`, both read from
/// their first digit on as digits of the same powers of ten.
pub open spec fn digits_below(d: Seq<char>, bound: Seq<char>) -> bool {
    exists|k: int| is_first_smaller(d, bound, k)
}

/// The number is not too large for a double: it is zero, or its first
/// digit that is not zero stands for a smaller power of ten than that of
/// [`double_bound`], or for the same power with digits that denote less.
pub open spec fn in_double_range(s: Seq<char>, from: int, p: int, q: int) -> bool {
    let digits = mantissa(s, from, p, q);
    let zeros = leading_zeros(digits);
    ||| zeros == digits.len()
    ||| order_of_magnitude(s, from, p, q) < DOUBLE_BOUND_ORDER
    ||| order_of_magnitude(s, from, p, q) == DOUBLE_BOUND_ORDER && digits_below(
        digits.skip(zeros),
        double_bound(),
    )
}

/// `s` is a finite decimal number between the ends `p` and `q` of its
/// digits.
pub open spec fn finite_number(s: Seq<char>, p: int, q: int) -> bool {
    number_shape(s, sign_end(s), p, q) && in_double_range(s, sign_end(s), p, q)
}

/// The texts that denote a finite magnitude: an optional sign, digits with
/// an optional point among them, and an optional exponent, of a value that
/// is not too large for a double. This is the grammar that the standard
/// library documents for parsing a double, without the words for infinity
/// and for what is no number, and without the numbers that a double can
/// only hold as infinity, such as `1e999`. A number too small for a double
/// denotes zero and is a magnitude.
pub open spec fn float_text(s: Seq<char>) -> bool {
    exists|p: int, q: int| #[trigger] finite_number(s, p, q)
}

fn is_digit_char(c: char) -> (r: bool)
    ensures
        r == is_digit(c),
{
    '0' <= c && c <= '9'
}

/// Skips the digits that start at `from`.
fn skip_digits(v: &Vec<char>, from: usize) -> (end: usize)
    requires
        from <= v.len(),
    ensures
        from <= end <= v.len(),
        digits_between(v@, from as int, end as int),
        end < v.len() ==> !is_digit(v@[end as int]),
{
    let mut end: usize = from;
    while end < v.len() && is_digit_char(v[end])
        invariant
            from <= end <= v.len(),
            digits_between(v@, from as int, end as int),
        decreases v.len() - end,
    {
        end += 1;
    }
    end
}

fn letter_at(v: &Vec<char>, i: usize, lower: char, upper: char) -> (r: bool)
    requires
        i < v.len(),
    ensures
        r == is_letter(v@[i as int], lower, upper),
{
    v[i] == lower || v[i] == upper
}

fn is_exponent_at(v: &Vec<char>, from: usize) -> (r: bool)
    requires
        from < v.len(),
    ensures
        r == exponent_at(v@, from as int),
{
    if !letter_at(v, from, 'e', 'E') {
        return false;
    }
    let digits: usize = if from + 1 < v.len() && (v[from + 1] == '+' || v[from + 1] == '-') {
        from + 2
    } else {
        from + 1
    };
    if digits >= v.len() {
        return false;
    }
    skip_digits(v, digits) == v.len()
}

/// Copies the characters of `v` from `from` up to `to` behind those of
/// `out`.
fn copy_range(v: &Vec<char>, from: usize, to: usize, out: &mut Vec<char>)
    requires
        from <= to <= v.len(),
    ensures
        final(out)@ == old(out)@ + v@.subrange(from as int, to as int),
{
    let mut i: usize = from;
    while i < to
        invariant
            from <= i <= to <= v.len(),
            out@ == old(out)@ + v@.subrange(from as int, i as int),
        decreases to - i,
    {
        out.push(v[i]);
        proof {
            assert(v@.subrange(from as int, i as int).push(v@[i as int]) =~= v@.subrange(
                from as int,
                i + 1,
            ));
        }
        i += 1;
    }
    proof {
        assert(old(out)@ + v@.subrange(from as int, from as int) =~= old(out)@);
    }
}

/// Counts the zeros that `d` starts with.
fn count_leading_zeros(d: &Vec<char>) -> (r: usize)
    ensures
        r == leading_zeros(d@),
        r <= d.len(),
{
    let mut i: usize = 0;
    while i < d.len()
        invariant
            i <= d.len(),
            forall|k: int| 0 <= k < i ==> d@[k] == '0',
        decreases d.len() - i,
    {
        if d[i] != '0' {
            proof {
                lemma_leading_zeros_unique(d@, i as int);
            }
            return i;
        }
        i += 1;
    }
    i
}

/// The number that the digits of `v` from `from` on denote, where that is
/// below 2^70.
fn small_value(v: &Vec<char>, from: usize) -> (r: Option<u128>)
    requires
        from <= v.len(),
        digits_between(v@, from as int, v.len() as int),
    ensures
        match r {
            Some(value) => value == decimal_value(v@.subrange(from as int, v.len() as int))
                && value < 0x40_0000_0000_0000_0000,
            None => decimal_value(v@.subrange(from as int, v.len() as int))
                >= 0x40_0000_0000_0000_0000,
        },
{
    let ghost digits = v@.subrange(from as int, v.len() as int);
    let mut value: u128 = 0;
    let mut i: usize = from;
    while i < v.len()
        invariant
            from <= i <= v.len(),
            digits == v@.subrange(from as int, v.len() as int),
            digits_between(v@, from as int, v.len() as int),
            value == decimal_value(digits.take(i - from)),
            value < 0x40_0000_0000_0000_0000,
        decreases v.len() - i,
    {
        let ghost next = digits.take(i + 1 - from);
        proof {
            assert(next.drop_last() =~= digits.take(i - from));
            assert(next.last() == v@[i as int]);
            assert(is_digit(v@[i as int]));
        }
        let digit = match digit_of(v[i]) {
            Some(d) => d,
            None => 0,
        };
        let grown: u128 = value * 10 + digit as u128;
        if grown >= 0x40_0000_0000_0000_0000 {
            proof {
                assert(digits_between(digits, 0, digits.len() as int)) by {
                    assert forall|k: int| 0 <= k < digits.len() implies is_digit(
                        #[trigger] digits[k],
                    ) by {
                        assert(digits[k] == v@[from + k]);
                    }
                }
                lemma_decimal_value_grows(digits, i + 1 - from);
            }
            return None;
        }
        value = grown;
        i += 1;
    }
    proof {
        assert(digits.take(v.len() - from) =~= digits);
    }
    Some(value)
}

/// Whether `d`, from `start` on, denotes less than `bound`.
fn is_below(d: &Vec<char>, start: usize, bound: &Vec<char>) -> (r: bool)
    requires
        start <= d.len(),
    ensures
        r == digits_below(d@.skip(start as int), bound@),
{
    let ghost rest = d@.skip(start as int);
    let mut k: usize = 0;
    while k < bound.len()
        invariant
            k <= bound.len(),
            start <= d.len(),
            rest == d@.skip(start as int),
            forall|i: int| 0 <= i < k ==> digit_or_zero(rest, i) == bound@[i],
        decreases bound.len() - k,
    {
        let c = if k < d.len() - start {
            d[start + k]
        } else {
            '0'
        };
        assert(c == digit_or_zero(rest, k as int));
        if c < bound[k] {
            assert(is_first_smaller(rest, bound@, k as int));
            return true;
        }
        if c > bound[k] {
            proof {
                assert forall|j: int| !is_first_smaller(rest, bound@, j) by {
                    if is_first_smaller(rest, bound@, j) {
                        if j < k {
                            assert(digit_or_zero(rest, j) == bound@[j]);
                        }
                        if j > k {
                            assert(digit_or_zero(rest, k as int) == bound@[k as int]);
                        }
                    }
                }
            }
            return false;
        }
        k += 1;
    }
    proof {
        assert forall|j: int| !is_first_smaller(rest, bound@, j) by {
            if is_first_smaller(rest, bound@, j) {
                assert(digit_or_zero(rest, j) == bound@[j]);
            }
        }
    }
    false
}

/// Whether a number is not too large for a double; see
/// [`in_double_range`].
fn is_in_double_range(v: &Vec<char>, from: usize, p: usize, q: usize) -> (r: bool)
    requires
        number_shape(v@, from as int, p as int, q as int),
    ensures
        r == in_double_range(v@, from as int, p as int, q as int),
{
    let mut digits: Vec<char> = Vec::new();
    copy_range(v, from, p, &mut digits);
    if q > p {
        copy_range(v, p + 1, q, &mut digits);
    }
    assert(digits@ =~= mantissa(v@, from as int, p as int, q as int));
    let zeros = count_leading_zeros(&digits);
    if zeros == digits.len() {
        return true;
    }
    let first: i128 = (p - from) as i128 - 1 - zeros as i128;
    let order: i128 = if q >= v.len() {
        first
    } else {
        let negative = v[q + 1] == '-';
        let start: usize = if q + 1 < v.len() && (v[q + 1] == '+' || v[q + 1] == '-') {
            q + 2
        } else {
            q + 1
        };
        match small_value(v, start) {
            Some(exponent) => {
                if negative {
                    first - exponent as i128
                } else {
                    first + exponent as i128
                }
            },
            None => {
                return negative;
            },
        }
    };
    assert(order == order_of_magnitude(v@, from as int, p as int, q as int));
    if order < DOUBLE_BOUND_ORDER {
        true
    } else if order > DOUBLE_BOUND_ORDER {
        false
    } else {
        let bound = chars_of(
            "179769313486231580793728971405303415079934132710037826936173778980444968292764750946649017977587207096330286416692887910946555547851940402630657488671505820681908902000708383676273854845817711531764475730270069855571366959622842914819860834936475292719074168444365510704342711559699508093042880177904174497792",
        );
        is_below(&digits, zeros, &bound)
    }
}

/// Finds the ends of the integer digits and of the fraction of a number, if
/// `v` is a number.
fn scan_number(v: &Vec<char>) -> (r: Option<(usize, usize)>)
    ensures
        match r {
            Some((p, q)) => number_shape(v@, sign_end(v@), p as int, q as int),
            None => forall|p: int, q: int| !#[trigger] number_shape(v@, sign_end(v@), p, q),
        },
{
    let n = v.len();
    let from: usize = if n > 0 && (v[0] == '+' || v[0] == '-') {
        1
    } else {
        0
    };
    let p = skip_digits(v, from);
    let q = if p < n && v[p] == '.' {
        skip_digits(v, p + 1)
    } else {
        p
    };
    let number = if p == from && q <= p + 1 {
        false
    } else if q == n {
        true
    } else {
        is_exponent_at(v, q)
    };
    if number {
        Some((p, q))
    } else {
        proof {
            // Any reading of the text as a number ends its digit runs where
            // the scan ended them.
            assert forall|i2: int, j2: int| !#[trigger] number_shape(v@, from as int, i2, j2) by {
                if number_shape(v@, from as int, i2, j2) {
                    if i2 < p {
                        assert(is_digit(v@[i2]));
                    }
                    if i2 > p {
                        assert(is_digit(v@[p as int]));
                    }
                    if j2 < q {
                        assert(is_digit(v@[j2]));
                    }
                    if j2 > q {
                        assert(is_digit(v@[q as int]));
                    }
                }
            }
        }
        None
    }
}

/// Whether `s` denotes a finite magnitude; see [`float_text`].
pub fn is_float_text(s: &str) -> (r: bool)
    ensures
        r == float_text(s@),
{
    let v = chars_of(s);
    match scan_number(&v) {
        Some((p, q)) => {
            let from: usize = if v.len() > 0 && (v[0] == '+' || v[0] == '-') {
                1
            } else {
                0
            };
            let finite = is_in_double_range(&v, from, p, q);
            proof {
                if finite {
                    assert(finite_number(v@, p as int, q as int));
                }
                assert forall|i2: int, j2: int| #[trigger] finite_number(v@, i2, j2) implies i2
                    == p && j2 == q by {
                    lemma_number_shape_unique(v@, sign_end(v@), p as int, q as int, i2, j2);
                }
            }
            finite
        },
        None => {
            proof {
                assert forall|i2: int, j2: int| !#[trigger] finite_number(v@, i2, j2) by {
                    if finite_number(v@, i2, j2) {
                        assert(number_shape(v@, sign_end(v@), i2, j2));
                    }
                }
            }
            false
        },
    }
}

/// The JSON number that is written for a number: the number without a
/// sign `+`, without zeros before its integer digits, and with a zero
/// where it has no digit before or behind its point.
pub open spec fn json_number(s: Seq<char>, p: int, q: int) -> Seq<char> {
    json_sign(s) + json_whole(s, p) + json_fraction(s, p, q) + s.subrange(q, s.len() as int)
}

/// The JSON number that is written for a text, where the text is a number.
pub open spec fn json_number_of(s: Seq<char>) -> Option<Seq<char>> {
    if exists|p: int, q: int| #[trigger] number_shape(s, sign_end(s), p, q) {
        let (p, q) = choose|p: int, q: int| #[trigger] number_shape(s, sign_end(s), p, q);
        Some(json_number(s, p, q))
    } else {
        None
    }
}

/// Writes a number as a JSON number; see [`json_number`].
pub fn to_json_number(s: &str) -> (r: Option<String>)
    ensures
        match r {
            Some(text) => json_number_of(s@) == Some(text@),
            None => json_number_of(s@) is None,
        },
{
    let v = chars_of(s);
    let (p, q) = match scan_number(&v) {
        Some(ends) => ends,
        None => {
            return None;
        },
    };
    let from: usize = if v.len() > 0 && (v[0] == '+' || v[0] == '-') {
        1
    } else {
        0
    };
    proof {
        let (i2, j2) = choose|i2: int, j2: int| #[trigger] number_shape(s@, sign_end(s@), i2, j2);
        lemma_number_shape_unique(s@, sign_end(s@), p as int, q as int, i2, j2);
        reveal_strlit("-");
        reveal_strlit("0");
        reveal_strlit(".0");
    }
    let mut whole: Vec<char> = Vec::new();
    copy_range(&v, from, p, &mut whole);
    assert(whole@ =~= s@.subrange(from as int, p as int));
    let zeros = count_leading_zeros(&whole);
    let mut text = String::new();
    if v.len() > 0 && v[0] == '-' {
        text.append("-");
    }
    if zeros == whole.len() {
        text.append("0");
    } else {
        text.append(s.substring_char(from + zeros, p));
        assert(s@.subrange(from + zeros, p as int) =~= whole@.skip(zeros as int));
    }
    if q > p && q - p == 1 {
        text.append(".0");
    } else {
        text.append(s.substring_char(p, q));
    }
    text.append(s.substring_char(q, v.len()));
    assert(text@ =~= json_number(s@, p as int, q as int));
    Some(text)
}

/// The zeros that two runs of digits start with, one behind the other: those
/// of the first, and those of the second as well where the first holds
/// nothing else.
pub proof fn lemma_leading_zeros_of_two(a: Seq<char>, b: Seq<char>)
    ensures
        leading_zeros(a + b) == if leading_zeros(a) < a.len() {
            leading_zeros(a)
        } else {
            a.len() + leading_zeros(b)
        },
        0 <= leading_zeros(a) <= a.len(),
        leading_zeros(a) == a.len() ==> forall|k: int| 0 <= k < a.len() ==> a[k] == '0',
{
    let whole = a + b;
    lemma_leading_zeros_bounds(a);
    lemma_leading_zeros_bounds(b);
    let za = leading_zeros(a);
    let zb = leading_zeros(b);
    if za < a.len() {
        assert(is_first_nonzero(a, za));
        assert(is_first_nonzero(whole, za)) by {
            assert(whole[za] == a[za]);
            assert forall|k: int| 0 <= k < za implies whole[k] == '0' by {
                assert(whole[k] == a[k]);
            }
        }
        lemma_leading_zeros_unique(whole, za);
    } else if zb < b.len() {
        assert(is_first_nonzero(b, zb));
        assert(is_first_nonzero(whole, a.len() + zb)) by {
            assert(whole[a.len() + zb] == b[zb]);
            assert forall|k: int| 0 <= k < a.len() + zb implies whole[k] == '0' by {
                if k < a.len() {
                    assert(whole[k] == a[k]);
                } else {
                    assert(whole[k] == b[k - a.len()]);
                }
            }
        }
        lemma_leading_zeros_unique(whole, a.len() + zb);
    } else {
        assert forall|i: int| !is_first_nonzero(whole, i) by {
            if is_first_nonzero(whole, i) {
                if i < a.len() {
                    assert(whole[i] == a[i]);
                } else {
                    assert(whole[i] == b[i - a.len()]);
                }
            }
        }
    }
}

/// The zeros that a run of digits starts with are at most as many as its
/// digits; where they are as many, it holds nothing but zeros, and where
/// they are fewer, a digit that is not zero stands behind them.
pub proof fn lemma_leading_zeros_bounds(d: Seq<char>)
    ensures
        0 <= leading_zeros(d) <= d.len(),
        forall|k: int| 0 <= k < leading_zeros(d) ==> d[k] == '0',
        leading_zeros(d) < d.len() ==> is_first_nonzero(d, leading_zeros(d)),
{
    if exists|i: int| is_first_nonzero(d, i) {
    } else {
        assert forall|k: int| 0 <= k < d.len() implies d[k] == '0' by {
            if d[k] != '0' {
                lemma_first_nonzero_exists(d, k);
            }
        }
    }
}

/// Where a run of digits holds a digit that is not zero, it has a first
/// such digit.
pub proof fn lemma_first_nonzero_exists(d: Seq<char>, k: int)
    requires
        0 <= k < d.len(),
        d[k] != '0',
    ensures
        exists|i: int| is_first_nonzero(d, i),
    decreases k,
{
    if forall|j: int| 0 <= j < k ==> d[j] == '0' {
        assert(is_first_nonzero(d, k));
    } else {
        let j = choose|j: int| 0 <= j < k && d[j] != '0';
        lemma_first_nonzero_exists(d, j);
    }
}

/// Two texts that end alike have the same exponent.
pub proof fn lemma_same_exponent(s: Seq<char>, q: int, t: Seq<char>, r: int)
    requires
        0 <= q <= s.len(),
        0 <= r <= t.len(),
        s.subrange(q, s.len() as int) == t.subrange(r, t.len() as int),
    ensures
        q == s.len() <==> r == t.len(),
        exponent_at(s, q) == exponent_at(t, r),
        exponent_at(s, q) ==> exponent_value(s, q) == exponent_value(t, r),
{
    let tail = s.subrange(q, s.len() as int);
    let tail2 = t.subrange(r, t.len() as int);
    assert(tail.len() == tail2.len());
    assert forall|k: int| 0 <= k < tail.len() implies #[trigger] tail[k] == s[q + k] && tail[k]
        == t[r + k] by {
        assert(tail2[k] == t[r + k]);
    }
    if q < s.len() {
        assert(tail[0] == s[q]);
        if q + 1 < s.len() {
            assert(tail[1] == s[q + 1]);
        }
        let ds = exponent_digits(s, q);
        let dt = exponent_digits(t, r);
        assert(ds - q == dt - r);
        if exponent_at(s, q) {
            assert forall|k: int| dt <= k < t.len() implies is_digit(#[trigger] t[k]) by {
                assert(tail[k - r] == t[k]);
                assert(is_digit(s[q + (k - r)]));
            }
        }
        if exponent_at(t, r) {
            assert forall|k: int| ds <= k < s.len() implies is_digit(#[trigger] s[k]) by {
                assert(tail[k - q] == s[k]);
                assert(is_digit(t[r + (k - q)]));
            }
        }
        if exponent_at(s, q) {
            let digits = s.subrange(ds, s.len() as int);
            let digits2 = t.subrange(dt, t.len() as int);
            assert(digits =~= digits2) by {
                assert forall|k: int| 0 <= k < digits.len() implies digits[k] == digits2[k] by {
                    assert(tail[ds - q + k] == s[ds + k]);
                    assert(tail[ds - q + k] == t[dt + k]);
                }
            }
            assert(tail[1] == s[q + 1]);
        }
    }
}

/// Zeros at the end of digits do not change whether the digits denote less
/// than a bound.
pub proof fn lemma_digits_below_ignores_zeros(d: Seq<char>, more: Seq<char>, bound: Seq<char>)
    requires
        forall|k: int| 0 <= k < more.len() ==> more[k] == '0',
    ensures
        digits_below(d + more, bound) == digits_below(d, bound),
{
    let longer = d + more;
    assert forall|i: int| digit_or_zero(longer, i) == digit_or_zero(d, i) by {
        if 0 <= i < d.len() {
            assert(longer[i] == d[i]);
        } else if 0 <= i < longer.len() {
            assert(longer[i] == more[i - d.len()]);
        }
    }
    if digits_below(d, bound) {
        let k = choose|k: int| is_first_smaller(d, bound, k);
        assert(is_first_smaller(longer, bound, k));
    }
    if digits_below(longer, bound) {
        let k = choose|k: int| is_first_smaller(longer, bound, k);
        assert(is_first_smaller(d, bound, k));
    }
}

/// The JSON number that is written for a number is a number, whose
/// integer digits and fraction end at [`json_ends`].
pub proof fn lemma_json_number_shape(s: Seq<char>, p: int, q: int)
    requires
        number_shape(s, sign_end(s), p, q),
    ensures
        sign_end(json_number(s, p, q)) == json_sign(s).len(),
        number_shape(
            json_number(s, p, q),
            sign_end(json_number(s, p, q)),
            json_ends(s, p, q).0,
            json_ends(s, p, q).1,
        ),
        exponent_value(s, q) == exponent_value(json_number(s, p, q), json_ends(s, p, q).1),
        json_number(s, p, q).subrange(json_sign(s).len() as int, json_ends(s, p, q).0)
            == json_whole(s, p),
        q > p ==> json_number(s, p, q).subrange(
            json_ends(s, p, q).0 + 1,
            json_ends(s, p, q).1,
        ) == json_fraction(s, p, q).skip(1),
        q == p ==> json_ends(s, p, q).1 == json_ends(s, p, q).0,
        q > p ==> json_ends(s, p, q).1 > json_ends(s, p, q).0,
{
    let from = sign_end(s);
    let t = json_number(s, p, q);
    let whole = s.subrange(from, p);
    let zeros = leading_zeros(whole);
    lemma_leading_zeros_bounds(whole);
    let sign = json_sign(s);
    let kept = json_whole(s, p);
    let fraction = json_fraction(s, p, q);
    let tail = s.subrange(q, s.len() as int);
    assert(t == sign + kept + fraction + tail);
    let from2 = sign.len() as int;
    let p2 = from2 + kept.len();
    let q2 = p2 + fraction.len();
    assert(kept.len() > 0);
    assert forall|k: int| 0 <= k < kept.len() implies is_digit(#[trigger] kept[k]) by {
        if zeros < whole.len() {
            assert(kept[k] == whole[zeros + k]);
            assert(whole[zeros + k] == s[from + zeros + k]);
        }
    }
    assert(t[0] == if from2 == 1 {
        '-'
    } else {
        kept[0]
    });
    assert(sign_end(t) == from2);
    assert forall|k: int| from2 <= k < p2 implies is_digit(#[trigger] t[k]) by {
        assert(t[k] == kept[k - from2]);
    }
    if q > p {
        assert(fraction[0] == '.') by {
            if q > p + 1 {
                assert(fraction[0] == s[p]);
            }
        }
        assert(t[p2] == fraction[0]);
        assert forall|k: int| p2 + 1 <= k < q2 implies is_digit(#[trigger] t[k]) by {
            assert(t[k] == fraction[k - p2]);
            if q > p + 1 {
                assert(fraction[k - p2] == s[p + (k - p2)]);
            }
        }
        assert(t.subrange(p2 + 1, q2) =~= fraction.skip(1));
    }
    assert(t.subrange(q2, t.len() as int) =~= tail);
    assert(t.subrange(from2, p2) =~= kept);
    lemma_same_exponent(s, q, t, q2);
}

/// The sign of the JSON number that is written for a number: `-` or none.
pub open spec fn json_sign(s: Seq<char>) -> Seq<char> {
    if s.len() > 0 && s[0] == '-' {
        seq!['-']
    } else {
        Seq::empty()
    }
}

/// The integer digits of the JSON number that is written for a number:
/// those of the number without the zeros they start with, or one zero.
pub open spec fn json_whole(s: Seq<char>, p: int) -> Seq<char> {
    let whole = s.subrange(sign_end(s), p);
    let zeros = leading_zeros(whole);
    if zeros == whole.len() {
        seq!['0']
    } else {
        whole.skip(zeros)
    }
}

/// The fraction of the JSON number that is written for a number, with its
/// point: that of the number, with a zero where it has no digit.
pub open spec fn json_fraction(s: Seq<char>, p: int, q: int) -> Seq<char> {
    if q == p + 1 {
        seq!['.', '0']
    } else {
        s.subrange(p, q)
    }
}

/// Where the integer digits and the fraction end in the JSON number that
/// is written for a number.
pub open spec fn json_ends(s: Seq<char>, p: int, q: int) -> (int, int) {
    let p2 = (json_sign(s).len() + json_whole(s, p).len()) as int;
    (p2, p2 + json_fraction(s, p, q).len())
}

/// The JSON number that is written for a number is not too large for a
/// double where the number is not, and only there: both have the same
/// digits behind the zeros they start with, at the same powers of ten, but
/// for zeros at the end.
pub proof fn lemma_json_number_range(s: Seq<char>, p: int, q: int)
    requires
        number_shape(s, sign_end(s), p, q),
    ensures
        in_double_range(s, sign_end(s), p, q) == in_double_range(
            json_number(s, p, q),
            sign_end(json_number(s, p, q)),
            json_ends(s, p, q).0,
            json_ends(s, p, q).1,
        ),
{
    lemma_json_number_shape(s, p, q);
    let from = sign_end(s);
    let t = json_number(s, p, q);
    let from2 = sign_end(t);
    let (p2, q2) = json_ends(s, p, q);
    let whole = s.subrange(from, p);
    let zeros = leading_zeros(whole);
    let kept = json_whole(s, p);
    lemma_leading_zeros_bounds(whole);
    let digits = mantissa(s, from, p, q);
    let digits2 = mantissa(t, from2, p2, q2);
    let behind: Seq<char> = if q > p {
        s.subrange(p + 1, q)
    } else {
        Seq::empty()
    };
    let behind2: Seq<char> = if q == p + 1 {
        seq!['0']
    } else {
        behind
    };
    assert(digits =~= whole + behind);
    if q > p {
        assert(json_fraction(s, p, q).skip(1) =~= behind2) by {
            if q > p + 1 {
                assert(s.subrange(p, q).skip(1) =~= s.subrange(p + 1, q));
            }
        }
    }
    assert(digits2 =~= kept + behind2);
    lemma_mantissa_zeros(whole, behind, kept, behind2);
    assert(p2 - from2 == kept.len());
}

/// The digits `kept + behind2` are the digits `whole + behind` without the
/// zeros that `whole` starts with, or with one of them where `whole` holds
/// nothing else, and with a zero where `behind` is empty and `behind2` is
/// not. Both have the same digits behind their zeros, but for zeros at the
/// end, and the first of those digits stands as far from the end of
/// `whole` as from that of `kept`.
proof fn lemma_mantissa_zeros(
    whole: Seq<char>,
    behind: Seq<char>,
    kept: Seq<char>,
    behind2: Seq<char>,
)
    requires
        kept == if leading_zeros(whole) == whole.len() {
            seq!['0']
        } else {
            whole.skip(leading_zeros(whole))
        },
        behind2 == behind || (behind.len() == 0 && behind2 == seq!['0']),
    ensures
        (leading_zeros(whole + behind) == (whole + behind).len()) == (leading_zeros(
            kept + behind2,
        ) == (kept + behind2).len()),
        leading_zeros(whole + behind) < (whole + behind).len() ==> {
            &&& whole.len() - leading_zeros(whole + behind) == kept.len() - leading_zeros(
                kept + behind2,
            )
            &&& digits_below((whole + behind).skip(leading_zeros(whole + behind)), double_bound())
                == digits_below(
                (kept + behind2).skip(leading_zeros(kept + behind2)),
                double_bound(),
            )
        },
{
    let digits = whole + behind;
    let digits2 = kept + behind2;
    let zeros = leading_zeros(whole);
    lemma_leading_zeros_bounds(whole);
    lemma_leading_zeros_of_two(whole, behind);
    lemma_leading_zeros_of_two(kept, behind2);
    lemma_leading_zeros_bounds(behind);
    lemma_leading_zeros_bounds(behind2);
    lemma_leading_zeros_bounds(kept);
    let z = leading_zeros(digits);
    let z2 = leading_zeros(digits2);
    if zeros < whole.len() {
        assert(is_first_nonzero(kept, 0)) by {
            assert(kept[0] == whole[zeros]);
        }
        lemma_leading_zeros_unique(kept, 0);
        assert(z == zeros && z2 == 0);
        assert(digits.skip(z) =~= kept + behind);
        if behind2 == behind {
            assert(digits2.skip(z2) =~= digits.skip(z));
        } else {
            assert(digits2.skip(z2) =~= digits.skip(z) + seq!['0']);
            lemma_digits_below_ignores_zeros(digits.skip(z), seq!['0'], double_bound());
        }
    } else {
        assert(kept =~= seq!['0']);
        assert(leading_zeros(kept) == 1) by {
            assert forall|i: int| !is_first_nonzero(kept, i) by {}
        }
        if behind2 == behind {
            assert(z - whole.len() == z2 - 1);
            if z < digits.len() {
                assert(digits.skip(z) =~= behind.skip(leading_zeros(behind)));
                assert(digits2.skip(z2) =~= behind.skip(leading_zeros(behind)));
            }
        } else {
            assert(leading_zeros(behind2) == 1) by {
                assert forall|i: int| !is_first_nonzero(behind2, i) by {}
            }
            assert(leading_zeros(behind) == 0);
            assert(z == digits.len() && z2 == digits2.len());
        }
    }
}

/// The JSON number that is written for a number is a number, and it is a
/// finite magnitude where the number is one: writing a magnitude as a JSON
/// number loses nothing that makes it a magnitude.
pub proof fn lemma_json_number_is_number(s: Seq<char>, p: int, q: int)
    requires
        number_shape(s, sign_end(s), p, q),
    ensures
        json_number_of(s) == Some(json_number(s, p, q)),
        json_number_of(json_number(s, p, q)) is Some,
        float_text(s) == float_text(json_number(s, p, q)),
{
    let t = json_number(s, p, q);
    let (p2, q2) = json_ends(s, p, q);
    lemma_json_number_shape(s, p, q);
    lemma_json_number_range(s, p, q);
    let (i1, j1) = choose|i1: int, j1: int| #[trigger] number_shape(s, sign_end(s), i1, j1);
    lemma_number_shape_unique(s, sign_end(s), p, q, i1, j1);
    if float_text(s) {
        let (i3, j3) = choose|i3: int, j3: int| #[trigger] finite_number(s, i3, j3);
        lemma_number_shape_unique(s, sign_end(s), p, q, i3, j3);
        assert(finite_number(t, p2, q2));
    }
    if float_text(t) {
        let (i4, j4) = choose|i4: int, j4: int| #[trigger] finite_number(t, i4, j4);
        lemma_number_shape_unique(t, sign_end(t), p2, q2, i4, j4);
        assert(finite_number(s, p, q));
    }
}

/// A text that starts, behind its sign, with anything but a digit or a
/// point denotes no magnitude. So the words `inf`, `infinity` and `nan`
/// denote none, in any casing and with any sign; nor does the empty text or
/// a lone sign.
pub proof fn lemma_magnitude_starts_with_digit_or_point(s: Seq<char>)
    requires
        float_text(s),
    ensures
        sign_end(s) < s.len(),
        is_digit(s[sign_end(s)]) || s[sign_end(s)] == '.',
{
    let (p, q) = choose|p: int, q: int| #[trigger] finite_number(s, p, q);
    assert(number_shape(s, sign_end(s), p, q));
    if p > sign_end(s) {
        assert(is_digit(s[sign_end(s)]));
    }
}

/// A number whose first digit that is not zero stands for a greater power
/// of ten than that of [`double_bound`] denotes no magnitude, such as
/// `1e309`.
pub proof fn lemma_too_large_is_no_magnitude(s: Seq<char>, p: int, q: int)
    requires
        number_shape(s, sign_end(s), p, q),
        leading_zeros(mantissa(s, sign_end(s), p, q)) < mantissa(s, sign_end(s), p, q).len(),
        order_of_magnitude(s, sign_end(s), p, q) > DOUBLE_BOUND_ORDER,
    ensures
        !float_text(s),
{
    assert forall|i2: int, j2: int| !#[trigger] finite_number(s, i2, j2) by {
        if finite_number(s, i2, j2) {
            lemma_number_shape_unique(s, sign_end(s), p, q, i2, j2);
        }
    }
}

/// A text is a number in one way only: the ends of its digits are fixed by
/// where its digits end.
pub proof fn lemma_number_shape_unique(s: Seq<char>, from: int, p: int, q: int, i2: int, j2: int)
    requires
        number_shape(s, from, p, q),
        number_shape(s, from, i2, j2),
    ensures
        i2 == p,
        j2 == q,
{
    if i2 < p {
        assert(is_digit(s[i2]));
    }
    if i2 > p {
        assert(is_digit(s[p]));
    }
    if j2 < q {
        assert(is_digit(s[j2]));
    }
    if j2 > q {
        assert(is_digit(s[q]));
    }
}

/// A single digit denotes a magnitude.
pub proof fn lemma_digit_is_float_text(s: Seq<char>)
    requires
        s.len() == 1,
        is_digit(s[0]),
    ensures
        float_text(s),
{
    assert(number_shape(s, 0, 1, 1));
    let digits = mantissa(s, 0, 1, 1);
    assert(digits =~= s);
    if s[0] != '0' {
        lemma_leading_zeros_unique(digits, 0);
    }
    assert(finite_number(s, 1, 1));
}

} // verus!
