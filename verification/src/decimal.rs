//! Exact decimal numbers: the numbers that the store keeps as text.
//!
//! A measurement is read from its decimal numeral into an integer count of
//! units and a scale (the number of digits after the point), so that sums are
//! exact and can be written back as a numeral.

use vstd::prelude::*;
use vstd::string::StrSliceExecFns;
use crate::attribute::RowError;
use crate::digits::{
    all_digits, digit_to_char, digit_value, digits_value, is_digit,
    lemma_digits_value_of_nat_digits, lemma_nat_digits_are_digits, nat_digits,
};

verus! {

/// The number `units / 10^scale`.
#[derive(Debug, Clone, Copy, PartialEq, Eq)]
pub struct Decimal {
    pub units: i128,
    pub scale: u8,
}

/// Ten to the power `k`.
pub open spec fn pow10(k: nat) -> nat
    decreases k,
{
    if k == 0 {
        1
    } else {
        10 * pow10((k - 1) as nat)
    }
}

/// Whether `v` fits the 128-bit count of units.
pub open spec fn fits_units(v: int) -> bool {
    i128::MIN <= v <= i128::MAX
}

/// Whether the numeral starts with a sign.
pub open spec fn has_sign(t: Seq<char>) -> bool {
    t.len() > 0 && (t[0] == '-' || t[0] == '+')
}

/// The numeral without its sign.
pub open spec fn unsigned_part(t: Seq<char>) -> Seq<char> {
    if has_sign(t) {
        t.drop_first()
    } else {
        t
    }
}

/// The number of digits that `b` starts with.
pub open spec fn leading_digits(b: Seq<char>) -> nat
    decreases b.len(),
{
    if b.len() > 0 && is_digit(b[0]) {
        1 + leading_digits(b.drop_first())
    } else {
        0
    }
}

/// The digits before the point.
pub open spec fn int_part(t: Seq<char>) -> Seq<char> {
    let b = unsigned_part(t);
    b.take(leading_digits(b) as int)
}

/// The digits after the point; none where there is no point.
pub open spec fn frac_part(t: Seq<char>) -> Seq<char> {
    let b = unsigned_part(t);
    let k = leading_digits(b) as int;
    if k < b.len() {
        b.skip(k + 1)
    } else {
        Seq::empty()
    }
}

/// Whether `t` is a decimal numeral: an optional sign, digits, and
/// optionally a point followed by digits, with at least one digit in all.
pub open spec fn is_decimal_text(t: Seq<char>) -> bool {
    let b = unsigned_part(t);
    let k = leading_digits(b) as int;
    &&& k == b.len() || (b[k] == '.' && all_digits(b.skip(k + 1)))
    &&& int_part(t).len() + frac_part(t).len() >= 1
}

/// The count of units that the numeral `t` writes.
pub open spec fn text_units(t: Seq<char>) -> int {
    let magnitude = digits_value(int_part(t) + frac_part(t)) as int;
    if t.len() > 0 && t[0] == '-' {
        -magnitude
    } else {
        magnitude
    }
}

/// The scale of the numeral `t`: how many digits follow its point.
pub open spec fn text_scale(t: Seq<char>) -> nat {
    frac_part(t).len()
}

/// Whether the numeral `t` can be held in a [`Decimal`].
pub open spec fn text_fits(t: Seq<char>) -> bool {
    text_scale(t) <= u8::MAX && fits_units(text_units(t))
}

/// The run of leading digits ends at the first character that is no digit.
pub proof fn lemma_leading_digits(b: Seq<char>, k: int)
    requires
        0 <= k <= b.len(),
        forall|j: int| 0 <= j < k ==> is_digit(#[trigger] b[j]),
        k == b.len() || !is_digit(b[k]),
    ensures
        leading_digits(b) == k,
    decreases k,
{
    if k > 0 {
        let rest = b.drop_first();
        assert forall|j: int| 0 <= j < k - 1 implies is_digit(#[trigger] rest[j]) by {
            assert(rest[j] == b[j + 1]);
        }
        if k < b.len() {
            assert(rest[k - 1] == b[k]);
        }
        lemma_leading_digits(rest, k - 1);
    }
}

/// One more digit at the end multiplies the value by ten and adds the digit.
pub proof fn lemma_digits_value_push(s: Seq<char>, c: char)
    requires
        is_digit(c),
    ensures
        digits_value(s.push(c)) == digits_value(s) * 10 + digit_value(c),
        digits_value(s.push(c)) >= digits_value(s),
{
    assert(s.push(c).drop_last() =~= s);
}

/// What reading the numeral `t` gives: the decimal it writes,
/// `MalformedNumber` where `t` is no decimal numeral, `NumberOutOfRange`
/// where it is one that a [`Decimal`] cannot hold.
pub open spec fn parse_spec(t: Seq<char>) -> Result<Decimal, RowError> {
    if !is_decimal_text(t) {
        Err(RowError::MalformedNumber)
    } else if !text_fits(t) {
        Err(RowError::NumberOutOfRange)
    } else {
        Ok(Decimal { units: text_units(t) as i128, scale: text_scale(t) as u8 })
    }
}

/// Whether `acc` holds the number that the digits `seen` write: the number
/// itself, or nothing once it is beyond 128 bits.
pub open spec fn holds_value(acc: Option<u128>, seen: Seq<char>) -> bool {
    match acc {
        Some(v) => v == digits_value(seen),
        None => digits_value(seen) > u128::MAX,
    }
}

/// Takes one more digit into the number read so far.
fn take_digit(acc: Option<u128>, c: char, Ghost(seen): Ghost<Seq<char>>) -> (r: Option<u128>)
    requires
        is_digit(c),
        holds_value(acc, seen),
    ensures
        holds_value(r, seen.push(c)),
{
    proof {
        lemma_digits_value_push(seen, c);
    }
    let d: u128 = (c as u8 - 48) as u128;
    match acc {
        Some(v) => match v.checked_mul(10) {
            Some(m) => m.checked_add(d),
            None => None,
        },
        None => None,
    }
}

/// Reads a decimal numeral.
pub fn parse_decimal(text: &str) -> (r: Result<Decimal, RowError>)
    ensures
        r == parse_spec(text@),
{
    let n = text.unicode_len();
    let mut negative = false;
    let mut start: usize = 0;
    if n > 0 {
        let c = text.get_char(0);
        if c == '-' {
            negative = true;
            start = 1;
        } else if c == '+' {
            start = 1;
        }
    }
    let ghost b = unsigned_part(text@);
    assert(b =~= text@.skip(start as int));
    let mut acc: Option<u128> = Some(0);
    let ghost mut seen: Seq<char> = Seq::empty();
    // the digits before the point
    let mut i: usize = start;
    while i < n && is_digit_char(text.get_char(i))
        invariant
            start <= i <= n,
            n == text@.len(),
            b == text@.skip(start as int),
            seen == b.take(i - start),
            forall|j: int| 0 <= j < i - start ==> is_digit(#[trigger] b[j]),
            holds_value(acc, seen),
        decreases n - i,
    {
        let c = text.get_char(i);
        acc = take_digit(acc, c, Ghost(seen));
        proof {
            assert(b.take(i + 1 - start) =~= seen.push(c));
            seen = seen.push(c);
        }
        i += 1;
    }
    let int_len: usize = i - start;
    proof {
        lemma_leading_digits(b, int_len as int);
        assert(int_part(text@) == seen);
    }
    // the point and the digits after it
    let mut frac_len: usize = 0;
    if i < n {
        if text.get_char(i) != '.' {
            return Err(RowError::MalformedNumber);
        }
        i += 1;
        let frac_start: usize = i;
        let ghost whole = seen;
        assert(frac_part(text@) =~= text@.skip(frac_start as int));
        while i < n
            invariant
                frac_start <= i <= n,
                n == text@.len(),
                frac_start == start + int_len + 1,
                b == text@.skip(start as int),
                leading_digits(b) == int_len,
                int_len < b.len(),
                b[int_len as int] == '.',
                frac_part(text@) == text@.skip(frac_start as int),
                seen == whole + text@.skip(frac_start as int).take(i - frac_start),
                forall|j: int| 0 <= j < i - frac_start ==> is_digit(#[trigger] frac_part(text@)[j]),
                holds_value(acc, seen),
            decreases n - i,
        {
            let c = text.get_char(i);
            if !is_digit_char(c) {
                proof {
                    assert(frac_part(text@)[i - frac_start] == c);
                    assert(b.skip(int_len + 1) =~= frac_part(text@));
                }
                return Err(RowError::MalformedNumber);
            }
            acc = take_digit(acc, c, Ghost(seen));
            proof {
                assert(whole + text@.skip(frac_start as int).take(i + 1 - frac_start) =~= seen.push(c));
                seen = seen.push(c);
            }
            i += 1;
        }
        frac_len = i - frac_start;
        proof {
            assert(text@.skip(frac_start as int).take(i - frac_start) =~= frac_part(text@));
            assert(b.skip(int_len + 1) =~= frac_part(text@));
        }
    } else {
        proof {
            assert(frac_part(text@) =~= Seq::<char>::empty());
            assert(seen + frac_part(text@) =~= seen);
        }
    }
    assert(seen == int_part(text@) + frac_part(text@));
    if int_len == 0 && frac_len == 0 {
        return Err(RowError::MalformedNumber);
    }
    assert(is_decimal_text(text@));
    if frac_len > 255 {
        return Err(RowError::NumberOutOfRange);
    }
    let scale: u8 = frac_len as u8;
    let largest: u128 = i128::MAX as u128;
    match acc {
        None => Err(RowError::NumberOutOfRange),
        Some(magnitude) => {
            if magnitude <= largest {
                if negative {
                    Ok(Decimal { units: -(magnitude as i128), scale })
                } else {
                    Ok(Decimal { units: magnitude as i128, scale })
                }
            } else if negative && magnitude == largest + 1 {
                Ok(Decimal { units: i128::MIN, scale })
            } else {
                Err(RowError::NumberOutOfRange)
            }
        },
    }
}

/// Whether `c` is a decimal digit.
pub fn is_digit_char(c: char) -> (r: bool)
    ensures
        r == is_digit(c),
{
    '0' <= c && c <= '9'
}

/// The magnitude of `v`.
pub open spec fn magnitude(v: int) -> nat {
    if v < 0 {
        (-v) as nat
    } else {
        v as nat
    }
}

/// The count of units of `d` when written at the scale `s`, for `s >= d.scale`.
pub open spec fn aligned(d: Decimal, s: nat) -> int {
    d.units * pow10((s - d.scale) as nat)
}

/// The larger of two scales.
pub open spec fn common_scale(a: Decimal, b: Decimal) -> u8 {
    if a.scale >= b.scale {
        a.scale
    } else {
        b.scale
    }
}

/// The exact sum of two decimals, at the larger of their scales; `None`
/// where an operand at that scale, or the sum, does not fit.
pub open spec fn add_spec(a: Decimal, b: Decimal) -> Option<Decimal> {
    let s = common_scale(a, b);
    let x = aligned(a, s as nat);
    let y = aligned(b, s as nat);
    if fits_units(x) && fits_units(y) && fits_units(x + y) {
        Some(Decimal { units: (x + y) as i128, scale: s })
    } else {
        None
    }
}

/// The sum of a sequence of decimals, added from the left starting at zero;
/// `None` where one of the additions does not fit.
pub open spec fn total(values: Seq<Decimal>) -> Option<Decimal>
    decreases values.len(),
{
    if values.len() == 0 {
        Some(Decimal { units: 0, scale: 0 })
    } else {
        match total(values.drop_last()) {
            Some(acc) => add_spec(acc, values.last()),
            None => None,
        }
    }
}

/// Powers of ten are positive and grow with the exponent.
pub proof fn lemma_pow10_grows(a: nat, b: nat)
    requires
        a <= b,
    ensures
        1 <= pow10(a) <= pow10(b),
    decreases b,
{
    if b > a {
        lemma_pow10_grows(a, (b - 1) as nat);
    } else if a > 0 {
        lemma_pow10_grows((a - 1) as nat, (a - 1) as nat);
    }
}

/// A count of units that does not fit at a scale does not fit at a finer one.
pub proof fn lemma_unfit_stays_unfit(units: int, a: nat, b: nat)
    requires
        a <= b,
        !fits_units(units * pow10(a)),
    ensures
        !fits_units(units * pow10(b)),
{
    lemma_pow10_grows(a, b);
    let pa = pow10(a) as int;
    let pb = pow10(b) as int;
    if units > 0 {
        assert(0 < units * pa <= units * pb) by (nonlinear_arith)
            requires
                units > 0,
                1 <= pa <= pb,
        ;
    } else if units < 0 {
        assert(0 > units * pa >= units * pb) by (nonlinear_arith)
            requires
                units < 0,
                1 <= pa <= pb,
        ;
    } else {
        assert(units * pa == 0) by (nonlinear_arith)
            requires
                units == 0,
        ;
    }
}

/// Multiplies a count of units by ten to the power `by`; `None` exactly when
/// the product does not fit.
pub fn rescale(units: i128, by: u8) -> (r: Option<i128>)
    ensures
        match r {
            Some(v) => v == units * pow10(by as nat),
            None => !fits_units(units * pow10(by as nat)),
        },
{
    let mut cur: i128 = units;
    let mut done: u8 = 0;
    assert(units * pow10(0) == units) by (nonlinear_arith)
        requires
            pow10(0) == 1,
    ;
    while done < by
        invariant
            done <= by,
            cur == units * pow10(done as nat),
        decreases by - done,
    {
        let ghost p = pow10(done as nat) as int;
        assert(units * pow10((done + 1) as nat) == (units * p) * 10) by (nonlinear_arith)
            requires
                pow10((done + 1) as nat) == 10 * p,
        ;
        match cur.checked_mul(10) {
            Some(v) => {
                cur = v;
            },
            None => {
                proof {
                    lemma_unfit_stays_unfit(units as int, (done + 1) as nat, by as nat);
                }
                return None;
            },
        }
        done += 1;
    }
    Some(cur)
}

impl Decimal {
    /// The decimal zero.
    pub fn zero() -> (r: Decimal)
        ensures
            r == (Decimal { units: 0, scale: 0 }),
    {
        Decimal { units: 0, scale: 0 }
    }

    /// The exact sum of `self` and `other`, or `None` where it does not fit.
    pub fn add(&self, other: &Decimal) -> (r: Option<Decimal>)
        ensures
            r == add_spec(*self, *other),
    {
        let scale = if self.scale >= other.scale {
            self.scale
        } else {
            other.scale
        };
        let x = match rescale(self.units, scale - self.scale) {
            Some(x) => x,
            None => {
                return None;
            },
        };
        let y = match rescale(other.units, scale - other.scale) {
            Some(y) => y,
            None => {
                return None;
            },
        };
        match x.checked_add(y) {
            Some(units) => Some(Decimal { units, scale }),
            None => None,
        }
    }
}

/// Adds up decimals from the left; `None` where an addition does not fit.
pub fn sum_decimals(values: &Vec<Decimal>) -> (r: Option<Decimal>)
    ensures
        r == total(values@),
{
    let mut acc = Decimal::zero();
    let mut i: usize = 0;
    assert(values@.take(0) =~= Seq::<Decimal>::empty());
    while i < values.len()
        invariant
            i <= values.len(),
            total(values@.take(i as int)) == Some(acc),
        decreases values.len() - i,
    {
        let ghost prefix = values@.take(i as int + 1);
        assert(prefix.drop_last() =~= values@.take(i as int));
        assert(prefix.last() == values@[i as int]);
        match acc.add(&values[i]) {
            Some(next) => {
                acc = next;
            },
            None => {
                proof {
                    lemma_total_none_extends(values@, i as int + 1);
                }
                return None;
            },
        }
        i += 1;
    }
    assert(values@.take(i as int) =~= values@);
    Some(acc)
}

/// When a prefix cannot be added up, neither can the whole.
pub proof fn lemma_total_none_extends(values: Seq<Decimal>, k: int)
    requires
        0 <= k <= values.len(),
        total(values.take(k)) is None,
    ensures
        total(values) is None,
    decreases values.len() - k,
{
    if k < values.len() {
        assert(values.take(k + 1).drop_last() =~= values.take(k));
        lemma_total_none_extends(values, k + 1);
    } else {
        assert(values.take(k) =~= values);
    }
}

/// `k` zeros.
pub open spec fn zeros(k: nat) -> Seq<char> {
    Seq::new(k, |i: int| '0')
}

/// The numeral for `magnitude / 10^scale`: the digits of the magnitude with
/// a point before the last `scale` of them, padded with zeros so that a digit
/// stands before the point.
pub open spec fn unsigned_text(magnitude: nat, scale: nat) -> Seq<char> {
    let d = nat_digits(magnitude);
    if scale == 0 {
        d
    } else if d.len() > scale {
        d.take(d.len() - scale) + seq!['.'] + d.skip(d.len() - scale)
    } else {
        seq!['0', '.'] + zeros((scale - d.len()) as nat) + d
    }
}

/// The numeral that writes `d`: a minus sign for a negative count of units,
/// then the numeral of its magnitude.
pub open spec fn decimal_text(d: Decimal) -> Seq<char> {
    if d.units < 0 {
        seq!['-'] + unsigned_text(magnitude(d.units as int), d.scale as nat)
    } else {
        unsigned_text(magnitude(d.units as int), d.scale as nat)
    }
}

/// Appends the decimal digits of `n` to `out`.
fn push_digit_chars(out: &mut Vec<char>, n: u128)
    ensures
        final(out)@ == old(out)@ + nat_digits(n as nat),
    decreases n,
{
    if n >= 10 {
        push_digit_chars(out, n / 10);
    }
    let d: u8 = (n % 10) as u8;
    out.push(digit_to_char(d));
    assert(out@ =~= old(out)@ + nat_digits(n as nat));
}

/// Appends the characters `chars[from..to]` to `out`.
fn push_chars(out: &mut String, chars: &Vec<char>, from: usize, to: usize)
    requires
        from <= to <= chars.len(),
    ensures
        final(out)@ == old(out)@ + chars@.subrange(from as int, to as int),
{
    let mut i: usize = from;
    assert(out@ =~= old(out)@ + chars@.subrange(from as int, from as int));
    while i < to
        invariant
            from <= i <= to <= chars.len(),
            out@ == old(out)@ + chars@.subrange(from as int, i as int),
        decreases to - i,
    {
        out.push(chars[i]);
        assert(chars@.subrange(from as int, i as int + 1) =~= chars@.subrange(from as int, i as int).push(
            chars@[i as int],
        ));
        assert(out@ =~= old(out)@ + chars@.subrange(from as int, i as int + 1));
        i += 1;
    }
}

impl Decimal {
    /// Writes the number as a decimal numeral.
    pub fn to_text(&self) -> (r: String)
        ensures
            r@ == decimal_text(*self),
    {
        let mut out = String::new();
        let mag: u128 = if self.units < 0 {
            out.push('-');
            if self.units == i128::MIN {
                i128::MAX as u128 + 1
            } else {
                (-self.units) as u128
            }
        } else {
            self.units as u128
        };
        let ghost sign = out@;
        let mut digits: Vec<char> = Vec::new();
        push_digit_chars(&mut digits, mag);
        assert(digits@ =~= nat_digits(mag as nat));
        let len = digits.len();
        let scale: usize = self.scale as usize;
        if scale == 0 {
            push_chars(&mut out, &digits, 0, len);
            assert(digits@.subrange(0, len as int) =~= digits@);
        } else if len > scale {
            push_chars(&mut out, &digits, 0, len - scale);
            out.push('.');
            push_chars(&mut out, &digits, len - scale, len);
            assert(out@ =~= sign + (digits@.take(len - scale) + seq!['.'] + digits@.skip(len - scale)));
        } else {
            out.push('0');
            out.push('.');
            let mut k: usize = 0;
            while k < scale - len
                invariant
                    k <= scale - len,
                    len <= scale,
                    out@ == sign + seq!['0', '.'] + zeros(k as nat),
                decreases scale - len - k,
            {
                out.push('0');
                assert(zeros(k as nat).push('0') =~= zeros((k + 1) as nat));
                assert(out@ =~= sign + seq!['0', '.'] + zeros((k + 1) as nat));
                k += 1;
            }
            push_chars(&mut out, &digits, 0, len);
            assert(digits@.subrange(0, len as int) =~= digits@);
            assert(out@ =~= sign + (seq!['0', '.'] + zeros((scale - len) as nat) + digits@));
        }
        assert(out@ =~= decimal_text(*self));
        out
    }
}

/// The largest scale among the values; zero for none.
pub open spec fn max_scale(values: Seq<Decimal>) -> nat
    decreases values.len(),
{
    if values.len() == 0 {
        0
    } else if values.last().scale >= max_scale(values.drop_last()) {
        values.last().scale as nat
    } else {
        max_scale(values.drop_last())
    }
}

/// The arithmetic sum of the values, counted in units of the scale `scale`.
pub open spec fn units_sum(values: Seq<Decimal>, scale: nat) -> int
    decreases values.len(),
{
    if values.len() == 0 {
        0
    } else {
        units_sum(values.drop_last(), scale) + aligned(values.last(), scale)
    }
}

/// Ten to a sum of exponents is the product of the powers.
pub proof fn lemma_pow10_add(a: nat, b: nat)
    ensures
        pow10(a + b) == pow10(a) * pow10(b),
    decreases a,
{
    if a == 0 {
        assert(pow10(0) * pow10(b) == pow10(b)) by (nonlinear_arith)
            requires
                pow10(0) == 1,
        ;
    } else {
        lemma_pow10_add((a - 1) as nat, b);
        let x = pow10((a - 1) as nat) as int;
        let y = pow10(b) as int;
        assert((10 * x) * y == 10 * (x * y)) by (nonlinear_arith);
        assert(pow10(a + b) == 10 * pow10((a + b - 1) as nat));
    }
}

/// Counting a sum in finer units multiplies it by the power of ten between
/// the scales.
pub proof fn lemma_units_sum_rescale(values: Seq<Decimal>, coarse: nat, fine: nat)
    requires
        max_scale(values) <= coarse <= fine,
    ensures
        units_sum(values, fine) == units_sum(values, coarse) * pow10((fine - coarse) as nat),
    decreases values.len(),
{
    let p = pow10((fine - coarse) as nat) as int;
    if values.len() == 0 {
        assert(0 * p == 0) by (nonlinear_arith);
    } else {
        let rest = values.drop_last();
        let last = values.last();
        lemma_units_sum_rescale(rest, coarse, fine);
        lemma_pow10_add((coarse - last.scale) as nat, (fine - coarse) as nat);
        assert((coarse - last.scale) as nat + (fine - coarse) as nat == (fine - last.scale) as nat);
        let q = pow10((coarse - last.scale) as nat) as int;
        let u = last.units as int;
        let r = units_sum(rest, coarse);
        assert(aligned(last, fine) == u * (q * p));
        assert(r * p + u * (q * p) == (r + u * q) * p) by (nonlinear_arith);
    }
}

/// The total of some decimals is their arithmetic sum, written at the
/// largest of their scales.
pub proof fn lemma_total_is_sum(values: Seq<Decimal>)
    requires
        total(values) is Some,
    ensures
        total(values)->0.scale == max_scale(values),
        total(values)->0.units == units_sum(values, max_scale(values)),
    decreases values.len(),
{
    if values.len() == 0 {
    } else {
        let rest = values.drop_last();
        let last = values.last();
        lemma_total_is_sum(rest);
        let acc = total(rest)->0;
        let s = max_scale(values);
        lemma_units_sum_rescale(rest, max_scale(rest), s);
    }
}

/// Zeros in front of a run of digits do not change the number it writes.
pub proof fn lemma_leading_zeros(k: nat, digits: Seq<char>)
    requires
        all_digits(digits),
    ensures
        digits_value(zeros(k) + digits) == digits_value(digits),
    decreases digits.len(),
{
    let whole = zeros(k) + digits;
    if digits.len() == 0 {
        assert(whole =~= zeros(k));
        lemma_zeros_value(k);
    } else {
        let fewer = digits.drop_last();
        assert(whole.drop_last() =~= zeros(k) + fewer);
        assert(whole.last() == digits.last());
        assert forall|i: int| 0 <= i < fewer.len() implies is_digit(#[trigger] fewer[i]) by {
            assert(fewer[i] == digits[i]);
        }
        lemma_leading_zeros(k, fewer);
    }
}

/// A run of zeros writes zero.
pub proof fn lemma_zeros_value(k: nat)
    ensures
        digits_value(zeros(k)) == 0,
    decreases k,
{
    if k > 0 {
        assert(zeros(k).drop_last() =~= zeros((k - 1) as nat));
        lemma_zeros_value((k - 1) as nat);
    }
}

/// A numeral written for a decimal reads back as that decimal.
pub proof fn lemma_text_round_trip(d: Decimal)
    ensures
        parse_spec(decimal_text(d)) == Ok::<Decimal, RowError>(d),
{
    let mag = magnitude(d.units as int);
    let scale = d.scale as nat;
    let digits = nat_digits(mag);
    let n = digits.len() as int;
    let body = unsigned_text(mag, scale);
    let t = decimal_text(d);
    lemma_nat_digits_are_digits(mag);
    lemma_digits_value_of_nat_digits(mag);
    assert(is_digit(digits[0]));
    // the body starts with a digit, so the only sign is the one written
    assert(body.len() > 0 && is_digit(body[0])) by {
        if scale == 0 {
        } else if n > scale {
            assert(body[0] == digits[0]);
        } else {
            assert(body[0] == '0');
        }
    }
    if d.units < 0 {
        assert(t[0] == '-');
        assert(t.drop_first() =~= body);
    } else {
        assert(t[0] == body[0]);
    }
    assert(unsigned_part(t) == body);
    if scale == 0 {
        lemma_leading_digits(body, n);
        assert(body.take(n) =~= digits);
        assert(frac_part(t) =~= Seq::<char>::empty());
        assert(int_part(t) + frac_part(t) =~= digits);
    } else if n > scale {
        let k = n - scale;
        assert forall|j: int| 0 <= j < k implies is_digit(#[trigger] body[j]) by {
            assert(body[j] == digits[j]);
        }
        assert(body[k] == '.');
        lemma_leading_digits(body, k);
        assert(body.take(k) =~= digits.take(k));
        assert(body.skip(k + 1) =~= digits.skip(k));
        assert forall|j: int| 0 <= j < body.skip(k + 1).len() implies is_digit(
            #[trigger] body.skip(k + 1)[j],
        ) by {
            assert(body.skip(k + 1)[j] == digits[k + j]);
        }
        assert(int_part(t) + frac_part(t) =~= digits);
    } else {
        let pad = (scale - n) as nat;
        assert(body[0] == '0');
        assert(body[1] == '.');
        lemma_leading_digits(body, 1);
        assert(body.take(1) =~= zeros(1));
        assert(body.skip(2) =~= zeros(pad) + digits);
        assert forall|j: int| 0 <= j < body.skip(2).len() implies is_digit(#[trigger] body.skip(2)[j]) by {
            if j >= pad {
                assert(body.skip(2)[j] == digits[j - pad]);
            }
        }
        assert(int_part(t) + frac_part(t) =~= zeros(pad + 1) + digits);
        lemma_leading_zeros(pad + 1, digits);
    }
}

/// What reading the numeral `t` as an 8-bit integer gives: `MalformedNumber`
/// where `t` is no numeral or has a point, `NumberOutOfRange` where the
/// integer is beyond eight bits, else the integer.
pub open spec fn parse_i8_spec(t: Seq<char>) -> Result<i8, RowError> {
    if !is_decimal_text(t) || t.contains('.') {
        Err(RowError::MalformedNumber)
    } else if text_units(t) < i8::MIN || text_units(t) > i8::MAX {
        Err(RowError::NumberOutOfRange)
    } else {
        Ok(text_units(t) as i8)
    }
}

/// Whether the text has a point.
fn has_point(text: &str) -> (r: bool)
    ensures
        r == text@.contains('.'),
{
    let n = text.unicode_len();
    let mut i: usize = 0;
    while i < n
        invariant
            i <= n,
            n == text@.len(),
            forall|j: int| 0 <= j < i ==> text@[j] != '.',
        decreases n - i,
    {
        if text.get_char(i) == '.' {
            return true;
        }
        i += 1;
    }
    false
}

/// Reads an integer numeral that fits eight bits: an optional sign and
/// digits, without a point.
pub fn parse_i8(text: &str) -> (r: Result<i8, RowError>)
    ensures
        r == parse_i8_spec(text@),
{
    if has_point(text) {
        return Err(RowError::MalformedNumber);
    }
    match parse_decimal(text) {
        Err(e) => {
            proof {
                if is_decimal_text(text@) {
                    lemma_no_point_no_fraction(text@);
                }
            }
            Err(e)
        },
        Ok(d) => {
            if d.units < -128 || d.units > 127 {
                Err(RowError::NumberOutOfRange)
            } else {
                Ok(d.units as i8)
            }
        },
    }
}

/// A numeral without a point has no digits after the point.
pub proof fn lemma_no_point_no_fraction(t: Seq<char>)
    requires
        is_decimal_text(t),
        !t.contains('.'),
    ensures
        text_scale(t) == 0,
{
    let b = unsigned_part(t);
    let k = leading_digits(b) as int;
    lemma_leading_digits_bound(b);
    if k < b.len() {
        assert(b[k] == '.');
        if has_sign(t) {
            assert(t[k + 1] == b[k]);
        } else {
            assert(t[k] == b[k]);
        }
    }
}

/// The leading digits are no more than the characters.
pub proof fn lemma_leading_digits_bound(b: Seq<char>)
    ensures
        leading_digits(b) <= b.len(),
    decreases b.len(),
{
    if b.len() > 0 && is_digit(b[0]) {
        lemma_leading_digits_bound(b.drop_first());
    }
}

} // verus!
