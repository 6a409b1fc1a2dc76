//! Exact decimal numbers with nine fractional digits, used for every measured
//! quantity: pressures, temperatures, humidities, coordinates and serial day
//! numbers.

use vstd::prelude::*;
use crate::text::{
    chars_of, char_digit_value, char_is_digit, copy_range, digit_char, digit_value, digits_of,
    find_char, first_index_of, is_digit,
};

verus! {

/// How many units of a `Decimal` make one.
pub const SCALE: i64 = 1_000_000_000;

/// The sentinel written into a catalog in place of a value that is not
/// available: minus ninety-nine.
pub const FILL_BILLIONTHS: i64 = -99_000_000_000;

/// A decimal number held exactly as a count of billionths.
#[derive(Clone, Copy, Debug, PartialEq, Eq, Structural)]
pub struct Decimal {
    pub billionths: i64,
}

/// Every character is an ASCII digit.
pub open spec fn all_digits(s: Seq<char>) -> bool {
    forall|i: int| 0 <= i < s.len() ==> is_digit(#[trigger] s[i])
}

/// The number that a string of digits writes.
pub open spec fn whole_value(s: Seq<char>) -> int
    decreases s.len(),
{
    if s.len() == 0 {
        0
    } else {
        whole_value(s.drop_last()) * 10 + digit_value(s.last())
    }
}

/// The number that a string of fractional digits writes, where the first
/// digit counts `weight`, the next a tenth of that, and so on; digits whose
/// weight would drop below one unit are cut off.
pub open spec fn fraction_value(s: Seq<char>, weight: int) -> int
    decreases s.len(),
{
    if s.len() == 0 || weight <= 0 {
        0
    } else {
        digit_value(s[0]) * weight + fraction_value(s.drop_first(), weight / 10)
    }
}

/// The digits before the decimal point.
pub open spec fn whole_digits(s: Seq<char>) -> Seq<char> {
    s.take(first_index_of(s, '.'))
}

/// The digits after the decimal point, if there is one.
pub open spec fn fraction_digits(s: Seq<char>) -> Seq<char> {
    let dot = first_index_of(s, '.');
    if 0 <= dot < s.len() {
        s.skip(dot + 1)
    } else {
        Seq::empty()
    }
}

/// An unsigned decimal numeral: digits, optionally a point and more digits,
/// with at least one digit in all.
pub open spec fn is_numeral(s: Seq<char>) -> bool {
    &&& all_digits(whole_digits(s))
    &&& all_digits(fraction_digits(s))
    &&& whole_digits(s).len() + fraction_digits(s).len() > 0
}

/// The greatest number of places by which an exponent may move the point.
pub const MAX_SHIFT: u64 = 30;

/// The greatest whole part whose billionths may still fit 63 bits.
pub const WHOLE_LIMIT: u64 = 9_223_372_036;

/// Whether a text starts with a sign.
pub open spec fn has_sign(s: Seq<char>) -> bool {
    s.len() > 0 && (s[0] == '-' || s[0] == '+')
}

/// The text after the sign, if any.
pub open spec fn unsigned_part(s: Seq<char>) -> Seq<char> {
    if has_sign(s) {
        s.skip(1)
    } else {
        s
    }
}

/// Where the exponent of a text is marked: at its first `e` or `E`; the
/// length of the text if it holds neither.
pub open spec fn exponent_mark(s: Seq<char>) -> int {
    let lower = first_index_of(s, 'e');
    let upper = first_index_of(s, 'E');
    if lower <= upper {
        lower
    } else {
        upper
    }
}

/// The text before the exponent mark.
pub open spec fn mantissa_part(s: Seq<char>) -> Seq<char> {
    s.take(exponent_mark(s))
}

/// The text after the exponent mark.
pub open spec fn exponent_part(s: Seq<char>) -> Seq<char> {
    if exponent_mark(s) < s.len() {
        s.skip(exponent_mark(s) + 1)
    } else {
        Seq::empty()
    }
}

/// The number of places by which an exponent moves the point to the right:
/// an optional sign and at least one digit, writing at most `MAX_SHIFT`.
/// Anything else is no exponent.
pub open spec fn shift_spec(s: Seq<char>) -> Option<int> {
    let body = unsigned_part(s);
    if body.len() > 0 && all_digits(body) && whole_value(body) <= MAX_SHIFT {
        if has_sign(s) && s[0] == '-' {
            Some(-whole_value(body))
        } else {
            Some(whole_value(body))
        }
    } else {
        None
    }
}

/// The number of places by which the point of a text is moved: none where
/// the text has no exponent.
pub open spec fn shift_of(s: Seq<char>) -> Option<int> {
    if exponent_mark(s) < s.len() {
        shift_spec(exponent_part(s))
    } else {
        Some(0)
    }
}

/// `n` zeros.
pub open spec fn zeros(n: int) -> Seq<char> {
    Seq::new(n as nat, |i: int| '0')
}

/// The digits before the point of a numeral with the digits `whole` before
/// and `frac` after its point, once the point is moved `shift` places to the
/// right (to the left, where `shift` is negative).
pub open spec fn shifted_whole(whole: Seq<char>, frac: Seq<char>, shift: int) -> Seq<char> {
    if shift >= 0 {
        if shift <= frac.len() {
            whole + frac.take(shift)
        } else {
            whole + frac + zeros(shift - frac.len())
        }
    } else if -shift <= whole.len() {
        whole.take(whole.len() + shift)
    } else {
        Seq::empty()
    }
}

/// The digits after the point of that numeral, once the point is moved.
pub open spec fn shifted_fraction(whole: Seq<char>, frac: Seq<char>, shift: int) -> Seq<char> {
    if shift >= 0 {
        if shift <= frac.len() {
            frac.skip(shift)
        } else {
            Seq::empty()
        }
    } else if -shift <= whole.len() {
        whole.skip(whole.len() + shift) + frac
    } else {
        zeros(-shift - whole.len()) + whole + frac
    }
}

/// The value in billionths of an unsigned numeral whose point is moved
/// `shift` places to the right, digits beyond the ninth fractional one cut
/// off.
pub open spec fn numeral_billionths(s: Seq<char>, shift: int) -> int {
    whole_value(shifted_whole(whole_digits(s), fraction_digits(s), shift)) * SCALE
        + fraction_value(shifted_fraction(whole_digits(s), fraction_digits(s), shift), SCALE / 10)
}

/// The number that a signed numeral writes once its point is moved `shift`
/// places to the right: an optional sign and a numeral whose value in
/// billionths fits 63 bits. Anything else writes no number.
pub open spec fn signed_numeral(s: Seq<char>, shift: int) -> Option<Decimal> {
    let body = unsigned_part(s);
    let magnitude = numeral_billionths(body, shift);
    if is_numeral(body) && magnitude <= i64::MAX {
        if has_sign(s) && s[0] == '-' {
            Some(Decimal { billionths: (-magnitude) as i64 })
        } else {
            Some(Decimal { billionths: magnitude as i64 })
        }
    } else {
        None
    }
}

/// The number that a text writes: an optional sign, a numeral and
/// optionally an exponent, an `e` or `E` followed by the power of ten that
/// the numeral is multiplied with. The value in billionths must fit 63 bits.
/// Anything else writes no number; the words for infinity and for
/// not-a-number write none.
pub open spec fn decimal_spec(s: Seq<char>) -> Option<Decimal> {
    match shift_of(s) {
        Some(shift) => signed_numeral(mantissa_part(s), shift),
        None => None,
    }
}

/// Reading the digits that write a number gives the number back.
pub proof fn law_digits_round_trip(n: nat)
    ensures
        all_digits(digits_of(n)),
        whole_value(digits_of(n)) == n,
        digits_of(n).len() >= 1,
    decreases n,
{
    if n < 10 {
        let s = digits_of(n);
        assert(s.drop_last() == Seq::<char>::empty());
        assert(whole_value(s.drop_last()) == 0);
        assert(digit_value(digit_char(n as int)) == n);
    } else {
        law_digits_round_trip(n / 10);
        let head = digits_of(n / 10);
        let s = digits_of(n);
        assert(s.drop_last() == head);
        assert(digit_value(digit_char((n % 10) as int)) == n % 10);
        assert forall|i: int| 0 <= i < s.len() implies is_digit(#[trigger] s[i]) by {
            if i < head.len() {
                assert(s[i] == head[i]);
            }
        }
    }
}

impl Decimal {
    /// The number as a count of billionths.
    pub open spec fn value(&self) -> int {
        self.billionths as int
    }

    /// The whole number `n`.
    pub fn from_whole(n: i32) -> (r: Decimal)
        ensures
            r.value() == n * SCALE,
    {
        Decimal { billionths: n as i64 * SCALE }
    }

    /// The sentinel that stands for a missing value.
    pub fn fill() -> (r: Decimal)
        ensures
            r.billionths == FILL_BILLIONTHS,
    {
        Decimal { billionths: FILL_BILLIONTHS }
    }

    /// Whether the number lies between the whole numbers `low` and `high`,
    /// bounds included.
    pub fn is_within(&self, low: i32, high: i32) -> (r: bool)
        ensures
            r == (low * SCALE <= self.value() <= high * SCALE),
    {
        low as i64 * SCALE <= self.billionths && self.billionths <= high as i64 * SCALE
    }

    /// Reads a number from text; see `decimal_spec` for what is accepted.
    pub fn parse(text: &str) -> (r: Option<Decimal>)
        ensures
            r == decimal_spec(text@),
    {
        let cs = chars_of(text);
        Decimal::parse_chars(cs.as_slice())
    }

    /// Reads a number from characters; see `decimal_spec` for what is
    /// accepted.
    pub fn parse_chars(cs: &[char]) -> (r: Option<Decimal>)
        ensures
            r == decimal_spec(cs@),
    {
        let n = cs.len();
        let lower = find_char(cs, 0, 'e');
        let upper = find_char(cs, 0, 'E');
        let mark = if lower <= upper {
            lower
        } else {
            upper
        };
        assert(cs@.skip(0) == cs@);
        assert(mark == exponent_mark(cs@));
        let shift: i64 = if mark < n {
            match read_shift(cs, mark + 1) {
                Some(shift) => shift,
                None => {
                    return None;
                },
            }
        } else {
            0
        };
        let mantissa = copy_range(cs, 0, mark);
        assert(mantissa@ == mantissa_part(cs@));
        read_numeral(mantissa.as_slice(), shift)
    }
}

/// Reads a signed numeral whose point is moved `shift` places to the right;
/// see `signed_numeral`.
pub fn read_numeral(cs: &[char], shift: i64) -> (r: Option<Decimal>)
    requires
        -MAX_SHIFT <= shift <= MAX_SHIFT,
    ensures
        r == signed_numeral(cs@, shift as int),
{
    let n = cs.len();
    let signed = n > 0 && (cs[0] == '-' || cs[0] == '+');
    let negative = signed && cs[0] == '-';
    let start: usize = if signed {
        1
    } else {
        0
    };
    let ghost body = unsigned_part(cs@);
    assert(body == cs@.skip(start as int));
    let dot = find_char(cs, start, '.');
    let whole = copy_range(cs, start, dot);
    let frac = if dot < n {
        copy_range(cs, dot + 1, n)
    } else {
        Vec::new()
    };
    assert(whole@ == whole_digits(body));
    assert(frac@ == fraction_digits(body));
    if !digits_only(whole.as_slice()) || !digits_only(frac.as_slice()) || whole.len() + frac.len()
        == 0 {
        return None;
    }
    assert(is_numeral(body));
    let (before, after) = shift_digits(whole.as_slice(), frac.as_slice(), shift);
    let ghost magnitude = numeral_billionths(body, shift as int);
    assert(magnitude == whole_value(before@) * SCALE + fraction_value(after@, SCALE / 10));
    let parts = read_fraction(after.as_slice());
    let units = match read_whole(before.as_slice()) {
        Some(units) => units,
        None => {
            assert(whole_value(before@) * SCALE > WHOLE_LIMIT * SCALE) by (nonlinear_arith)
                requires
                    whole_value(before@) > WHOLE_LIMIT,
            ;
            return None;
        },
    };
    assert(units * SCALE <= WHOLE_LIMIT * SCALE) by (nonlinear_arith)
        requires
            units <= WHOLE_LIMIT,
    ;
    let total: u64 = units * 1_000_000_000 + parts;
    assert(total == magnitude);
    if total > 9_223_372_036_854_775_807 {
        return None;
    }
    if negative {
        Some(Decimal { billionths: -(total as i64) })
    } else {
        Some(Decimal { billionths: total as i64 })
    }
}

/// Whether every character is an ASCII digit.
pub fn digits_only(cs: &[char]) -> (r: bool)
    ensures
        r == all_digits(cs@),
{
    let mut i: usize = 0;
    while i < cs.len()
        invariant
            i <= cs.len(),
            forall|j: int| 0 <= j < i ==> is_digit(#[trigger] cs@[j]),
        decreases cs.len() - i,
    {
        if !char_is_digit(cs[i]) {
            assert(!is_digit(cs@[i as int]));
            return false;
        }
        i += 1;
    }
    true
}

/// The digits that begin a string of digits write no greater number than
/// the whole string.
proof fn lemma_prefix_is_not_greater(s: Seq<char>, k: int)
    requires
        all_digits(s),
        0 <= k <= s.len(),
    ensures
        0 <= whole_value(s.take(k)) <= whole_value(s),
    decreases s.len(),
{
    if s.len() == 0 {
        assert(s.take(k) == s);
    } else {
        let head = s.drop_last();
        assert forall|j: int| 0 <= j < head.len() implies is_digit(#[trigger] head[j]) by {
            assert(head[j] == s[j]);
        }
        assert(is_digit(s[s.len() - 1]));
        if k == s.len() {
            lemma_prefix_is_not_greater(head, head.len() as int);
            assert(s.take(k) == s);
        } else {
            lemma_prefix_is_not_greater(head, k);
            assert(head.take(k) == s.take(k));
        }
    }
}

/// The number that a string of digits writes, unless it is greater than
/// `WHOLE_LIMIT`.
pub fn read_whole(cs: &[char]) -> (r: Option<u64>)
    requires
        all_digits(cs@),
    ensures
        match r {
            Some(v) => v == whole_value(cs@) && v <= WHOLE_LIMIT,
            None => whole_value(cs@) > WHOLE_LIMIT,
        },
{
    let mut acc: u64 = 0;
    let mut i: usize = 0;
    while i < cs.len()
        invariant
            i <= cs.len(),
            all_digits(cs@),
            acc == whole_value(cs@.take(i as int)),
            acc <= WHOLE_LIMIT,
        decreases cs.len() - i,
    {
        let ghost next = cs@.take(i + 1);
        assert(next.drop_last() == cs@.take(i as int));
        assert(next.last() == cs@[i as int]);
        assert(is_digit(cs@[i as int]));
        acc = acc * 10 + char_digit_value(cs[i]) as u64;
        if acc > WHOLE_LIMIT {
            proof {
                lemma_prefix_is_not_greater(cs@, i + 1);
            }
            return None;
        }
        i += 1;
    }
    assert(cs@.take(cs.len() as int) == cs@);
    Some(acc)
}

/// The number of billionths that a string of fractional digits writes,
/// digits beyond the ninth cut off.
pub fn read_fraction(cs: &[char]) -> (r: u64)
    requires
        all_digits(cs@),
    ensures
        r == fraction_value(cs@, SCALE / 10),
        r < SCALE,
{
    let mut acc: u64 = 0;
    let mut weight: u64 = 100_000_000;
    let mut k: usize = 0;
    assert(cs@.skip(0) == cs@);
    while k < cs.len() && weight > 0
        invariant
            k <= cs.len(),
            all_digits(cs@),
            weight <= 100_000_000,
            fraction_value(cs@, SCALE / 10) == acc + fraction_value(
                cs@.skip(k as int),
                weight as int,
            ),
            acc + 10 * weight <= SCALE,
            acc < SCALE,
        decreases cs.len() - k,
    {
        let ghost rest = cs@.skip(k as int);
        assert(rest[0] == cs@[k as int]);
        assert(rest.drop_first() == cs@.skip(k + 1));
        assert(is_digit(cs@[k as int]));
        let d = char_digit_value(cs[k]) as u64;
        assert(d * weight <= 9 * weight) by (nonlinear_arith)
            requires
                d <= 9,
        ;
        acc = acc + d * weight;
        weight = weight / 10;
        k += 1;
    }
    acc
}

/// Reads the exponent that stands in `cs` from `from` on; see `shift_spec`.
pub fn read_shift(cs: &[char], from: usize) -> (r: Option<i64>)
    requires
        from <= cs.len(),
    ensures
        match r {
            Some(shift) => shift_spec(cs@.skip(from as int)) == Some(shift as int) && -MAX_SHIFT
                <= shift <= MAX_SHIFT,
            None => shift_spec(cs@.skip(from as int)) is None,
        },
{
    let n = cs.len();
    let ghost text = cs@.skip(from as int);
    let signed = from < n && (cs[from] == '-' || cs[from] == '+');
    let negative = signed && cs[from] == '-';
    let start: usize = if signed {
        from + 1
    } else {
        from
    };
    let digits = copy_range(cs, start, n);
    assert(digits@ == unsigned_part(text));
    if digits.len() == 0 || !digits_only(digits.as_slice()) {
        return None;
    }
    match read_whole(digits.as_slice()) {
        Some(v) => if v > MAX_SHIFT {
            None
        } else if negative {
            Some(-(v as i64))
        } else {
            Some(v as i64)
        },
        None => None,
    }
}

/// Adds the characters `cs[from..to]` to the end of `v`.
fn push_range(v: &mut Vec<char>, cs: &[char], from: usize, to: usize)
    requires
        from <= to <= cs.len(),
    ensures
        final(v)@ == old(v)@ + cs@.subrange(from as int, to as int),
{
    let mut i = from;
    while i < to
        invariant
            from <= i <= to <= cs.len(),
            v@ == old(v)@ + cs@.subrange(from as int, i as int),
        decreases to - i,
    {
        v.push(cs[i]);
        assert(cs@.subrange(from as int, i + 1) == cs@.subrange(from as int, i as int).push(
            cs@[i as int],
        ));
        i += 1;
    }
}

/// Adds `count` zeros to the end of `v`.
fn push_zeros(v: &mut Vec<char>, count: usize)
    ensures
        final(v)@ == old(v)@ + zeros(count as int),
{
    let mut i: usize = 0;
    while i < count
        invariant
            i <= count,
            v@ == old(v)@ + zeros(i as int),
        decreases count - i,
    {
        v.push('0');
        assert(zeros(i + 1) == zeros(i as int).push('0'));
        i += 1;
    }
}

/// Moves the point of a numeral: the digits before and after the point,
/// once it is moved `shift` places to the right.
pub fn shift_digits(whole: &[char], frac: &[char], shift: i64) -> (r: (Vec<char>, Vec<char>))
    requires
        all_digits(whole@),
        all_digits(frac@),
        -MAX_SHIFT <= shift <= MAX_SHIFT,
    ensures
        r.0@ == shifted_whole(whole@, frac@, shift as int),
        r.1@ == shifted_fraction(whole@, frac@, shift as int),
        all_digits(r.0@),
        all_digits(r.1@),
{
    let mut before: Vec<char> = Vec::new();
    let mut after: Vec<char> = Vec::new();
    if shift >= 0 {
        let places = shift as usize;
        push_range(&mut before, whole, 0, whole.len());
        if places <= frac.len() {
            push_range(&mut before, frac, 0, places);
            push_range(&mut after, frac, places, frac.len());
        } else {
            push_range(&mut before, frac, 0, frac.len());
            push_zeros(&mut before, places - frac.len());
        }
    } else {
        let places = (-shift) as usize;
        if places <= whole.len() {
            push_range(&mut before, whole, 0, whole.len() - places);
            push_range(&mut after, whole, whole.len() - places, whole.len());
        } else {
            push_zeros(&mut after, places - whole.len());
            push_range(&mut after, whole, 0, whole.len());
        }
        push_range(&mut after, frac, 0, frac.len());
    }
    assert(whole@.subrange(0, whole.len() as int) == whole@);
    assert(frac@.subrange(0, frac.len() as int) == frac@);
    assert(before@ =~= shifted_whole(whole@, frac@, shift as int));
    assert(after@ =~= shifted_fraction(whole@, frac@, shift as int));
    (before, after)
}

} // verus!
