//! Prices and quantities as exact fixed-point decimals.
//!
//! A value is an `i64` count of units of 10⁻⁸: the text `"30100.10"` is
//! `3_010_010_000_000`. A numeral is an optional sign, decimal digits, and at
//! most one point, with at least one digit on either side of it. Fractional
//! digits after the eighth are read and dropped. A text that is no numeral, or
//! whose magnitude does not fit, has no value, and `decimal_or_zero` reads it
//! as zero.
use vstd::prelude::*;
use vstd::string::*;

verus! {

/// Units in one whole.
pub const SCALE: i64 = 100_000_000;

/// The largest whole part whose scaled value can still fit an `i64`.
pub const WHOLE_LIMIT: u64 = 92_233_720_368;

/// `c` is one of `0` to `9`.
pub open spec fn is_digit(c: char) -> bool {
    '0' <= c && c <= '9'
}

/// The number that a digit writes.
pub open spec fn digit_of(c: char) -> nat {
    (c as int - 48) as nat
}

/// The number that a run of digits writes, most significant digit first.
pub open spec fn digits_value(s: Seq<char>) -> nat
    decreases s.len(),
{
    if s.len() == 0 {
        0
    } else {
        digits_value(s.drop_last()) * 10 + digit_of(s.last())
    }
}

/// Units that one step of the fractional digit at position `k` is worth:
/// 10⁷ for the first, a tenth of the one before it afterwards, and nothing
/// from the ninth on.
pub open spec fn place_weight(k: nat) -> nat
    decreases k,
{
    if k == 0 {
        10_000_000
    } else {
        place_weight((k - 1) as nat) / 10
    }
}

/// Units that a run of fractional digits is worth.
pub open spec fn fraction_units(s: Seq<char>) -> nat
    decreases s.len(),
{
    if s.len() == 0 {
        0
    } else {
        fraction_units(s.drop_last()) + digit_of(s.last()) * place_weight((s.len() - 1) as nat)
    }
}

/// Every character of `s` is a digit.
pub open spec fn all_digits(s: Seq<char>) -> bool {
    forall|i: int| 0 <= i < s.len() ==> is_digit(#[trigger] s[i])
}

/// How many characters the sign takes: one for a leading `+` or `-`.
pub open spec fn sign_len(s: Seq<char>) -> int {
    if s.len() > 0 && (s[0] == '+' || s[0] == '-') {
        1
    } else {
        0
    }
}

/// The text starts with `-`.
pub open spec fn is_negative(s: Seq<char>) -> bool {
    s.len() > 0 && s[0] == '-'
}

/// Index of the first point in `s`, or `s.len()` where there is none.
pub open spec fn first_point(s: Seq<char>) -> int
    decreases s.len(),
{
    if s.len() == 0 || s[0] == '.' {
        0
    } else {
        1 + first_point(s.skip(1))
    }
}

/// What stands between the sign and the first point.
pub open spec fn whole_digits(s: Seq<char>) -> Seq<char> {
    let body = s.skip(sign_len(s));
    body.take(first_point(body))
}

/// What stands after the first point.
pub open spec fn fraction_digits(s: Seq<char>) -> Seq<char> {
    let body = s.skip(sign_len(s));
    let p = first_point(body);
    if p < body.len() {
        body.skip(p + 1)
    } else {
        Seq::empty()
    }
}

/// The text is a numeral: between sign and point, and after the point,
/// nothing but digits, and at least one digit in all.
pub open spec fn is_numeral(s: Seq<char>) -> bool {
    &&& all_digits(whole_digits(s))
    &&& all_digits(fraction_digits(s))
    &&& whole_digits(s).len() + fraction_digits(s).len() > 0
}

/// The absolute value of a numeral, in units.
pub open spec fn magnitude(s: Seq<char>) -> nat {
    digits_value(whole_digits(s)) * 100_000_000 + fraction_units(fraction_digits(s))
}

/// The value of a text in units, where it has one.
pub open spec fn decimal_value(s: Seq<char>) -> Option<int> {
    if is_numeral(s) && magnitude(s) <= i64::MAX {
        Some(
            if is_negative(s) {
                -(magnitude(s) as int)
            } else {
                magnitude(s) as int
            },
        )
    } else {
        None
    }
}

/// The value of a text in units, with zero for a text that has none.
pub open spec fn value_or_zero(s: Seq<char>) -> int {
    match decimal_value(s) {
        Some(v) => v,
        None => 0,
    }
}

/// `bytes` is `text`, character by character.
spec fn mirrors(bytes: Seq<u8>, text: Seq<char>) -> bool {
    &&& bytes.len() == text.len()
    &&& forall|k: int| 0 <= k < text.len() ==> (#[trigger] bytes[k]) as int == text[k] as int
}

/// `first_point` stays inside the text, stops on a point, and passes none.
proof fn lemma_first_point_bounds(s: Seq<char>)
    ensures
        0 <= first_point(s) <= s.len(),
        first_point(s) < s.len() ==> s[first_point(s)] == '.',
        forall|j: int| 0 <= j < first_point(s) ==> s[j] != '.',
    decreases s.len(),
{
    if s.len() == 0 || s[0] == '.' {
    } else {
        let rest = s.skip(1);
        lemma_first_point_bounds(rest);
        assert forall|j: int| 0 <= j < first_point(s) implies s[j] != '.' by {
            if j > 0 {
                assert(s[j] == rest[j - 1]);
            }
        }
    }
}

/// The first point is at `k` where `k` is a point, or the end, and no point
/// stands before it.
proof fn lemma_first_point_is(s: Seq<char>, k: int)
    requires
        0 <= k <= s.len(),
        forall|j: int| 0 <= j < k ==> s[j] != '.',
        k < s.len() ==> s[k] == '.',
    ensures
        first_point(s) == k,
{
    lemma_first_point_bounds(s);
    let p = first_point(s);
    if p < k {
        assert(s[p] != '.');
    } else if p > k {
        assert(s[k] != '.');
    }
}

/// Every character of a numeral is a sign, a digit or a point.
pub proof fn lemma_numeral_is_ascii(s: Seq<char>)
    requires
        is_numeral(s),
    ensures
        vstd::utf8::is_ascii_chars(s),
{
    let body = s.skip(sign_len(s));
    let p = first_point(body);
    lemma_first_point_bounds(body);
    assert forall|i: int| 0 <= i < s.len() implies '\0' <= #[trigger] s[i] <= '\u{7f}' by {
        if i >= sign_len(s) {
            let j = i - sign_len(s);
            assert(body[j] == s[i]);
            if j < p {
                assert(whole_digits(s)[j] == body[j]);
            } else if j > p {
                assert(fraction_digits(s)[j - p - 1] == body[j]);
            }
        }
    }
}

/// `b` is the code of one of `0` to `9`.
fn is_digit_byte(b: u8) -> (r: bool)
    ensures
        r == (48 <= b && b <= 57),
{
    48 <= b && b <= 57
}

/// Reads the digits that start at `start` and returns where they end, the
/// number they write, and whether that number is over `WHOLE_LIMIT` (the
/// number returned is meaningless where it is).
fn scan_whole(bytes: &[u8], start: usize, Ghost(text): Ghost<Seq<char>>) -> (r: (
    usize,
    u64,
    bool,
))
    requires
        mirrors(bytes@, text),
        start <= bytes@.len(),
    ensures
        start <= r.0 <= bytes@.len(),
        all_digits(text.subrange(start as int, r.0 as int)),
        r.0 < bytes@.len() ==> !is_digit(text[r.0 as int]),
        r.2 == (digits_value(text.subrange(start as int, r.0 as int)) > WHOLE_LIMIT),
        !r.2 ==> r.1 == digits_value(text.subrange(start as int, r.0 as int)),
{
    let n: usize = bytes.len();
    let mut i: usize = start;
    let mut whole: u64 = 0;
    let mut too_big: bool = false;
    while i < n && is_digit_byte(bytes[i])
        invariant
            mirrors(bytes@, text),
            n == bytes@.len(),
            start <= i <= n,
            all_digits(text.subrange(start as int, i as int)),
            whole <= WHOLE_LIMIT,
            too_big == (digits_value(text.subrange(start as int, i as int)) > WHOLE_LIMIT),
            !too_big ==> whole == digits_value(text.subrange(start as int, i as int)),
        decreases n - i,
    {
        let d: u64 = (bytes[i] - 48) as u64;
        proof {
            let longer = text.subrange(start as int, i + 1);
            assert(longer.drop_last() =~= text.subrange(start as int, i as int));
            assert(longer.last() == text[i as int]);
            assert(bytes@[i as int] as int == text[i as int] as int);
            assert(d == digit_of(text[i as int]));
            assert(all_digits(longer)) by {
                assert forall|k: int| 0 <= k < longer.len() implies is_digit(
                    #[trigger] longer[k],
                ) by {
                    if k < longer.len() - 1 {
                        assert(longer[k] == text.subrange(start as int, i as int)[k]);
                    }
                }
            }
        }
        if !too_big {
            let next: u64 = whole * 10 + d;
            if next > WHOLE_LIMIT {
                too_big = true;
            } else {
                whole = next;
            }
        }
        i += 1;
    }
    proof {
        if i < n {
            assert(bytes@[i as int] as int == text[i as int] as int);
        }
    }
    (i, whole, too_big)
}

/// Reads the fractional digits that start at `start` and returns where they
/// end and the units they are worth.
fn scan_fraction(bytes: &[u8], start: usize, Ghost(text): Ghost<Seq<char>>) -> (r: (usize, u64))
    requires
        mirrors(bytes@, text),
        start <= bytes@.len(),
    ensures
        start <= r.0 <= bytes@.len(),
        all_digits(text.subrange(start as int, r.0 as int)),
        r.0 < bytes@.len() ==> !is_digit(text[r.0 as int]),
        r.1 == fraction_units(text.subrange(start as int, r.0 as int)),
        r.1 < 100_000_000,
{
    let n: usize = bytes.len();
    let mut i: usize = start;
    let mut units: u64 = 0;
    let mut weight: u64 = 10_000_000;
    while i < n && is_digit_byte(bytes[i])
        invariant
            mirrors(bytes@, text),
            n == bytes@.len(),
            start <= i <= n,
            all_digits(text.subrange(start as int, i as int)),
            weight == place_weight((i - start) as nat),
            units == fraction_units(text.subrange(start as int, i as int)),
            units + 10 * weight <= 100_000_000,
            weight == 0 ==> units < 100_000_000,
        decreases n - i,
    {
        let d: u64 = (bytes[i] - 48) as u64;
        proof {
            let longer = text.subrange(start as int, i + 1);
            assert(longer.drop_last() =~= text.subrange(start as int, i as int));
            assert(longer.last() == text[i as int]);
            assert(bytes@[i as int] as int == text[i as int] as int);
            assert(d == digit_of(text[i as int]));
            assert(all_digits(longer)) by {
                assert forall|k: int| 0 <= k < longer.len() implies is_digit(
                    #[trigger] longer[k],
                ) by {
                    if k < longer.len() - 1 {
                        assert(longer[k] == text.subrange(start as int, i as int)[k]);
                    }
                }
            }
            assert(d * weight <= 9 * weight) by (nonlinear_arith)
                requires
                    d <= 9,
            ;
        }
        units = units + d * weight;
        weight = weight / 10;
        i += 1;
    }
    proof {
        if i < n {
            assert(bytes@[i as int] as int == text[i as int] as int);
        }
    }
    (i, units)
}

/// Reads a text as a decimal numeral and returns its value in units of 10⁻⁸,
/// or `None` where the text is no numeral or its magnitude is over
/// `i64::MAX` units.
pub fn parse_decimal(s: &str) -> (r: Option<i64>)
    ensures
        match r {
            Some(v) => decimal_value(s@) == Some(v as int),
            None => decimal_value(s@) is None,
        },
{
    if !s.is_ascii() {
        proof {
            if is_numeral(s@) {
                lemma_numeral_is_ascii(s@);
            }
        }
        return None;
    }
    let bytes = s.as_bytes();
    let n: usize = bytes.len();
    let ghost text = s@;
    proof {
        is_ascii_spec_bytes(s);
        assert(mirrors(bytes@, text)) by {
            assert forall|k: int| 0 <= k < text.len() implies (#[trigger] bytes@[k]) as int
                == text[k] as int by {
                assert('\0' <= text[k] <= '\u{7f}');
            }
        }
    }
    let signed: bool = n > 0 && (bytes[0] == 43 || bytes[0] == 45);
    let negative: bool = n > 0 && bytes[0] == 45;
    let start: usize = if signed {
        1
    } else {
        0
    };
    proof {
        if n > 0 {
            assert(bytes@[0] as int == text[0] as int);
        }
        assert(start == sign_len(text));
        assert(negative == is_negative(text));
    }
    let ghost body = text.skip(start as int);
    let (mid, whole, too_big) = scan_whole(bytes, start, Ghost(text));
    let pointed: bool = mid < n && bytes[mid] == 46;
    let (end, units) = if pointed {
        scan_fraction(bytes, mid + 1, Ghost(text))
    } else {
        (mid, 0)
    };
    proof {
        lemma_first_point_bounds(body);
        let j = mid - start;
        assert forall|k: int| 0 <= k < j implies body[k] != '.' by {
            assert(body[k] == text.subrange(start as int, mid as int)[k]);
        }
        if mid < n {
            assert(bytes@[mid as int] as int == text[mid as int] as int);
            assert(body[j] == text[mid as int]);
        }
        if pointed || mid == n {
            lemma_first_point_is(body, j);
            assert(whole_digits(text) =~= text.subrange(start as int, mid as int));
        }
        if pointed {
            assert(body.skip(j + 1) =~= text.skip(mid + 1));
        }
    }
    if end < n {
        proof {
            if pointed {
                let frac = fraction_digits(text);
                assert(frac[end - mid - 1] == text[end as int]);
            } else {
                let p = first_point(body);
                let j = mid - start;
                if p < j {
                    assert(body[p] != '.');
                }
                assert(p > j);
                assert(whole_digits(text)[j] == text[mid as int]);
            }
        }
        return None;
    }
    proof {
        if pointed {
            assert(fraction_digits(text) =~= text.subrange(mid + 1, end as int));
        } else {
            assert(fraction_digits(text) =~= Seq::<char>::empty());
        }
    }
    let digits: usize = if pointed {
        end - start - 1
    } else {
        end - start
    };
    if digits == 0 || too_big {
        return None;
    }
    let total: u64 = whole * 100_000_000 + units;
    if total > 9_223_372_036_854_775_807 {
        return None;
    }
    if negative {
        Some(-(total as i64))
    } else {
        Some(total as i64)
    }
}

/// Reads a text as a decimal numeral, with zero for a text that is none.
pub fn decimal_or_zero(s: &str) -> (r: i64)
    ensures
        r == value_or_zero(s@),
{
    match parse_decimal(s) {
        Some(v) => v,
        None => 0,
    }
}

} // verus!
