//! The stored form of the high score: seconds in decimal notation.
//!
//! A score of 42 500 000 microseconds is stored as the text `42.5`. The text
//! is a run of digits, optionally followed by a point and more digits. Six
//! digits after the point reach the microsecond; further digits are read
//! over and do not count. Anything else is not a score.

use vstd::prelude::*;

verus! {

/// The byte `.`.
pub const POINT: u8 = 46;

/// The byte `0`.
pub const ZERO: u8 = 48;

/// Most digits after the point that count: one for each decimal place of a
/// microsecond count.
pub const MAX_FRACTION_DIGITS: usize = 6;

/// Whether `byte` is one of `0` to `9`.
pub open spec fn is_digit(byte: u8) -> bool {
    48 <= byte <= 57
}

/// Whether `text` holds digits only.
pub open spec fn all_digits(text: Seq<u8>) -> bool {
    forall|i: int| 0 <= i < text.len() ==> is_digit(#[trigger] text[i])
}

/// The number that a run of digits denotes; the empty run denotes zero.
pub open spec fn decimal_value(digits: Seq<u8>) -> nat
    decreases digits.len(),
{
    if digits.len() == 0 {
        0
    } else {
        (decimal_value(digits.drop_last()) * 10 + (digits.last() - 48)) as nat
    }
}

/// Microseconds in one unit of the last of `fraction_len` decimal places.
pub open spec fn place_scale(fraction_len: int) -> nat {
    if fraction_len <= 0 {
        1_000_000
    } else if fraction_len == 1 {
        100_000
    } else if fraction_len == 2 {
        10_000
    } else if fraction_len == 3 {
        1_000
    } else if fraction_len == 4 {
        100
    } else if fraction_len == 5 {
        10
    } else {
        1
    }
}

/// The digits after the point when the whole part of `text` is
/// `whole_len` bytes long.
pub open spec fn fraction_of(text: Seq<u8>, whole_len: int) -> Seq<u8> {
    if whole_len < text.len() {
        text.skip(whole_len + 1)
    } else {
        Seq::empty()
    }
}

/// The digits after the point that count: the first six, or all of them
/// where there are fewer.
pub open spec fn counted_fraction(text: Seq<u8>, whole_len: int) -> Seq<u8> {
    let fraction = fraction_of(text, whole_len);
    if fraction.len() > MAX_FRACTION_DIGITS {
        fraction.take(MAX_FRACTION_DIGITS as int)
    } else {
        fraction
    }
}

/// Whether `text` is a score whose whole part is its first `whole_len`
/// bytes: at least one digit, then either nothing, or a point and at least
/// one digit.
pub open spec fn is_score_text(text: Seq<u8>, whole_len: int) -> bool {
    &&& 1 <= whole_len <= text.len()
    &&& all_digits(text.take(whole_len))
    &&& whole_len < text.len() ==> {
        &&& text[whole_len] == POINT
        &&& 1 <= text.len() - whole_len - 1
        &&& all_digits(text.skip(whole_len + 1))
    }
}

/// The microseconds that a score text denotes: its whole part and the digits
/// after the point that count, read as one number, in units of the last
/// decimal place that counts.
pub open spec fn text_value(text: Seq<u8>, whole_len: int) -> nat {
    decimal_value(text.take(whole_len) + counted_fraction(text, whole_len)) * place_scale(
        counted_fraction(text, whole_len).len() as int,
    )
}

/// Whether `text` denotes a score that fits the counter.
pub open spec fn is_valid_score(text: Seq<u8>, whole_len: int) -> bool {
    is_score_text(text, whole_len) && text_value(text, whole_len) <= u64::MAX
}

/// The score that `text` denotes, if it is a score text and the number fits.
pub open spec fn parse_score(text: Seq<u8>) -> Option<u64> {
    if exists|whole_len: int| is_valid_score(text, whole_len) {
        Some(text_value(text, choose|whole_len: int| is_valid_score(text, whole_len)) as u64)
    } else {
        None
    }
}

/// A score text splits in one way only.
pub proof fn lemma_split_is_unique(text: Seq<u8>, first: int, second: int)
    requires
        is_score_text(text, first),
        is_score_text(text, second),
    ensures
        first == second,
{
    if first < second {
        assert(text.take(second)[first] == text[first]);
    } else if second < first {
        assert(text.take(first)[second] == text[second]);
    }
}

/// What `parse_score` gives for a text with a known split.
pub proof fn lemma_parse_of_split(text: Seq<u8>, whole_len: int)
    requires
        is_score_text(text, whole_len),
    ensures
        parse_score(text) == if text_value(text, whole_len) <= u64::MAX {
            Some(text_value(text, whole_len) as u64)
        } else {
            None::<u64>
        },
{
    if exists|other: int| is_valid_score(text, other) {
        let other = choose|other: int| is_valid_score(text, other);
        lemma_split_is_unique(text, whole_len, other);
    }
    if text_value(text, whole_len) <= u64::MAX {
        assert(is_valid_score(text, whole_len));
    }
}

/// Digits beyond the sixth after the point do not count: a score text that
/// already has six of them denotes the same score with one more digit at
/// its end.
pub proof fn lemma_further_digits_are_cut(text: Seq<u8>, whole_len: int, digit: u8)
    requires
        is_score_text(text, whole_len),
        text.len() - whole_len - 1 >= MAX_FRACTION_DIGITS,
        is_digit(digit),
    ensures
        is_score_text(text.push(digit), whole_len),
        text_value(text.push(digit), whole_len) == text_value(text, whole_len),
        parse_score(text.push(digit)) == parse_score(text),
{
    let longer = text.push(digit);
    assert(longer.take(whole_len) =~= text.take(whole_len));
    assert(longer.skip(whole_len + 1) =~= text.skip(whole_len + 1).push(digit));
    assert(counted_fraction(longer, whole_len) =~= counted_fraction(text, whole_len));
    lemma_parse_of_split(text, whole_len);
    lemma_parse_of_split(longer, whole_len);
}

/// Reading more digits never gives a smaller number.
pub proof fn lemma_value_grows_with_digits(digits: Seq<u8>, count: int)
    requires
        all_digits(digits),
        0 <= count <= digits.len(),
    ensures
        decimal_value(digits.take(count)) <= decimal_value(digits),
    decreases digits.len() - count,
{
    if count == digits.len() {
        assert(digits.take(count) =~= digits);
    } else {
        lemma_value_grows_with_digits(digits, count + 1);
        assert(digits.take(count + 1).drop_last() =~= digits.take(count));
        assert(is_digit(digits[count]));
        assert(digits.take(count + 1).last() == digits[count]);
    }
}

/// Reads a run of digits as a number, or gives `None` when the number does
/// not fit the counter.
pub fn digits_value(digits: &Vec<u8>) -> (value: Option<u64>)
    requires
        all_digits(digits@),
    ensures
        value == if decimal_value(digits@) <= u64::MAX {
            Some(decimal_value(digits@) as u64)
        } else {
            None::<u64>
        },
{
    let mut total: u64 = 0;
    let mut i: usize = 0;
    assert(digits@.take(0) =~= Seq::<u8>::empty());
    while i < digits.len()
        invariant
            i <= digits.len(),
            all_digits(digits@),
            total == decimal_value(digits@.take(i as int)),
        decreases digits.len() - i,
    {
        let digit: u64 = (digits[i] - ZERO) as u64;
        proof {
            assert(is_digit(digits@[i as int]));
            assert(digits@.take(i + 1).drop_last() =~= digits@.take(i as int));
            assert(digits@.take(i + 1).last() == digits@[i as int]);
            lemma_value_grows_with_digits(digits@, i + 1);
        }
        if total > (u64::MAX - digit) / 10 {
            return None;
        }
        total = total * 10 + digit;
        i += 1;
    }
    assert(digits@.take(digits.len() as int) =~= digits@);
    Some(total)
}

/// Microseconds in one unit of the last of `fraction_len` decimal places.
fn scale_of(fraction_len: usize) -> (scale: u64)
    requires
        fraction_len <= MAX_FRACTION_DIGITS,
    ensures
        scale == place_scale(fraction_len as int),
{
    if fraction_len == 0 {
        1_000_000
    } else if fraction_len == 1 {
        100_000
    } else if fraction_len == 2 {
        10_000
    } else if fraction_len == 3 {
        1_000
    } else if fraction_len == 4 {
        100
    } else if fraction_len == 5 {
        10
    } else {
        1
    }
}

/// Reads a stored score, to the microsecond. Gives `None` for a text that
/// is not a score, or whose number does not fit the counter.
pub fn decode_score(text: &[u8]) -> (score: Option<u64>)
    ensures
        score == parse_score(text@),
{
    let len = text.len();
    let mut digits: Vec<u8> = Vec::new();
    let mut whole_len: usize = 0;
    assert(text@.take(0) =~= Seq::<u8>::empty());
    while whole_len < len && ZERO <= text[whole_len] && text[whole_len] <= 57
        invariant
            whole_len <= len,
            len == text@.len(),
            digits@ == text@.take(whole_len as int),
            all_digits(digits@),
        decreases len - whole_len,
    {
        digits.push(text[whole_len]);
        assert(text@.take(whole_len + 1) =~= text@.take(whole_len as int).push(
            text@[whole_len as int],
        ));
        whole_len += 1;
    }
    let mut fraction_len: usize = 0;
    if whole_len == 0 {
        proof {
            lemma_no_score_without_leading_digit(text@);
        }
        return None;
    }
    if whole_len < len {
        let given: usize = len - whole_len - 1;
        if text[whole_len] != POINT || given < 1 {
            proof {
                lemma_no_score_with_other_split(text@, whole_len as int);
            }
            return None;
        }
        let ghost fraction = text@.skip(whole_len + 1);
        let mut j: usize = 0;
        assert(fraction.take(0) =~= Seq::<u8>::empty());
        while j < given
            invariant
                j <= given,
                given == len - whole_len - 1,
                whole_len < len,
                len == text@.len(),
                fraction == text@.skip(whole_len + 1),
                fraction_len <= MAX_FRACTION_DIGITS,
                fraction_len == if j <= MAX_FRACTION_DIGITS {
                    j
                } else {
                    MAX_FRACTION_DIGITS
                },
                all_digits(digits@),
                all_digits(text@.take(whole_len as int)),
                !is_digit(text@[whole_len as int]),
                forall|i: int| 0 <= i < j ==> is_digit(#[trigger] fraction[i]),
                digits@ == text@.take(whole_len as int) + fraction.take(fraction_len as int),
            decreases given - j,
        {
            let byte = text[whole_len + 1 + j];
            if byte < ZERO || byte > 57 {
                proof {
                    assert(fraction[j as int] == byte);
                    lemma_no_score_with_other_split(text@, whole_len as int);
                }
                return None;
            }
            assert(fraction[j as int] == byte);
            if j < MAX_FRACTION_DIGITS {
                digits.push(byte);
                assert(fraction.take(j + 1) =~= fraction.take(j as int).push(byte));
                fraction_len += 1;
            }
            j += 1;
        }
        proof {
            assert(all_digits(fraction));
            if given <= MAX_FRACTION_DIGITS {
                assert(fraction.take(fraction_len as int) =~= fraction);
            }
            assert(counted_fraction(text@, whole_len as int) == fraction.take(
                fraction_len as int,
            ));
        }
    }
    proof {
        assert(digits@ == text@.take(whole_len as int) + counted_fraction(
            text@,
            whole_len as int,
        )) by {
            if whole_len == len {
                assert(digits@ =~= text@.take(whole_len as int) + Seq::<u8>::empty());
            }
        }
        assert(counted_fraction(text@, whole_len as int).len() == fraction_len);
        assert(is_score_text(text@, whole_len as int));
        lemma_parse_of_split(text@, whole_len as int);
    }
    let scale = scale_of(fraction_len);
    match digits_value(&digits) {
        None => {
            proof {
                assert(text_value(text@, whole_len as int) >= decimal_value(digits@))
                    by (nonlinear_arith)
                    requires
                        text_value(text@, whole_len as int) == decimal_value(digits@) * scale,
                        scale >= 1,
                ;
            }
            None
        },
        Some(value) => {
            if value > u64::MAX / scale {
                proof {
                    assert(value * scale > u64::MAX) by (nonlinear_arith)
                        requires
                            value > u64::MAX / scale,
                            scale >= 1,
                    ;
                }
                None
            } else {
                proof {
                    assert(value * scale <= u64::MAX) by (nonlinear_arith)
                        requires
                            value <= u64::MAX / scale,
                            scale >= 1,
                    ;
                }
                Some(value * scale)
            }
        },
    }
}

/// A text that does not begin with a digit is no score.
proof fn lemma_no_score_without_leading_digit(text: Seq<u8>)
    requires
        text.len() == 0 || !is_digit(text[0]),
    ensures
        parse_score(text) == None::<u64>,
{
    assert forall|k: int| !is_score_text(text, k) by {
        if is_score_text(text, k) {
            assert(text.take(k)[0] == text[0]);
        }
    }
}

/// If the digits at the front of a text end at `whole_len` and the text is
/// not a score with that split, it is no score at all.
proof fn lemma_no_score_with_other_split(text: Seq<u8>, whole_len: int)
    requires
        0 <= whole_len < text.len(),
        all_digits(text.take(whole_len)),
        !is_digit(text[whole_len]),
        !is_score_text(text, whole_len),
    ensures
        parse_score(text) == None::<u64>,
{
    assert forall|k: int| !is_score_text(text, k) by {
        if is_score_text(text, k) {
            if k < whole_len {
                assert(text.take(whole_len)[k] == text[k]);
            } else if k > whole_len {
                assert(text.take(k)[whole_len] == text[whole_len]);
            }
        }
    }
}

/// Ten to the power `exponent`.
pub open spec fn ten_to(exponent: nat) -> nat
    decreases exponent,
{
    if exponent == 0 {
        1
    } else {
        10 * ten_to((exponent - 1) as nat)
    }
}

/// The digits of `number`, without leading zeros; zero is `0`.
pub open spec fn decimal_digits(number: nat) -> Seq<u8>
    decreases number,
{
    if number < 10 {
        seq![(48 + number) as u8]
    } else {
        decimal_digits(number / 10).push((48 + number % 10) as u8)
    }
}

/// The last `width` digits of `number`, with leading zeros where it is
/// shorter.
pub open spec fn padded_digits(number: nat, width: nat) -> Seq<u8>
    decreases width,
{
    if width == 0 {
        Seq::empty()
    } else {
        padded_digits(number / 10, (width - 1) as nat).push((48 + number % 10) as u8)
    }
}

/// How many of the `width` decimal places of `fraction` remain once the
/// zeros at its end are dropped; at least one remains.
pub open spec fn places_needed(fraction: nat, width: nat) -> nat
    decreases width,
{
    if width > 1 && fraction % 10 == 0 {
        places_needed(fraction / 10, (width - 1) as nat)
    } else {
        width
    }
}

/// The fraction in units of the last place that remains.
pub open spec fn trimmed(fraction: nat, width: nat) -> nat
    decreases width,
{
    if width > 1 && fraction % 10 == 0 {
        trimmed(fraction / 10, (width - 1) as nat)
    } else {
        fraction
    }
}

/// The stored form of a score of `micros` microseconds: the whole seconds,
/// and, unless the rest is zero, a point and the rest without the zeros at
/// its end.
pub open spec fn score_text(micros: u64) -> Seq<u8> {
    let whole = (micros / 1_000_000) as nat;
    let fraction = (micros % 1_000_000) as nat;
    if fraction == 0 {
        decimal_digits(whole)
    } else {
        decimal_digits(whole) + seq![POINT] + padded_digits(
            trimmed(fraction, 6),
            places_needed(fraction, 6),
        )
    }
}

/// The digits written for a number are digits, and read back as that number.
pub proof fn lemma_decimal_digits_read_back(number: nat)
    ensures
        all_digits(decimal_digits(number)),
        decimal_digits(number).len() >= 1,
        decimal_value(decimal_digits(number)) == number,
    decreases number,
{
    if number < 10 {
        let digits = decimal_digits(number);
        assert(digits.drop_last() =~= Seq::<u8>::empty());
        assert(decimal_value(digits.drop_last()) == 0);
    } else {
        lemma_decimal_digits_read_back(number / 10);
        let digits = decimal_digits(number);
        assert(digits.drop_last() =~= decimal_digits(number / 10));
    }
}

/// Zero-padded digits are digits, there are `width` of them, and written
/// after a run of digits they extend its number by `width` places.
pub proof fn lemma_padded_digits_read_back(front: Seq<u8>, number: nat, width: nat)
    requires
        number < ten_to(width),
    ensures
        all_digits(padded_digits(number, width)),
        padded_digits(number, width).len() == width,
        decimal_value(front + padded_digits(number, width)) == decimal_value(front) * ten_to(
            width,
        ) + number,
    decreases width,
{
    if width == 0 {
        assert(front + padded_digits(number, width) =~= front);
    } else {
        let shorter = (width - 1) as nat;
        lemma_padded_digits_read_back(front, number / 10, shorter);
        let all = front + padded_digits(number, width);
        assert(all.drop_last() =~= front + padded_digits(number / 10, shorter));
        assert(all.last() == (48 + number % 10) as u8);
        assert((decimal_value(front) * ten_to(shorter) + number / 10) * 10 + number % 10
            == decimal_value(front) * ten_to(width) + number) by (nonlinear_arith)
            requires
                ten_to(width) == 10 * ten_to(shorter),
        ;
    }
}

/// Dropping the zeros at the end of a fraction leaves between one and
/// `width` places and loses nothing.
pub proof fn lemma_trimmed_keeps_value(fraction: nat, width: nat)
    requires
        width >= 1,
        fraction < ten_to(width),
    ensures
        1 <= places_needed(fraction, width) <= width,
        trimmed(fraction, width) < ten_to(places_needed(fraction, width)),
        trimmed(fraction, width) * ten_to((width - places_needed(fraction, width)) as nat)
            == fraction,
    decreases width,
{
    if width > 1 && fraction % 10 == 0 {
        let shorter = (width - 1) as nat;
        lemma_trimmed_keeps_value(fraction / 10, shorter);
        let places = places_needed(fraction / 10, shorter);
        let rest = trimmed(fraction / 10, shorter);
        assert(places_needed(fraction, width) == places);
        assert(trimmed(fraction, width) == rest);
        assert(ten_to((width - places) as nat) == 10 * ten_to((shorter - places) as nat));
        assert(rest * ten_to((width - places) as nat) == fraction) by (nonlinear_arith)
            requires
                rest * ten_to((shorter - places) as nat) == fraction / 10,
                ten_to((width - places) as nat) == 10 * ten_to((shorter - places) as nat),
                fraction % 10 == 0,
        ;
    } else {
        assert(ten_to(0) == 1);
        assert(places_needed(fraction, width) == width);
        assert(trimmed(fraction, width) == fraction);
        assert(fraction * ten_to(0) == fraction) by (nonlinear_arith)
            requires
                ten_to(0) == 1,
        ;
    }
}

/// The first powers of ten.
proof fn lemma_powers_of_ten()
    ensures
        ten_to(0) == 1,
        ten_to(1) == 10,
        ten_to(2) == 100,
        ten_to(3) == 1_000,
        ten_to(4) == 10_000,
        ten_to(5) == 100_000,
        ten_to(6) == 1_000_000,
{
    reveal_with_fuel(ten_to, 8);
}

/// Powers of ten multiply by adding their exponents.
proof fn lemma_ten_to_adds(first: nat, second: nat)
    ensures
        ten_to(first) * ten_to(second) == ten_to(first + second),
    decreases first,
{
    if first > 0 {
        let less = (first - 1) as nat;
        lemma_ten_to_adds(less, second);
        assert(ten_to(first + second) == 10 * ten_to(less + second));
        assert(ten_to(first) * ten_to(second) == 10 * ten_to(less + second)) by (nonlinear_arith)
            requires
                ten_to(first) == 10 * ten_to(less),
                ten_to(less) * ten_to(second) == ten_to(less + second),
        ;
    } else {
        assert(ten_to(first) * ten_to(second) == ten_to(second)) by (nonlinear_arith)
            requires
                ten_to(first) == 1,
        ;
    }
}

/// A stored score reads back as the score that was stored.
pub proof fn lemma_score_round_trip(micros: u64)
    ensures
        parse_score(score_text(micros)) == Some(micros),
{
    let whole = (micros / 1_000_000) as nat;
    let fraction = (micros % 1_000_000) as nat;
    let text = score_text(micros);
    let front = decimal_digits(whole);
    let whole_len = front.len() as int;
    lemma_decimal_digits_read_back(whole);
    lemma_powers_of_ten();
    if fraction == 0 {
        assert(text.take(whole_len) =~= front);
        assert(front + counted_fraction(text, whole_len) =~= front);
        assert(is_score_text(text, whole_len));
        assert(text_value(text, whole_len) == micros);
    } else {
        lemma_trimmed_keeps_value(fraction, 6);
        let places = places_needed(fraction, 6);
        let rest = trimmed(fraction, 6);
        let back = padded_digits(rest, places);
        lemma_padded_digits_read_back(front, rest, places);
        assert(text.take(whole_len) =~= front);
        assert(text.skip(whole_len + 1) =~= back);
        assert(text[whole_len] == POINT);
        assert(is_score_text(text, whole_len));
        assert(counted_fraction(text, whole_len) =~= back);
        assert(ten_to((6 - places) as nat) == place_scale(places as int)) by {
            if places == 1 {
            } else if places == 2 {
            } else if places == 3 {
            } else if places == 4 {
            } else if places == 5 {
            } else {
                assert(places == 6);
            }
        }
        lemma_ten_to_adds(places, (6 - places) as nat);
        assert(ten_to(places) * place_scale(places as int) == 1_000_000);
        assert((whole * ten_to(places) + rest) * place_scale(places as int) == whole * 1_000_000
            + fraction) by (nonlinear_arith)
            requires
                ten_to(places) * place_scale(places as int) == 1_000_000,
                rest * place_scale(places as int) == fraction,
        ;
        assert(text_value(text, whole_len) == micros);
    }
    lemma_parse_of_split(text, whole_len);
}

/// Appends the digits of `number`.
fn push_decimal(out: &mut Vec<u8>, number: u64)
    ensures
        final(out)@ == old(out)@ + decimal_digits(number as nat),
    decreases number,
{
    if number >= 10 {
        push_decimal(out, number / 10);
    }
    let digit: u8 = (number % 10) as u8;
    out.push(ZERO + digit);
    proof {
        if number < 10 {
            assert(out@ =~= old(out)@ + decimal_digits(number as nat));
        } else {
            assert(out@ =~= old(out)@ + decimal_digits(number as nat));
        }
    }
}

/// Appends the last `width` digits of `number`, zero-padded.
fn push_padded(out: &mut Vec<u8>, number: u64, width: usize)
    ensures
        final(out)@ == old(out)@ + padded_digits(number as nat, width as nat),
    decreases width,
{
    if width > 0 {
        push_padded(out, number / 10, width - 1);
        let digit: u8 = (number % 10) as u8;
        out.push(ZERO + digit);
    }
    assert(out@ =~= old(out)@ + padded_digits(number as nat, width as nat));
}

/// Writes a score in its stored form.
pub fn encode_score(micros: u64) -> (text: Vec<u8>)
    ensures
        text@ == score_text(micros),
        parse_score(text@) == Some(micros),
{
    let whole: u64 = micros / 1_000_000;
    let fraction: u64 = micros % 1_000_000;
    let mut text: Vec<u8> = Vec::new();
    push_decimal(&mut text, whole);
    assert(text@ =~= decimal_digits(whole as nat));
    if fraction != 0 {
        let mut rest: u64 = fraction;
        let mut places: usize = MAX_FRACTION_DIGITS;
        while places > 1 && rest % 10 == 0
            invariant
                1 <= places <= MAX_FRACTION_DIGITS,
                trimmed(rest as nat, places as nat) == trimmed(fraction as nat, 6),
                places_needed(rest as nat, places as nat) == places_needed(fraction as nat, 6),
            decreases places,
        {
            rest = rest / 10;
            places -= 1;
        }
        text.push(POINT);
        push_padded(&mut text, rest, places);
        assert(text@ =~= score_text(micros));
    }
    proof {
        lemma_score_round_trip(micros);
    }
    text
}

} // verus!
