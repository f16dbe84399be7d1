//! What durations in texts mean, and how close seconds are shown to what was counted.

use vstd::prelude::*;

use crate::duration::{Duration, Scan, SpanPart, SpanSum, UnitWeight};

verus! {

/// How many of the first `count` characters are decimal digits.
pub open spec fn digit_count(text: Seq<char>, count: nat) -> nat
    decreases count,
{
    if count == 0 {
        0
    } else if '0' <= text[count - 1] && text[count - 1] <= '9' {
        digit_count(text, (count - 1) as nat) + 1
    } else {
        digit_count(text, (count - 1) as nat)
    }
}

/// No unit weighs more than a year.
proof fn lemma_weights(word: Seq<char>)
    ensures
        crate::duration::unit_weight(word) matches Some(weight) ==> {
            &&& weight.seconds <= 31_557_600
            &&& weight.nanos <= 1_000_000
            &&& weight.part_seconds <= 31_557_600
            &&& weight.part_nanos <= 60_000_000_000
        },
{
}

/// A sum of spans that was not cut off, and is at most `most` seconds.
spec fn is_at_most(sum: SpanSum, most: int) -> bool {
    match sum {
        SpanSum::Total { seconds, nanos } => seconds <= most && nanos < 1_000_000_000,
        SpanSum::Refused => true,
        SpanSum::Carried => false,
    }
}

/// What holds of a scan when the digits so far make less than `scale`.
spec fn is_scan_within(scan: Scan, scale: nat) -> bool {
    let most = 40_000_000 * (scale - 1);
    let room = most - 40_000_000 * scan.number;
    &&& is_at_most(scan.sum, most)
    &&& scan.sum is Total ==> match scan.part {
        SpanPart::Gap => true,
        SpanPart::Whole => scan.denominator == 0 && is_at_most(scan.sum, room),
        SpanPart::Fraction => scan.denominator > 0 && scan.numerator < scan.denominator
            && is_at_most(scan.sum, room) && (scan.denominator > 1 ==> is_at_most(
            scan.sum,
            room - 40_000_000,
        )),
        SpanPart::Unit => is_at_most(scan.sum, room) && (scan.denominator != 0 ==> scan.numerator
            < scan.denominator && is_at_most(scan.sum, room - 40_000_000)),
    }
}

proof fn lemma_plus(
    seconds: nat,
    nanos: nat,
    more_seconds: nat,
    more_nanos: nat,
    most: int,
)
    requires
        nanos < 1_000_000_000,
        most < u64::MAX,
        seconds + more_seconds + (if more_nanos == 0 {
            0
        } else {
            more_nanos / 1_000_000_000 + 2
        }) <= most,
    ensures
        is_at_most(crate::duration::plus(seconds, nanos, more_seconds, more_nanos), most),
{
}

proof fn lemma_span_end(scan: Scan, scale: nat)
    requires
        is_scan_within(scan, scale),
        scan.part == SpanPart::Unit,
        0 < scale <= 100_000_000_000,
    ensures
        is_at_most(crate::duration::span_end(scan), 40_000_000 * (scale - 1)),
{
    lemma_weights(scan.unit);
    if let SpanSum::Total { seconds, nanos } = scan.sum {
        if let Some(weight) = crate::duration::unit_weight(scan.unit) {
            let most = 40_000_000 * (scale - 1);
            let number = scan.number;
            let whole = number * weight.seconds as nat;
            let fine = number * weight.nanos as nat;
            assert(whole <= 31_557_600 * number) by (nonlinear_arith)
                requires
                    whole == number * weight.seconds as nat,
                    weight.seconds <= 31_557_600,
            ;
            assert(fine <= 1_000_000 * number) by (nonlinear_arith)
                requires
                    fine == number * weight.nanos as nat,
                    weight.nanos <= 1_000_000,
            ;
            let first = seconds + 40_000_000 * number;
            lemma_plus(seconds as nat, nanos as nat, whole, fine, first);
            if scan.denominator != 0 {
                let total = crate::duration::plus(seconds as nat, nanos as nat, whole, fine);
                if let SpanSum::Total { seconds: so_far, nanos: rest } = total {
                    let part_seconds = scan.numerator * weight.part_seconds as nat;
                    let part_nanos = scan.numerator * weight.part_nanos as nat;
                    lemma_part(scan.numerator, scan.denominator, weight.part_seconds as nat);
                    lemma_part(scan.numerator, scan.denominator, weight.part_nanos as nat);
                    lemma_plus(
                        so_far as nat,
                        rest as nat,
                        part_seconds / scan.denominator,
                        part_nanos / scan.denominator,
                        first + 40_000_000,
                    );
                }
            }
        }
    }
}

proof fn lemma_part(numerator: nat, denominator: nat, weight: nat)
    requires
        numerator < denominator,
    ensures
        (numerator * weight) / denominator <= weight,
{
    assert(numerator * weight <= weight * denominator) by (nonlinear_arith)
        requires
            numerator < denominator,
    ;
    vstd::arithmetic::div_mod::lemma_div_is_ordered(
        (numerator * weight) as int,
        (weight * denominator) as int,
        denominator as int,
    );
    vstd::arithmetic::div_mod::lemma_div_by_multiple(weight as int, denominator as int);
}

proof fn lemma_scan(text: Seq<char>, count: nat)
    requires
        count <= text.len(),
        digit_count(text, count) <= 11,
    ensures
        is_scan_within(
            crate::duration::scan_text(text, count),
            crate::text_laws::tens(digit_count(text, count)),
        ),
    decreases count,
{
    if count > 0 {
        let before = crate::duration::scan_text(text, (count - 1) as nat);
        let scale = crate::text_laws::tens(digit_count(text, (count - 1) as nat));
        lemma_scan(text, (count - 1) as nat);
        lemma_tens(digit_count(text, (count - 1) as nat));
        if before.part == SpanPart::Unit {
            lemma_span_end(before, scale);
        }
    }
}

proof fn lemma_tens(count: nat)
    requires
        count <= 11,
    ensures
        0 < crate::text_laws::tens(count) <= 100_000_000_000,
{
    reveal_with_fuel(crate::text_laws::tens, 12);
}

/// No duration text with at most eleven digits is out of range, whatever its units are.
pub proof fn short_durations_are_in_range(text: Seq<char>)
    requires
        digit_count(text, text.len()) <= 11,
    ensures
        crate::duration::bounded(text),
{
    lemma_scan(text, text.len());
    lemma_tens(digit_count(text, text.len()));
    let end = crate::duration::scan_text(text, text.len());
    if end.part == SpanPart::Unit {
        lemma_span_end(end, crate::text_laws::tens(digit_count(text, text.len())));
    }
}

/// A duration is what is read in the text, second for second and nanosecond for nanosecond, and a
/// text that cannot be read is refused for the reason that reading gives. A text that is out of
/// range is refused as such.
pub proof fn durations_are_as_read(text: Seq<char>)
    ensures
        ({
            let reading = crate::duration::read_duration(text);
            let result = crate::duration::duration_in(text);
            &&& crate::duration::bounded(text) ==> (reading matches Ok(parts)
                ==> result matches Ok(duration) && duration.seconds() == parts.0
                && duration.nanos() == parts.1)
            &&& crate::duration::bounded(text) ==> (reading matches Err(message) ==> result
                == Err::<Duration, Seq<char>>(message))
            &&& !crate::duration::bounded(text) ==> result == Err::<Duration, Seq<char>>(
                "duration is out of range"@,
            )
            &&& digit_count(text, text.len()) <= 11 ==> (result is Ok <==> reading is Ok)
        }),
{
    if let Ok(parts) = crate::duration::read_duration(text) {
        crate::duration::lemma_new_parts(parts.0, parts.1);
    }
    if digit_count(text, text.len()) <= 11 {
        short_durations_are_in_range(text);
    }
}

/// The nearest integer to a fraction is at most half a unit away, and even where two are as near.
pub proof fn nearest_integers_are_near(numerator: nat, denominator: nat)
    requires
        denominator > 0,
    ensures
        ({
            let nearest = crate::seconds::nearest_integer(numerator, denominator);
            let twice = 2 * (nearest * denominator - numerator);
            &&& -(denominator as int) <= twice <= denominator
            &&& twice == denominator || twice == -(denominator as int) ==> nearest % 2 == 0
        }),
{
    crate::seconds::lemma_rounding_error(numerator, denominator);
    let quotient = numerator / denominator;
    assert(numerator == quotient * denominator + numerator % denominator && numerator % denominator
        < denominator) by (nonlinear_arith)
        requires
            quotient == numerator / denominator,
            denominator > 0,
    ;
    assert((quotient + 1) * denominator == quotient * denominator + denominator)
        by (nonlinear_arith);
}

/// The double nearest to a fraction is off by less than one part in two to the power 53.
pub proof fn nearest_doubles_are_near(numerator: nat, denominator: nat)
    requires
        numerator > 0,
        denominator > 0,
    ensures
        ({
            let (rounded, scale) = crate::seconds::nearest_double(numerator, denominator);
            let off = rounded * denominator - numerator * scale;
            &&& scale > 0
            &&& -(numerator * scale) <= off * 0x20_0000_0000_0000 <= numerator * scale
        }),
    decreases crate::seconds::distance(numerator, denominator),
{
    let result = crate::seconds::nearest_double(numerator, denominator);
    if numerator < crate::seconds::SMALLEST_SIGNIFICAND * denominator {
        assert(crate::seconds::distance(2 * numerator, denominator) < crate::seconds::distance(
            numerator,
            denominator,
        ));
        nearest_doubles_are_near(2 * numerator, denominator);
        let (rounded, scale) = crate::seconds::nearest_double(2 * numerator, denominator);
        assert((2 * numerator) * scale == numerator * (2 * scale)) by (nonlinear_arith);
    } else if numerator >= crate::seconds::SIGNIFICAND_END * denominator {
        assert(crate::seconds::distance(numerator, 2 * denominator) < crate::seconds::distance(
            numerator,
            denominator,
        ));
        nearest_doubles_are_near(numerator, 2 * denominator);
        let (rounded, scale) = crate::seconds::nearest_double(numerator, 2 * denominator);
        assert(rounded * (2 * denominator) == (2 * rounded) * denominator) by (nonlinear_arith);
    } else {
        crate::seconds::lemma_rounding_error(numerator, denominator);
        assert(numerator * 1 == numerator);
    }
}

/// A count of 64 bits is shown closely, however large it is: it is off by half a unit and three
/// parts in two to the power 53 at most.
pub proof fn counts_are_shown_closely(number: nat, scale: nat)
    requires
        number > 0,
        scale > 0,
    ensures
        ({
            let off = crate::seconds::units_shown(number, scale) - number;
            -(0x10_0000_0000_0000 + 3 * number) <= off * 0x20_0000_0000_0000
                <= 0x10_0000_0000_0000 + 3 * number
        }),
{
    let double = crate::seconds::double_of(number);
    assert(-(number as int) <= (double - number) * 0x20_0000_0000_0000 <= number) by {
        if number >= crate::seconds::SIGNIFICAND_END {
            lemma_double_is_integer(number);
            nearest_doubles_are_near(number, 1);
            let (rounded, one) = crate::seconds::nearest_double(number, 1);
            assert(rounded * 1 == rounded && number * one == number) by (nonlinear_arith)
                requires
                    one == 1,
            ;
        }
    }
    assert(double > 0);
    nearest_doubles_are_near(double, scale);
    let (top, bottom) = crate::seconds::nearest_double(double, scale);
    let shown = crate::seconds::units_shown(number, scale);
    crate::seconds::lemma_rounding_error(top * scale, bottom);
    let off = (shown - double) * bottom;
    assert(off == shown * bottom - double * bottom) by (nonlinear_arith)
        requires
            off == (shown - double) * bottom,
    ;
    let bound = 0x10_0000_0000_0000 + double;
    assert(bound * bottom == 0x10_0000_0000_0000 * bottom + double * bottom) by (nonlinear_arith)
        requires
            bound == 0x10_0000_0000_0000 + double,
    ;
    assert(-(bound * bottom) <= off * 0x20_0000_0000_0000 <= bound * bottom);
    assert(-(bound as int) <= (shown - double) * 0x20_0000_0000_0000 <= bound) by (nonlinear_arith)
        requires
            bottom > 0,
            off == (shown - double) * bottom,
            -(bound * bottom) <= off * 0x20_0000_0000_0000 <= bound * bottom,
    ;
}

proof fn lemma_double_is_integer(number: nat)
    requires
        number >= crate::seconds::SMALLEST_SIGNIFICAND,
    ensures
        crate::seconds::nearest_double(number, 1).1 == 1,
{
    lemma_scaled_down(number, 1);
}

proof fn lemma_scaled_down(numerator: nat, denominator: nat)
    requires
        denominator > 0,
        numerator >= crate::seconds::SMALLEST_SIGNIFICAND * denominator,
    ensures
        crate::seconds::nearest_double(numerator, denominator).1 == 1,
    decreases crate::seconds::distance(numerator, denominator),
{
    if numerator >= crate::seconds::SIGNIFICAND_END * denominator {
        lemma_scaled_down(numerator, 2 * denominator);
    }
}

/// Seconds are shown as whole seconds, a point and the decimals of what is beyond them; whole
/// seconds of a bound are shown without decimals. Below two to the power 52 no digit is lost.
pub proof fn seconds_are_shown_in_decimals(number: nat)
    requires
        number < crate::seconds::SMALLEST_SIGNIFICAND,
    ensures
        crate::seconds::micros_text(number) == crate::text::decimal(number / 1_000_000) + "."@
            + crate::text::padded(number % 1_000_000, 6),
        crate::text_laws::place_value(crate::text::padded(number % 1_000_000, 6)) == number
            % 1_000_000,
        number % 1_000 == 0 ==> crate::seconds::millis_text(number) == crate::text::decimal(
            number / 1_000,
        ),
        number % 1_000 != 0 ==> crate::seconds::millis_text(number) == crate::text::decimal(
            number / 1_000,
        ) + "."@ + crate::text::padded(number % 1_000, 3),
        crate::text_laws::place_value(crate::text::padded(number % 1_000, 3)) == number % 1_000,
{
    crate::seconds::small_counts_are_shown_exactly(number, 1_000_000);
    crate::seconds::small_counts_are_shown_exactly(number, 1_000);
    crate::text_laws::padding_keeps_the_last_digits(number % 1_000_000, 6);
    crate::text_laws::padding_keeps_the_last_digits(number % 1_000, 3);
    assert(crate::text_laws::tens(3) == 1_000 && crate::text_laws::tens(6) == 1_000_000) by {
        reveal_with_fuel(crate::text_laws::tens, 7);
    }
    assert((number % 1_000_000) % 1_000_000 == number % 1_000_000);
    assert((number % 1_000) % 1_000 == number % 1_000);
}

/// Spans add up exactly, in nanoseconds. A sum is refused where 64 bits do not hold its parts, and
/// is cut off exactly where the nanoseconds make one second and the seconds are the most that 64
/// bits hold.
pub proof fn spans_add_up(seconds: nat, nanos: nat, more_seconds: nat, more_nanos: nat)
    ensures
        ({
            let sum = crate::duration::plus(seconds, nanos, more_seconds, more_nanos);
            let fine = nanos + more_nanos;
            let whole = seconds + more_seconds;
            &&& sum == SpanSum::Carried <==> fine == 1_000_000_000 && whole == u64::MAX
            &&& sum == SpanSum::Refused <==> fine > u64::MAX || whole > u64::MAX || (fine
                > 1_000_000_000 && whole + fine / 1_000_000_000 > u64::MAX)
            &&& sum matches SpanSum::Total { seconds: total, nanos: rest } ==> total as nat
                * 1_000_000_000 + rest == whole * 1_000_000_000 + fine && rest < 1_000_000_000
        }),
{
}

/// A span is as many units as its number says, and the part of one that its fraction says, where
/// that is a whole number of nanoseconds, or of seconds for units from an hour on.
pub proof fn spans_are_multiples_of_units(
    seconds: nat,
    nanos: nat,
    number: nat,
    numerator: nat,
    denominator: nat,
    weight: UnitWeight,
)
    ensures
        ({
            let sum = crate::duration::plus_span(
                seconds,
                nanos,
                number,
                numerator,
                denominator,
                weight,
            );
            let whole = number * weight.seconds as nat;
            let fine = number * weight.nanos as nat;
            let first = crate::duration::plus(seconds, nanos, whole, fine);
            let is_large = whole > u64::MAX || fine > u64::MAX;
            let part = numerator * weight.part_seconds as nat;
            let fine_part = numerator * weight.part_nanos as nat;
            &&& is_large ==> sum == SpanSum::Refused
            &&& !is_large && (denominator == 0 || !(first is Total)) ==> sum == first
            &&& !is_large && denominator > 0 && first is Total && (part > u64::MAX || fine_part
                > u64::MAX || part % denominator != 0 || fine_part % denominator != 0 || (
            weight.part_seconds == 0 && weight.part_nanos == 0)) ==> sum == SpanSum::Refused
            &&& !is_large && denominator > 0 && (weight.part_seconds > 0 || weight.part_nanos > 0)
                && part <= u64::MAX && fine_part <= u64::MAX && part % denominator == 0
                && fine_part % denominator == 0 ==> (first matches SpanSum::Total {
                seconds,
                nanos,
            } ==> sum == crate::duration::plus(
                seconds as nat,
                nanos as nat,
                part / denominator,
                fine_part / denominator,
            ))
        }),
{
}

/// The unit has this length, and a fraction of it that much of this length.
pub open spec fn is_unit_of(word: Seq<char>, length: int, takes_fraction: bool) -> bool {
    crate::duration::unit_weight(word) matches Some(weight) && weight.seconds * 1_000_000_000
        + weight.nanos == length && weight.part_seconds * 1_000_000_000 + weight.part_nanos == if takes_fraction {
        length
    } else {
        0
    }
}

/// Units have these names and, in nanoseconds, these lengths; no other word is a unit. Only a
/// nanosecond takes no fraction.
pub proof fn units_have_these_names_and_lengths(word: Seq<char>)
    ensures
        ({
            let a = word == "nanos"@ || word == "nsec"@ || word == "ns"@;
            let b = word == "usec"@ || word == "us"@ || word == "\u{b5}s"@;
            let c = word == "millis"@ || word == "msec"@ || word == "ms"@;
            let d = word == "seconds"@ || word == "second"@ || word == "secs"@ || word == "sec"@ || word == "s"@;
            let e = word == "minutes"@ || word == "minute"@ || word == "min"@ || word == "mins"@ || word == "m"@;
            let f = word == "hours"@ || word == "hour"@ || word == "hr"@ || word == "hrs"@ || word == "h"@;
            let g = word == "days"@ || word == "day"@ || word == "d"@;
            let h = word == "weeks"@ || word == "week"@ || word == "wk"@ || word == "wks"@ || word == "w"@;
            let i = word == "months"@ || word == "month"@ || word == "M"@;
            let j = word == "years"@ || word == "year"@ || word == "yr"@ || word == "yrs"@ || word == "y"@;
            &&& a ==> is_unit_of(word, 1, false)
            &&& !a && b ==> is_unit_of(word, 1_000, true)
            &&& !a && !b && c ==> is_unit_of(word, 1_000_000, true)
            &&& !a && !b && !c && d ==> is_unit_of(word, 1_000_000_000, true)
            &&& !a && !b && !c && !d && e ==> is_unit_of(word, 60_000_000_000, true)
            &&& !a && !b && !c && !d && !e && f ==> is_unit_of(word, 3_600_000_000_000, true)
            &&& !a && !b && !c && !d && !e && !f && g ==> is_unit_of(word, 86_400_000_000_000, true)
            &&& !a && !b && !c && !d && !e && !f && !g && h ==> is_unit_of(word, 604_800_000_000_000, true)
            &&& !a && !b && !c && !d && !e && !f && !g && !h && i ==> is_unit_of(word, 2_630_016_000_000_000, true)
            &&& !a && !b && !c && !d && !e && !f && !g && !h && !i && j ==> is_unit_of(word, 31_557_600_000_000_000, true)
            &&& !a && !b && !c && !d && !e && !f && !g && !h && !i && !j ==> crate::duration::unit_weight(word) is None
        }),
{
}

/// What is scanned of a text does not depend on what follows it.
proof fn lemma_scan_start(text: Seq<char>, more: Seq<char>, count: nat)
    requires
        count <= text.len(),
    ensures
        crate::duration::scan_text(text + more, count) == crate::duration::scan_text(text, count),
    decreases count,
{
    if count > 0 {
        lemma_scan_start(text, more, (count - 1) as nat);
        assert((text + more)[count - 1] == text[count - 1]);
    }
}

/// A text after it was scanned whole.
pub open spec fn scanned(text: Seq<char>) -> Scan {
    crate::duration::scan_text(text, text.len())
}

proof fn lemma_scan_push(text: Seq<char>, c: char)
    ensures
        scanned(text.push(c)) == crate::duration::scan_char(scanned(text), c),
{
    assert(text.push(c) =~= text + seq![c]);
    lemma_scan_start(text, seq![c], text.len());
}

/// A digit is neither white space nor a letter of a unit, nor a point.
proof fn lemma_digit(c: char)
    requires
        '0' <= c && c <= '9',
    ensures
        !crate::text::is_white_space(c),
        !crate::duration::is_unit_letter(c),
        c != '.',
        crate::text::digit_value(c) == Some((c as nat - '0' as nat) as nat),
{
}

proof fn lemma_prefix_value(digits: Seq<char>)
    requires
        digits.len() > 0,
    ensures
        crate::text_laws::place_value(digits.drop_last()) <= crate::text_laws::place_value(digits),
        crate::text_laws::place_value(digits) == 10 * crate::text_laws::place_value(
            digits.drop_last(),
        ) + (digits.last() as nat - '0' as nat) as nat,
{
}

/// Digits at the start of a text, or behind white space that ended a span, are the number of the
/// next span, as far as 64 bits hold it.
pub proof fn numbers_of_spans_are_scanned(text: Seq<char>, digits: Seq<char>)
    requires
        scanned(text).sum is Total,
        scanned(text).part == SpanPart::Gap,
        digits.len() > 0,
        crate::text_laws::are_digits(digits),
        crate::text_laws::place_value(digits) <= u64::MAX,
    ensures
        scanned(text + digits) == (Scan {
            part: SpanPart::Whole,
            number: crate::text_laws::place_value(digits),
            denominator: 0,
            ..scanned(text)
        }),
    decreases digits.len(),
{
    let before = digits.drop_last();
    let c = digits.last();
    lemma_prefix_value(digits);
    lemma_digit(c);
    assert(text + digits =~= (text + before).push(c));
    lemma_scan_push(text + before, c);
    if before.len() > 0 {
        assert(crate::text_laws::are_digits(before)) by {
            assert forall|i: int| 0 <= i < before.len() implies '0' <= #[trigger] before[i]
                && before[i] <= '9' by {
                assert(before[i] == digits[i]);
            }
        }
        numbers_of_spans_are_scanned(text, before);
    } else {
        assert(text + before =~= text);
        assert(crate::text_laws::place_value(before) == 0);
    }
}

/// A point and digits behind a number are its fraction, in tens.
pub proof fn fractions_of_spans_are_scanned(text: Seq<char>, digits: Seq<char>)
    requires
        scanned(text).sum is Total,
        scanned(text).part == SpanPart::Whole,
        crate::text_laws::are_digits(digits),
        crate::text_laws::tens(digits.len()) <= u64::MAX,
        crate::text_laws::place_value(digits) <= u64::MAX,
    ensures
        scanned(text + "."@ + digits) == (Scan {
            part: SpanPart::Fraction,
            numerator: crate::text_laws::place_value(digits),
            denominator: crate::text_laws::tens(digits.len()),
            ..scanned(text)
        }),
    decreases digits.len(),
{
    reveal_strlit(".");
    let start = text + "."@;
    if digits.len() == 0 {
        assert(start =~= text.push('.'));
        lemma_scan_push(text, '.');
        assert(start + digits =~= start);
        assert(crate::text_laws::tens(0) == 1);
    } else {
        let before = digits.drop_last();
        let c = digits.last();
        lemma_prefix_value(digits);
        lemma_digit(c);
        assert(start + digits =~= (start + before).push(c));
        lemma_scan_push(start + before, c);
        assert(crate::text_laws::are_digits(before)) by {
            assert forall|i: int| 0 <= i < before.len() implies '0' <= #[trigger] before[i]
                && before[i] <= '9' by {
                assert(before[i] == digits[i]);
            }
        }
        assert(crate::text_laws::tens(digits.len()) == 10 * crate::text_laws::tens(before.len()));
        fractions_of_spans_are_scanned(text, before);
    }
}

/// Letters behind a number, or behind the digits of its fraction, are its unit.
pub proof fn units_of_spans_are_scanned(text: Seq<char>, unit: Seq<char>)
    requires
        scanned(text).sum is Total,
        scanned(text).part == SpanPart::Whole || (scanned(text).part == SpanPart::Fraction
            && scanned(text).denominator > 1),
        unit.len() > 0,
        forall|i: int|
            0 <= i < unit.len() ==> ('a' <= #[trigger] unit[i] && unit[i] <= 'z') || ('A' <= unit[i]
                && unit[i] <= 'Z'),
    ensures
        scanned(text + unit) == (Scan { part: SpanPart::Unit, unit, ..scanned(text) }),
    decreases unit.len(),
{
    let before = unit.drop_last();
    let c = unit.last();
    assert(text + unit =~= (text + before).push(c));
    lemma_scan_push(text + before, c);
    if before.len() > 0 {
        assert forall|i: int| 0 <= i < before.len() implies ('a' <= #[trigger] before[i]
            && before[i] <= 'z') || ('A' <= before[i] && before[i] <= 'Z') by {
            assert(before[i] == unit[i]);
        }
        units_of_spans_are_scanned(text, before);
        assert(before.push(c) =~= unit);
    } else {
        assert(text + before =~= text);
        assert(seq![c] =~= unit);
    }
}

/// A span ends with its unit: at white space behind it, at the first digit of the next span, or at
/// the end of the text. Then it is added to those before it; a span of no known unit is refused.
pub proof fn spans_end_with_their_units(text: Seq<char>, c: char)
    requires
        scanned(text).part == SpanPart::Unit,
    ensures
        ({
            let scan = scanned(text);
            let end = crate::duration::span_end(scan);
            &&& scan.sum matches SpanSum::Total { seconds, nanos } ==> end
                == match crate::duration::unit_weight(scan.unit) {
                Some(weight) => crate::duration::plus_span(
                    seconds as nat,
                    nanos as nat,
                    scan.number,
                    scan.numerator,
                    scan.denominator,
                    weight,
                ),
                None => SpanSum::Refused,
            }
            &&& crate::duration::bounded(text) <==> end != SpanSum::Carried
            &&& scan.sum is Total && crate::text::is_white_space(c) ==> scanned(text.push(c)).sum
                == end && scanned(text.push(c)).part == SpanPart::Gap
            &&& scan.sum is Total && '0' <= c && c <= '9' ==> scanned(text.push(c)).sum == end
                && scanned(text.push(c)).part == SpanPart::Whole && scanned(text.push(c)).number
                == c as int - '0' as int && scanned(text.push(c)).denominator == 0
        }),
{
    lemma_scan_push(text, c);
    if '0' <= c && c <= '9' {
        lemma_digit(c);
    }
}

/// What was refused or cut off stays so, whatever follows; and nothing is summed up of an empty
/// text.
pub proof fn refused_durations_stay_refused(text: Seq<char>, c: char)
    ensures
        scanned(Seq::empty()).sum == (SpanSum::Total { seconds: 0, nanos: 0 }),
        scanned(Seq::empty()).part == SpanPart::Gap,
        !(scanned(text).sum is Total) ==> scanned(text.push(c)).sum == scanned(text).sum,
        scanned(text).part != SpanPart::Unit ==> (crate::duration::bounded(text) <==> scanned(
            text,
        ).sum != SpanSum::Carried),
{
    lemma_scan_push(text, c);
}

/// Every count is shown as whole seconds, a point and six decimals, which together stand for the
/// units shown.
pub proof fn sums_are_shown_with_six_decimals(number: nat)
    ensures
        ({
            let units = crate::seconds::units_shown(number, 1_000_000);
            let whole = crate::text::decimal(units / 1_000_000);
            let part = crate::text::padded(units % 1_000_000, 6);
            &&& crate::seconds::micros_text(number) == whole + "."@ + part
            &&& crate::text_laws::are_digits(whole)
            &&& crate::text_laws::are_digits(part)
            &&& part.len() == 6
            &&& crate::text_laws::place_value(whole) * 1_000_000 + crate::text_laws::place_value(
                part,
            ) == units
        }),
{
    let units = crate::seconds::units_shown(number, 1_000_000);
    crate::text_laws::decimals_stand_for_their_number(units / 1_000_000);
    crate::text_laws::padding_keeps_the_last_digits(units % 1_000_000, 6);
    assert(crate::text_laws::tens(6) == 1_000_000) by {
        reveal_with_fuel(crate::text_laws::tens, 7);
    }
    assert((units % 1_000_000) % 1_000_000 == units % 1_000_000);
}

/// Two to the power `count`.
pub open spec fn twos(count: nat) -> nat
    decreases count,
{
    if count == 0 {
        1
    } else {
        2 * twos((count - 1) as nat)
    }
}

/// The double `significand * up / down` has 53 significant bits, is at most half a unit in the
/// last of them away from the fraction, and ends on an even bit where two doubles are as near.
pub open spec fn is_rounding(
    numerator: nat,
    denominator: nat,
    significand: nat,
    up: nat,
    down: nat,
) -> bool {
    let twice = 2 * (significand * up * denominator - numerator * down);
    let unit = up * denominator;
    &&& 0x10_0000_0000_0000 <= significand <= 0x20_0000_0000_0000
    &&& -(unit as int) <= twice <= unit
    &&& twice == unit || twice == -(unit as int) ==> significand % 2 == 0
}

/// The nearest double to a fraction is that of double-precision arithmetic: 53 significant bits
/// times a power of two, rounded to nearest and half to even.
pub proof fn doubles_round_half_to_even(numerator: nat, denominator: nat) -> (parts: (
    nat,
    nat,
    nat,
))
    requires
        numerator > 0,
        denominator > 0,
    ensures
        ({
            let (significand, up, down) = parts;
            &&& crate::seconds::nearest_double(numerator, denominator) == (
                significand * twos(up),
                twos(down),
            )
            &&& up == 0 || down == 0
            &&& numerator < 0x20_0000_0000_0000 * denominator ==> up == 0
            &&& numerator >= 0x10_0000_0000_0000 * denominator ==> down == 0
            &&& is_rounding(numerator, denominator, significand, twos(up), twos(down))
        }),
    decreases crate::seconds::distance(numerator, denominator),
{
    if numerator < crate::seconds::SMALLEST_SIGNIFICAND * denominator {
        assert(crate::seconds::distance(2 * numerator, denominator) < crate::seconds::distance(
            numerator,
            denominator,
        ));
        let (significand, up, down) = doubles_round_half_to_even(2 * numerator, denominator);
        assert((2 * numerator) * twos(down) == numerator * (2 * twos(down))) by (nonlinear_arith);
        assert(twos(down + 1) == 2 * twos(down));
        (significand, up, down + 1)
    } else if numerator >= crate::seconds::SIGNIFICAND_END * denominator {
        assert(crate::seconds::distance(numerator, 2 * denominator) < crate::seconds::distance(
            numerator,
            denominator,
        ));
        let (significand, up, down) = doubles_round_half_to_even(numerator, 2 * denominator);
        let power = twos(up);
        assert(significand * power * (2 * denominator) == significand * (2 * power) * denominator)
            by (nonlinear_arith);
        assert(power * (2 * denominator) == (2 * power) * denominator) by (nonlinear_arith);
        assert(2 * (significand * power) == significand * (2 * power)) by (nonlinear_arith);
        assert(twos(up + 1) == 2 * twos(up));
        (significand, up + 1, down)
    } else {
        let significand = crate::seconds::nearest_integer(numerator, denominator);
        nearest_integers_are_near(numerator, denominator);
        let quotient = numerator / denominator;
        assert(0x10_0000_0000_0000 <= quotient < 0x20_0000_0000_0000) by (nonlinear_arith)
            requires
                quotient == numerator / denominator,
                denominator > 0,
                0x10_0000_0000_0000 * denominator <= numerator < 0x20_0000_0000_0000 * denominator,
        ;
        assert(twos(0) == 1);
        assert(significand * 1 * denominator == significand * denominator && numerator * 1
            == numerator && 1 * denominator == denominator && significand * 1 == significand);
        (significand, 0, 0)
    }
}

/// What is shown of a count is what double-precision arithmetic makes of it: the count as a double,
/// divided by the number of units in a second, times that number, and rounded.
pub proof fn counts_are_shown_as_doubles(number: nat, scale: nat)
    ensures
        number < 0x20_0000_0000_0000 ==> crate::seconds::double_of(number) == number,
        number >= 0x20_0000_0000_0000 ==> crate::seconds::double_of(number)
            == crate::seconds::nearest_double(number, 1).0,
        ({
            let seconds = crate::seconds::nearest_double(crate::seconds::double_of(number), scale);
            crate::seconds::units_shown(number, scale) == crate::seconds::nearest_integer(
                seconds.0 * scale,
                seconds.1,
            )
        }),
{
}

/// What can follow where: a span starts with a digit, a point stands behind a whole number only, a
/// unit stands behind a digit, and other characters stand nowhere. White space does not matter
/// before a number, or between a number and its unit.
pub proof fn misplaced_characters_are_refused(text: Seq<char>, c: char)
    requires
        scanned(text).sum is Total,
    ensures
        ({
            let scan = scanned(text);
            let after = scanned(text.push(c));
            let is_digit = '0' <= c && c <= '9';
            let is_letter = ('a' <= c && c <= 'z') || ('A' <= c && c <= 'Z') || c == '\u{b5}';
            let is_white = crate::text::is_white_space(c);
            &&& !is_digit && !is_letter && !is_white && c != '.' ==> after.sum == SpanSum::Refused
            &&& c == '.' && scan.part != SpanPart::Whole ==> after.sum == SpanSum::Refused
            &&& is_letter && scan.part == SpanPart::Gap ==> after.sum == SpanSum::Refused
            &&& is_letter && scan.part == SpanPart::Fraction && scan.denominator == 1 ==> after.sum
                == SpanSum::Refused
            &&& is_letter && scan.part == SpanPart::Unit ==> after == (Scan {
                unit: scan.unit.push(c),
                ..scan
            })
            &&& is_white && scan.part != SpanPart::Unit ==> after == scan
            &&& is_digit && scan.part == SpanPart::Whole && 10 * scan.number + (c as int
                - '0' as int) > u64::MAX ==> after.sum == SpanSum::Refused
            &&& is_digit && scan.part == SpanPart::Fraction && (10 * scan.denominator > u64::MAX
                || 10 * scan.numerator + (c as int - '0' as int) > u64::MAX) ==> after.sum
                == SpanSum::Refused
        }),
{
    lemma_scan_push(text, c);
    if '0' <= c && c <= '9' {
        lemma_digit(c);
    }
}

/// Every bound is shown in seconds: without decimals where it is whole, and otherwise with three,
/// which with the whole seconds stand for the milliseconds shown.
pub proof fn bounds_are_shown_with_three_decimals(number: nat)
    ensures
        number % 1_000 == 0 ==> crate::seconds::millis_text(number) == crate::text::decimal(
            number / 1_000,
        ),
        number % 1_000 != 0 ==> {
            let units = crate::seconds::units_shown(number, 1_000);
            let whole = crate::text::decimal(units / 1_000);
            let part = crate::text::padded(units % 1_000, 3);
            &&& crate::seconds::millis_text(number) == whole + "."@ + part
            &&& crate::text_laws::are_digits(whole)
            &&& crate::text_laws::are_digits(part)
            &&& part.len() == 3
            &&& crate::text_laws::place_value(whole) * 1_000 + crate::text_laws::place_value(part)
                == units
        },
{
    let units = crate::seconds::units_shown(number, 1_000);
    crate::text_laws::decimals_stand_for_their_number(units / 1_000);
    crate::text_laws::padding_keeps_the_last_digits(units % 1_000, 3);
    assert(crate::text_laws::tens(3) == 1_000) by {
        reveal_with_fuel(crate::text_laws::tens, 4);
    }
    assert((units % 1_000) % 1_000 == units % 1_000);
}

} // verus!
