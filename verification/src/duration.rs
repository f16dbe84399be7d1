//! Spans of time, and the texts that administrators write them in.

use vstd::prelude::*;

use crate::text::{chars_of, same_text};

verus! {

/// Nanoseconds in a second.
pub const NANOS_PER_SECOND: u32 = 1_000_000_000;

/// A span of time, in whole seconds and the nanoseconds beyond them.
#[derive(Clone, Copy, Debug, PartialEq, Eq, Structural)]
pub struct Duration {
    seconds: u64,
    nanos: u32,
}

impl Duration {
    /// The whole seconds of the span.
    pub closed spec fn seconds(self) -> nat {
        self.seconds as nat
    }

    /// The nanoseconds beyond the whole seconds.
    pub closed spec fn nanos(self) -> nat {
        self.nanos as nat
    }

    /// The span in nanoseconds.
    pub open spec fn total_nanos(self) -> nat {
        self.seconds() * 1_000_000_000 + self.nanos()
    }

    /// The nanoseconds beyond the whole seconds make less than a second.
    pub open spec fn wf(self) -> bool {
        self.nanos() < 1_000_000_000
    }

    /// The span of `seconds` whole seconds and `nanos` nanoseconds.
    pub closed spec fn spec_new(seconds: u64, nanos: u32) -> Self {
        Duration { seconds, nanos }
    }

    /// The span of `seconds` whole seconds and `nanos` nanoseconds.
    pub fn new(seconds: u64, nanos: u32) -> (result: Duration)
        requires
            nanos < NANOS_PER_SECOND,
        ensures
            result == Duration::spec_new(seconds, nanos),
            result.seconds() == seconds,
            result.nanos() == nanos,
            result.wf(),
    {
        Duration { seconds, nanos }
    }

    /// The span of `seconds` seconds.
    pub fn from_secs(seconds: u64) -> (result: Duration)
        ensures
            result == Duration::spec_new(seconds, 0),
            result.seconds() == seconds,
            result.nanos() == 0,
            result.wf(),
    {
        Duration { seconds, nanos: 0 }
    }

    /// The span of `millis` milliseconds.
    pub fn from_millis(millis: u64) -> (result: Duration)
        ensures
            result == Duration::spec_new(
                millis / 1_000,
                ((millis % 1_000) * 1_000_000) as u32,
            ),
            result.total_nanos() == millis * 1_000_000,
            result.wf(),
    {
        Duration { seconds: millis / 1_000, nanos: (millis % 1_000) as u32 * 1_000_000 }
    }

    /// The whole seconds of the span.
    pub fn as_secs(&self) -> (result: u64)
        ensures
            result == self.seconds(),
    {
        self.seconds
    }

    /// The nanoseconds beyond the whole seconds.
    pub fn subsec_nanos(&self) -> (result: u32)
        ensures
            result == self.nanos(),
    {
        self.nanos
    }

    /// Whether the span is empty.
    pub fn is_zero(&self) -> (result: bool)
        ensures
            result == (self.total_nanos() == 0),
    {
        self.seconds == 0 && self.nanos == 0
    }

    /// The span in whole milliseconds.
    pub fn as_millis(&self) -> (result: u128)
        ensures
            result == self.total_nanos() / 1_000_000,
    {
        self.seconds as u128 * 1_000 + self.nanos as u128 / 1_000_000
    }

    /// The span in whole microseconds.
    pub fn as_micros(&self) -> (result: u128)
        ensures
            result == self.total_nanos() / 1_000,
    {
        self.seconds as u128 * 1_000_000 + self.nanos as u128 / 1_000
    }
}

/// The parts of a span made of whole seconds and nanoseconds.
pub proof fn lemma_new_parts(seconds: u64, nanos: u32)
    ensures
        Duration::spec_new(seconds, nanos).seconds() == seconds,
        Duration::spec_new(seconds, nanos).nanos() == nanos,
{
}

/// The sum of time spans.
#[derive(Clone, Copy, Debug, PartialEq, Eq, Structural)]
pub enum SpanSum {
    /// The spans so far make this many seconds, and this many nanoseconds beyond them.
    Total {
        seconds: u64,
        nanos: u64,
    },
    /// The text is refused at this point, or the spans make too many seconds.
    Refused,
    /// The nanoseconds make one more second than 64 bits hold.
    Carried,
}

/// A sum of spans and one more, of `more_seconds` seconds and `more_nanos` nanoseconds. Whole
/// seconds among the nanoseconds are carried over at once, except for a single one, which is
/// left to the making of the duration.
pub open spec fn plus(seconds: nat, nanos: nat, more_seconds: nat, more_nanos: nat) -> SpanSum {
    let fine = nanos + more_nanos;
    let carry: nat = if fine > 1_000_000_000 {
        fine / 1_000_000_000
    } else {
        0
    };
    let rest: nat = if fine > 1_000_000_000 {
        fine % 1_000_000_000
    } else {
        fine
    };
    let whole = seconds + more_seconds + carry;
    if fine > u64::MAX || whole > u64::MAX {
        SpanSum::Refused
    } else if rest < 1_000_000_000 {
        SpanSum::Total { seconds: whole as u64, nanos: rest as u64 }
    } else if whole < u64::MAX {
        SpanSum::Total { seconds: (whole + 1) as u64, nanos: 0 }
    } else {
        SpanSum::Carried
    }
}

/// The weight of a unit: the seconds and the nanoseconds that a whole number of it counts in,
/// and those that a decimal fraction of it counts in.
pub struct UnitWeight {
    pub seconds: u64,
    pub nanos: u64,
    pub part_seconds: u64,
    pub part_nanos: u64,
}

/// A unit of whole seconds whose fractions are whole seconds too.
pub open spec fn long_unit(seconds: u64) -> UnitWeight {
    UnitWeight { seconds, nanos: 0, part_seconds: seconds, part_nanos: 0 }
}

/// The unit that a word names.
pub open spec fn unit_weight(word: Seq<char>) -> Option<UnitWeight> {
    if word == "nanos"@ || word == "nsec"@ || word == "ns"@ {
        Some(UnitWeight { seconds: 0, nanos: 1, part_seconds: 0, part_nanos: 0 })
    } else if word == "usec"@ || word == "us"@ || word == "\u{b5}s"@ {
        Some(UnitWeight { seconds: 0, nanos: 1_000, part_seconds: 0, part_nanos: 1_000 })
    } else if word == "millis"@ || word == "msec"@ || word == "ms"@ {
        Some(UnitWeight { seconds: 0, nanos: 1_000_000, part_seconds: 0, part_nanos: 1_000_000 })
    } else if word == "seconds"@ || word == "second"@ || word == "secs"@ || word == "sec"@ || word
        == "s"@ {
        Some(UnitWeight { seconds: 1, nanos: 0, part_seconds: 0, part_nanos: 1_000_000_000 })
    } else if word == "minutes"@ || word == "minute"@ || word == "min"@ || word == "mins"@ || word
        == "m"@ {
        Some(UnitWeight { seconds: 60, nanos: 0, part_seconds: 0, part_nanos: 60_000_000_000 })
    } else if word == "hours"@ || word == "hour"@ || word == "hr"@ || word == "hrs"@ || word
        == "h"@ {
        Some(long_unit(3_600))
    } else if word == "days"@ || word == "day"@ || word == "d"@ {
        Some(long_unit(86_400))
    } else if word == "weeks"@ || word == "week"@ || word == "wk"@ || word == "wks"@ || word
        == "w"@ {
        Some(long_unit(604_800))
    } else if word == "months"@ || word == "month"@ || word == "M"@ {
        Some(long_unit(2_630_016))
    } else if word == "years"@ || word == "year"@ || word == "yr"@ || word == "yrs"@ || word
        == "y"@ {
        Some(long_unit(31_557_600))
    } else {
        None
    }
}

/// A sum of spans and one more, of `number` units and the fraction `numerator / denominator` of
/// one. The denominator is zero where no fraction is written.
pub open spec fn plus_span(
    seconds: nat,
    nanos: nat,
    number: nat,
    numerator: nat,
    denominator: nat,
    weight: UnitWeight,
) -> SpanSum {
    if number * weight.seconds > u64::MAX || number * weight.nanos > u64::MAX {
        SpanSum::Refused
    } else {
        match plus(seconds, nanos, number * weight.seconds as nat, number * weight.nanos as nat) {
            SpanSum::Total { seconds, nanos } => if denominator == 0 {
                SpanSum::Total { seconds, nanos }
            } else {
                let part_seconds = numerator * weight.part_seconds as nat;
                let part_nanos = numerator * weight.part_nanos as nat;
                if (weight.part_seconds == 0 && weight.part_nanos == 0) || part_seconds > u64::MAX
                    || part_nanos > u64::MAX || part_seconds % denominator != 0 || part_nanos
                    % denominator != 0 {
                    SpanSum::Refused
                } else {
                    plus(
                        seconds as nat,
                        nanos as nat,
                        part_seconds / denominator,
                        part_nanos / denominator,
                    )
                }
            },
            other => other,
        }
    }
}

/// What of a time span is being read.
#[derive(Clone, Copy, Debug, PartialEq, Eq, Structural)]
pub enum SpanPart {
    /// Nothing: the next span has not started.
    Gap,
    /// The digits of its number.
    Whole,
    /// The digits behind its decimal point.
    Fraction,
    /// The letters of its unit.
    Unit,
}

/// What was seen of a text of time spans.
pub struct Scan {
    pub part: SpanPart,
    /// The number of the span.
    pub number: nat,
    /// The fraction of the span; the denominator is zero where no fraction is written.
    pub numerator: nat,
    pub denominator: nat,
    /// The letters of its unit.
    pub unit: Seq<char>,
    /// The sum of the spans before it.
    pub sum: SpanSum,
}

/// A letter that units are made of.
pub open spec fn is_unit_letter(c: char) -> bool {
    ('a' <= c && c <= 'z') || ('A' <= c && c <= 'Z') || c == '\u{b5}'
}

/// The sum with the span whose unit was read.
pub open spec fn span_end(scan: Scan) -> SpanSum {
    match scan.sum {
        SpanSum::Total { seconds, nanos } => match unit_weight(scan.unit) {
            Some(weight) => plus_span(
                seconds as nat,
                nanos as nat,
                scan.number,
                scan.numerator,
                scan.denominator,
                weight,
            ),
            None => SpanSum::Refused,
        },
        other => other,
    }
}

/// The state after a digit.
pub open spec fn scan_digit(scan: Scan, digit: nat) -> Scan {
    match scan.part {
        SpanPart::Gap => Scan { part: SpanPart::Whole, number: digit, denominator: 0, ..scan },
        SpanPart::Whole => if scan.number * 10 + digit > u64::MAX {
            Scan { sum: SpanSum::Refused, ..scan }
        } else {
            Scan { number: scan.number * 10 + digit, ..scan }
        },
        SpanPart::Fraction => if scan.denominator * 10 > u64::MAX || scan.numerator * 10 + digit
            > u64::MAX {
            Scan { sum: SpanSum::Refused, ..scan }
        } else {
            Scan {
                numerator: scan.numerator * 10 + digit,
                denominator: scan.denominator * 10,
                ..scan
            }
        },
        SpanPart::Unit => Scan {
            part: SpanPart::Whole,
            number: digit,
            denominator: 0,
            sum: span_end(scan),
            ..scan
        },
    }
}

/// The state after a letter of a unit.
pub open spec fn scan_letter(scan: Scan, letter: char) -> Scan {
    match scan.part {
        SpanPart::Gap => Scan { sum: SpanSum::Refused, ..scan },
        SpanPart::Whole => Scan { part: SpanPart::Unit, unit: seq![letter], ..scan },
        SpanPart::Fraction => if scan.denominator == 1 {
            Scan { sum: SpanSum::Refused, ..scan }
        } else {
            Scan { part: SpanPart::Unit, unit: seq![letter], ..scan }
        },
        SpanPart::Unit => Scan { unit: scan.unit.push(letter), ..scan },
    }
}

/// The state after the character `c`.
pub open spec fn scan_char(scan: Scan, c: char) -> Scan {
    if !(scan.sum is Total) {
        scan
    } else if crate::text::is_white_space(c) {
        if scan.part == SpanPart::Unit {
            Scan { part: SpanPart::Gap, sum: span_end(scan), ..scan }
        } else {
            scan
        }
    } else if c == '.' && scan.part == SpanPart::Whole {
        Scan { part: SpanPart::Fraction, numerator: 0, denominator: 1, ..scan }
    } else if is_unit_letter(c) {
        scan_letter(scan, c)
    } else {
        match crate::text::digit_value(c) {
            Some(digit) => scan_digit(scan, digit),
            None => Scan { sum: SpanSum::Refused, ..scan },
        }
    }
}

/// The state after the first `count` characters of `text`.
pub open spec fn scan_text(text: Seq<char>, count: nat) -> Scan
    decreases count,
{
    if count == 0 {
        Scan {
            part: SpanPart::Gap,
            number: 0,
            numerator: 0,
            denominator: 0,
            unit: Seq::empty(),
            sum: SpanSum::Total { seconds: 0, nanos: 0 },
        }
    } else {
        scan_char(scan_text(text, (count - 1) as nat), text[count - 1])
    }
}

/// No nanoseconds of the time spans in `text` make one more second than 64 bits hold. Such a
/// text has no duration, and reading it does not end in an error either.
pub open spec fn bounded(text: Seq<char>) -> bool {
    let end = scan_text(text, text.len());
    if end.part == SpanPart::Unit {
        span_end(end) != SpanSum::Carried
    } else {
        end.sum != SpanSum::Carried
    }
}

fn add_spans(seconds: u64, nanos: u64, more_seconds: u64, more_nanos: u64) -> (result: SpanSum)
    ensures
        result == plus(
            seconds as nat,
            nanos as nat,
            more_seconds as nat,
            more_nanos as nat,
        ),
{
    let fine: u128 = nanos as u128 + more_nanos as u128;
    let mut carry: u128 = 0;
    let mut rest: u128 = fine;
    if fine > 1_000_000_000 {
        carry = fine / 1_000_000_000;
        rest = fine % 1_000_000_000;
    }
    let whole: u128 = seconds as u128 + more_seconds as u128 + carry;
    if fine > u64::MAX as u128 || whole > u64::MAX as u128 {
        SpanSum::Refused
    } else if rest < 1_000_000_000 {
        SpanSum::Total { seconds: whole as u64, nanos: rest as u64 }
    } else if whole < u64::MAX as u128 {
        SpanSum::Total { seconds: whole as u64 + 1, nanos: 0 }
    } else {
        SpanSum::Carried
    }
}

fn find_unit(word: &[char]) -> (result: Option<UnitWeight>)
    ensures
        result == unit_weight(word@),
{
    if same_text(word, "nanos") || same_text(word, "nsec") || same_text(word, "ns") {
        Some(UnitWeight { seconds: 0, nanos: 1, part_seconds: 0, part_nanos: 0 })
    } else if same_text(word, "usec") || same_text(word, "us") || same_text(word, "\u{b5}s") {
        Some(UnitWeight { seconds: 0, nanos: 1_000, part_seconds: 0, part_nanos: 1_000 })
    } else if same_text(word, "millis") || same_text(word, "msec") || same_text(word, "ms") {
        Some(UnitWeight { seconds: 0, nanos: 1_000_000, part_seconds: 0, part_nanos: 1_000_000 })
    } else if same_text(word, "seconds") || same_text(word, "second") || same_text(word, "secs")
        || same_text(word, "sec") || same_text(word, "s") {
        Some(UnitWeight { seconds: 1, nanos: 0, part_seconds: 0, part_nanos: 1_000_000_000 })
    } else if same_text(word, "minutes") || same_text(word, "minute") || same_text(word, "min")
        || same_text(word, "mins") || same_text(word, "m") {
        Some(UnitWeight { seconds: 60, nanos: 0, part_seconds: 0, part_nanos: 60_000_000_000 })
    } else if same_text(word, "hours") || same_text(word, "hour") || same_text(word, "hr")
        || same_text(word, "hrs") || same_text(word, "h") {
        Some(make_long_unit(3_600))
    } else if same_text(word, "days") || same_text(word, "day") || same_text(word, "d") {
        Some(make_long_unit(86_400))
    } else if same_text(word, "weeks") || same_text(word, "week") || same_text(word, "wk")
        || same_text(word, "wks") || same_text(word, "w") {
        Some(make_long_unit(604_800))
    } else if same_text(word, "months") || same_text(word, "month") || same_text(word, "M") {
        Some(make_long_unit(2_630_016))
    } else if same_text(word, "years") || same_text(word, "year") || same_text(word, "yr")
        || same_text(word, "yrs") || same_text(word, "y") {
        Some(make_long_unit(31_557_600))
    } else {
        None
    }
}

fn make_long_unit(seconds: u64) -> (result: UnitWeight)
    ensures
        result == long_unit(seconds),
{
    UnitWeight { seconds, nanos: 0, part_seconds: seconds, part_nanos: 0 }
}

fn weigh(number: u64, weight: u64) -> (result: Option<u64>)
    ensures
        match result {
            Some(product) => product == number * weight,
            None => number * weight > u64::MAX,
        },
{
    number.checked_mul(weight)
}

fn add_span(
    seconds: u64,
    nanos: u64,
    number: u64,
    numerator: u64,
    denominator: u64,
    weight: UnitWeight,
) -> (result: SpanSum)
    ensures
        result == plus_span(
            seconds as nat,
            nanos as nat,
            number as nat,
            numerator as nat,
            denominator as nat,
            weight,
        ),
{
    let whole = match (weigh(number, weight.seconds), weigh(number, weight.nanos)) {
        (Some(more_seconds), Some(more_nanos)) => add_spans(
            seconds,
            nanos,
            more_seconds,
            more_nanos,
        ),
        _ => SpanSum::Refused,
    };
    match whole {
        SpanSum::Total { seconds, nanos } => {
            if denominator == 0 {
                return whole;
            }
            if weight.part_seconds == 0 && weight.part_nanos == 0 {
                return SpanSum::Refused;
            }
            match (weigh(numerator, weight.part_seconds), weigh(numerator, weight.part_nanos)) {
                (Some(part_seconds), Some(part_nanos)) => {
                    if part_seconds % denominator != 0 || part_nanos % denominator != 0 {
                        SpanSum::Refused
                    } else {
                        add_spans(
                            seconds,
                            nanos,
                            part_seconds / denominator,
                            part_nanos / denominator,
                        )
                    }
                },
                _ => SpanSum::Refused,
            }
        },
        other => other,
    }
}

fn end_span(
    sum: SpanSum,
    number: u64,
    numerator: u64,
    denominator: u64,
    unit: &[char],
) -> (result: SpanSum)
    ensures
        result == span_end(
            (Scan {
                part: SpanPart::Unit,
                number: number as nat,
                numerator: numerator as nat,
                denominator: denominator as nat,
                unit: unit@,
                sum,
            }),
        ),
{
    match sum {
        SpanSum::Total { seconds, nanos } => match find_unit(unit) {
            Some(weight) => add_span(seconds, nanos, number, numerator, denominator, weight),
            None => SpanSum::Refused,
        },
        other => other,
    }
}

/// Whether no nanoseconds of the time spans in `value` make one more second than 64 bits hold.
pub fn duration_is_bounded(value: &str) -> (result: bool)
    ensures
        result == bounded(value@),
{
    let chars = chars_of(value);
    let mut part = SpanPart::Gap;
    let mut number: u64 = 0;
    let mut numerator: u64 = 0;
    let mut denominator: u64 = 0;
    let mut unit: Vec<char> = Vec::new();
    let mut sum = SpanSum::Total { seconds: 0, nanos: 0 };
    let mut i: usize = 0;
    while i < chars.len()
        invariant
            chars@ == value@,
            i <= chars@.len(),
            scan_text(value@, i as nat) == (Scan {
                part,
                number: number as nat,
                numerator: numerator as nat,
                denominator: denominator as nat,
                unit: unit@,
                sum,
            }),
        decreases chars@.len() - i,
    {
        let c = chars[i];
        let ghost before = scan_text(value@, i as nat);
        assert(scan_text(value@, (i + 1) as nat) == scan_char(before, c));
        i = i + 1;
        let going = match sum {
            SpanSum::Total { .. } => true,
            _ => false,
        };
        if !going {
        } else if crate::text::is_whitespace(c) {
            if part == SpanPart::Unit {
                sum = end_span(sum, number, numerator, denominator, unit.as_slice());
                part = SpanPart::Gap;
            }
        } else if c == '.' && part == SpanPart::Whole {
            part = SpanPart::Fraction;
            numerator = 0;
            denominator = 1;
        } else if ('a' <= c && c <= 'z') || ('A' <= c && c <= 'Z') || c == '\u{b5}' {
            if part == SpanPart::Gap || (part == SpanPart::Fraction && denominator == 1) {
                sum = SpanSum::Refused;
            } else if part == SpanPart::Unit {
                unit.push(c);
            } else {
                unit = Vec::new();
                unit.push(c);
                assert(unit@ =~= seq![c]);
                part = SpanPart::Unit;
            }
        } else if '0' <= c && c <= '9' {
            let digit: u64 = (c as u32 - '0' as u32) as u64;
            match part {
                SpanPart::Gap => {
                    part = SpanPart::Whole;
                    number = digit;
                    denominator = 0;
                },
                SpanPart::Whole => {
                    let wide: u128 = number as u128 * 10 + digit as u128;
                    if wide > u64::MAX as u128 {
                        sum = SpanSum::Refused;
                    } else {
                        number = wide as u64;
                    }
                },
                SpanPart::Fraction => {
                    let top: u128 = numerator as u128 * 10 + digit as u128;
                    let bottom: u128 = denominator as u128 * 10;
                    if bottom > u64::MAX as u128 || top > u64::MAX as u128 {
                        sum = SpanSum::Refused;
                    } else {
                        numerator = top as u64;
                        denominator = bottom as u64;
                    }
                },
                SpanPart::Unit => {
                    sum = end_span(sum, number, numerator, denominator, unit.as_slice());
                    part = SpanPart::Whole;
                    number = digit;
                    denominator = 0;
                },
            }
        } else {
            sum = SpanSum::Refused;
        }
    }
    if part == SpanPart::Unit {
        sum = end_span(sum, number, numerator, denominator, unit.as_slice());
    }
    match sum {
        SpanSum::Carried => false,
        _ => true,
    }
}

/// What `humantime::parse_duration` reads in a text: the whole seconds and the nanoseconds
/// beyond them, or the explanation of why it refuses the text.
pub uninterp spec fn read_duration(text: Seq<char>) -> Result<(u64, u32), Seq<char>>;

/// Calls `humantime::parse_duration`. The result is a function of the characters of `value`:
/// the two parts of the duration, the second below one billion, or the text of the error.
/// Which texts it takes, and for which durations, is not stated. It panics exactly where the
/// nanoseconds make one more second than 64 bits hold, which `bounded` rules out.
#[verifier::external_body]
fn humantime_duration(value: &str) -> (result: Result<(u64, u32), String>)
    requires
        bounded(value@),
    ensures
        match result {
            Ok(parts) => read_duration(value@) == Ok::<(u64, u32), Seq<char>>(parts) && parts.1
                < 1_000_000_000,
            Err(message) => read_duration(value@) == Err::<(u64, u32), Seq<char>>(message@),
        },
{
    match humantime::parse_duration(value) {
        Ok(duration) => Ok((duration.as_secs(), duration.subsec_nanos())),
        Err(error) => Err(error.to_string()),
    }
}

/// The duration that a reading of a text gives.
pub open spec fn duration_of(reading: Result<(u64, u32), Seq<char>>) -> Result<
    Duration,
    Seq<char>,
> {
    match reading {
        Ok(parts) => Ok(Duration::spec_new(parts.0, parts.1)),
        Err(message) => Err(message),
    }
}

/// The duration that a text writes, or the explanation of why it writes none.
pub open spec fn duration_in(text: Seq<char>) -> Result<Duration, Seq<char>> {
    if bounded(text) {
        duration_of(read_duration(text))
    } else {
        Err("duration is out of range"@)
    }
}

/// Reads a duration such as `1500ms` or `2h 37min`.
pub fn parse_duration(value: &str) -> (result: Result<Duration, String>)
    ensures
        match result {
            Ok(duration) => duration_in(value@) == Ok::<Duration, Seq<char>>(duration)
                && duration.wf(),
            Err(message) => duration_in(value@) == Err::<Duration, Seq<char>>(message@),
        },
{
    if !duration_is_bounded(value) {
        return Err("duration is out of range".to_owned());
    }
    match humantime_duration(value) {
        Ok(parts) => Ok(Duration::new(parts.0, parts.1)),
        Err(message) => Err(message),
    }
}

} // verus!
