//! Text primitives: white space, trimming, decimal numbers and message building.

use vstd::prelude::*;

verus! {

/// `String::push` appends one character to the end of the string.
pub assume_specification[ String::push ](text: &mut String, c: char)
    ensures
        final(text)@ == old(text)@.push(c),
;

/// The text that Rust's `{:?}` gives for a string: the string between double quotes, with
/// the characters that need it escaped.
pub uninterp spec fn quoted(text: Seq<char>) -> Seq<char>;

/// Calls the `Debug` formatting of `str` through `format!`. The contract says only that the
/// result is a function of the characters of `value`; which characters are escaped, and how,
/// is not stated.
#[verifier::external_body]
pub(crate) fn quote(value: &str) -> (result: String)
    ensures
        result@ == quoted(value@),
{
    format!("{value:?}")
}

/// The characters with the Unicode `White_Space` property.
pub open spec fn is_white_space(c: char) -> bool {
    let code = c as u32;
    ||| 0x09 <= code <= 0x0d
    ||| code == 0x20
    ||| code == 0x85
    ||| code == 0xa0
    ||| code == 0x1680
    ||| 0x2000 <= code <= 0x200a
    ||| code == 0x2028
    ||| code == 0x2029
    ||| code == 0x202f
    ||| code == 0x205f
    ||| code == 0x3000
}

/// Whether `c` is white space.
pub fn is_whitespace(c: char) -> (result: bool)
    ensures
        result == is_white_space(c),
{
    let code: u32 = c as u32;
    (0x09 <= code && code <= 0x0d) || code == 0x20 || code == 0x85 || code == 0xa0 || code == 0x1680
        || (0x2000 <= code && code <= 0x200a) || code == 0x2028 || code == 0x2029 || code == 0x202f
        || code == 0x205f || code == 0x3000
}

/// The characters of `value`, in order.
pub fn chars_of(value: &str) -> (result: Vec<char>)
    ensures
        result@ == value@,
{
    let mut chars: Vec<char> = Vec::new();
    for c in it: value.chars()
        invariant
            chars@ == it.seq().take(it.index() as int),
            it.seq() == value@,
    {
        chars.push(c);
    }
    chars
}

/// The string made of `chars`, in order.
pub fn string_of(chars: &[char]) -> (result: String)
    ensures
        result@ == chars@,
{
    let mut text = String::new();
    let mut i: usize = 0;
    while i < chars.len()
        invariant
            i <= chars@.len(),
            text@ == chars@.take(i as int),
        decreases chars@.len() - i,
    {
        text.push(chars[i]);
        i = i + 1;
    }
    text
}

/// `text` without the white space at its front.
pub open spec fn trimmed_front(text: Seq<char>) -> Seq<char>
    decreases text.len(),
{
    if text.len() > 0 && is_white_space(text[0]) {
        trimmed_front(text.skip(1))
    } else {
        text
    }
}

/// `text` without the white space at its back.
pub open spec fn trimmed_back(text: Seq<char>) -> Seq<char>
    decreases text.len(),
{
    if text.len() > 0 && is_white_space(text.last()) {
        trimmed_back(text.drop_last())
    } else {
        text
    }
}

/// `text` without the white space around it.
pub open spec fn trimmed(text: Seq<char>) -> Seq<char> {
    trimmed_back(trimmed_front(text))
}

/// The part of `chars` that is left when the white space around it is taken off.
pub fn trim(chars: &[char]) -> (result: &[char])
    ensures
        result@ == trimmed(chars@),
{
    let mut start: usize = 0;
    assert(chars@.skip(0) =~= chars@);
    while start < chars.len() && is_whitespace(chars[start])
        invariant
            start <= chars@.len(),
            trimmed_front(chars@) == trimmed_front(chars@.skip(start as int)),
        decreases chars@.len() - start,
    {
        assert(chars@.skip(start as int).skip(1) =~= chars@.skip(start + 1));
        start = start + 1;
    }
    assert(trimmed_front(chars@) == chars@.skip(start as int));
    let mut end: usize = chars.len();
    assert(chars@.subrange(start as int, end as int) =~= chars@.skip(start as int));
    while start < end && is_whitespace(chars[end - 1])
        invariant
            start <= end <= chars@.len(),
            trimmed(chars@) == trimmed_back(chars@.subrange(start as int, end as int)),
        decreases end,
    {
        assert(chars@.subrange(start as int, end as int).drop_last() =~= chars@.subrange(
            start as int,
            end - 1,
        ));
        end = end - 1;
    }
    vstd::slice::slice_subrange(chars, start, end)
}

/// Whether `text` is empty or holds white space only.
pub fn is_blank(text: &str) -> (result: bool)
    ensures
        result == (trimmed(text@).len() == 0),
{
    let chars = chars_of(text);
    trim(chars.as_slice()).len() == 0
}

/// Whether `chars` are the characters of `text`.
pub fn same_text(chars: &[char], text: &str) -> (result: bool)
    ensures
        result == (chars@ == text@),
{
    let other = chars_of(text);
    if chars.len() != other.len() {
        return false;
    }
    let mut i: usize = 0;
    while i < chars.len()
        invariant
            i <= chars@.len(),
            chars@.len() == other@.len(),
            other@ == text@,
            forall|j: int| 0 <= j < i ==> chars@[j] == other@[j],
        decreases chars@.len() - i,
    {
        if chars[i] != other[i] {
            return false;
        }
        i = i + 1;
    }
    assert(chars@ =~= other@);
    true
}

/// `c`, in lower case where it is one of the letters `A` to `Z`.
pub open spec fn ascii_lower(c: char) -> char {
    if 'A' <= c && c <= 'Z' {
        (c as u32 + 32) as char
    } else {
        c
    }
}

/// `text` with the letters `A` to `Z` in lower case.
pub open spec fn lowered(text: Seq<char>) -> Seq<char> {
    text.map_values(|c: char| ascii_lower(c))
}

/// `chars` with the letters `A` to `Z` in lower case.
pub fn to_ascii_lowercase(chars: &[char]) -> (result: Vec<char>)
    ensures
        result@ == lowered(chars@),
{
    let mut lower: Vec<char> = Vec::new();
    let mut i: usize = 0;
    while i < chars.len()
        invariant
            i <= chars@.len(),
            lower@ == lowered(chars@.take(i as int)),
        decreases chars@.len() - i,
    {
        let c = chars[i];
        if 'A' <= c && c <= 'Z' {
            lower.push((c as u8 + 32) as char);
        } else {
            lower.push(c);
        }
        assert(chars@.take(i + 1) =~= chars@.take(i as int).push(c));
        i = i + 1;
    }
    assert(chars@.take(i as int) =~= chars@);
    lower
}

/// The characters of an optional string.
pub open spec fn optional(text: Option<String>) -> Option<Seq<char>> {
    match text {
        Some(text) => Some(text@),
        None => None,
    }
}

/// A copy of an optional string.
pub fn copy_optional(text: &Option<String>) -> (result: Option<String>)
    ensures
        optional(result) == optional(*text),
{
    match text {
        Some(text) => Some(text.clone()),
        None => None,
    }
}

/// Where `needle` stands first in `chars`.
pub fn find_first(chars: &[char], needle: char) -> (result: Option<usize>)
    ensures
        match result {
            Some(index) => chars@.index_of_first(needle) == Some(index as int) && index < chars@.len(),
            None => chars@.index_of_first(needle) is None,
        },
{
    proof {
        chars@.index_of_first_ensures(needle);
    }
    let mut i: usize = 0;
    while i < chars.len()
        invariant
            i <= chars@.len(),
            forall|j: int| 0 <= j < i ==> chars@[j] != needle,
            match chars@.index_of_first(needle) {
                Some(index) => i <= index < chars@.len() && chars@[index] == needle && (forall|j: int|
                    0 <= j < index ==> chars@[j] != needle),
                None => !chars@.contains(needle),
            },
        decreases chars@.len() - i,
    {
        if chars[i] == needle {
            assert(chars@.contains(chars@[i as int]));
            return Some(i);
        }
        i = i + 1;
    }
    None
}

/// Where `needle` stands last in `chars`.
pub fn find_last(chars: &[char], needle: char) -> (result: Option<usize>)
    ensures
        match result {
            Some(index) => chars@.index_of_last(needle) == Some(index as int) && index < chars@.len(),
            None => chars@.index_of_last(needle) is None,
        },
{
    proof {
        chars@.index_of_last_ensures(needle);
    }
    let mut i: usize = chars.len();
    while i > 0
        invariant
            i <= chars@.len(),
            match chars@.index_of_last(needle) {
                Some(index) => index < i && 0 <= index && chars@[index] == needle && (forall|j: int|
                    index < j < chars@.len() ==> chars@[j] != needle),
                None => !chars@.contains(needle),
            },
        decreases i,
    {
        i = i - 1;
        if chars[i] == needle {
            assert(chars@.contains(chars@[i as int]));
            return Some(i);
        }
    }
    None
}

/// The decimal digit for a number below ten.
pub open spec fn digit_char(digit: nat) -> char {
    if digit == 0 {
        '0'
    } else if digit == 1 {
        '1'
    } else if digit == 2 {
        '2'
    } else if digit == 3 {
        '3'
    } else if digit == 4 {
        '4'
    } else if digit == 5 {
        '5'
    } else if digit == 6 {
        '6'
    } else if digit == 7 {
        '7'
    } else if digit == 8 {
        '8'
    } else {
        '9'
    }
}

/// The number that a decimal digit stands for.
pub open spec fn digit_value(c: char) -> Option<nat> {
    if '0' <= c && c <= '9' {
        Some((c as u32 - '0' as u32) as nat)
    } else {
        None
    }
}

/// `number` in decimal, without leading zeros.
pub open spec fn decimal(number: nat) -> Seq<char>
    decreases number,
{
    if number < 10 {
        seq![digit_char(number)]
    } else {
        decimal(number / 10).push(digit_char(number % 10))
    }
}

/// The last `width` decimal digits of `number`, with leading zeros.
pub open spec fn padded(number: nat, width: nat) -> Seq<char>
    decreases width,
{
    if width == 0 {
        Seq::empty()
    } else {
        padded(number / 10, (width - 1) as nat).push(digit_char(number % 10))
    }
}

fn digit_of(digit: u128) -> (result: char)
    requires
        digit < 10,
    ensures
        result == digit_char(digit as nat),
{
    if digit == 0 {
        '0'
    } else if digit == 1 {
        '1'
    } else if digit == 2 {
        '2'
    } else if digit == 3 {
        '3'
    } else if digit == 4 {
        '4'
    } else if digit == 5 {
        '5'
    } else if digit == 6 {
        '6'
    } else if digit == 7 {
        '7'
    } else if digit == 8 {
        '8'
    } else {
        '9'
    }
}

/// Appends `number` in decimal.
pub fn push_decimal(output: &mut String, number: u128)
    ensures
        final(output)@ == old(output)@ + decimal(number as nat),
    decreases number,
{
    if number >= 10 {
        push_decimal(output, number / 10);
    }
    output.push(digit_of(number % 10));
}

/// Appends the last `width` decimal digits of `number`, with leading zeros.
pub fn push_padded(output: &mut String, number: u128, width: usize)
    ensures
        final(output)@ == old(output)@ + padded(number as nat, width as nat),
    decreases width,
{
    if width > 0 {
        push_padded(output, number / 10, width - 1);
        output.push(digit_of(number % 10));
    }
}

/// Why a text is no decimal number of the wanted range.
#[derive(Clone, Copy, Debug, PartialEq, Eq, Structural)]
pub enum NumberError {
    /// There is no character.
    Empty,
    /// A character stands where a digit is expected.
    InvalidDigit,
    /// The number is above the largest one allowed.
    TooLarge,
}

impl NumberError {
    /// The explanation that goes into messages.
    pub open spec fn text(self) -> Seq<char> {
        match self {
            NumberError::Empty => "cannot parse integer from empty string"@,
            NumberError::InvalidDigit => "invalid digit found in string"@,
            NumberError::TooLarge => "number too large to fit in target type"@,
        }
    }

    /// The explanation that goes into messages.
    pub fn message(self) -> (result: &'static str)
        ensures
            result@ == self.text(),
    {
        match self {
            NumberError::Empty => "cannot parse integer from empty string",
            NumberError::InvalidDigit => "invalid digit found in string",
            NumberError::TooLarge => "number too large to fit in target type",
        }
    }
}

/// Reads decimal digits after the digits that stand for `seen`, up to the first character
/// that is no digit or takes the number above `largest`.
pub open spec fn digits_number(text: Seq<char>, seen: nat, largest: nat) -> Result<nat, NumberError>
    decreases text.len(),
{
    if text.len() == 0 {
        Ok(seen)
    } else {
        match digit_value(text[0]) {
            None => Err(NumberError::InvalidDigit),
            Some(digit) => if seen * 10 + digit > largest {
                Err(NumberError::TooLarge)
            } else {
                digits_number(text.skip(1), seen * 10 + digit, largest)
            },
        }
    }
}

/// The number that `text` writes in decimal: an optional `+`, then one or more digits.
pub open spec fn number(text: Seq<char>, largest: nat) -> Result<nat, NumberError> {
    if text.len() == 0 {
        Err(NumberError::Empty)
    } else if text[0] == '+' {
        if text.len() == 1 {
            Err(NumberError::InvalidDigit)
        } else {
            digits_number(text.skip(1), 0, largest)
        }
    } else {
        digits_number(text, 0, largest)
    }
}

/// Digits that are read make a number within the bound.
proof fn lemma_digits_bound(text: Seq<char>, seen: nat, largest: nat)
    requires
        seen <= largest,
    ensures
        digits_number(text, seen, largest) matches Ok(value) ==> value <= largest,
    decreases text.len(),
{
    if text.len() > 0 {
        if let Some(digit) = digit_value(text[0]) {
            if seen * 10 + digit <= largest {
                lemma_digits_bound(text.skip(1), seen * 10 + digit, largest);
            }
        }
    }
}

/// A number that is read is within the bound.
pub proof fn lemma_number_bound(text: Seq<char>, largest: nat)
    ensures
        number(text, largest) matches Ok(value) ==> value <= largest,
{
    lemma_digits_bound(text, 0, largest);
    lemma_digits_bound(text.skip(1), 0, largest);
}

/// Reading one digit more.
proof fn lemma_digits_push(text: Seq<char>, last: nat, seen: nat, largest: nat)
    requires
        last < 10,
    ensures
        digits_number(text.push(digit_char(last)), seen, largest) == (match digits_number(
            text,
            seen,
            largest,
        ) {
            Ok(value) => if value * 10 + last > largest {
                Err(NumberError::TooLarge)
            } else {
                Ok((value * 10 + last) as nat)
            },
            Err(error) => Err(error),
        }),
    decreases text.len(),
{
    let longer = text.push(digit_char(last));
    if text.len() == 0 {
        assert(longer.skip(1) =~= Seq::<char>::empty());
        assert(digits_number(longer.skip(1), seen * 10 + last, largest) == Ok::<nat, NumberError>(
            seen * 10 + last,
        ));
    } else {
        assert(longer.skip(1) =~= text.skip(1).push(digit_char(last)));
        if let Some(digit) = digit_value(text[0]) {
            lemma_digits_push(text.skip(1), last, seen * 10 + digit, largest);
        }
    }
}

/// A decimal text starts with a digit and holds digits only.
pub proof fn lemma_decimal_digits(value: nat)
    ensures
        decimal(value).len() > 0,
        forall|i: int| 0 <= i < decimal(value).len() ==> '0' <= #[trigger] decimal(value)[i] <= '9',
    decreases value,
{
    if value >= 10 {
        lemma_decimal_digits(value / 10);
    }
}

/// Padded digits are digits only.
pub proof fn lemma_padded_digits(value: nat, width: nat)
    ensures
        padded(value, width).len() == width,
        forall|i: int| 0 <= i < width ==> '0' <= #[trigger] padded(value, width)[i] <= '9',
    decreases width,
{
    if width > 0 {
        lemma_padded_digits(value / 10, (width - 1) as nat);
    }
}

proof fn lemma_digits_read_back(value: nat, largest: nat)
    requires
        value <= largest,
    ensures
        digits_number(decimal(value), 0, largest) == Ok::<nat, NumberError>(value),
    decreases value,
{
    if value < 10 {
        assert(decimal(value) =~= Seq::<char>::empty().push(digit_char(value)));
        lemma_digits_push(Seq::empty(), value, 0, largest);
    } else {
        lemma_digits_read_back(value / 10, largest);
        lemma_digits_push(decimal(value / 10), value % 10, 0, largest);
    }
}

/// A number in decimal reads back as that number.
pub proof fn decimal_reads_back(value: nat, largest: nat)
    requires
        value <= largest,
    ensures
        number(decimal(value), largest) == Ok::<nat, NumberError>(value),
{
    lemma_decimal_digits(value);
    lemma_digits_read_back(value, largest);
}

/// A text without white space at its ends is not trimmed.
pub proof fn lemma_trimmed_same(text: Seq<char>)
    requires
        text.len() > 0,
        !is_white_space(text[0]),
        !is_white_space(text.last()),
    ensures
        trimmed(text) == text,
{
}

/// Reads an unsigned decimal number of at most `largest`.
pub fn parse_number(text: &[char], largest: u64) -> (result: Result<u64, NumberError>)
    ensures
        match result {
            Ok(value) => number(text@, largest as nat) == Ok::<nat, NumberError>(value as nat),
            Err(error) => number(text@, largest as nat) == Err::<nat, NumberError>(error),
        },
{
    if text.len() == 0 {
        return Err(NumberError::Empty);
    }
    let mut i: usize = 0;
    if text[0] == '+' {
        if text.len() == 1 {
            return Err(NumberError::InvalidDigit);
        }
        i = 1;
    }
    let mut value: u64 = 0;
    assert(text@.skip(0) =~= text@);
    while i < text.len()
        invariant
            i <= text@.len(),
            number(text@, largest as nat) == digits_number(
                text@.skip(i as int),
                value as nat,
                largest as nat,
            ),
        decreases text@.len() - i,
    {
        let c = text[i];
        if c < '0' || c > '9' {
            return Err(NumberError::InvalidDigit);
        }
        let digit: u32 = c as u32 - '0' as u32;
        let next: u128 = value as u128 * 10 + digit as u128;
        if next > largest as u128 {
            return Err(NumberError::TooLarge);
        }
        assert(text@.skip(i as int).skip(1) =~= text@.skip(i + 1));
        value = next as u64;
        i = i + 1;
    }
    Ok(value)
}

} // verus!
