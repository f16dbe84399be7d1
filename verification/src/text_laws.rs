//! What trimming, lower case and numbers mean.

use vstd::prelude::*;

use crate::text::NumberError;

verus! {

proof fn lemma_trimmed_front(text: Seq<char>) -> (start: int)
    ensures
        0 <= start <= text.len(),
        crate::text::trimmed_front(text) == text.skip(start),
        forall|i: int| 0 <= i < start ==> crate::text::is_white_space(#[trigger] text[i]),
        start < text.len() ==> !crate::text::is_white_space(text[start]),
    decreases text.len(),
{
    if text.len() > 0 && crate::text::is_white_space(text[0]) {
        let rest = lemma_trimmed_front(text.skip(1));
        assert(text.skip(1).skip(rest) =~= text.skip(rest + 1));
        assert forall|i: int| 0 <= i < rest + 1 implies crate::text::is_white_space(
            #[trigger] text[i],
        ) by {
            if i > 0 {
                assert(text[i] == text.skip(1)[i - 1]);
            }
        }
        rest + 1
    } else {
        assert(text.skip(0) =~= text);
        0
    }
}

proof fn lemma_trimmed_back(text: Seq<char>) -> (end: int)
    ensures
        0 <= end <= text.len(),
        crate::text::trimmed_back(text) == text.take(end),
        forall|i: int| end <= i < text.len() ==> crate::text::is_white_space(#[trigger] text[i]),
        end > 0 ==> !crate::text::is_white_space(text[end - 1]),
    decreases text.len(),
{
    if text.len() > 0 && crate::text::is_white_space(text.last()) {
        let end = lemma_trimmed_back(text.drop_last());
        assert(text.drop_last().take(end) =~= text.take(end));
        assert forall|i: int| end <= i < text.len() implies crate::text::is_white_space(
            #[trigger] text[i],
        ) by {
            if i < text.len() - 1 {
                assert(text[i] == text.drop_last()[i]);
            }
        }
        end
    } else {
        assert(text.take(text.len() as int) =~= text);
        text.len() as int
    }
}

/// Trimming leaves a text that starts and ends with something else than white space, and takes
/// off white space only; all of it where there is nothing else.
pub proof fn trimming_takes_white_space_only(text: Seq<char>)
    ensures
        exists|start: int, end: int|
            0 <= start <= end <= text.len() && crate::text::trimmed(text) == #[trigger] text.subrange(
                start,
                end,
            ) && (forall|i: int|
                0 <= i < start || end <= i < text.len() ==> crate::text::is_white_space(
                    #[trigger] text[i],
                )),
        crate::text::trimmed(text).len() > 0 ==> !crate::text::is_white_space(
            crate::text::trimmed(text)[0],
        ) && !crate::text::is_white_space(crate::text::trimmed(text).last()),
        crate::text::trimmed(text).len() == 0 <==> forall|i: int|
            0 <= i < text.len() ==> crate::text::is_white_space(#[trigger] text[i]),
{
    let start = lemma_trimmed_front(text);
    let front = text.skip(start);
    let end = lemma_trimmed_back(front);
    assert(front.take(end) =~= text.subrange(start, start + end));
    assert forall|i: int| 0 <= i < start || start + end <= i < text.len() implies crate::text::is_white_space(
        #[trigger] text[i],
    ) by {
        if i >= start + end {
            assert(text[i] == front[i - start]);
        }
    }
    if crate::text::trimmed(text).len() > 0 {
        assert(!crate::text::is_white_space(front[end - 1]));
        assert(start < text.len());
        assert(!crate::text::is_white_space(text[start]));
    }
}

/// Trimming a text that has white space only around something else leaves exactly that.
pub proof fn trimming_leaves_what_is_between(text: Seq<char>, start: int, end: int)
    requires
        0 <= start < end <= text.len(),
        !crate::text::is_white_space(text[start]),
        !crate::text::is_white_space(text[end - 1]),
        forall|i: int|
            0 <= i < start || end <= i < text.len() ==> crate::text::is_white_space(
                #[trigger] text[i],
            ),
    ensures
        crate::text::trimmed(text) == text.subrange(start, end),
{
    trimming_takes_white_space_only(text);
    let (first, last) = choose|first: int, last: int|
        0 <= first <= last <= text.len() && crate::text::trimmed(text) == #[trigger] text.subrange(
            first,
            last,
        ) && (forall|i: int|
            0 <= i < first || last <= i < text.len() ==> crate::text::is_white_space(
                #[trigger] text[i],
            ));
    let left = text.subrange(first, last);
    assert(crate::text::trimmed(text).len() > 0);
    assert(left[0] == text[first]);
    assert(left.last() == text[last - 1]);
    assert(first == start);
    assert(last == end);
}

/// White space is what Unicode calls so: tab to carriage return, the space, and the other breaks
/// and blanks.
pub proof fn white_space_is_that_of_unicode(c: char)
    ensures
        crate::text::is_white_space(c) <==> {
            ||| c == ' ' || c == '\t' || c == '\n' || c == '\u{b}' || c == '\u{c}' || c == '\r'
            ||| c == '\u{85}' || c == '\u{a0}' || c == '\u{1680}'
            ||| '\u{2000}' <= c && c <= '\u{200a}'
            ||| c == '\u{2028}' || c == '\u{2029}' || c == '\u{202f}' || c == '\u{205f}'
            ||| c == '\u{3000}'
        },
{
}

/// The texts are the same but for the case of the letters `A` to `Z` in the first.
pub open spec fn is_spelled(text: Seq<char>, word: Seq<char>) -> bool {
    &&& text.len() == word.len()
    &&& forall|i: int|
        0 <= i < text.len() ==> (#[trigger] text[i]) as int == word[i] as int || ('A' <= text[i]
            && text[i] <= 'Z' && text[i] as int + 32 == word[i] as int)
}

/// The word, in any case, stands in the text with nothing around it but white space.
pub open spec fn is_word_in(text: Seq<char>, word: Seq<char>) -> bool {
    exists|start: int, end: int|
        0 <= start <= end <= text.len() && is_spelled(#[trigger] text.subrange(start, end), word)
            && (forall|i: int|
            0 <= i < start || end <= i < text.len() ==> crate::text::is_white_space(
                #[trigger] text[i],
            ))
}

/// A word of small letters is what a text says, trimmed and in lower case, exactly where the word
/// stands in it, in any case, with nothing but white space around it.
pub proof fn words_are_read_in_any_case(text: Seq<char>, word: Seq<char>)
    requires
        word.len() > 0,
        forall|i: int| 0 <= i < word.len() ==> 'a' <= #[trigger] word[i] && word[i] <= 'z',
    ensures
        crate::text::lowered(crate::text::trimmed(text)) == word <==> is_word_in(text, word),
{
    let trimmed = crate::text::trimmed(text);
    lower_case_changes_letters_only(trimmed);
    if crate::text::lowered(trimmed) == word {
        trimming_takes_white_space_only(text);
        let (start, end) = choose|start: int, end: int|
            0 <= start <= end <= text.len() && trimmed == #[trigger] text.subrange(start, end) && (
            forall|i: int|
                0 <= i < start || end <= i < text.len() ==> crate::text::is_white_space(
                    #[trigger] text[i],
                ));
        assert forall|i: int| 0 <= i < trimmed.len() implies (#[trigger] trimmed[i]) as int
            == word[i] as int || ('A' <= trimmed[i] && trimmed[i] <= 'Z' && trimmed[i] as int + 32
            == word[i] as int) by {
            assert(crate::text::lowered(trimmed)[i] == word[i]);
        }
        assert(is_spelled(text.subrange(start, end), word));
    }
    if is_word_in(text, word) {
        let (start, end) = choose|start: int, end: int|
            0 <= start <= end <= text.len() && is_spelled(
                #[trigger] text.subrange(start, end),
                word,
            ) && (forall|i: int|
                0 <= i < start || end <= i < text.len() ==> crate::text::is_white_space(
                    #[trigger] text[i],
                ));
        let inner = text.subrange(start, end);
        assert(inner[0] == text[start]);
        assert(inner[inner.len() - 1] == text[end - 1]);
        trimming_leaves_what_is_between(text, start, end);
        assert forall|i: int| 0 <= i < word.len() implies crate::text::lowered(inner)[i]
            == word[i] by {
            assert(inner[i] as int == word[i] as int || inner[i] as int + 32 == word[i] as int);
        }
        assert(crate::text::lowered(inner) =~= word);
    }
}

/// Lower case changes the letters `A` to `Z` into `a` to `z`, and nothing else.
pub proof fn lower_case_changes_letters_only(text: Seq<char>)
    ensures
        crate::text::lowered(text).len() == text.len(),
        forall|i: int|
            0 <= i < text.len() ==> {
                let c = #[trigger] crate::text::lowered(text)[i];
                if 'A' <= text[i] && text[i] <= 'Z' {
                    c as int == text[i] as int + 32
                } else {
                    c == text[i]
                }
            },
{
}

/// All characters are decimal digits.
pub open spec fn are_digits(text: Seq<char>) -> bool {
    forall|i: int| 0 <= i < text.len() ==> '0' <= #[trigger] text[i] && text[i] <= '9'
}

/// The number that digits stand for, each worth ten times the one behind it.
pub open spec fn place_value(text: Seq<char>) -> nat
    decreases text.len(),
{
    if text.len() == 0 {
        0
    } else {
        10 * place_value(text.drop_last()) + (text.last() as nat - '0' as nat) as nat
    }
}

proof fn lemma_place_value_split(text: Seq<char>, seen: nat, largest: nat)
    requires
        are_digits(text),
        seen <= largest,
    ensures
        crate::text::digits_number(text, seen, largest) == (if weighted(seen, text) <= largest {
            Ok::<nat, NumberError>(weighted(seen, text))
        } else {
            Err::<nat, NumberError>(NumberError::TooLarge)
        }),
    decreases text.len(),
{
    if text.len() == 0 {
        assert(weighted(seen, text) == seen);
    } else {
        let digit = (text[0] as nat - '0' as nat) as nat;
        let next = seen * 10 + digit;
        lemma_weighted_front(seen, text);
        assert(crate::text::digit_value(text[0]) == Some(digit));
        if next <= largest {
            lemma_place_value_split(text.skip(1), next, largest);
        } else {
            lemma_weighted_grows(next, text.skip(1));
        }
    }
}

/// The number that `seen` and the digits behind it stand for.
pub open spec fn weighted(seen: nat, text: Seq<char>) -> nat
    decreases text.len(),
{
    if text.len() == 0 {
        seen
    } else {
        10 * weighted(seen, text.drop_last()) + (text.last() as nat - '0' as nat) as nat
    }
}

proof fn lemma_weighted_front(seen: nat, text: Seq<char>)
    requires
        are_digits(text),
        text.len() > 0,
    ensures
        weighted(seen, text) == weighted(
            seen * 10 + (text[0] as nat - '0' as nat) as nat,
            text.skip(1),
        ),
    decreases text.len(),
{
    if text.len() > 1 {
        lemma_weighted_front(seen, text.drop_last());
        assert(text.drop_last().skip(1) =~= text.skip(1).drop_last());
    } else {
        assert(text.drop_last() =~= Seq::<char>::empty());
        assert(text.skip(1) =~= Seq::<char>::empty());
        assert(weighted(seen, text.drop_last()) == seen);
    }
}

proof fn lemma_weighted_grows(seen: nat, text: Seq<char>)
    requires
        are_digits(text),
    ensures
        weighted(seen, text) >= seen,
    decreases text.len(),
{
    if text.len() > 0 {
        lemma_weighted_grows(seen, text.drop_last());
    }
}

proof fn lemma_weighted_is_place_value(text: Seq<char>)
    ensures
        weighted(0, text) == place_value(text),
    decreases text.len(),
{
    if text.len() > 0 {
        lemma_weighted_is_place_value(text.drop_last());
    }
}

proof fn lemma_no_digits(text: Seq<char>, seen: nat, largest: nat)
    requires
        !are_digits(text),
        seen <= largest,
    ensures
        crate::text::digits_number(text, seen, largest) is Err,
    decreases text.len(),
{
    if text.len() > 0 && '0' <= text[0] && text[0] <= '9' {
        let rest = text.skip(1);
        let bad = choose|i: int|
            0 <= i < text.len() && !('0' <= #[trigger] text[i] && text[i] <= '9');
        assert(rest[bad - 1] == text[bad]);
        assert(!are_digits(rest));
        let next = seen * 10 + crate::text::digit_value(text[0])->0;
        if next <= largest {
            lemma_no_digits(rest, next, largest);
        }
    }
}

/// The text behind an optional plus sign.
pub open spec fn without_plus(text: Seq<char>) -> Seq<char> {
    if text.len() > 0 && text[0] == '+' {
        text.skip(1)
    } else {
        text
    }
}

/// A text reads as a number exactly where it is made of digits, behind an optional plus sign,
/// and their number is within the bound; and then as that number.
pub proof fn numbers_are_their_digits(text: Seq<char>, largest: nat)
    ensures
        ({
            let digits = without_plus(text);
            let read = crate::text::number(text, largest);
            &&& read is Ok <==> digits.len() > 0 && are_digits(digits) && place_value(digits)
                <= largest
            &&& read matches Ok(value) ==> value == place_value(digits)
            &&& text.len() == 0 ==> read == Err::<nat, NumberError>(NumberError::Empty)
            &&& text.len() > 0 && (digits.len() == 0 || (!are_digits(digits.take(1))))
                ==> read == Err::<nat, NumberError>(NumberError::InvalidDigit)
            &&& digits.len() > 0 && are_digits(digits) && place_value(digits) > largest
                ==> read == Err::<nat, NumberError>(NumberError::TooLarge)
        }),
{
    let digits = without_plus(text);
    if are_digits(digits) {
        lemma_place_value_split(digits, 0, largest);
        lemma_weighted_is_place_value(digits);
    } else {
        lemma_no_digits(digits, 0, largest);
    }
    if text.len() > 0 && digits.len() > 0 && !are_digits(digits.take(1)) {
        assert(digits.take(1)[0] == digits[0]);
        assert(digits.take(1) =~= seq![digits[0]]);
    }
}

proof fn lemma_fault(text: Seq<char>, seen: nat, largest: nat, place: int)
    requires
        0 <= place < text.len(),
        are_digits(text.take(place)),
        seen <= largest,
        weighted(seen, text.take(place)) <= largest,
        '0' <= text[place] && text[place] <= '9' ==> 10 * weighted(seen, text.take(place)) + (
        text[place] as nat - '0' as nat) > largest,
    ensures
        crate::text::digits_number(text, seen, largest) == Err::<nat, NumberError>(
            if '0' <= text[place] && text[place] <= '9' {
                NumberError::TooLarge
            } else {
                NumberError::InvalidDigit
            },
        ),
    decreases place,
{
    let head = text.take(place);
    if place == 0 {
        assert(head =~= Seq::<char>::empty());
        assert(weighted(seen, head) == seen);
    } else {
        assert(head[0] == text[0]);
        let next = seen * 10 + (text[0] as nat - '0' as nat) as nat;
        lemma_weighted_front(seen, head);
        let rest = head.skip(1);
        assert(rest =~= text.skip(1).take(place - 1));
        assert(are_digits(rest)) by {
            assert forall|i: int| 0 <= i < rest.len() implies '0' <= #[trigger] rest[i] && rest[i]
                <= '9' by {
                assert(rest[i] == head[i + 1]);
            }
        }
        lemma_weighted_grows(next, rest);
        assert(text.skip(1)[place - 1] == text[place]);
        lemma_fault(text.skip(1), next, largest, place - 1);
    }
}

/// What is wrong with a text that is no number is told by the first character that makes it none:
/// one that is no digit, or a digit with which the number is beyond the bound.
pub proof fn first_faults_are_told(text: Seq<char>, largest: nat, place: int)
    requires
        0 <= place < without_plus(text).len(),
        are_digits(without_plus(text).take(place)),
        place_value(without_plus(text).take(place)) <= largest,
    ensures
        ({
            let digits = without_plus(text);
            let is_digit = '0' <= digits[place] && digits[place] <= '9';
            &&& !is_digit ==> crate::text::number(text, largest) == Err::<nat, NumberError>(
                NumberError::InvalidDigit,
            )
            &&& is_digit && place_value(digits.take(place + 1)) > largest ==> crate::text::number(
                text,
                largest,
            ) == Err::<nat, NumberError>(NumberError::TooLarge)
        }),
{
    let digits = without_plus(text);
    let head = digits.take(place);
    lemma_weighted_is_place_value(head);
    assert(digits.take(place + 1).drop_last() =~= head);
    if !('0' <= digits[place] && digits[place] <= '9') || place_value(digits.take(place + 1))
        > largest {
        lemma_fault(digits, 0, largest, place);
    }
}

proof fn lemma_decimal_value(value: nat)
    ensures
        place_value(crate::text::decimal(value)) == value,
        value >= 10 ==> crate::text::decimal(value).len() > 1,
        crate::text::decimal(value).len() > 0,
        value > 0 ==> crate::text::decimal(value)[0] != '0',
    decreases value,
{
    let text = crate::text::decimal(value);
    if value < 10 {
        assert(text.drop_last() =~= Seq::<char>::empty());
        assert(place_value(text.drop_last()) == 0);
    } else {
        lemma_decimal_value(value / 10);
        assert(text.drop_last() =~= crate::text::decimal(value / 10));
    }
}

/// A number is written with digits only, which stand for it, and without a leading zero.
pub proof fn decimals_stand_for_their_number(value: nat)
    ensures
        are_digits(crate::text::decimal(value)),
        place_value(crate::text::decimal(value)) == value,
        crate::text::decimal(value).len() > 0,
        crate::text::decimal(value)[0] == '0' ==> value == 0 && crate::text::decimal(value).len()
            == 1,
{
    crate::text::lemma_decimal_digits(value);
    lemma_decimal_value(value);
}

/// Padded digits have the wanted width and stand for the end of the number: together with the
/// digits before them they make it up.
pub proof fn padding_keeps_the_last_digits(value: nat, width: nat)
    ensures
        are_digits(crate::text::padded(value, width)),
        crate::text::padded(value, width).len() == width,
        place_value(crate::text::padded(value, width)) <= value,
        place_value(crate::text::padded(value, width)) == value % tens(width),
    decreases width,
{
    crate::text::lemma_padded_digits(value, width);
    let text = crate::text::padded(value, width);
    if width > 0 {
        padding_keeps_the_last_digits(value / 10, (width - 1) as nat);
        assert(text.drop_last() =~= crate::text::padded(value / 10, (width - 1) as nat));
        let scale = tens((width - 1) as nat);
        lemma_tens_positive((width - 1) as nat);
        vstd::arithmetic::div_mod::lemma_breakdown(value as int, 10, scale as int);
    } else {
        assert(value % 1 == 0);
    }
}

/// Ten to the power `count`.
pub open spec fn tens(count: nat) -> nat
    decreases count,
{
    if count == 0 {
        1
    } else {
        10 * tens((count - 1) as nat)
    }
}

proof fn lemma_tens_positive(count: nat)
    ensures
        tens(count) > 0,
    decreases count,
{
    if count > 0 {
        lemma_tens_positive((count - 1) as nat);
    }
}

} // verus!
