//! Small operations on text.

use vstd::prelude::*;
use vstd::string::*;

verus! {

/// `String::push`: the character is appended.
pub assume_specification[ String::push ](s: &mut String, ch: char)
    ensures
        final(s)@ == old(s)@.push(ch),
;

/// `String::clear`: nothing is left.
pub assume_specification[ String::clear ](s: &mut String)
    ensures
        final(s)@ == Seq::<char>::empty(),
;

/// Whether two texts have the same characters.
pub fn text_equal(left: &str, right: &str) -> (equal: bool)
    ensures
        equal == (left@ == right@),
{
    left.to_owned() == right.to_owned()
}

/// Two texts, one behind the other.
pub fn join2(first: &str, second: &str) -> (joined: String)
    ensures
        joined@ == first@ + second@,
{
    let mut joined = first.to_owned();
    joined.append(second);
    joined
}

/// Three texts, one behind the other.
pub fn join3(first: &str, second: &str, third: &str) -> (joined: String)
    ensures
        joined@ == first@ + second@ + third@,
{
    let mut joined = first.to_owned();
    joined.append(second);
    joined.append(third);
    joined
}

/// The decimal digit for a number below 10.
pub open spec fn digit_char(digit: nat) -> char {
    ('0' as u32 + digit) as char
}

/// A number in decimal, without leading zeros.
pub open spec fn decimal(number: nat) -> Seq<char>
    decreases number,
{
    if number < 10 {
        seq![digit_char(number)]
    } else {
        decimal(number / 10).push(digit_char(number % 10))
    }
}

fn digit(value: u64) -> (character: char)
    requires
        value < 10,
    ensures
        character == digit_char(value as nat),
{
    if value == 0 {
        '0'
    } else if value == 1 {
        '1'
    } else if value == 2 {
        '2'
    } else if value == 3 {
        '3'
    } else if value == 4 {
        '4'
    } else if value == 5 {
        '5'
    } else if value == 6 {
        '6'
    } else if value == 7 {
        '7'
    } else if value == 8 {
        '8'
    } else {
        '9'
    }
}

/// A number in decimal.
pub fn decimal_text(number: u64) -> (text: String)
    ensures
        text@ == decimal(number as nat),
    decreases number,
{
    if number < 10 {
        let mut text = String::new();
        text.push(digit(number));
        assert(text@ =~= seq![digit_char(number as nat)]);
        text
    } else {
        let mut text = decimal_text(number / 10);
        text.push(digit(number % 10));
        text
    }
}

/// The characters of a text.
pub fn chars_of(text: &str) -> (chars: Vec<char>)
    ensures
        chars@ == text@,
{
    let mut chars: Vec<char> = Vec::new();
    for character in iter: text.chars()
        invariant
            iter.seq() == text@,
            chars@ =~= text@.take(iter.index() as int),
    {
        chars.push(character);
    }
    assert(text@.take(text@.len() as int) =~= text@);
    chars
}

/// The text that has these characters.
pub fn text_of(chars: &Vec<char>) -> (text: String)
    ensures
        text@ == chars@,
{
    let mut text = String::new();
    let mut index: usize = 0;
    while index < chars.len()
        invariant
            index <= chars@.len(),
            text@ =~= chars@.take(index as int),
        decreases chars@.len() - index,
    {
        text.push(chars[index]);
        index += 1;
    }
    assert(chars@.take(index as int) =~= chars@);
    text
}

/// A character with ASCII capitals made small.
pub open spec fn ascii_lower(character: char) -> char {
    if 'A' <= character && character <= 'Z' {
        (character as u32 + 32) as char
    } else {
        character
    }
}

/// A text with ASCII capitals made small.
pub open spec fn ascii_lower_text(text: Seq<char>) -> Seq<char> {
    text.map_values(|character: char| ascii_lower(character))
}

pub fn ascii_lower_char(character: char) -> (lower: char)
    ensures
        lower == ascii_lower(character),
{
    if 'A' <= character && character <= 'Z' {
        ((character as u8) + 32) as char
    } else {
        character
    }
}

/// A text with ASCII capitals made small.
pub fn to_ascii_lower(text: &str) -> (lower: String)
    ensures
        lower@ == ascii_lower_text(text@),
{
    let chars = chars_of(text);
    let mut lower = String::new();
    let mut index: usize = 0;
    while index < chars.len()
        invariant
            chars@ == text@,
            index <= chars@.len(),
            lower@ =~= ascii_lower_text(text@.take(index as int)),
        decreases chars@.len() - index,
    {
        lower.push(ascii_lower_char(chars[index]));
        index += 1;
    }
    assert(text@.take(index as int) =~= text@);
    lower
}

/// Whether two texts differ in the case of ASCII letters at most.
pub fn equal_ignoring_ascii_case(left: &str, right: &str) -> (equal: bool)
    ensures
        equal == (ascii_lower_text(left@) == ascii_lower_text(right@)),
{
    to_ascii_lower(left) == to_ascii_lower(right)
}

/// Whether a text has no line break.
pub open spec fn one_line(text: Seq<char>) -> bool {
    !text.contains('\n') && !text.contains('\r')
}

pub fn is_one_line(text: &str) -> (one: bool)
    ensures
        one == one_line(text@),
{
    let chars = chars_of(text);
    let mut index: usize = 0;
    while index < chars.len()
        invariant
            chars@ == text@,
            index <= chars@.len(),
            forall|i: int| 0 <= i < index ==> chars@[i] != '\n' && chars@[i] != '\r',
        decreases chars@.len() - index,
    {
        if chars[index] == '\n' || chars[index] == '\r' {
            assert(text@.contains(chars@[index as int]));
            return false;
        }
        index += 1;
    }
    true
}

/// The number that decimal digits stand for.
pub open spec fn number_of(digits: Seq<char>) -> int
    decreases digits.len(),
{
    if digits.len() == 0 {
        0
    } else {
        10 * number_of(digits.drop_last()) + (digits.last() as int - '0' as int)
    }
}

/// A number that is written down can be read again: there is nothing but digits, no 0 in front
/// of others, and they stand for the number.
pub proof fn law_decimal_can_be_read_again(number: nat, i: int)
    ensures
        number_of(decimal(number)) == number,
        decimal(number).len() >= 1,
        decimal(number)[0] == '0' ==> number == 0,
        0 <= i < decimal(number).len() ==> '0' <= decimal(number)[i] && decimal(number)[i] <= '9',
    decreases number,
{
    let digits = decimal(number);
    if number < 10 {
        assert(digits.drop_last() =~= Seq::<char>::empty());
        assert(number_of(digits.drop_last()) == 0);
        assert(digits.last() == digit_char(number));
    } else {
        law_decimal_can_be_read_again(number / 10, i);
        assert(digits.drop_last() =~= decimal(number / 10));
        assert(digits.last() == digit_char(number % 10));
        assert(digits[0] == decimal(number / 10)[0]);
        if 0 <= i < decimal(number / 10).len() {
            assert(digits[i] == decimal(number / 10)[i]);
        }
    }
}

/// Making ASCII capitals small changes nothing else, and not a second time: a capital becomes
/// the letter 32 places behind it, which is a small one.
pub proof fn law_only_capitals_are_made_small(text: Seq<char>, i: int)
    requires
        0 <= i < text.len(),
    ensures
        ascii_lower_text(text).len() == text.len(),
        'A' <= text[i] && text[i] <= 'Z' ==> ascii_lower_text(text)[i] as int == text[i] as int + 32
            && 'a' <= ascii_lower_text(text)[i] && ascii_lower_text(text)[i] <= 'z',
        !('A' <= text[i] && text[i] <= 'Z') ==> ascii_lower_text(text)[i] == text[i],
        ascii_lower_text(ascii_lower_text(text)) == ascii_lower_text(text),
{
    assert(ascii_lower_text(ascii_lower_text(text)) =~= ascii_lower_text(text));
}

/// Whether a text holds another one.
pub open spec fn holds_text(whole: Seq<char>, part: Seq<char>) -> bool {
    exists|at: int|
        0 <= at && at + part.len() <= whole.len() && #[trigger] whole.subrange(
            at,
            at + part.len(),
        ) == part
}

/// A text that is put between two others is held by what they make up.
pub proof fn lemma_holds_text(before: Seq<char>, part: Seq<char>, after: Seq<char>)
    ensures
        holds_text(before + part + after, part),
{
    let whole = before + part + after;
    let at = before.len() as int;
    assert(whole.subrange(at, at + part.len()) =~= part);
}

/// A text is one line where none of its characters ends a line.
pub proof fn law_one_line_has_no_line_end(text: Seq<char>)
    ensures
        one_line(text) <==> forall|i: int|
            0 <= i < text.len() ==> (#[trigger] text[i]) != '\n' && text[i] != '\r',
{
    if one_line(text) {
        assert forall|i: int| 0 <= i < text.len() implies (#[trigger] text[i]) != '\n' && text[i]
            != '\r' by {
            assert(text.contains(text[i]));
        }
    }
}

} // verus!
