//! Identifiers of four hexadecimal digits.
use vstd::prelude::*;

use crate::identity::{random_text, PublicId};
use crate::text;
use crate::text::chars_of;

verus! {

/// The number of digits of an identifier.
pub const HEX_WIDTH: usize = 4;

/// The identifier of an open document.
#[derive(Clone, Copy, Debug, PartialEq, Eq, Hash, Structural)]
pub struct DocId {
    value: u16,
}

/// The identifier of an open drawing, which is never zero.
#[derive(Clone, Copy, Debug, PartialEq, Eq, Hash, Structural)]
pub struct DrawingId {
    value: u16,
}

pub open spec fn capital_hex_digit(ch: char) -> bool {
    text::decimal_digit(ch) || 'A' <= ch <= 'F'
}

pub open spec fn digit_value(ch: char) -> int {
    if text::decimal_digit(ch) {
        ch as int - 48
    } else {
        ch as int - 55
    }
}

/// The number that four hexadecimal digits stand for.
pub open spec fn hex_number(text: Seq<char>) -> Option<int> {
    if text.len() == HEX_WIDTH && forall|i: int|
        0 <= i < text.len() ==> capital_hex_digit(#[trigger] text[i]) {
        Some(
            4096 * digit_value(text[0]) + 256 * digit_value(text[1]) + 16 * digit_value(text[2])
                + digit_value(text[3]),
        )
    } else {
        None
    }
}

fn hex_digit_value(ch: char) -> (value: Option<u16>)
    ensures
        value is Some <==> capital_hex_digit(ch),
        value matches Some(value) ==> value == digit_value(ch) && value < 16,
{
    if '0' <= ch && ch <= '9' {
        Some((ch as u8 - 48) as u16)
    } else if 'A' <= ch && ch <= 'F' {
        Some((ch as u8 - 55) as u16)
    } else {
        None
    }
}

fn parse_hex(text: &str) -> (number: Option<u16>)
    ensures
        match number {
            Some(number) => hex_number(text@) == Some(number as int),
            None => hex_number(text@) is None,
        },
{
    let chars = chars_of(text);
    if chars.len() != HEX_WIDTH {
        return None;
    }
    match (
        hex_digit_value(chars[0]),
        hex_digit_value(chars[1]),
        hex_digit_value(chars[2]),
        hex_digit_value(chars[3]),
    ) {
        (Some(first), Some(second), Some(third), Some(fourth)) => {
            assert forall|i: int| 0 <= i < text@.len() implies capital_hex_digit(
                #[trigger] text@[i],
            ) by {
                assert(i == 0 || i == 1 || i == 2 || i == 3);
            }
            Some(4096 * first + 256 * second + 16 * third + fourth)
        },
        _ => None,
    }
}

fn hex_alphabet() -> (alphabet: Vec<char>)
    ensures
        alphabet@ == "0123456789ABCDEF"@,
{
    chars_of("0123456789ABCDEF")
}

/// Four random hexadecimal digits.
fn random_hex() -> (drawn: String)
    ensures
        hex_number(drawn@) is Some,
{
    let alphabet = hex_alphabet();
    proof {
        reveal_strlit("0123456789ABCDEF");
    }
    let drawn = random_text(alphabet.as_slice(), HEX_WIDTH);
    proof {
        assert forall|i: int| 0 <= i < drawn@.len() implies capital_hex_digit(
            #[trigger] drawn@[i],
        ) by {
            assert(alphabet@.contains(drawn@[i]));
            let j = choose|j: int| 0 <= j < alphabet@.len() && alphabet@[j] == drawn@[i];
            assert(0 <= j < 16);
        }
    }
    drawn
}

impl View for DocId {
    type V = int;

    closed spec fn view(&self) -> int {
        self.value as int
    }
}

impl View for DrawingId {
    type V = int;

    closed spec fn view(&self) -> int {
        self.value as int
    }
}

impl DocId {
    /// The identifier that four hexadecimal digits stand for.
    pub fn from_hex(text: &str) -> (id: Option<DocId>)
        ensures
            match id {
                Some(id) => hex_number(text@) == Some(id@),
                None => hex_number(text@) is None,
            },
    {
        match parse_hex(text) {
            Some(value) => Some(DocId { value }),
            None => None,
        }
    }

    pub fn value(&self) -> (value: u16)
        ensures
            value == self@,
    {
        self.value
    }
}

impl DrawingId {
    /// The identifier with a value, which must not be zero.
    pub fn new(value: u16) -> (id: Option<DrawingId>)
        ensures
            id is Some <==> value != 0,
            id matches Some(id) ==> id@ == value,
    {
        if value == 0 {
            None
        } else {
            Some(DrawingId { value })
        }
    }

    /// The identifier with a number, as clients send it.
    pub fn from_number(number: u32) -> (id: Option<DrawingId>)
        ensures
            id is Some <==> 0 < number < 65536,
            id matches Some(id) ==> id@ == number,
    {
        if number < 65536 {
            DrawingId::new(number as u16)
        } else {
            None
        }
    }

    /// The identifier that four hexadecimal digits stand for.
    pub fn from_hex(text: &str) -> (id: Option<DrawingId>)
        ensures
            match id {
                Some(id) => hex_number(text@) == Some(id@) && id@ != 0,
                None => hex_number(text@) is None || hex_number(text@) == Some(0int),
            },
    {
        match parse_hex(text) {
            Some(value) => DrawingId::new(value),
            None => None,
        }
    }

    pub fn value(&self) -> (value: u16)
        ensures
            value == self@,
    {
        self.value
    }
}

impl PublicId for DocId {
    open spec fn genuine(id: int) -> bool {
        0 <= id < 65536
    }

    open spec fn count() -> nat {
        65536
    }

    open spec fn nth(index: int) -> int {
        index
    }

    proof fn nth_is_genuine(index: int) {
    }

    proof fn nth_is_distinct(left: int, right: int) {
    }

    fn same(&self, other: &Self) -> (result: bool) {
        self.value == other.value
    }

    fn duplicate(&self) -> (copy: Self) {
        *self
    }

    fn draw() -> (drawn: Option<Self>)
        ensures
            drawn is Some,
    {
        let digits = random_hex();
        DocId::from_hex(digits.as_str())
    }

    fn candidate(index: u64) -> (id: Self) {
        DocId { value: index as u16 }
    }
}

impl PublicId for DrawingId {
    open spec fn genuine(id: int) -> bool {
        0 < id < 65536
    }

    open spec fn count() -> nat {
        65535
    }

    open spec fn nth(index: int) -> int {
        index + 1
    }

    proof fn nth_is_genuine(index: int) {
    }

    proof fn nth_is_distinct(left: int, right: int) {
    }

    fn same(&self, other: &Self) -> (result: bool) {
        self.value == other.value
    }

    fn duplicate(&self) -> (copy: Self) {
        *self
    }

    fn draw() -> (drawn: Option<Self>) {
        let digits = random_hex();
        DrawingId::from_hex(digits.as_str())
    }

    fn candidate(index: u64) -> (id: Self) {
        DrawingId { value: (index + 1) as u16 }
    }
}

/// Four hexadecimal digits stand for the number that has them: each is the digit at its
/// place. Anything else stands for no number: fewer or more characters, small letters, or
/// other characters.
pub proof fn law_identifier_has_its_digits(text: Seq<char>)
    ensures
        hex_number(text) is Some <==> text.len() == 4 && forall|i: int|
            0 <= i < 4 ==> "0123456789ABCDEF"@.contains(#[trigger] text[i]),
        hex_number(text) matches Some(number) ==> {
            &&& 0 <= number < 65536
            &&& text[0] == "0123456789ABCDEF"@[number / 4096]
            &&& text[1] == "0123456789ABCDEF"@[number / 256 % 16]
            &&& text[2] == "0123456789ABCDEF"@[number / 16 % 16]
            &&& text[3] == "0123456789ABCDEF"@[number % 16]
        },
{
    let alphabet = "0123456789ABCDEF"@;
    assert forall|i: int| 0 <= i < text.len() implies (capital_hex_digit(#[trigger] text[i])
        <==> alphabet.contains(text[i])) by {
        lemma_alphabet(text[i]);
    }
    if let Some(number) = hex_number(text) {
        lemma_alphabet(text[0]);
        lemma_alphabet(text[1]);
        lemma_alphabet(text[2]);
        lemma_alphabet(text[3]);
        lemma_places(
            digit_value(text[0]),
            digit_value(text[1]),
            digit_value(text[2]),
            digit_value(text[3]),
        );
    }
}

proof fn lemma_alphabet(ch: char)
    ensures
        capital_hex_digit(ch) <==> "0123456789ABCDEF"@.contains(ch),
        capital_hex_digit(ch) ==> 0 <= digit_value(ch) < 16
            && "0123456789ABCDEF"@[digit_value(ch)] == ch,
{
    reveal_strlit("0123456789ABCDEF");
    let alphabet = "0123456789ABCDEF"@;
    if capital_hex_digit(ch) {
        assert(alphabet[digit_value(ch)] == ch);
    }
    if alphabet.contains(ch) {
        let i = choose|i: int| 0 <= i < alphabet.len() && alphabet[i] == ch;
        assert(0 <= i < 16);
    }
}

proof fn lemma_places(first: int, second: int, third: int, fourth: int)
    requires
        0 <= first < 16,
        0 <= second < 16,
        0 <= third < 16,
        0 <= fourth < 16,
    ensures
        ({
            let number = 4096 * first + 256 * second + 16 * third + fourth;
            &&& 0 <= number < 65536
            &&& number / 4096 == first
            &&& number / 256 % 16 == second
            &&& number / 16 % 16 == third
            &&& number % 16 == fourth
        }),
{
    let rest = 256 * first + 16 * second + third;
    let upper = 16 * first + second;
    let number = 4096 * first + 256 * second + 16 * third + fourth;
    assert(number == 16 * rest + fourth);
    assert(number / 16 == rest && number % 16 == fourth);
    assert(rest == 16 * upper + third);
    assert(rest / 16 == upper && rest % 16 == third);
    assert(upper / 16 == first && upper % 16 == second);
    assert(number / 256 == upper) by (nonlinear_arith)
        requires
            number == 256 * upper + (16 * third + fourth),
            0 <= 16 * third + fourth < 256,
    ;
    assert(number / 4096 == first) by (nonlinear_arith)
        requires
            number == 4096 * first + (256 * second + 16 * third + fourth),
            0 <= 256 * second + 16 * third + fourth < 4096,
    ;
}

} // verus!
