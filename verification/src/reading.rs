//! What numerals stand for.
//!
//! A numeral is read from the left: a sign, digits with a point somewhere among them, and
//! behind an `e` the power of ten, with a sign of its own.
use vstd::prelude::*;

use crate::text;

verus! {

/// What has been read of a numeral.
#[verifier::ext_equal]
pub struct Reading {
    pub negative: bool,
    /// The digits before the `e`, as one whole number.
    pub digits: nat,
    pub pointed: bool,
    /// How many of these digits stand behind the point.
    pub places: nat,
    pub marked: bool,
    pub exponent_negative: bool,
    pub exponent: nat,
}

/// Ten to a power.
pub open spec fn ten(power: nat) -> nat
    decreases power,
{
    if power == 0 {
        1
    } else {
        10 * ten((power - 1) as nat)
    }
}

pub open spec fn is_digit(ch: char) -> bool {
    '0' <= ch <= '9'
}

pub open spec fn digit_value(ch: char) -> nat {
    (ch as int - '0' as int) as nat
}

/// Digits and nothing else.
pub open spec fn digits_only(text: Seq<char>) -> bool {
    forall|i: int| 0 <= i < text.len() ==> is_digit(#[trigger] text[i])
}

impl Reading {
    pub open spec fn start() -> Reading {
        Reading {
            negative: false,
            digits: 0,
            pointed: false,
            places: 0,
            marked: false,
            exponent_negative: false,
            exponent: 0,
        }
    }

    /// After one more character.
    pub open spec fn with(self, ch: char) -> Reading {
        if self.marked {
            if is_digit(ch) {
                Reading { exponent: 10 * self.exponent + digit_value(ch), ..self }
            } else {
                Reading { exponent_negative: self.exponent_negative || ch == '-', ..self }
            }
        } else if is_digit(ch) {
            Reading {
                digits: 10 * self.digits + digit_value(ch),
                places: if self.pointed {
                    self.places + 1
                } else {
                    self.places
                },
                ..self
            }
        } else {
            Reading {
                negative: self.negative || ch == '-',
                pointed: self.pointed || ch == '.',
                marked: ch == 'e',
                ..self
            }
        }
    }

    /// After some more characters.
    pub open spec fn through(self, text: Seq<char>) -> Reading
        decreases text.len(),
    {
        if text.len() == 0 {
            self
        } else {
            self.through(text.drop_last()).with(text.last())
        }
    }

    /// The digits with their sign.
    pub open spec fn significand(self) -> int {
        if self.negative {
            -(self.digits as int)
        } else {
            self.digits as int
        }
    }

    /// The power of ten that the significand is multiplied by.
    pub open spec fn power(self) -> int {
        (if self.exponent_negative {
            -(self.exponent as int)
        } else {
            self.exponent as int
        }) - self.places
    }

    /// Both stand for the same number.
    pub open spec fn same_value(self, other: Reading) -> bool {
        if self.power() >= other.power() {
            self.significand() * ten((self.power() - other.power()) as nat) == other.significand()
        } else {
            self.significand() == other.significand() * ten(
                (other.power() - self.power()) as nat,
            )
        }
    }
}

/// What a numeral stands for.
pub open spec fn read(text: Seq<char>) -> Reading {
    Reading::start().through(text)
}

/// The whole number that digits make up.
pub open spec fn whole(digits: Seq<char>) -> nat {
    read(digits).digits
}

pub proof fn lemma_through_concat(start: Reading, left: Seq<char>, right: Seq<char>)
    ensures
        start.through(left + right) == start.through(left).through(right),
    decreases right.len(),
{
    if right.len() == 0 {
        assert(left + right =~= left);
    } else {
        lemma_through_concat(start, left, right.drop_last());
        assert((left + right).drop_last() =~= left + right.drop_last());
    }
}

pub proof fn lemma_through_one(start: Reading, ch: char)
    ensures
        start.through(seq![ch]) == start.with(ch),
{
    let one = seq![ch];
    assert(one.drop_last() =~= Seq::<char>::empty());
    assert(start.through(one) == start.through(one.drop_last()).with(one.last()));
}

pub proof fn lemma_ten_adds(left: nat, right: nat)
    ensures
        ten(left + right) == ten(left) * ten(right),
        ten(left) > 0,
    decreases left,
{
    if left == 0 {
        assert(ten(0) == 1);
        assert(1 * ten(right) == ten(right));
    } else {
        lemma_ten_adds((left - 1) as nat, right);
        let (a, b) = (ten((left - 1) as nat), ten(right));
        assert((left + right - 1) as nat == (left - 1) as nat + right);
        assert(10 * (a * b) == (10 * a) * b) by (nonlinear_arith);
    }
}

/// Digits move what was read before them to the left.
pub proof fn lemma_digits(start: Reading, digits: Seq<char>)
    requires
        digits_only(digits),
        !start.marked,
    ensures
        start.through(digits) == (Reading {
            digits: start.digits * ten(digits.len()) + whole(digits),
            places: if start.pointed {
                start.places + digits.len()
            } else {
                start.places
            },
            ..start
        }),
    decreases digits.len(),
{
    if digits.len() == 0 {
        assert(start.digits * 1 == start.digits);
    } else {
        let front = digits.drop_last();
        assert forall|i: int| 0 <= i < front.len() implies is_digit(#[trigger] front[i]) by {
            assert(front[i] == digits[i]);
        }
        lemma_digits(start, front);
        lemma_digits(Reading::start(), front);
        let d = digit_value(digits.last());
        let (a, b, c) = (start.digits, ten(front.len()), whole(front));
        assert(is_digit(digits[digits.len() - 1]));
        assert(whole(digits) == 10 * c + d);
        assert(ten(digits.len()) == 10 * b);
        assert(10 * (a * b + c) + d == a * (10 * b) + (10 * c + d)) by (nonlinear_arith);
    }
}

/// Zeros at the end make a whole number that much greater.
pub proof fn lemma_zeros(digits: Seq<char>)
    requires
        forall|i: int| 0 <= i < digits.len() ==> #[trigger] digits[i] == '0',
    ensures
        whole(digits) == 0,
    decreases digits.len(),
{
    if digits.len() > 0 {
        let front = digits.drop_last();
        assert forall|i: int| 0 <= i < front.len() implies #[trigger] front[i] == '0' by {
            assert(front[i] == digits[i]);
        }
        lemma_zeros(front);
        assert forall|i: int| 0 <= i < front.len() implies is_digit(#[trigger] front[i]) by {}
        lemma_digits(Reading::start(), front);
        assert(digits[digits.len() - 1] == '0');
    }
}

pub proof fn lemma_whole_concat(left: Seq<char>, right: Seq<char>)
    requires
        digits_only(left),
        digits_only(right),
    ensures
        whole(left + right) == whole(left) * ten(right.len()) + whole(right),
        digits_only(left + right),
{
    lemma_through_concat(Reading::start(), left, right);
    lemma_digits(Reading::start(), left);
    lemma_digits(Reading::start().through(left), right);
    assert(0 * ten(left.len()) == 0) by (nonlinear_arith);
}

/// A numeral of a sign, digits around a point and nothing else.
pub proof fn lemma_plain(sign: Seq<char>, before: Seq<char>, behind: Seq<char>)
    requires
        sign == Seq::<char>::empty() || sign == seq!['-'],
        digits_only(before),
        digits_only(behind),
    ensures
        read(sign + before + seq!['.'] + behind) == (Reading {
            negative: sign.len() > 0,
            digits: whole(before + behind),
            pointed: true,
            places: behind.len(),
            ..Reading::start()
        }),
{
    let signed = Reading::start().through(sign);
    if sign.len() > 0 {
        lemma_through_one(Reading::start(), '-');
    }
    assert(signed == (Reading { negative: sign.len() > 0, ..Reading::start() }));
    lemma_through_concat(Reading::start(), sign, before);
    lemma_digits(signed, before);
    lemma_through_concat(Reading::start(), sign + before, seq!['.']);
    let at_point = signed.through(before);
    lemma_through_one(at_point, '.');
    lemma_through_concat(Reading::start(), sign + before + seq!['.'], behind);
    lemma_digits(at_point.with('.'), behind);
    lemma_whole_concat(before, behind);
    assert(0 * ten(before.len()) == 0) by (nonlinear_arith);
}

/// An `e`, a sign and digits behind a numeral.
pub proof fn lemma_exponent(front: Seq<char>, sign: Seq<char>, digits: Seq<char>)
    requires
        !read(front).marked,
        read(front).exponent == 0,
        !read(front).exponent_negative,
        sign == Seq::<char>::empty() || sign == seq!['-'] || sign == seq!['+'],
        digits_only(digits),
    ensures
        read(front + seq!['e'] + sign + digits) == (Reading {
            marked: true,
            exponent_negative: sign == seq!['-'],
            exponent: whole(digits),
            ..read(front)
        }),
{
    let before = read(front);
    lemma_through_concat(Reading::start(), front, seq!['e']);
    lemma_through_one(before, 'e');
    let marked = before.with('e');
    lemma_through_concat(Reading::start(), front + seq!['e'], sign);
    let signed = marked.through(sign);
    if sign == seq!['-'] {
        lemma_through_one(marked, '-');
    } else if sign == seq!['+'] {
        lemma_through_one(marked, '+');
        assert(seq!['+'][0] != seq!['-'][0]);
    } else {
        assert(sign.len() != seq!['-'].len());
    }
    lemma_through_concat(Reading::start(), front + seq!['e'] + sign, digits);
    lemma_exponent_digits(signed, digits);
    assert(0 * ten(digits.len()) == 0) by (nonlinear_arith);
}

proof fn lemma_exponent_digits(start: Reading, digits: Seq<char>)
    requires
        digits_only(digits),
        start.marked,
    ensures
        start.through(digits) == (Reading {
            exponent: start.exponent * ten(digits.len()) + whole(digits),
            ..start
        }),
    decreases digits.len(),
{
    if digits.len() == 0 {
        assert(start.exponent * 1 == start.exponent);
    } else {
        let front = digits.drop_last();
        assert forall|i: int| 0 <= i < front.len() implies is_digit(#[trigger] front[i]) by {
            assert(front[i] == digits[i]);
        }
        lemma_exponent_digits(start, front);
        lemma_digits(Reading::start(), front);
        let d = digit_value(digits.last());
        let (a, b, c) = (start.exponent, ten(front.len()), whole(front));
        assert(is_digit(digits[digits.len() - 1]));
        assert(whole(digits) == 10 * c + d);
        assert(10 * (a * b + c) + d == a * (10 * b) + (10 * c + d)) by (nonlinear_arith);
    }
}

/// The numeral of a whole number consists of digits, stands for that number, and begins
/// with a zero only where it is nothing else.
pub proof fn law_decimal_reads_back(value: nat)
    ensures
        digits_only(text::decimal(value)),
        whole(text::decimal(value)) == value,
        text::decimal(value).len() > 0,
        text::decimal(value)[0] == '0' ==> text::decimal(value).len() == 1,
    decreases value,
{
    let shown = text::decimal(value);
    if value < 10 {
        lemma_through_one(Reading::start(), shown[0]);
        assert(shown =~= seq![shown[0]]);
    } else {
        let front = text::decimal(value / 10);
        law_decimal_reads_back(value / 10);
        let last = shown.last();
        assert(shown.drop_last() =~= front);
        lemma_digits(Reading::start(), front);
        assert forall|i: int| 0 <= i < shown.len() implies is_digit(#[trigger] shown[i]) by {
            if i < front.len() {
                assert(shown[i] == front[i]);
            }
        }
        assert(shown[0] == front[0]);
        if front[0] == '0' {
            assert(front =~= seq!['0']);
            lemma_through_one(Reading::start(), '0');
            assert(whole(front) == 0);
        }
    }
}

/// The numeral of an integer stands for that integer, and holds a sign only below zero.
pub proof fn law_signed_decimal_reads_back(value: int)
    ensures
        read(text::signed_decimal(value)).significand() == value,
        read(text::signed_decimal(value)).power() == 0,
        digits_only(text::signed_decimal(value)) <==> value >= 0,
{
    let shown = text::signed_decimal(value);
    if value < 0 {
        let digits = text::decimal((-value) as nat);
        law_decimal_reads_back((-value) as nat);
        lemma_through_concat(Reading::start(), seq!['-'], digits);
        lemma_through_one(Reading::start(), '-');
        lemma_digits(Reading::start().with('-'), digits);
        assert(0 * ten(digits.len()) == 0) by (nonlinear_arith);
        assert(shown[0] == '-');
    } else {
        law_decimal_reads_back(value as nat);
        lemma_digits(Reading::start(), shown);
    }
}

} // verus!
