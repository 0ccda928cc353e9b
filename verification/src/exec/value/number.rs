//! Real numbers as AutoLISP prints them: six significant digits, and always a
//! digit on either side of the decimal point.
use vstd::prelude::*;

use crate::reading;
use crate::text;
use crate::text::{chars_of, is_decimal_digit, push_chars, push_decimal, text_of};

verus! {

/// A real number as text.
#[derive(Clone, Copy, Debug, PartialEq, Eq)]
pub enum RealText<'a> {
    NotFinite,
    Zero,
    /// Sign, mantissa, `e` and a decimal exponent, such as `-1.23457e-5`.
    Scientific(&'a str),
}

/// The number of characters in front of the exponent marker.
pub open spec fn marker_position(text: Seq<char>) -> int
    decreases text.len(),
{
    if text.len() == 0 || text[0] == 'e' {
        0
    } else {
        1 + marker_position(text.drop_first())
    }
}

/// The value of decimal digits.
pub open spec fn digits_value(digits: Seq<char>) -> nat
    decreases digits.len(),
{
    if digits.len() == 0 {
        0
    } else {
        10 * digits_value(digits.drop_last()) + (digits.last() as int - 48) as nat
    }
}

pub open spec fn all_digits(text: Seq<char>) -> bool {
    forall|i: int| 0 <= i < text.len() ==> text::decimal_digit(#[trigger] text[i])
}

/// The 32-bit number that a numeral with an optional sign stands for.
pub open spec fn parsed_number(text: Seq<char>) -> Option<int> {
    let signed = text.len() > 0 && (text[0] == '+' || text[0] == '-');
    let digits = if signed {
        text.skip(1)
    } else {
        text
    };
    let value = if text.len() > 0 && text[0] == '-' {
        -(digits_value(digits) as int)
    } else {
        digits_value(digits) as int
    };
    if digits.len() > 0 && all_digits(digits) && i32::MIN <= value <= i32::MAX {
        Some(value)
    } else {
        None
    }
}

/// The mantissa and the exponent of a number in scientific notation.
pub open spec fn scientific_parts(text: Seq<char>) -> Option<(Seq<char>, int)> {
    let marker = marker_position(text);
    if marker < text.len() {
        match parsed_number(text.skip(marker + 1)) {
            Some(exponent) => Some((text.take(marker), exponent)),
            None => None,
        }
    } else {
        None
    }
}

/// The digits in a text, without anything else.
pub open spec fn only_digits(text: Seq<char>) -> Seq<char>
    decreases text.len(),
{
    if text.len() == 0 {
        Seq::empty()
    } else if text::decimal_digit(text.last()) {
        only_digits(text.drop_last()).push(text.last())
    } else {
        only_digits(text.drop_last())
    }
}

/// Without the zeros at the end, but for one directly behind the point.
pub open spec fn trimmed_fraction(text: Seq<char>) -> Seq<char>
    decreases text.len(),
{
    if text.len() > 0 && text.last() == '0' && !(text.len() > 1 && text[text.len() - 2] == '.') {
        trimmed_fraction(text.drop_last())
    } else {
        text
    }
}

pub open spec fn zeros(count: int) -> Seq<char>
    decreases count,
{
    if count <= 0 {
        Seq::empty()
    } else {
        zeros(count - 1).push('0')
    }
}

/// A number of `mantissa` times ten to the power of `exponent`: in plain notation
/// from four zeros behind the point up to six digits in front of it, else in
/// scientific notation with an exponent of at least two digits.
pub open spec fn printed_number(mantissa: Seq<char>, exponent: int) -> Seq<char> {
    let sign = if mantissa.len() > 0 && mantissa[0] == '-' {
        "-"@
    } else {
        Seq::empty()
    };
    let digits = only_digits(mantissa);
    let point = exponent + 1;
    if exponent < -4 || exponent >= 6 {
        let magnitude = if exponent < 0 {
            -exponent
        } else {
            exponent
        };
        trimmed_fraction(mantissa) + (if exponent < 0 {
            "e-"@
        } else {
            "e+"@
        }) + (if magnitude < 10 {
            "0"@
        } else {
            Seq::empty()
        }) + text::decimal(magnitude as nat)
    } else if point <= 0 {
        trimmed_fraction(sign + "0."@ + zeros(-point) + digits)
    } else if point >= digits.len() {
        sign + digits + zeros(point - digits.len()) + ".0"@
    } else {
        trimmed_fraction(sign + digits.take(point) + "."@ + digits.skip(point))
    }
}

impl<'a> RealText<'a> {
    /// How the number is printed, if it can be.
    pub open spec fn printed(self) -> Option<Seq<char>> {
        match self {
            RealText::NotFinite => None,
            RealText::Zero => Some("0.0"@),
            RealText::Scientific(text) => match scientific_parts(text@) {
                Some((mantissa, exponent)) => Some(printed_number(mantissa, exponent)),
                None => None,
            },
        }
    }
}

/// The printed text of a real number stands for the number that the text in scientific
/// notation stands for. It has digits on both sides of its point, no zero at its end but
/// one directly behind the point, and a power of ten exactly where the number is too great
/// or too small to be written out.
pub proof fn law_printed_number_keeps_its_value(
    number: &str,
    sign: Seq<char>,
    first: char,
    fraction: Seq<char>,
    exponent_sign: Seq<char>,
    exponent: Seq<char>,
)
    requires
        number@ == sign + seq![first] + seq!['.'] + fraction + seq!['e'] + exponent_sign + exponent,
        sign == Seq::<char>::empty() || sign == seq!['-'],
        reading::is_digit(first),
        fraction.len() > 0,
        reading::digits_only(fraction),
        exponent_sign == Seq::<char>::empty() || exponent_sign == seq!['-'] || exponent_sign
            == seq!['+'],
        exponent.len() > 0,
        reading::digits_only(exponent),
        reading::whole(exponent) <= i32::MAX,
    ensures
        RealText::Scientific(number).printed() matches Some(shown) && {
            &&& reading::read(shown).same_value(reading::read(number@))
            &&& exists|before: Seq<char>, behind: Seq<char>, power: Seq<char>|
                #![trigger sign + before + seq!['.'] + behind + power]
                {
                    &&& shown == sign + before + seq!['.'] + behind + power
                    &&& before.len() > 0 && reading::digits_only(before)
                    &&& behind.len() > 0 && reading::digits_only(behind)
                    &&& behind.len() == 1 || behind.last() != '0'
                    &&& power.len() > 0 <==> !(-4 <= (if exponent_sign == seq!['-'] {
                        -(reading::whole(exponent) as int)
                    } else {
                        reading::whole(exponent) as int
                    }) < 6)
                    &&& power.len() > 0 ==> power[0] == 'e' && power.len() >= 4
                }
        },
{
    let mantissa = sign + seq![first] + seq!['.'] + fraction;
    let size = reading::whole(exponent) as int;
    let value = if exponent_sign == seq!['-'] {
        -size
    } else {
        size
    };
    assert(reading::digits_only(seq![first]));
    lemma_parts(number@, mantissa, sign, first, fraction, exponent_sign, exponent);
    reading::lemma_plain(sign, seq![first], fraction);
    reading::lemma_exponent(mantissa, exponent_sign, exponent);
    assert(number@ =~= mantissa + seq!['e'] + exponent_sign + exponent);
    lemma_printed_value(mantissa, sign, first, fraction, value);
    let shown = printed_number(mantissa, value);
    let (before, behind, power) = printed_parts(sign, first, fraction, value);
    assert(shown == sign + before + seq!['.'] + behind + power);
}

/// How the parts of a number in scientific notation are found.
proof fn lemma_parts(
    number: Seq<char>,
    mantissa: Seq<char>,
    sign: Seq<char>,
    first: char,
    fraction: Seq<char>,
    exponent_sign: Seq<char>,
    exponent: Seq<char>,
)
    requires
        mantissa == sign + seq![first] + seq!['.'] + fraction,
        number == mantissa + seq!['e'] + exponent_sign + exponent,
        sign == Seq::<char>::empty() || sign == seq!['-'],
        reading::is_digit(first),
        reading::digits_only(fraction),
        exponent_sign == Seq::<char>::empty() || exponent_sign == seq!['-'] || exponent_sign
            == seq!['+'],
        exponent.len() > 0,
        reading::digits_only(exponent),
        reading::whole(exponent) <= i32::MAX,
    ensures
        scientific_parts(number) == Some(
            (
                mantissa,
                if exponent_sign == seq!['-'] {
                    -(reading::whole(exponent) as int)
                } else {
                    reading::whole(exponent) as int
                },
            ),
        ),
{
    let marker = mantissa.len() as int;
    assert forall|i: int| 0 <= i < marker implies #[trigger] number[i] != 'e' by {
        assert(number[i] == mantissa[i]);
        if i < sign.len() {
            assert(mantissa[i] == sign[i]);
        } else if i == sign.len() {
            assert(mantissa[i] == first);
        } else if i == sign.len() + 1 {
            assert(mantissa[i] == '.');
        } else {
            assert(mantissa[i] == fraction[i - sign.len() - 2]);
        }
    }
    assert(number[marker] == 'e');
    lemma_marker_position(number, marker);
    assert(number.take(marker) =~= mantissa);
    let tail = number.skip(marker + 1);
    assert(tail =~= exponent_sign + exponent);
    lemma_digits_value(exponent);
    if exponent_sign.len() > 0 {
        assert(tail[0] == exponent_sign[0]);
        assert(tail.skip(1) =~= exponent);
        if exponent_sign == seq!['+'] {
            assert(seq!['+'][0] != seq!['-'][0]);
        }
    } else {
        assert(tail =~= exponent);
        assert(tail[0] == exponent[0]);
        assert(exponent_sign.len() != seq!['-'].len());
    }
    assert forall|i: int| 0 <= i < exponent.len() implies text::decimal_digit(
        #[trigger] exponent[i],
    ) by {
        assert(reading::is_digit(exponent[i]));
    }
}

proof fn lemma_digits_value(digits: Seq<char>)
    requires
        reading::digits_only(digits),
    ensures
        digits_value(digits) == reading::whole(digits),
    decreases digits.len(),
{
    if digits.len() > 0 {
        let front = digits.drop_last();
        assert forall|i: int| 0 <= i < front.len() implies reading::is_digit(
            #[trigger] front[i],
        ) by {
            assert(front[i] == digits[i]);
        }
        lemma_digits_value(front);
        reading::lemma_digits(reading::Reading::start(), front);
        assert(reading::is_digit(digits[digits.len() - 1]));
    }
}

proof fn lemma_only_digits_of(text: Seq<char>, digits: Seq<char>)
    requires
        reading::digits_only(digits),
    ensures
        only_digits(text + digits) == only_digits(text) + digits,
    decreases digits.len(),
{
    if digits.len() == 0 {
        assert(text + digits =~= text);
        assert(only_digits(text) + digits =~= only_digits(text));
    } else {
        let front = digits.drop_last();
        assert forall|i: int| 0 <= i < front.len() implies reading::is_digit(
            #[trigger] front[i],
        ) by {
            assert(front[i] == digits[i]);
        }
        lemma_only_digits_of(text, front);
        assert((text + digits).drop_last() =~= text + front);
        assert(reading::is_digit(digits[digits.len() - 1]));
        assert(only_digits(text + digits) =~= only_digits(text) + digits);
    }
}

proof fn lemma_mantissa_digits(
    mantissa: Seq<char>,
    sign: Seq<char>,
    first: char,
    fraction: Seq<char>,
)
    requires
        mantissa == sign + seq![first] + seq!['.'] + fraction,
        sign == Seq::<char>::empty() || sign == seq!['-'],
        reading::is_digit(first),
        reading::digits_only(fraction),
    ensures
        only_digits(mantissa) == seq![first] + fraction,
        mantissa.len() > 0 && (mantissa[0] == '-' <==> sign.len() > 0),
{
    if sign.len() > 0 {
        assert(sign.drop_last() =~= Seq::<char>::empty());
        assert(sign.last() == '-');
        assert(only_digits(sign.drop_last()) =~= Seq::<char>::empty());
        assert(mantissa[0] == '-');
    } else {
        assert(mantissa[0] == first);
    }
    assert(only_digits(sign) =~= Seq::<char>::empty());
    lemma_only_digits_of(sign, seq![first]);
    let pointed = sign + seq![first] + seq!['.'];
    assert(pointed.drop_last() =~= sign + seq![first]);
    assert(pointed.last() == '.');
    lemma_only_digits_of(pointed, fraction);
    assert(only_digits(mantissa) =~= seq![first] + fraction);
}

/// Digits behind a point without the zeros at their end, but for the first digit.
spec fn kept(fraction: Seq<char>) -> Seq<char>
    decreases fraction.len(),
{
    if fraction.len() > 1 && fraction.last() == '0' {
        kept(fraction.drop_last())
    } else {
        fraction
    }
}

proof fn lemma_kept(front: Seq<char>, fraction: Seq<char>)
    requires
        fraction.len() > 0,
        reading::digits_only(fraction),
    ensures
        trimmed_fraction(front + seq!['.'] + fraction) == front + seq!['.'] + kept(fraction),
        0 < kept(fraction).len() <= fraction.len(),
        kept(fraction) == fraction.take(kept(fraction).len() as int),
        forall|i: int| kept(fraction).len() <= i < fraction.len() ==> #[trigger] fraction[i] == '0',
        kept(fraction).len() == 1 || kept(fraction).last() != '0',
        reading::digits_only(kept(fraction)),
    decreases fraction.len(),
{
    let whole = front + seq!['.'] + fraction;
    assert(whole.last() == fraction.last());
    if fraction.len() > 1 {
        assert(whole[whole.len() - 2] == fraction[fraction.len() - 2]);
        assert(reading::is_digit(fraction[fraction.len() - 2]));
    } else {
        assert(whole[whole.len() - 2] == '.');
    }
    if fraction.len() > 1 && fraction.last() == '0' {
        let shorter = fraction.drop_last();
        assert forall|i: int| 0 <= i < shorter.len() implies reading::is_digit(
            #[trigger] shorter[i],
        ) by {
            assert(shorter[i] == fraction[i]);
        }
        lemma_kept(front, shorter);
        assert(whole.drop_last() =~= front + seq!['.'] + shorter);
        let count = kept(shorter).len() as int;
        assert(shorter.take(count) =~= fraction.take(count));
        assert forall|i: int| count <= i < fraction.len() implies #[trigger] fraction[i] == '0' by {
            if i < shorter.len() {
                assert(shorter[i] == '0');
            }
        }
    } else {
        assert(fraction.take(fraction.len() as int) =~= fraction);
    }
}

/// The digits before the point, those behind it, and the power of ten.
spec fn printed_parts(
    sign: Seq<char>,
    first: char,
    fraction: Seq<char>,
    exponent: int,
) -> (Seq<char>, Seq<char>, Seq<char>) {
    let digits = seq![first] + fraction;
    let point = exponent + 1;
    if exponent < -4 || exponent >= 6 {
        (seq![first], kept(fraction), seq!['e'] + power_sign(exponent) + power_digits(exponent))
    } else if point <= 0 {
        (seq!['0'], kept(zeros(-point) + digits), Seq::empty())
    } else if point >= digits.len() {
        (digits + zeros(point - digits.len()), seq!['0'], Seq::empty())
    } else {
        (digits.take(point), kept(digits.skip(point)), Seq::empty())
    }
}

spec fn power_sign(exponent: int) -> Seq<char> {
    if exponent < 0 {
        seq!['-']
    } else {
        seq!['+']
    }
}

spec fn power_digits(exponent: int) -> Seq<char> {
    let size = if exponent < 0 {
        (-exponent) as nat
    } else {
        exponent as nat
    };
    (if size < 10 {
        seq!['0']
    } else {
        Seq::empty()
    }) + text::decimal(size)
}

proof fn lemma_zeros_are_zeros(count: int)
    ensures
        zeros(count).len() == if count > 0 {
            count
        } else {
            0
        },
        forall|i: int| 0 <= i < zeros(count).len() ==> #[trigger] zeros(count)[i] == '0',
        reading::digits_only(zeros(count)),
        reading::whole(zeros(count)) == 0,
    decreases count,
{
    if count > 0 {
        lemma_zeros_are_zeros(count - 1);
    }
    reading::lemma_zeros(zeros(count));
}

/// Zeros that are dropped behind the point do not change the value.
proof fn lemma_dropped_zeros(sign: Seq<char>, before: Seq<char>, fraction: Seq<char>)
    requires
        sign == Seq::<char>::empty() || sign == seq!['-'],
        reading::digits_only(before),
        reading::digits_only(fraction),
        fraction.len() > 0,
    ensures
        ({
            let dropped = (fraction.len() - kept(fraction).len()) as nat;
            &&& fraction.len() >= kept(fraction).len()
            &&& reading::whole(before + fraction) == reading::whole(before + kept(fraction))
                * reading::ten(dropped)
        }),
{
    lemma_kept(sign, fraction);
    let count = kept(fraction).len() as int;
    let rest = fraction.skip(count);
    assert(before + fraction =~= (before + kept(fraction)) + rest);
    assert forall|i: int| 0 <= i < rest.len() implies #[trigger] rest[i] == '0' by {
        assert(rest[i] == fraction[i + count]);
    }
    reading::lemma_zeros(rest);
    reading::lemma_whole_concat(before, kept(fraction));
    reading::lemma_whole_concat(before + kept(fraction), rest);
}

/// The reading of a number in scientific notation.
spec fn given(sign: Seq<char>, first: char, fraction: Seq<char>, exponent: int) -> reading::Reading {
    reading::Reading {
        negative: sign.len() > 0,
        digits: reading::whole(seq![first] + fraction),
        pointed: true,
        places: fraction.len(),
        marked: true,
        exponent_negative: exponent < 0,
        exponent: (if exponent < 0 {
            -exponent
        } else {
            exponent
        }) as nat,
    }
}

/// The text is made up of the parts and stands for the number.
spec fn shows(
    shown: Seq<char>,
    sign: Seq<char>,
    first: char,
    fraction: Seq<char>,
    exponent: int,
) -> bool {
    let (before, behind, power) = printed_parts(sign, first, fraction, exponent);
    &&& shown == sign + before + seq!['.'] + behind + power
    &&& before.len() > 0 && reading::digits_only(before)
    &&& behind.len() > 0 && reading::digits_only(behind)
    &&& behind.len() == 1 || behind.last() != '0'
    &&& power.len() > 0 <==> !(-4 <= exponent < 6)
    &&& power.len() > 0 ==> power[0] == 'e' && power.len() >= 4
    &&& reading::read(shown).same_value(given(sign, first, fraction, exponent))
}

proof fn lemma_printed_value(
    mantissa: Seq<char>,
    sign: Seq<char>,
    first: char,
    fraction: Seq<char>,
    exponent: int,
)
    requires
        mantissa == sign + seq![first] + seq!['.'] + fraction,
        sign == Seq::<char>::empty() || sign == seq!['-'],
        reading::is_digit(first),
        fraction.len() > 0,
        reading::digits_only(fraction),
    ensures
        shows(printed_number(mantissa, exponent), sign, first, fraction, exponent),
{
    lemma_mantissa_digits(mantissa, sign, first, fraction);
    let point = exponent + 1;
    if exponent < -4 || exponent >= 6 {
        lemma_scientific(mantissa, sign, first, fraction, exponent);
    } else if point <= 0 {
        lemma_small(mantissa, sign, first, fraction, exponent);
    } else if point >= 1 + fraction.len() {
        lemma_great(mantissa, sign, first, fraction, exponent);
    } else {
        lemma_middle(mantissa, sign, first, fraction, exponent);
    }
}

proof fn lemma_small(
    mantissa: Seq<char>,
    sign: Seq<char>,
    first: char,
    fraction: Seq<char>,
    exponent: int,
)
    requires
        mantissa == sign + seq![first] + seq!['.'] + fraction,
        sign == Seq::<char>::empty() || sign == seq!['-'],
        reading::is_digit(first),
        fraction.len() > 0,
        reading::digits_only(fraction),
        -4 <= exponent < 0,
    ensures
        shows(printed_number(mantissa, exponent), sign, first, fraction, exponent),
{
    reveal_strlit("-");
    reveal_strlit("0.");
    lemma_mantissa_digits(mantissa, sign, first, fraction);
    let digits = seq![first] + fraction;
    let point = exponent + 1;
    assert(reading::digits_only(seq![first]));
    reading::lemma_whole_concat(seq![first], fraction);
    assert("-"@ =~= seq!['-']);
    assert("0."@ =~= seq!['0'] + seq!['.']);
    let behind = zeros(-point) + digits;
    lemma_zeros_are_zeros(-point);
    reading::lemma_whole_concat(zeros(-point), digits);
    lemma_zeros_are_zeros(1);
    assert(zeros(0) =~= Seq::<char>::empty());
    assert(zeros(1) =~= seq!['0']);
    reading::lemma_whole_concat(seq!['0'], behind);
    assert(0 * reading::ten(digits.len()) == 0) by (nonlinear_arith);
    assert(0 * reading::ten(behind.len()) == 0) by (nonlinear_arith);
    assert(sign + "0."@ + zeros(-point) + digits =~= sign + seq!['0'] + seq!['.'] + behind);
    lemma_kept(sign + seq!['0'], behind);
    lemma_dropped_zeros(sign, seq!['0'], behind);
    reading::lemma_plain(sign, seq!['0'], kept(behind));
    lemma_signed(
        sign.len() > 0,
        reading::whole(seq!['0'] + kept(behind)),
        (behind.len() - kept(behind).len()) as nat,
    );
    assert(sign + seq!['0'] + seq!['.'] + kept(behind) + Seq::<char>::empty() =~= sign + seq!['0']
        + seq!['.'] + kept(behind));
}

proof fn lemma_great(
    mantissa: Seq<char>,
    sign: Seq<char>,
    first: char,
    fraction: Seq<char>,
    exponent: int,
)
    requires
        mantissa == sign + seq![first] + seq!['.'] + fraction,
        sign == Seq::<char>::empty() || sign == seq!['-'],
        reading::is_digit(first),
        fraction.len() > 0,
        reading::digits_only(fraction),
        0 <= exponent < 6,
        exponent + 1 >= 1 + fraction.len(),
    ensures
        shows(printed_number(mantissa, exponent), sign, first, fraction, exponent),
{
    reveal_strlit("-");
    reveal_strlit(".0");
    lemma_mantissa_digits(mantissa, sign, first, fraction);
    let digits = seq![first] + fraction;
    let point = exponent + 1;
    assert(reading::digits_only(seq![first]));
    reading::lemma_whole_concat(seq![first], fraction);
    assert("-"@ =~= seq!['-']);
    assert(".0"@ =~= seq!['.'] + seq!['0']);
    let more = zeros(point - digits.len());
    let before = digits + more;
    lemma_zeros_are_zeros(point - digits.len());
    lemma_zeros_are_zeros(1);
    assert(zeros(0) =~= Seq::<char>::empty());
    assert(zeros(1) =~= seq!['0']);
    reading::lemma_whole_concat(digits, more);
    reading::lemma_whole_concat(before, seq!['0']);
    reading::lemma_plain(sign, before, seq!['0']);
    assert(sign + digits + more + ".0"@ =~= sign + before + seq!['.'] + seq!['0']);
    assert(sign + before + seq!['.'] + seq!['0'] + Seq::<char>::empty() =~= sign + before
        + seq!['.'] + seq!['0']);
    reading::lemma_ten_adds(more.len(), 1);
    let (a, b) = (reading::whole(digits), reading::ten(more.len()));
    assert(reading::ten(0) == 1);
    assert(reading::ten(1) == 10 * reading::ten(0));
    assert((a * b) * 10 == a * (b * 10)) by (nonlinear_arith);
    lemma_signed(sign.len() > 0, a, more.len() + 1);
}

proof fn lemma_middle(
    mantissa: Seq<char>,
    sign: Seq<char>,
    first: char,
    fraction: Seq<char>,
    exponent: int,
)
    requires
        mantissa == sign + seq![first] + seq!['.'] + fraction,
        sign == Seq::<char>::empty() || sign == seq!['-'],
        reading::is_digit(first),
        fraction.len() > 0,
        reading::digits_only(fraction),
        0 <= exponent < 6,
        exponent + 1 < 1 + fraction.len(),
    ensures
        shows(printed_number(mantissa, exponent), sign, first, fraction, exponent),
{
    reveal_strlit("-");
    reveal_strlit(".");
    lemma_mantissa_digits(mantissa, sign, first, fraction);
    let digits = seq![first] + fraction;
    let point = exponent + 1;
    assert(reading::digits_only(seq![first]));
    reading::lemma_whole_concat(seq![first], fraction);
    assert("-"@ =~= seq!['-']);
    assert("."@ =~= seq!['.']);
    let before = digits.take(point);
    let behind = digits.skip(point);
    assert(before + behind =~= digits);
    assert forall|i: int| 0 <= i < before.len() implies reading::is_digit(#[trigger] before[i]) by {
        assert(before[i] == digits[i]);
    }
    assert forall|i: int| 0 <= i < behind.len() implies reading::is_digit(#[trigger] behind[i]) by {
        assert(behind[i] == digits[i + point]);
    }
    assert(sign + before + "."@ + behind =~= sign + before + seq!['.'] + behind);
    lemma_kept(sign + before, behind);
    lemma_dropped_zeros(sign, before, behind);
    reading::lemma_plain(sign, before, kept(behind));
    lemma_signed(
        sign.len() > 0,
        reading::whole(before + kept(behind)),
        (behind.len() - kept(behind).len()) as nat,
    );
    assert(sign + before + seq!['.'] + kept(behind) + Seq::<char>::empty() =~= sign + before
        + seq!['.'] + kept(behind));
}

proof fn lemma_signed(negative: bool, digits: nat, power: nat)
    ensures
        ({
            let scaled = digits * reading::ten(power);
            if negative {
                -(scaled as int) == (-(digits as int)) * reading::ten(power)
            } else {
                true
            }
        }),
{
    let t = reading::ten(power) as int;
    let d = digits as int;
    assert(-(d * t) == (-d) * t) by (nonlinear_arith);
}

proof fn lemma_power_digits(exponent: int)
    ensures
        ({
            let size = if exponent < 0 {
                -exponent
            } else {
                exponent
            };
            &&& reading::digits_only(power_digits(exponent))
            &&& reading::whole(power_digits(exponent)) == size
            &&& power_digits(exponent).len() >= 2
        }),
{
    let size = if exponent < 0 {
        -exponent
    } else {
        exponent
    };
    let shown = text::decimal(size as nat);
    reading::law_decimal_reads_back(size as nat);
    if size < 10 {
        lemma_zeros_are_zeros(1);
        assert(zeros(0) =~= Seq::<char>::empty());
        assert(zeros(1) =~= seq!['0']);
        reading::lemma_whole_concat(seq!['0'], shown);
        assert(0 * reading::ten(shown.len()) == 0) by (nonlinear_arith);
    } else {
        assert(power_digits(exponent) =~= shown);
        assert(shown == text::decimal(size as nat / 10).push(text::digit(size % 10)));
        reading::law_decimal_reads_back(size as nat / 10);
    }
}

#[verifier::rlimit(30)]
proof fn lemma_scientific(
    mantissa: Seq<char>,
    sign: Seq<char>,
    first: char,
    fraction: Seq<char>,
    exponent: int,
)
    requires
        mantissa == sign + seq![first] + seq!['.'] + fraction,
        sign == Seq::<char>::empty() || sign == seq!['-'],
        reading::is_digit(first),
        fraction.len() > 0,
        reading::digits_only(fraction),
        exponent < -4 || exponent >= 6,
    ensures
        shows(printed_number(mantissa, exponent), sign, first, fraction, exponent),
{
    reveal_strlit("e-");
    reveal_strlit("e+");
    reveal_strlit("0");
    let shown = printed_number(mantissa, exponent);
    let short = kept(fraction);
    let front = sign + seq![first] + seq!['.'] + short;
    assert(reading::digits_only(seq![first]));
    lemma_kept(sign + seq![first], fraction);
    lemma_power_digits(exponent);
    assert("0"@ =~= seq!['0']);
    assert("e-"@ =~= seq!['e'] + seq!['-']);
    assert("e+"@ =~= seq!['e'] + seq!['+']);
    let tail = power_digits(exponent);
    assert(shown =~= front + seq!['e'] + power_sign(exponent) + tail);
    assert(shown =~= sign + seq![first] + seq!['.'] + short + (seq!['e'] + power_sign(exponent)
        + tail));
    reading::lemma_plain(sign, seq![first], short);
    reading::lemma_exponent(front, power_sign(exponent), tail);
    if exponent >= 0 {
        assert(seq!['+'][0] != seq!['-'][0]);
    }
    lemma_dropped_zeros(sign, seq![first], fraction);
    lemma_signed(
        sign.len() > 0,
        reading::whole(seq![first] + short),
        (fraction.len() - short.len()) as nat,
    );
}

proof fn lemma_marker_position(text: Seq<char>, index: int)
    requires
        0 <= index <= text.len(),
        forall|i: int| 0 <= i < index ==> #[trigger] text[i] != 'e',
        index == text.len() || text[index] == 'e',
    ensures
        marker_position(text) == index,
    decreases index,
{
    if index > 0 {
        let rest = text.drop_first();
        assert(text[0] != 'e');
        assert forall|i: int| 0 <= i < index - 1 implies #[trigger] rest[i] != 'e' by {
            assert(rest[i] == text[i + 1]);
        }
        lemma_marker_position(rest, index - 1);
    }
}

proof fn lemma_digits_value_grows(digits: Seq<char>, count: int)
    requires
        0 <= count <= digits.len(),
    ensures
        digits_value(digits.take(count)) <= digits_value(digits),
    decreases digits.len(),
{
    if count < digits.len() {
        lemma_digits_value_grows(digits.drop_last(), count);
        assert(digits.drop_last().take(count) =~= digits.take(count));
    } else {
        assert(digits.take(count) =~= digits);
    }
}

/// The number that the characters from `start` up to the end stand for.
fn parse_number(chars: &Vec<char>, start: usize) -> (number: Option<i32>)
    requires
        start <= chars@.len(),
    ensures
        match number {
            Some(number) => parsed_number(chars@.skip(start as int)) == Some(number as int),
            None => parsed_number(chars@.skip(start as int)) is None,
        },
{
    let ghost whole = chars@.skip(start as int);
    let length: usize = chars.len();
    let negative = start < length && chars[start] == '-';
    let signed = negative || (start < length && chars[start] == '+');
    let first: usize = if signed {
        start + 1
    } else {
        start
    };
    let ghost digits = chars@.skip(first as int);
    proof {
        if signed {
            assert(digits =~= whole.skip(1));
        }
        if start < length {
            assert(whole[0] == chars@[start as int]);
        }
    }
    if first == length {
        return None;
    }
    let mut value: i64 = 0;
    let mut index: usize = first;
    assert(digits.take(0) =~= Seq::<char>::empty());
    while index < length
        invariant
            first <= index <= length,
            length == chars@.len(),
            digits == chars@.skip(first as int),
            0 <= value <= 2147483648,
            value == digits_value(digits.take(index - first)),
            forall|i: int| 0 <= i < index - first ==> text::decimal_digit(#[trigger] digits[i]),
            digits.len() > 0,
            whole.len() > 0,
            digits == if whole[0] == '+' || whole[0] == '-' {
                whole.skip(1)
            } else {
                whole
            },
            whole == chars@.skip(start as int),
        decreases length - index,
    {
        let ch = chars[index];
        if !is_decimal_digit(ch) {
            assert(!text::decimal_digit(digits[index - first]));
            return None;
        }
        proof {
            let next = digits.take(index - first + 1);
            assert(next.drop_last() =~= digits.take(index - first));
            assert(next.last() == ch);
            lemma_digits_value_grows(digits, index - first + 1);
        }
        value = 10 * value + (ch as u32 as i64 - 48);
        if value > 2147483648 {
            return None;
        }
        index = index + 1;
    }
    assert(digits.take(digits.len() as int) =~= digits);
    if negative {
        Some((-value) as i32)
    } else if value == 2147483648 {
        None
    } else {
        Some(value as i32)
    }
}

fn digits_of(chars: &Vec<char>, end: usize) -> (digits: Vec<char>)
    requires
        end <= chars@.len(),
    ensures
        digits@ == only_digits(chars@.take(end as int)),
{
    let mut digits: Vec<char> = Vec::new();
    let mut index: usize = 0;
    while index < end
        invariant
            index <= end <= chars@.len(),
            digits@ == only_digits(chars@.take(index as int)),
        decreases end - index,
    {
        proof {
            let next = chars@.take(index + 1);
            assert(next.drop_last() =~= chars@.take(index as int));
            assert(next.last() == chars@[index as int]);
        }
        if is_decimal_digit(chars[index]) {
            digits.push(chars[index]);
        }
        index = index + 1;
    }
    digits
}

fn trim_fraction(text: &mut String)
    ensures
        final(text)@ == trimmed_fraction(old(text)@),
{
    let mut chars = chars_of(text.as_str());
    let ghost whole = text@;
    while chars.len() > 0 && chars[chars.len() - 1] == '0' && !(chars.len() > 1 && chars[chars.len()
        - 2] == '.')
        invariant
            trimmed_fraction(chars@) == trimmed_fraction(whole),
        decreases chars@.len(),
    {
        let ghost before = chars@;
        let _ = chars.pop();
        assert(chars@ =~= before.drop_last());
    }
    *text = text_of(&chars);
}

fn push_zeros(text: &mut String, count: usize)
    ensures
        final(text)@ == old(text)@ + zeros(count as int),
{
    let ghost before = text@;
    let mut index: usize = 0;
    assert(before + zeros(0) =~= before);
    while index < count
        invariant
            index <= count,
            text@ == before + zeros(index as int),
        decreases count - index,
    {
        text.push('0');
        index = index + 1;
        assert(text@ =~= before + zeros(index as int));
    }
}

fn push_printed_number(mantissa: &Vec<char>, exponent: i32) -> (shown: String)
    ensures
        shown@ == printed_number(mantissa@, exponent as int),
{
    assert(mantissa@.take(mantissa@.len() as int) =~= mantissa@);
    let digits = digits_of(mantissa, mantissa.len());
    if exponent < -4 || exponent >= 6 {
        let mut shown = text_of(mantissa);
        trim_fraction(&mut shown);
        let magnitude: u64 = if exponent < 0 {
            shown.push_str("e-");
            (-(exponent as i64)) as u64
        } else {
            shown.push_str("e+");
            exponent as u64
        };
        if magnitude < 10 {
            shown.push_str("0");
        }
        let ghost start = shown@;
        push_decimal(&mut shown, magnitude);
        proof {
            let trimmed = trimmed_fraction(mantissa@);
            let marker = if exponent < 0 {
                "e-"@
            } else {
                "e+"@
            };
            assert((trimmed + marker) + Seq::<char>::empty() =~= trimmed + marker);
        }
        return shown;
    }
    let mut shown = String::new();
    if mantissa.len() > 0 && mantissa[0] == '-' {
        shown.push_str("-");
        assert(shown@ =~= "-"@);
    }
    let ghost sign = shown@;
    let point: i32 = exponent + 1;
    if point <= 0 {
        shown.push_str("0.");
        push_zeros(&mut shown, (-point) as usize);
        push_chars(&mut shown, &digits, 0, digits.len());
        assert(digits@.subrange(0, digits@.len() as int) =~= digits@);
        trim_fraction(&mut shown);
    } else if point as usize >= digits.len() {
        push_chars(&mut shown, &digits, 0, digits.len());
        assert(digits@.subrange(0, digits@.len() as int) =~= digits@);
        push_zeros(&mut shown, point as usize - digits.len());
        shown.push_str(".0");
    } else {
        push_chars(&mut shown, &digits, 0, point as usize);
        shown.push_str(".");
        push_chars(&mut shown, &digits, point as usize, digits.len());
        proof {
            assert(digits@.subrange(0, point as int) =~= digits@.take(point as int));
            assert(digits@.subrange(point as int, digits@.len() as int) =~= digits@.skip(
                point as int,
            ));
        }
        trim_fraction(&mut shown);
    }
    shown
}

/// A real number as AutoLISP prints it; none that is not finite is printed.
pub fn format_autolisp_real(number: RealText<'_>) -> (shown: Option<String>)
    ensures
        shown is Some <==> number.printed() is Some,
        shown matches Some(shown) ==> Some(shown@) == number.printed(),
{
    match number {
        RealText::NotFinite => None,
        RealText::Zero => Some("0.0".to_owned()),
        RealText::Scientific(text) => {
            let chars = chars_of(text);
            let length: usize = chars.len();
            let mut marker: usize = 0;
            let mut mantissa: Vec<char> = Vec::new();
            while marker < length && chars[marker] != 'e'
                invariant
                    marker <= length,
                    length == chars@.len(),
                    mantissa@ == chars@.take(marker as int),
                    forall|i: int| 0 <= i < marker ==> #[trigger] chars@[i] != 'e',
                decreases length - marker,
            {
                mantissa.push(chars[marker]);
                marker = marker + 1;
                assert(mantissa@ =~= chars@.take(marker as int));
            }
            proof {
                lemma_marker_position(chars@, marker as int);
            }
            if marker == length {
                return None;
            }
            match parse_number(&chars, marker + 1) {
                Some(exponent) => Some(push_printed_number(&mantissa, exponent)),
                None => None,
            }
        },
    }
}

/// A real number is not printed where it is not finite, or where its text is no number in
/// scientific notation: without a marker, or without digits behind that.
pub proof fn law_malformed_reals_are_not_printed(number: &str, mantissa: Seq<char>, sign: Seq<char>)
    requires
        forall|i: int| 0 <= i < mantissa.len() ==> #[trigger] mantissa[i] != 'e',
        sign.len() == 0 || sign == seq!['+'] || sign == seq!['-'],
    ensures
        RealText::NotFinite.printed() is None,
        number@ == mantissa ==> RealText::Scientific(number).printed() is None,
        number@ == mantissa + seq!['e'] + sign ==> RealText::Scientific(number).printed() is None,
        RealText::Zero.printed() == Some("0.0"@),
{
    lemma_no_marker_inside(mantissa, Seq::empty());
    assert(mantissa + Seq::<char>::empty() =~= mantissa);
    let whole = mantissa + seq!['e'] + sign;
    assert(whole =~= mantissa + (seq!['e'] + sign));
    lemma_no_marker_inside(mantissa, seq!['e'] + sign);
    assert(whole.skip(mantissa.len() as int + 1) =~= sign);
    if sign.len() > 0 {
        assert(sign.skip(1).len() == 0);
    }
}

proof fn lemma_no_marker_inside(mantissa: Seq<char>, rest: Seq<char>)
    requires
        forall|i: int| 0 <= i < mantissa.len() ==> #[trigger] mantissa[i] != 'e',
        rest.len() == 0 || rest[0] == 'e',
    ensures
        marker_position(mantissa + rest) == mantissa.len(),
    decreases mantissa.len(),
{
    let whole = mantissa + rest;
    if mantissa.len() > 0 {
        assert(whole[0] == mantissa[0]);
        assert(whole.drop_first() =~= mantissa.drop_first() + rest);
        assert forall|i: int| 0 <= i < mantissa.drop_first().len() implies (
        #[trigger] mantissa.drop_first()[i]) != 'e' by {
            assert(mantissa.drop_first()[i] == mantissa[i + 1]);
        }
        lemma_no_marker_inside(mantissa.drop_first(), rest);
    } else {
        assert(whole =~= rest);
    }
}

} // verus!
