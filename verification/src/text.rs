//! Text helpers shared by the other modules: byte lengths, prefixes that end on
//! a character boundary, character classes and decimal numerals.
use vstd::prelude::*;
use vstd::string::*;
use vstd::utf8::*;

verus! {

/// `String::push`: the character is appended to the text.
pub assume_specification[ std::string::String::push ](buffer: &mut std::string::String, ch: char)
    ensures
        final(buffer)@ == old(buffer)@.push(ch),
;

/// `String::push_str`: the other text is appended.
pub assume_specification[ std::string::String::push_str ](buffer: &mut std::string::String, other: &str)
    ensures
        final(buffer)@ == old(buffer)@ + other@,
;

/// The number of bytes of a text in UTF-8.
pub open spec fn byte_len(text: Seq<char>) -> nat {
    encode_utf8(text).len()
}

/// The number of bytes of one character in UTF-8.
pub open spec fn char_bytes(ch: char) -> nat {
    encode_scalar(ch as u32).len()
}

/// The number of leading characters of `text` that fit in `limit` bytes.
pub open spec fn prefix_chars(text: Seq<char>, limit: int) -> int
    decreases text.len(),
{
    if text.len() == 0 || char_bytes(text[0]) > limit {
        0
    } else {
        1 + prefix_chars(text.drop_first(), limit - char_bytes(text[0]))
    }
}

pub proof fn lemma_char_bytes(ch: char)
    ensures
        1 <= char_bytes(ch) <= 4,
        char_bytes(ch) == if ch as u32 <= 0x7f {
            1nat
        } else if ch as u32 <= 0x7ff {
            2
        } else if ch as u32 <= 0xffff {
            3
        } else {
            4
        },
{
    char_is_scalar(ch);
}

pub proof fn lemma_byte_len_concat(left: Seq<char>, right: Seq<char>)
    ensures
        encode_utf8(left + right) == encode_utf8(left) + encode_utf8(right),
        byte_len(left + right) == byte_len(left) + byte_len(right),
    decreases left.len(),
{
    if left.len() == 0 {
        assert(left + right =~= right);
        assert(encode_utf8(left) + encode_utf8(right) =~= encode_utf8(right));
    } else {
        lemma_byte_len_concat(left.drop_first(), right);
        assert((left + right).drop_first() =~= left.drop_first() + right);
        assert(encode_utf8(left + right) =~= encode_utf8(left) + encode_utf8(right));
    }
}

pub proof fn lemma_byte_len_single(ch: char)
    ensures
        byte_len(seq![ch]) == char_bytes(ch),
{
    let one = seq![ch];
    assert(one.drop_first() =~= Seq::<char>::empty());
    assert(encode_utf8(one) =~= encode_scalar(ch as u32) + encode_utf8(one.drop_first()));
}

pub proof fn lemma_byte_len_push(text: Seq<char>, ch: char)
    ensures
        byte_len(text.push(ch)) == byte_len(text) + char_bytes(ch),
{
    assert(text.push(ch) =~= text + seq![ch]);
    lemma_byte_len_concat(text, seq![ch]);
    lemma_byte_len_single(ch);
}

/// A text has at least as many bytes as characters, and no bytes only if empty.
pub proof fn lemma_byte_len_at_least_chars(text: Seq<char>)
    ensures
        byte_len(text) >= text.len(),
    decreases text.len(),
{
    if text.len() > 0 {
        lemma_byte_len_at_least_chars(text.drop_first());
        lemma_char_bytes(text[0]);
    }
}

/// Two texts with the same bytes are the same text.
pub proof fn lemma_encode_injective(left: Seq<char>, right: Seq<char>)
    requires
        encode_utf8(left) == encode_utf8(right),
    ensures
        left == right,
{
    encode_utf8_decode_utf8(left);
    encode_utf8_decode_utf8(right);
}

pub proof fn lemma_take_boundary(text: Seq<char>, count: int)
    requires
        0 <= count <= text.len(),
    ensures
        is_char_boundary(encode_utf8(text), byte_len(text.take(count)) as int),
        byte_len(text.take(count)) <= byte_len(text),
    decreases text.len(),
{
    lemma_byte_len_concat(text.take(count), text.skip(count));
    assert(text.take(count) + text.skip(count) =~= text);
    encode_utf8_valid_utf8(text);
    if count == 0 {
        assert(text.take(0) =~= Seq::<char>::empty());
    } else {
        let rest = text.drop_first();
        lemma_take_boundary(rest, count - 1);
        encode_utf8_first_scalar(text);
        assert(text.take(count).drop_first() =~= rest.take(count - 1));
        assert(pop_first_scalar(encode_utf8(text)) =~= encode_utf8(rest));
        lemma_char_bytes(text[0]);
    }
}

/// `prefix_chars` is the one count whose prefix fits and cannot be lengthened.
pub proof fn lemma_prefix_chars_unique(text: Seq<char>, limit: int, count: int)
    requires
        0 <= count <= text.len(),
        byte_len(text.take(count)) <= limit,
        count == text.len() || byte_len(text.take(count + 1)) > limit,
    ensures
        prefix_chars(text, limit) == count,
    decreases text.len(),
{
    if text.len() == 0 {
    } else if count == 0 {
        assert(text.take(1) =~= seq![text[0]]);
        lemma_byte_len_single(text[0]);
    } else {
        let rest = text.drop_first();
        assert(text.take(count) =~= seq![text[0]] + rest.take(count - 1));
        lemma_byte_len_concat(seq![text[0]], rest.take(count - 1));
        lemma_byte_len_single(text[0]);
        if count < text.len() {
            assert(text.take(count + 1) =~= seq![text[0]] + rest.take(count));
            lemma_byte_len_concat(seq![text[0]], rest.take(count));
        }
        lemma_prefix_chars_unique(rest, limit - char_bytes(text[0]), count - 1);
    }
}

/// The prefix of `prefix_chars` characters fits, and no longer prefix does.
pub proof fn lemma_prefix_chars(text: Seq<char>, limit: int)
    requires
        limit >= 0,
    ensures
        0 <= prefix_chars(text, limit) <= text.len(),
        byte_len(text.take(prefix_chars(text, limit))) <= limit,
        prefix_chars(text, limit) < text.len() ==> byte_len(
            text.take(prefix_chars(text, limit) + 1),
        ) > limit,
        byte_len(text) <= limit ==> prefix_chars(text, limit) == text.len(),
    decreases text.len(),
{
    if text.len() == 0 {
        assert(text.take(0) =~= Seq::<char>::empty());
    } else {
        let rest = text.drop_first();
        lemma_byte_len_single(text[0]);
        if char_bytes(text[0]) > limit {
            assert(text.take(0) =~= Seq::<char>::empty());
            assert(text.take(1) =~= seq![text[0]]);
            assert(text =~= seq![text[0]] + rest);
            lemma_byte_len_concat(seq![text[0]], rest);
        } else {
            let inner = limit - char_bytes(text[0]);
            let count = prefix_chars(rest, inner);
            lemma_prefix_chars(rest, inner);
            assert(text.take(count + 1) =~= seq![text[0]] + rest.take(count));
            lemma_byte_len_concat(seq![text[0]], rest.take(count));
            if count < rest.len() {
                assert(text.take(count + 2) =~= seq![text[0]] + rest.take(count + 1));
                lemma_byte_len_concat(seq![text[0]], rest.take(count + 1));
            }
            assert(text =~= seq![text[0]] + rest);
            lemma_byte_len_concat(seq![text[0]], rest);
        }
    }
}

pub proof fn lemma_prefix_chars_range(text: Seq<char>, limit: int)
    ensures
        0 <= prefix_chars(text, limit) <= text.len(),
        limit <= 0 ==> prefix_chars(text, limit) == 0,
    decreases text.len(),
{
    if text.len() > 0 {
        lemma_char_bytes(text[0]);
        lemma_prefix_chars_range(text.drop_first(), limit - char_bytes(text[0]));
    }
}

/// Characters of a text fit only if all of the text before it does.
pub proof fn lemma_prefix_chars_concat(left: Seq<char>, right: Seq<char>, limit: int)
    ensures
        0 <= prefix_chars(left, limit) <= left.len(),
        prefix_chars(left + right, limit) == if prefix_chars(left, limit) < left.len() {
            prefix_chars(left, limit)
        } else {
            left.len() + prefix_chars(right, limit - byte_len(left))
        },
    decreases left.len(),
{
    lemma_prefix_chars_range(left, limit);
    if left.len() == 0 {
        assert(left + right =~= right);
        assert(left =~= Seq::<char>::empty());
    } else {
        let rest = left.drop_first();
        assert((left + right).drop_first() =~= rest + right);
        assert(left =~= seq![left[0]] + rest);
        lemma_byte_len_concat(seq![left[0]], rest);
        lemma_byte_len_single(left[0]);
        lemma_prefix_chars_concat(rest, right, limit - char_bytes(left[0]));
    }
}

/// The number of bytes of a text.
pub fn byte_count(text: &str) -> (count: usize)
    ensures
        count == byte_len(text@),
{
    text.as_bytes().len()
}

/// Splits a text behind its longest prefix of at most `limit` bytes.
pub fn split_prefix(text: &str, limit: usize) -> (parts: (&str, &str))
    ensures
        parts.0@ == text@.take(prefix_chars(text@, limit as int)),
        parts.1@ == text@.skip(prefix_chars(text@, limit as int)),
        0 <= prefix_chars(text@, limit as int) <= text@.len(),
{
    let length: usize = byte_count(text);
    let mut end: usize = if limit < length {
        limit
    } else {
        length
    };
    let ghost bytes = text.spec_bytes();
    proof {
        encode_utf8_valid_utf8(text@);
        is_char_boundary_start_end_of_seq(bytes);
    }
    while !text.is_char_boundary(end)
        invariant
            bytes == text.spec_bytes(),
            length == bytes.len(),
            is_char_boundary(bytes, 0),
            end <= limit,
            end <= length,
            forall|index: int|
                end < index <= limit && index <= length ==> !is_char_boundary(bytes, index),
        decreases end,
    {
        end = end - 1;
    }
    let parts = text.split_at(end);
    proof {
        let count = parts.0@.len() as int;
        lemma_byte_len_concat(parts.0@, parts.1@);
        assert(encode_utf8(parts.0@) + encode_utf8(parts.1@) =~= bytes);
        lemma_encode_injective(parts.0@ + parts.1@, text@);
        assert(parts.0@ =~= text@.take(count));
        assert(parts.1@ =~= text@.skip(count));
        if count < text@.len() {
            lemma_take_boundary(text@, count + 1);
            assert(text@.take(count + 1) =~= text@.take(count).push(text@[count]));
            lemma_byte_len_push(text@.take(count), text@[count]);
            lemma_char_bytes(text@[count]);
        }
        lemma_prefix_chars_unique(text@, limit as int, count);
    }
    parts
}

/// The digit of a value below ten.
pub open spec fn digit(value: int) -> char {
    (48 + value) as char
}

/// The decimal numeral of a natural number.
pub open spec fn decimal(value: nat) -> Seq<char>
    decreases value,
{
    if value < 10 {
        seq![digit(value as int)]
    } else {
        decimal(value / 10).push(digit((value % 10) as int))
    }
}

/// The decimal numeral of an integer, with a leading minus sign below zero.
pub open spec fn signed_decimal(value: int) -> Seq<char> {
    if value < 0 {
        seq!['-'] + decimal((-value) as nat)
    } else {
        decimal(value as nat)
    }
}

fn digit_char(value: u64) -> (ch: char)
    requires
        value < 10,
    ensures
        ch == digit(value as int),
{
    match value {
        0 => '0',
        1 => '1',
        2 => '2',
        3 => '3',
        4 => '4',
        5 => '5',
        6 => '6',
        7 => '7',
        8 => '8',
        _ => '9',
    }
}

/// Appends the decimal numeral of a number.
pub fn push_decimal(text: &mut String, value: u64)
    ensures
        final(text)@ == old(text)@ + decimal(value as nat),
    decreases value,
{
    let ghost before = text@;
    if value >= 10 {
        push_decimal(text, value / 10);
    }
    text.push(digit_char(value % 10));
    assert(text@ =~= before + decimal(value as nat));
}

/// Appends the decimal numeral of a signed number.
pub fn push_signed_decimal(text: &mut String, value: i64)
    ensures
        final(text)@ == old(text)@ + signed_decimal(value as int),
{
    let ghost before = text@;
    if value < 0 {
        text.push('-');
        let magnitude: u64 = ((-(value + 1)) as u64) + 1;
        push_decimal(text, magnitude);
    } else {
        push_decimal(text, value as u64);
    }
    assert(text@ =~= before + signed_decimal(value as int));
}

/// The control characters: the general category Cc.
pub open spec fn control_character(ch: char) -> bool {
    ch as u32 <= 0x1f || 0x7f <= ch as u32 <= 0x9f
}

pub fn is_control(ch: char) -> (result: bool)
    ensures
        result == control_character(ch),
{
    let code: u32 = ch as u32;
    code <= 0x1f || (0x7f <= code && code <= 0x9f)
}

/// Whether a text holds a control character.
pub open spec fn has_control(text: Seq<char>) -> bool {
    exists|i: int| 0 <= i < text.len() && control_character(#[trigger] text[i])
}

pub fn contains_control(text: &str) -> (result: bool)
    ensures
        result == has_control(text@),
{
    for ch in iter: text.chars()
        invariant
            iter.seq() == text@,
            forall|i: int| 0 <= i < iter.index() ==> !control_character(#[trigger] text@[i]),
    {
        if is_control(ch) {
            assert(control_character(text@[iter.index()]));
            return true;
        }
    }
    false
}

/// The characters with the White_Space property.
pub open spec fn whitespace_character(ch: char) -> bool {
    let code = ch as u32;
    ||| 0x09 <= code <= 0x0d
    ||| code == 0x20
    ||| code == 0x85
    ||| code == 0xa0
    ||| code == 0x1680
    ||| 0x2000 <= code <= 0x200a
    ||| code == 0x2028
    ||| code == 0x2029
    ||| code == 0x202f
    ||| code == 0x205f
    ||| code == 0x3000
}

pub fn is_whitespace(ch: char) -> (result: bool)
    ensures
        result == whitespace_character(ch),
{
    let code: u32 = ch as u32;
    (0x09 <= code && code <= 0x0d) || code == 0x20 || code == 0x85 || code == 0xa0 || code == 0x1680
        || (0x2000 <= code && code <= 0x200a) || code == 0x2028 || code == 0x2029 || code == 0x202f
        || code == 0x205f || code == 0x3000
}

pub open spec fn decimal_digit(ch: char) -> bool {
    '0' <= ch <= '9'
}

pub fn is_decimal_digit(ch: char) -> (result: bool)
    ensures
        result == decimal_digit(ch),
{
    '0' <= ch && ch <= '9'
}

pub open spec fn hex_digit(ch: char) -> bool {
    decimal_digit(ch) || 'a' <= ch <= 'f' || 'A' <= ch <= 'F'
}

pub fn is_hex_digit(ch: char) -> (result: bool)
    ensures
        result == hex_digit(ch),
{
    is_decimal_digit(ch) || ('a' <= ch && ch <= 'f') || ('A' <= ch && ch <= 'F')
}

/// The ASCII capital of a letter, and any other character unchanged.
pub open spec fn ascii_upper(ch: char) -> char {
    if 'a' <= ch <= 'z' {
        (ch as u32 - 32) as char
    } else {
        ch
    }
}

pub open spec fn ascii_upper_text(text: Seq<char>) -> Seq<char> {
    text.map_values(|ch: char| ascii_upper(ch))
}

pub fn to_ascii_upper(ch: char) -> (upper: char)
    ensures
        upper == ascii_upper(ch),
{
    if 'a' <= ch && ch <= 'z' {
        ((ch as u8) - 32) as char
    } else {
        ch
    }
}

pub fn ascii_uppercase(text: &str) -> (upper: String)
    ensures
        upper@ == ascii_upper_text(text@),
{
    let mut upper = String::new();
    for ch in iter: text.chars()
        invariant
            iter.seq() == text@,
            upper@ == ascii_upper_text(text@.take(iter.index())),
    {
        upper.push(to_ascii_upper(ch));
        assert(ascii_upper_text(text@.take(iter.index() + 1)) =~= ascii_upper_text(
            text@.take(iter.index()),
        ).push(ascii_upper(ch)));
    }
    assert(text@.take(text@.len() as int) =~= text@);
    upper
}

/// The characters of a text, one by one.
pub fn chars_of(text: &str) -> (chars: Vec<char>)
    ensures
        chars@ == text@,
{
    let mut chars: Vec<char> = Vec::new();
    for ch in iter: text.chars()
        invariant
            iter.seq() == text@,
            chars@ == text@.take(iter.index()),
    {
        chars.push(ch);
        assert(text@.take(iter.index() + 1) =~= text@.take(iter.index()).push(ch));
    }
    assert(text@.take(text@.len() as int) =~= text@);
    chars
}

/// Appends the characters from `start` up to `end`.
pub fn push_chars(text: &mut String, chars: &Vec<char>, start: usize, end: usize)
    requires
        start <= end <= chars@.len(),
    ensures
        final(text)@ == old(text)@ + chars@.subrange(start as int, end as int),
{
    let ghost before = text@;
    let mut index: usize = start;
    assert(before + chars@.subrange(start as int, start as int) =~= before);
    while index < end
        invariant
            start <= index <= end <= chars@.len(),
            text@ == before + chars@.subrange(start as int, index as int),
        decreases end - index,
    {
        text.push(chars[index]);
        index = index + 1;
        assert(text@ =~= before + chars@.subrange(start as int, index as int));
    }
}

/// The text that some characters make up.
pub fn text_of(chars: &Vec<char>) -> (text: String)
    ensures
        text@ == chars@,
{
    let mut text = String::new();
    push_chars(&mut text, chars, 0, chars.len());
    assert(text@ =~= chars@);
    text
}

/// The characters that count as control characters, and those that count as white space.
pub proof fn law_character_classes(ch: char)
    ensures
        control_character(ch) <==> (ch as int) < 32 || 127 <= ch as int && (ch as int) < 160,
        whitespace_character(ch) <==> ch == '\t' || ch == '\n' || ch as int == 11 || ch as int == 12
            || ch == '\r' || ch == ' ' || ch as int == 133 || ch as int == 160 || ch as int == 5760
            || 8192 <= ch as int && (ch as int) < 8203 || ch as int == 8232 || ch as int == 8233
            || ch as int == 8239 || ch as int == 8287 || ch as int == 12288,
        hex_digit(ch) <==> exists|value: int|
            0 <= value < 16 && (ch == #[trigger] "0123456789abcdef"@[value] || ch
                == "0123456789ABCDEF"@[value]),
{
    reveal_strlit("0123456789abcdef");
    reveal_strlit("0123456789ABCDEF");
    if '0' <= ch <= '9' {
        assert("0123456789abcdef"@[ch as int - 48] == ch);
    } else if 'a' <= ch <= 'f' {
        assert("0123456789abcdef"@[ch as int - 87] == ch);
    } else if 'A' <= ch <= 'F' {
        let value = ch as int - 55;
        assert("0123456789ABCDEF"@[value] == ch);
        assert("0123456789abcdef"@[value] as int == ch as int + 32);
    }
}

/// The capital of a text is as long, differs from it in nothing but small letters, and has
/// none of them.
pub proof fn law_capitals_change_small_letters_only(text: Seq<char>)
    ensures
        ascii_upper_text(text).len() == text.len(),
        forall|i: int|
            0 <= i < text.len() ==> {
                let upper = #[trigger] ascii_upper_text(text)[i];
                &&& 'a' <= text[i] <= 'z' ==> upper as int == text[i] as int - 32
                &&& !('a' <= text[i] <= 'z') ==> upper == text[i]
            },
{
}

/// The beginning that fits within a number of bytes is the longest that does.
pub proof fn law_prefix_is_the_longest_that_fits(text: Seq<char>, limit: int)
    requires
        limit >= 0,
    ensures
        ({
            let count = prefix_chars(text, limit);
            &&& 0 <= count <= text.len()
            &&& byte_len(text.take(count)) <= limit
            &&& count < text.len() ==> byte_len(text.take(count + 1)) > limit
        }),
{
    lemma_prefix_chars(text, limit);
}

} // verus!
