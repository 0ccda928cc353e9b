//! The structure of printed AutoLISP values, and the syntax of their atoms.
//!
//! A value arrives as a series of events. [`Structure`] checks that the events
//! fit together and writes the text of each to the output channel.
use vstd::prelude::*;

use crate::execution::output::{EmitResult, OutputSink, OutputView, OUTPUT_CHUNK_BYTES};
pub use crate::execution::value::PrintError as PrintFault;
use crate::text;
use crate::text::{byte_count, is_control, is_decimal_digit, is_hex_digit, is_whitespace};

verus! {

/// The number of lists that may be open at once.
pub const MAX_VALUE_DEPTH: usize = 65536;

/// The size of one piece of a string or a symbol.
pub const MAX_VALUE_TEXT_BYTES: usize = OUTPUT_CHUNK_BYTES;

pub const MAX_ENTITY_HANDLE_BYTES: usize = 32;

/// What an open list may hold next.
#[derive(Clone, Copy, Debug, PartialEq, Eq, Structural)]
pub enum ListState {
    Empty,
    Values,
    AwaitingTail,
    Complete,
}

/// The atom that is being printed piece by piece.
#[derive(Clone, Copy, Debug, PartialEq, Eq, Structural)]
pub enum AtomState {
    Idle,
    Text,
    Symbol(SymbolState),
}

/// What the characters of a symbol read like so far.
#[derive(Clone, Copy, Debug, PartialEq, Eq, Structural)]
pub struct SymbolState {
    pub number: NumberState,
    pub nil: NilState,
}

#[derive(Clone, Copy, Debug, PartialEq, Eq, Structural)]
pub enum NumberState {
    Start,
    SignOnly,
    IntegerDigits,
    ExponentMarker,
    ExponentSign,
    ExponentDigits,
    Other,
}

#[derive(Clone, Copy, Debug, PartialEq, Eq, Structural)]
pub enum NilState {
    Start,
    N,
    Ni,
    Nil,
    Other,
}

impl NumberState {
    pub open spec fn after(self, ch: char) -> NumberState {
        if self is Start && (ch == '+' || ch == '-') {
            NumberState::SignOnly
        } else if (self is Start || self is SignOnly || self is IntegerDigits)
            && text::decimal_digit(ch) {
            NumberState::IntegerDigits
        } else if self is IntegerDigits && (ch == 'e' || ch == 'E') {
            NumberState::ExponentMarker
        } else if self is ExponentMarker && (ch == '+' || ch == '-') {
            NumberState::ExponentSign
        } else if (self is ExponentMarker || self is ExponentSign || self is ExponentDigits)
            && text::decimal_digit(ch) {
            NumberState::ExponentDigits
        } else {
            NumberState::Other
        }
    }

    fn advance(self, ch: char) -> (next: NumberState)
        ensures
            next == self.after(ch),
    {
        let digit = is_decimal_digit(ch);
        let sign = ch == '+' || ch == '-';
        match self {
            NumberState::Start => if sign {
                NumberState::SignOnly
            } else if digit {
                NumberState::IntegerDigits
            } else {
                NumberState::Other
            },
            NumberState::SignOnly => if digit {
                NumberState::IntegerDigits
            } else {
                NumberState::Other
            },
            NumberState::IntegerDigits => if digit {
                NumberState::IntegerDigits
            } else if ch == 'e' || ch == 'E' {
                NumberState::ExponentMarker
            } else {
                NumberState::Other
            },
            NumberState::ExponentMarker => if sign {
                NumberState::ExponentSign
            } else if digit {
                NumberState::ExponentDigits
            } else {
                NumberState::Other
            },
            NumberState::ExponentSign | NumberState::ExponentDigits => if digit {
                NumberState::ExponentDigits
            } else {
                NumberState::Other
            },
            NumberState::Other => NumberState::Other,
        }
    }
}

impl NilState {
    pub open spec fn after(self, ch: char) -> NilState {
        if self is Start && text::ascii_upper(ch) == 'N' {
            NilState::N
        } else if self is N && text::ascii_upper(ch) == 'I' {
            NilState::Ni
        } else if self is Ni && text::ascii_upper(ch) == 'L' {
            NilState::Nil
        } else {
            NilState::Other
        }
    }

    fn advance(self, ch: char) -> (next: NilState)
        ensures
            next == self.after(ch),
    {
        match (self, text::to_ascii_upper(ch)) {
            (NilState::Start, 'N') => NilState::N,
            (NilState::N, 'I') => NilState::Ni,
            (NilState::Ni, 'L') => NilState::Nil,
            _ => NilState::Other,
        }
    }
}

impl SymbolState {
    pub open spec fn start() -> SymbolState {
        SymbolState { number: NumberState::Start, nil: NilState::Start }
    }

    /// No character has been seen.
    pub open spec fn at_start(self) -> bool {
        self.number is Start
    }

    /// The characters make a symbol: some, and neither a number nor nil.
    pub open spec fn names_symbol(self) -> bool {
        &&& !(self.number is Start)
        &&& !(self.number is IntegerDigits)
        &&& !(self.number is ExponentDigits)
        &&& !(self.nil is Nil)
    }

    /// After some more characters.
    pub open spec fn pushed(self, text: Seq<char>) -> SymbolState
        decreases text.len(),
    {
        if text.len() == 0 {
            self
        } else {
            let before = self.pushed(text.drop_last());
            SymbolState {
                number: before.number.after(text.last()),
                nil: before.nil.after(text.last()),
            }
        }
    }

    pub fn new() -> (state: SymbolState)
        ensures
            state == SymbolState::start(),
    {
        SymbolState { number: NumberState::Start, nil: NilState::Start }
    }

    fn is_empty(self) -> (result: bool)
        ensures
            result == self.at_start(),
    {
        self.number == NumberState::Start
    }

    /// Whether the text read so far names a symbol.
    pub fn is_valid(self) -> (result: bool)
        ensures
            result == self.names_symbol(),
    {
        self.number != NumberState::Start && self.number != NumberState::IntegerDigits
            && self.number != NumberState::ExponentDigits && self.nil != NilState::Nil
    }

    pub fn push(&mut self, text: &str)
        ensures
            *final(self) == old(self).pushed(text@),
    {
        let ghost start = *self;
        let mut state = *self;
        for ch in iter: text.chars()
            invariant
                iter.seq() == text@,
                state == start.pushed(text@.take(iter.index())),
        {
            proof {
                let next = text@.take(iter.index() + 1);
                assert(next.drop_last() =~= text@.take(iter.index()));
                assert(next.last() == ch);
            }
            state =
            SymbolState { number: state.number.advance(ch), nil: state.nil.advance(ch) };
        }
        assert(text@.take(text@.len() as int) =~= text@);
        *self = state;
    }
}

/// Splitting a symbol into pieces does not change what it reads like.
pub proof fn law_symbol_pieces_join(state: SymbolState, first: Seq<char>, second: Seq<char>)
    ensures
        state.pushed(first).pushed(second) == state.pushed(first + second),
    decreases second.len(),
{
    if second.len() == 0 {
        assert(first + second =~= first);
    } else {
        law_symbol_pieces_join(state, first, second.drop_last());
        assert((first + second).drop_last() =~= first + second.drop_last());
        assert((first + second).last() == second.last());
    }
}

pub open spec fn sign(ch: char) -> bool {
    ch == '+' || ch == '-'
}

pub open spec fn exponent_marker(ch: char) -> bool {
    ch == 'e' || ch == 'E'
}

/// A text without a sign at its start.
pub open spec fn unsigned(text: Seq<char>) -> Seq<char> {
    if text.len() > 0 && sign(text[0]) {
        text.skip(1)
    } else {
        text
    }
}

/// Decimal digits, with or without a sign before them.
pub open spec fn integer_text(text: Seq<char>) -> bool {
    &&& unsigned(text).len() > 0
    &&& forall|i: int|
        0 <= i < unsigned(text).len() ==> text::decimal_digit(#[trigger] unsigned(text)[i])
}

/// An integer, an exponent marker and another integer, the marker at a position.
pub open spec fn exponent_at(text: Seq<char>, at: int) -> bool {
    &&& 0 < at < text.len() - 1
    &&& exponent_marker(text[at])
    &&& integer_text(text.take(at))
    &&& integer_text(text.skip(at + 1))
}

pub open spec fn exponent_text(text: Seq<char>) -> bool {
    exists|at: int| #[trigger] exponent_at(text, at)
}

/// A text that reads as a number: an integer, or one with an exponent.
pub open spec fn number_text(text: Seq<char>) -> bool {
    integer_text(text) || exponent_text(text)
}

/// A text that reads as nil, in capitals or not.
pub open spec fn nil_text(text: Seq<char>) -> bool {
    text::ascii_upper_text(text) == "NIL"@
}

/// A symbol is named by every text but the empty one, nil and the numbers, however the
/// text is split into pieces.
pub proof fn law_symbol_is_neither_number_nor_nil(text: Seq<char>)
    ensures
        SymbolState::start().pushed(text).names_symbol() <==> text.len() > 0 && !nil_text(text)
            && !number_text(text),
{
    lemma_number_states(text);
    lemma_nil_states(text);
}

proof fn lemma_integer_push(text: Seq<char>, ch: char)
    ensures
        integer_text(text.push(ch)) <==> text::decimal_digit(ch) && (text.len() == 0 || (text.len()
            == 1 && sign(text[0])) || integer_text(text)),
{
    let longer = text.push(ch);
    if text.len() == 0 {
        if sign(ch) {
            assert(unsigned(longer).len() == 0);
        } else {
            assert(unsigned(longer) =~= seq![ch]);
            assert(unsigned(longer)[0] == ch);
        }
    } else {
        let before = unsigned(text);
        let after = unsigned(longer);
        assert(after =~= before.push(ch));
        assert(after[before.len() as int] == ch);
        if integer_text(longer) {
            assert forall|i: int| 0 <= i < before.len() implies text::decimal_digit(
                #[trigger] before[i],
            ) by {
                assert(after[i] == before[i]);
            }
        }
        if text::decimal_digit(ch) && (before.len() == 0 || integer_text(text)) {
            assert forall|i: int| 0 <= i < after.len() implies text::decimal_digit(
                #[trigger] after[i],
            ) by {
                if i < before.len() {
                    assert(after[i] == before[i]);
                }
            }
        }
    }
}

/// What each state of reading a number says of the text.
proof fn lemma_number_states(text: Seq<char>)
    ensures
        ({
            let state = SymbolState::start().pushed(text).number;
            let len = text.len() as int;
            &&& state is Start <==> len == 0
            &&& state is SignOnly <==> len == 1 && sign(text[0])
            &&& state is IntegerDigits <==> integer_text(text)
            &&& state is ExponentMarker <==> len > 1 && exponent_marker(text[len - 1])
                && integer_text(text.take(len - 1))
            &&& state is ExponentSign <==> len > 2 && sign(text[len - 1]) && exponent_marker(
                text[len - 2],
            ) && integer_text(text.take(len - 2))
            &&& state is ExponentDigits <==> exponent_text(text)
        }),
    decreases text.len(),
{
    let len = text.len() as int;
    if len == 0 {
        assert(unsigned(text).len() == 0);
        assert forall|at: int| !#[trigger] exponent_at(text, at) by {}
    } else {
        let front = text.drop_last();
        let ch = text.last();
        lemma_number_states(front);
        lemma_integer_push(front, ch);
        assert(front.push(ch) =~= text);
        assert(front =~= text.take(len - 1));
        if len > 1 {
            assert(front.take(len - 2) =~= text.take(len - 2));
        }
        if integer_text(front) {
            lemma_integer_push(front.drop_last(), front.last());
            assert(front.drop_last().push(front.last()) =~= front);
        }
        lemma_exponent_push(front, ch);
        if integer_text(text) {
            assert(text::decimal_digit(ch));
        }
    }
}

proof fn lemma_exponent_push(front: Seq<char>, ch: char)
    ensures
        ({
            let len = front.len() as int;
            exponent_text(front.push(ch)) <==> text::decimal_digit(ch) && {
                ||| len > 1 && exponent_marker(front[len - 1]) && integer_text(
                    front.take(len - 1),
                )
                ||| len > 2 && sign(front[len - 1]) && exponent_marker(front[len - 2])
                    && integer_text(front.take(len - 2))
                ||| exponent_text(front)
            }
        }),
{
    let text = front.push(ch);
    let len = front.len() as int;
    if exponent_text(text) {
        let at = choose|at: int| #[trigger] exponent_at(text, at);
        let tail = front.skip(at + 1);
        assert(text.skip(at + 1) =~= tail.push(ch));
        lemma_integer_push(tail, ch);
        assert(text.take(at) =~= front.take(at));
        if tail.len() == 0 {
            assert(at == len - 1);
        } else if tail.len() == 1 && sign(tail[0]) {
            assert(at == len - 2);
        } else {
            assert(exponent_at(front, at));
        }
    }
    if text::decimal_digit(ch) {
        if len > 1 && exponent_marker(front[len - 1]) && integer_text(front.take(len - 1)) {
            assert(text.take(len - 1) =~= front.take(len - 1));
            assert(text.skip(len) =~= Seq::<char>::empty().push(ch));
            lemma_integer_push(Seq::empty(), ch);
            assert(exponent_at(text, len - 1));
        }
        if len > 2 && sign(front[len - 1]) && exponent_marker(front[len - 2]) && integer_text(
            front.take(len - 2),
        ) {
            assert(text.take(len - 2) =~= front.take(len - 2));
            assert(text.skip(len - 1) =~= seq![front[len - 1]].push(ch));
            lemma_integer_push(seq![front[len - 1]], ch);
            assert(exponent_at(text, len - 2));
        }
        if exponent_text(front) {
            let at = choose|at: int| #[trigger] exponent_at(front, at);
            assert(text.take(at) =~= front.take(at));
            assert(text.skip(at + 1) =~= front.skip(at + 1).push(ch));
            lemma_integer_push(front.skip(at + 1), ch);
            assert(exponent_at(text, at));
        }
    }
}

/// What each state of reading nil says of the text.
proof fn lemma_nil_states(text: Seq<char>)
    ensures
        ({
            let state = SymbolState::start().pushed(text).nil;
            let upper = text::ascii_upper_text(text);
            &&& state is Start <==> text.len() == 0
            &&& state is N <==> upper == seq!['N']
            &&& state is Ni <==> upper == seq!['N', 'I']
            &&& state is Nil <==> nil_text(text)
        }),
    decreases text.len(),
{
    reveal_strlit("NIL");
    assert("NIL"@ =~= seq!['N', 'I', 'L']);
    let upper = text::ascii_upper_text(text);
    assert(upper.len() == text.len());
    if text.len() > 0 {
        let front = text.drop_last();
        let before = text::ascii_upper_text(front);
        lemma_nil_states(front);
        assert(upper =~= before.push(text::ascii_upper(text.last())));
        assert(seq!['N'] =~= Seq::<char>::empty().push('N'));
        assert(seq!['N', 'I'] =~= seq!['N'].push('I'));
        assert(seq!['N', 'I', 'L'] =~= seq!['N', 'I'].push('L'));
        assert(upper.drop_last() =~= before);
        if front.len() == 0 {
            assert(before =~= Seq::<char>::empty());
        }
        if upper == seq!['N'] {
            assert(upper.last() == 'N');
        }
        if upper == seq!['N', 'I'] {
            assert(upper.last() == 'I');
            assert(seq!['N', 'I'].drop_last() =~= seq!['N']);
        }
        if upper == seq!['N', 'I', 'L'] {
            assert(upper.last() == 'L');
            assert(seq!['N', 'I', 'L'].drop_last() =~= seq!['N', 'I']);
        }
    }
}

/// The characters that a symbol may hold.
pub open spec fn symbol_character(ch: char) -> bool {
    &&& !text::control_character(ch)
    &&& !text::whitespace_character(ch)
    &&& ch != '(' && ch != ')' && ch != '"' && ch != ';' && ch != '\'' && ch != '.'
}

pub fn valid_symbol_character(ch: char) -> (result: bool)
    ensures
        result == symbol_character(ch),
{
    !is_control(ch) && !is_whitespace(ch) && ch != '(' && ch != ')' && ch != '"' && ch != ';' && ch
        != '\'' && ch != '.'
}

pub open spec fn symbol_text(text: Seq<char>) -> bool {
    forall|i: int| 0 <= i < text.len() ==> symbol_character(#[trigger] text[i])
}

fn valid_symbol_text(text: &str) -> (result: bool)
    ensures
        result == symbol_text(text@),
{
    for ch in iter: text.chars()
        invariant
            iter.seq() == text@,
            forall|i: int| 0 <= i < iter.index() ==> symbol_character(#[trigger] text@[i]),
    {
        if !valid_symbol_character(ch) {
            assert(!symbol_character(text@[iter.index()]));
            return false;
        }
    }
    true
}

/// The characters that a label may hold.
pub open spec fn label_character(ch: char) -> bool {
    &&& !text::control_character(ch)
    &&& !text::whitespace_character(ch)
    &&& ch != '<' && ch != '>' && ch != '@' && ch != '"' && ch != '\\'
}

/// A label that may stand in the text of an opaque value.
pub open spec fn label_text(text: Seq<char>, max_bytes: int) -> bool {
    &&& text.len() > 0
    &&& text::byte_len(text) <= max_bytes
    &&& forall|i: int| 0 <= i < text.len() ==> label_character(#[trigger] text[i])
}

pub fn valid_label(text: &str, max_bytes: usize) -> (result: bool)
    ensures
        result == label_text(text@, max_bytes as int),
{
    if text.is_empty() || byte_count(text) > max_bytes {
        return false;
    }
    for ch in iter: text.chars()
        invariant
            iter.seq() == text@,
            forall|i: int| 0 <= i < iter.index() ==> label_character(#[trigger] text@[i]),
    {
        if is_control(ch) || is_whitespace(ch) || ch == '<' || ch == '>' || ch == '@' || ch == '"'
            || ch == '\\' {
            assert(!label_character(text@[iter.index()]));
            return false;
        }
    }
    true
}

/// An entity handle: some hexadecimal digits, not too many.
pub open spec fn handle_text(text: Seq<char>) -> bool {
    &&& text.len() > 0
    &&& text::byte_len(text) <= MAX_ENTITY_HANDLE_BYTES
    &&& forall|i: int| 0 <= i < text.len() ==> text::hex_digit(#[trigger] text[i])
}

pub fn valid_handle(text: &str) -> (result: bool)
    ensures
        result == handle_text(text@),
{
    if text.is_empty() || byte_count(text) > MAX_ENTITY_HANDLE_BYTES {
        return false;
    }
    for ch in iter: text.chars()
        invariant
            iter.seq() == text@,
            forall|i: int| 0 <= i < iter.index() ==> text::hex_digit(#[trigger] text@[i]),
    {
        if !is_hex_digit(ch) {
            assert(!text::hex_digit(text@[iter.index()]));
            return false;
        }
    }
    true
}

/// The characters that a readable string escapes.
pub open spec fn escape_needed(ch: char) -> bool {
    ch == '"' || ch == '\\' || text::control_character(ch)
}

/// A character in a readable string.
pub open spec fn escaped_char(ch: char) -> Seq<char> {
    if ch == '"' {
        seq!['\\', '"']
    } else if ch == '\\' {
        seq!['\\', '\\']
    } else if ch == '\u{1b}' {
        seq!['\\', 'e']
    } else if ch == '\n' {
        seq!['\\', 'n']
    } else if ch == '\r' {
        seq!['\\', 'r']
    } else if ch == '\t' {
        seq!['\\', 't']
    } else if text::control_character(ch) {
        let code = ch as int;
        seq!['\\', text::digit(code / 64), text::digit(code / 8 % 8), text::digit(code % 8)]
    } else {
        seq![ch]
    }
}

/// A text in a readable string.
pub open spec fn escaped_text(text: Seq<char>) -> Seq<char>
    decreases text.len(),
{
    if text.len() == 0 {
        Seq::empty()
    } else {
        escaped_text(text.drop_last()) + escaped_char(text.last())
    }
}

/// A text in a readable symbol: only backslashes are escaped.
pub open spec fn escaped_symbol(text: Seq<char>) -> Seq<char>
    decreases text.len(),
{
    if text.len() == 0 {
        Seq::empty()
    } else {
        escaped_symbol(text.drop_last()) + if text.last() == '\\' {
            seq!['\\', '\\']
        } else {
            seq![text.last()]
        }
    }
}

/// Escaping works piece by piece.
pub proof fn law_escaped_pieces_join(first: Seq<char>, second: Seq<char>)
    ensures
        escaped_text(first + second) == escaped_text(first) + escaped_text(second),
        escaped_symbol(first + second) == escaped_symbol(first) + escaped_symbol(second),
    decreases second.len(),
{
    if second.len() == 0 {
        assert(first + second =~= first);
        assert(escaped_text(first) + escaped_text(second) =~= escaped_text(first));
        assert(escaped_symbol(first) + escaped_symbol(second) =~= escaped_symbol(first));
    } else {
        law_escaped_pieces_join(first, second.drop_last());
        assert((first + second).drop_last() =~= first + second.drop_last());
        assert((first + second).last() == second.last());
        assert(escaped_text(first + second) =~= escaped_text(first) + escaped_text(second));
        assert(escaped_symbol(first + second) =~= escaped_symbol(first) + escaped_symbol(second));
    }
}

/// Escaped text holds no control character, and every quotation mark in it
/// stands behind a backslash.
pub proof fn law_escaped_text_is_inert(text: Seq<char>)
    ensures
        !text::has_control(escaped_text(text)),
        forall|i: int|
            0 <= i < escaped_text(text).len() && #[trigger] escaped_text(text)[i] == '"' ==> i > 0
                && escaped_text(text)[i - 1] == '\\',
    decreases text.len(),
{
    if text.len() > 0 {
        let before = escaped_text(text.drop_last());
        let last = escaped_char(text.last());
        law_escaped_text_is_inert(text.drop_last());
        let all = escaped_text(text);
        assert(all == before + last);
        assert forall|i: int| 0 <= i < all.len() implies !text::control_character(
            #[trigger] all[i],
        ) by {
            if i < before.len() {
                assert(all[i] == before[i]);
                assert(!text::control_character(before[i]));
            } else {
                lemma_escaped_char_inert(text.last());
                assert(all[i] == last[i - before.len()]);
            }
        }
        assert forall|i: int| 0 <= i < all.len() && #[trigger] all[i] == '"' implies i > 0 && all[i
            - 1] == '\\' by {
            if i < before.len() {
                assert(before[i] == '"');
                assert(all[i - 1] == before[i - 1]);
            } else {
                assert(all[i] == last[i - before.len()]);
                assert(all[i - 1] == last[0]);
            }
        }
    }
}

proof fn lemma_escaped_char_inert(ch: char)
    ensures
        forall|i: int|
            0 <= i < escaped_char(ch).len() ==> !text::control_character(
                #[trigger] escaped_char(ch)[i],
            ),
{
    let code = ch as int;
    if text::control_character(ch) {
        assert(0 <= code / 64 <= 2 && 0 <= code / 8 % 8 < 8 && 0 <= code % 8 < 8);
        let high = text::digit(code / 64);
        let middle = text::digit(code / 8 % 8);
        let low = text::digit(code % 8);
        assert(high as u32 == 48 + code / 64);
        assert(middle as u32 == 48 + code / 8 % 8);
        assert(low as u32 == 48 + code % 8);
    }
}

proof fn lemma_plain_text(text: Seq<char>)
    requires
        forall|i: int| 0 <= i < text.len() ==> !escape_needed(#[trigger] text[i]),
    ensures
        escaped_text(text) == text,
    decreases text.len(),
{
    if text.len() > 0 {
        let rest = text.drop_last();
        assert forall|i: int| 0 <= i < rest.len() implies !escape_needed(#[trigger] rest[i]) by {
            assert(rest[i] == text[i]);
        }
        lemma_plain_text(rest);
        assert(!escape_needed(text[text.len() - 1]));
        assert(escaped_text(text) =~= text);
    }
}

/// Whether a text holds a character that has to be escaped; one that does not is its
/// own escaped form.
fn needs_escape(text: &str) -> (result: bool)
    ensures
        result == exists|i: int| 0 <= i < text@.len() && escape_needed(#[trigger] text@[i]),
        !result ==> escaped_text(text@) == text@,
{
    for ch in iter: text.chars()
        invariant
            iter.seq() == text@,
            forall|i: int| 0 <= i < iter.index() ==> !escape_needed(#[trigger] text@[i]),
    {
        if ch == '"' || ch == '\\' || is_control(ch) {
            assert(escape_needed(text@[iter.index()]));
            return true;
        }
    }
    proof {
        lemma_plain_text(text@);
    }
    false
}

fn octal_digit(value: u32) -> (ch: char)
    requires
        value < 8,
    ensures
        ch == text::digit(value as int),
{
    match value {
        0 => '0',
        1 => '1',
        2 => '2',
        3 => '3',
        4 => '4',
        5 => '5',
        6 => '6',
        _ => '7',
    }
}

fn escape_char(ch: char) -> (escaped: String)
    ensures
        escaped@ == escaped_char(ch),
{
    let mut escaped = String::new();
    if ch == '"' {
        escaped.push('\\');
        escaped.push('"');
    } else if ch == '\\' {
        escaped.push('\\');
        escaped.push('\\');
    } else if ch == '\u{1b}' {
        escaped.push('\\');
        escaped.push('e');
    } else if ch == '\n' {
        escaped.push('\\');
        escaped.push('n');
    } else if ch == '\r' {
        escaped.push('\\');
        escaped.push('r');
    } else if ch == '\t' {
        escaped.push('\\');
        escaped.push('t');
    } else if is_control(ch) {
        let code: u32 = ch as u32;
        escaped.push('\\');
        escaped.push(octal_digit(code / 64));
        escaped.push(octal_digit(code / 8 % 8));
        escaped.push(octal_digit(code % 8));
    } else {
        escaped.push(ch);
    }
    assert(escaped@ =~= escaped_char(ch));
    escaped
}

fn escape_symbol_char(ch: char) -> (escaped: String)
    ensures
        escaped@ == if ch == '\\' {
            seq!['\\', '\\']
        } else {
            seq![ch]
        },
{
    let mut escaped = String::new();
    escaped.push(ch);
    if ch == '\\' {
        escaped.push('\\');
    }
    assert(escaped@ =~= if ch == '\\' {
        seq!['\\', '\\']
    } else {
        seq![ch]
    });
    escaped
}

/// The text of a value that cannot be read back.
pub open spec fn opaque_text(name: Seq<char>, payload: Option<Seq<char>>) -> Seq<char> {
    match payload {
        Some(payload) => if payload.len() > 0 {
            "#<"@ + name + " "@ + payload + ">"@
        } else {
            "#<"@ + name + ">"@
        },
        None => "#<"@ + name + ">"@,
    }
}

pub open spec fn optional_text(text: Option<&str>) -> Option<Seq<char>> {
    match text {
        Some(text) => Some(text@),
        None => None,
    }
}

pub fn opaque(name: &str, payload: Option<&str>) -> (shown: String)
    ensures
        shown@ == opaque_text(name@, optional_text(payload)),
{
    let mut shown = "#<".to_owned();
    shown.push_str(name);
    if let Some(payload) = payload {
        if !payload.is_empty() {
            shown.push_str(" ");
            shown.push_str(payload);
        }
    }
    shown.push_str(">");
    shown
}

/// The values printed so far and the lists and the atom still open.
pub struct Structure {
    lists: Vec<ListState>,
    atom: AtomState,
    skipped_lists: usize,
    root_values: usize,
    counts_roots: bool,
}

#[verifier::ext_equal]
pub struct StructureView {
    pub lists: Seq<ListState>,
    pub atom: AtomState,
    /// Lists open below the deepest printed one: nothing in them is printed.
    pub skipped_lists: int,
    /// Values outside all lists.
    pub root_values: int,
    pub counts_roots: bool,
}

/// What one event does: the structure after it, the text it writes, and how it
/// is answered.
#[verifier::ext_equal]
pub struct Printed {
    pub structure: StructureView,
    pub text: Seq<char>,
    pub result: Result<(), PrintFault>,
}

/// What a write is answered on a channel that answers emissions with `status`.
pub open spec fn answer(status: EmitResult) -> Result<(), PrintFault> {
    if status is Written {
        Ok(())
    } else {
        Err(PrintFault::Output(status))
    }
}

/// Text as far as the channel takes it.
pub open spec fn delivered(status: EmitResult, text: Seq<char>) -> Seq<char> {
    if status is Written {
        text
    } else {
        Seq::empty()
    }
}

impl StructureView {
    pub open spec fn empty(counts_roots: bool) -> StructureView {
        StructureView {
            lists: Seq::empty(),
            atom: AtomState::Idle,
            skipped_lists: 0,
            root_values: 0,
            counts_roots,
        }
    }

    pub open spec fn bounded(self) -> bool {
        &&& self.lists.len() <= MAX_VALUE_DEPTH
        &&& 0 <= self.skipped_lists <= usize::MAX
        &&& 0 <= self.root_values <= usize::MAX
        &&& self.skipped_lists > 0 ==> self.lists.len() == MAX_VALUE_DEPTH && self.atom is Idle
    }

    pub open spec fn refused(self, fault: PrintFault) -> Printed {
        Printed { structure: self, text: Seq::empty(), result: Err(fault) }
    }

    /// The event writes nothing and only asks whether output is still wanted.
    pub open spec fn polled(self, status: EmitResult) -> Printed {
        Printed { structure: self, text: Seq::empty(), result: answer(status) }
    }

    pub open spec fn wrote(self, status: EmitResult, text: Seq<char>) -> Printed {
        Printed { structure: self, text: delivered(status, text), result: answer(status) }
    }

    pub open spec fn with_last(self, state: ListState) -> StructureView {
        StructureView { lists: self.lists.drop_last().push(state), ..self }
    }

    /// The structure once a value has its place, and what separates it from the
    /// one before.
    pub open spec fn placed(self) -> Result<(StructureView, Seq<char>), PrintFault> {
        if self.lists.len() == 0 {
            if !self.counts_roots {
                Ok((self, Seq::empty()))
            } else if self.root_values == usize::MAX {
                Err(PrintFault::LimitExceeded)
            } else {
                Ok(
                    (
                        StructureView { root_values: self.root_values + 1, ..self },
                        Seq::empty(),
                    ),
                )
            }
        } else {
            match self.lists.last() {
                ListState::Empty => Ok((self.with_last(ListState::Values), Seq::empty())),
                ListState::Values => Ok((self, " "@)),
                ListState::AwaitingTail => Ok(
                    (self.with_last(ListState::Complete), Seq::empty()),
                ),
                ListState::Complete => Err(PrintFault::InvalidSequence),
            }
        }
    }

    /// A whole value.
    pub open spec fn value(self, status: EmitResult, text: Seq<char>) -> Printed {
        if self.skipped_lists != 0 {
            self.polled(status)
        } else if !(self.atom is Idle) {
            self.refused(PrintFault::InvalidSequence)
        } else {
            match self.placed() {
                Ok((placed, separator)) => placed.wrote(status, separator + text),
                Err(fault) => self.refused(fault),
            }
        }
    }

    /// A list begins. Below the depth limit the marker stands for it.
    pub open spec fn begin_list(self, status: EmitResult, marker: Seq<char>) -> Printed {
        if self.skipped_lists != 0 {
            if !(status is Written) {
                self.polled(status)
            } else if self.skipped_lists == usize::MAX {
                self.refused(PrintFault::LimitExceeded)
            } else {
                StructureView { skipped_lists: self.skipped_lists + 1, ..self }.polled(status)
            }
        } else if self.lists.len() == MAX_VALUE_DEPTH {
            let shown = self.value(status, marker);
            if shown.result is Ok {
                Printed {
                    structure: StructureView { skipped_lists: 1, ..shown.structure },
                    ..shown
                }
            } else {
                shown
            }
        } else {
            let shown = self.value(status, "("@);
            if shown.result is Ok {
                Printed {
                    structure: StructureView {
                        lists: shown.structure.lists.push(ListState::Empty),
                        ..shown.structure
                    },
                    ..shown
                }
            } else {
                shown
            }
        }
    }

    pub open spec fn end_list(self, status: EmitResult) -> Printed {
        if self.skipped_lists != 0 {
            if status is Written {
                StructureView { skipped_lists: self.skipped_lists - 1, ..self }.polled(status)
            } else {
                self.polled(status)
            }
        } else if !(self.atom is Idle) || self.lists.len() == 0
            || self.lists.last() is AwaitingTail {
            self.refused(PrintFault::InvalidSequence)
        } else {
            StructureView { lists: self.lists.drop_last(), ..self }.wrote(status, ")"@)
        }
    }

    /// The tail of a list follows.
    pub open spec fn dot(self, status: EmitResult) -> Printed {
        if self.skipped_lists != 0 {
            self.polled(status)
        } else if !(self.atom is Idle) || self.lists.len() == 0 || !(
        self.lists.last() is Values) {
            self.refused(PrintFault::InvalidSequence)
        } else {
            self.with_last(ListState::AwaitingTail).wrote(status, " . "@)
        }
    }

    pub open spec fn begin_symbol(self, status: EmitResult) -> Printed {
        if self.skipped_lists != 0 {
            self.polled(status)
        } else if !(self.atom is Idle) {
            self.refused(PrintFault::InvalidSequence)
        } else if status is Written {
            StructureView { atom: AtomState::Symbol(SymbolState::start()), ..self }.polled(status)
        } else {
            self.polled(status)
        }
    }

    /// A piece of a symbol. The symbol takes its place with its first character.
    pub open spec fn symbol_chunk(
        self,
        status: EmitResult,
        text: Seq<char>,
        readable: bool,
    ) -> Printed {
        let shown = if readable {
            escaped_symbol(text)
        } else {
            text
        };
        if text::byte_len(text) > MAX_VALUE_TEXT_BYTES || !symbol_text(text) {
            self.refused(PrintFault::InvalidSequence)
        } else if self.skipped_lists != 0 {
            self.polled(status)
        } else {
            match self.atom {
                AtomState::Symbol(state) => if text.len() == 0 {
                    self.polled(status)
                } else if !state.at_start() {
                    StructureView { atom: AtomState::Symbol(state.pushed(text)), ..self }.wrote(
                        status,
                        shown,
                    )
                } else {
                    match self.placed() {
                        Err(fault) => self.refused(fault),
                        Ok((placed, separator)) => if separator.len() > 0 && !(status is Written) {
                            placed.polled(status)
                        } else {
                            StructureView {
                                atom: AtomState::Symbol(state.pushed(text)),
                                ..placed
                            }.wrote(status, separator + shown)
                        },
                    }
                },
                _ => self.refused(PrintFault::InvalidSequence),
            }
        }
    }

    pub open spec fn end_symbol(self, status: EmitResult) -> Printed {
        if self.skipped_lists != 0 {
            self.polled(status)
        } else {
            match self.atom {
                AtomState::Symbol(state) => if !state.names_symbol() {
                    self.refused(PrintFault::InvalidSequence)
                } else if status is Written {
                    StructureView { atom: AtomState::Idle, ..self }.polled(status)
                } else {
                    self.polled(status)
                },
                _ => self.refused(PrintFault::InvalidSequence),
            }
        }
    }

    pub open spec fn begin_string(self, status: EmitResult, readable: bool) -> Printed {
        if self.skipped_lists != 0 {
            self.polled(status)
        } else if !(self.atom is Idle) {
            self.refused(PrintFault::InvalidSequence)
        } else if !(status is Written) {
            self.polled(status)
        } else {
            match self.placed() {
                Ok((placed, separator)) => StructureView {
                    atom: AtomState::Text,
                    ..placed
                }.wrote(
                    status,
                    separator + if readable {
                        "\""@
                    } else {
                        Seq::empty()
                    },
                ),
                Err(fault) => self.refused(fault),
            }
        }
    }

    pub open spec fn string_chunk(
        self,
        status: EmitResult,
        text: Seq<char>,
        readable: bool,
    ) -> Printed {
        if text::byte_len(text) > MAX_VALUE_TEXT_BYTES {
            self.refused(PrintFault::InvalidSequence)
        } else if self.skipped_lists != 0 {
            self.polled(status)
        } else if !(self.atom is Text) {
            self.refused(PrintFault::InvalidSequence)
        } else {
            self.wrote(
                status,
                if readable {
                    escaped_text(text)
                } else {
                    text
                },
            )
        }
    }

    pub open spec fn end_string(self, status: EmitResult, readable: bool) -> Printed {
        if self.skipped_lists != 0 {
            self.polled(status)
        } else if !(self.atom is Text) {
            self.refused(PrintFault::InvalidSequence)
        } else if !(status is Written) {
            self.polled(status)
        } else {
            StructureView { atom: AtomState::Idle, ..self }.wrote(
                status,
                if readable {
                    "\""@
                } else {
                    Seq::empty()
                },
            )
        }
    }

    /// Every list and atom is closed.
    pub open spec fn complete(self) -> bool {
        self.atom is Idle && self.lists.len() == 0 && self.skipped_lists == 0
    }
}

/// What stands open after a list began and ended again is what stood open before,
/// except that the list has taken its place as a value.
pub proof fn law_list_closes_what_it_opened(
    structure: StructureView,
    status: EmitResult,
    marker: Seq<char>,
)
    requires
        structure.bounded(),
        structure.lists.len() < MAX_VALUE_DEPTH,
        structure.begin_list(status, marker).result is Ok,
    ensures
        structure.begin_list(status, marker).structure.end_list(status).result is Ok,
        Ok::<StructureView, PrintFault>(
            structure.begin_list(status, marker).structure.end_list(status).structure,
        ) == match structure.placed() {
            Ok((placed, separator)) => Ok::<StructureView, PrintFault>(placed),
            Err(fault) => Err(fault),
        },
{
    let begun = structure.begin_list(status, marker).structure;
    assert(begun.end_list(status).structure.lists =~= structure.placed()->Ok_0.0.lists);
    assert(begun.end_list(status).structure =~= structure.placed()->Ok_0.0);
}

/// Nothing that is skipped below the depth limit writes any text.
pub proof fn law_skipped_events_write_nothing(
    structure: StructureView,
    status: EmitResult,
    text: Seq<char>,
    readable: bool,
)
    requires
        structure.skipped_lists > 0,
    ensures
        structure.value(status, text).text.len() == 0,
        structure.begin_list(status, text).text.len() == 0,
        structure.end_list(status).text.len() == 0,
        structure.dot(status).text.len() == 0,
        structure.symbol_chunk(status, text, readable).text.len() == 0,
        structure.begin_string(status, readable).text.len() == 0,
        structure.string_chunk(status, text, readable).text.len() == 0,
        structure.end_string(status, readable).text.len() == 0,
{
}

impl View for Structure {
    type V = StructureView;

    closed spec fn view(&self) -> StructureView {
        StructureView {
            lists: self.lists@,
            atom: self.atom,
            skipped_lists: self.skipped_lists as int,
            root_values: self.root_values as int,
            counts_roots: self.counts_roots,
        }
    }
}

/// The structure and the channel are as the event leaves them.
pub open spec fn outcome(
    printed: Printed,
    structure: StructureView,
    before: OutputView,
    after: OutputView,
    result: Result<(), PrintFault>,
) -> bool {
    &&& structure == printed.structure
    &&& result == printed.result
    &&& after.extended_by(before, printed.text)
}

/// What an event is answered: one whose text waits for room is not through.
pub open spec fn awaited(result: Result<(), PrintFault>, after: OutputView) -> Result<
    (),
    PrintFault,
> {
    if result is Ok && after.blocked() {
        Err(PrintFault::Output(EmitResult::Blocked))
    } else {
        result
    }
}

/// The structure and the channel are as the event leaves them, and the answer says
/// whether text waits.
pub open spec fn performed(
    printed: Printed,
    structure: StructureView,
    before: OutputView,
    after: OutputView,
    result: Result<(), PrintFault>,
) -> bool {
    &&& structure == printed.structure
    &&& result == awaited(printed.result, after)
    &&& after.extended_by(before, printed.text)
}

/// The channel after the end of the printed values: a newline, where nothing is open, and
/// then a flush.
pub open spec fn finished_output(before: OutputView, complete: bool) -> OutputView {
    if complete {
        before.extended("\n"@).flushed()
    } else {
        before.flushed()
    }
}

pub(crate) fn await_room(sink: &OutputSink, result: Result<(), PrintFault>) -> (answer: Result<
    (),
    PrintFault,
>)
    ensures
        answer == awaited(result, sink@),
{
    if result.is_ok() && sink.blocked() {
        Err(PrintFault::Output(EmitResult::Blocked))
    } else {
        result
    }
}

/// Hands text over; what finds no room waits.
fn write(sink: &mut OutputSink, text: &str) -> (result: Result<(), PrintFault>)
    requires
        old(sink).well_formed(),
    ensures
        final(sink).well_formed(),
        result == answer(old(sink)@.emit_result()),
        final(sink)@.extended_by(old(sink)@, delivered(old(sink)@.emit_result(), text@)),
{
    match sink.emit(text) {
        EmitResult::Written | EmitResult::Blocked => Ok(()),
        EmitResult::Disconnected => Err(PrintFault::Output(EmitResult::Disconnected)),
        EmitResult::Cancelled => Err(PrintFault::Output(EmitResult::Cancelled)),
        EmitResult::Stopped => Err(PrintFault::Output(EmitResult::Stopped)),
        EmitResult::Finished => Err(PrintFault::Output(EmitResult::Finished)),
    }
}

fn poll_output(sink: &mut OutputSink) -> (result: Result<(), PrintFault>)
    requires
        old(sink).well_formed(),
    ensures
        final(sink).well_formed(),
        result == answer(old(sink)@.emit_result()),
        final(sink)@.extended_by(old(sink)@, Seq::empty()),
{
    proof {
        reveal_strlit("");
        assert(""@ =~= Seq::<char>::empty());
    }
    write(sink, "")
}

/// Gathers text and hands it over before it outgrows a chunk.
fn append_bounded(sink: &mut OutputSink, buffer: &mut String, text: &str) -> (result: Result<
    (),
    PrintFault,
>)
    requires
        old(sink).well_formed(),
    ensures
        final(sink).well_formed(),
        match result {
            Ok(_) => exists|sent: Seq<char>| #[trigger]
                final(sink)@.extended_by(old(sink)@, sent) && sent + final(buffer)@ == old(buffer)@
                    + text@,
            Err(fault) => {
                &&& Err::<(), PrintFault>(fault) == answer(old(sink)@.emit_result())
                &&& final(sink)@ == old(sink)@
            },
        },
{
    let ghost before = sink@;
    let ghost held = buffer@;
    assert(before.extended(Seq::empty()) == before) by {
        crate::execution::output::law_nothing_is_added(before);
    }
    let held_bytes: usize = byte_count(buffer.as_str());
    let more_bytes: usize = byte_count(text);
    if held_bytes > OUTPUT_CHUNK_BYTES || more_bytes > OUTPUT_CHUNK_BYTES - held_bytes {
        match write(sink, buffer.as_str()) {
            Ok(_) => {},
            Err(fault) => {
                return Err(fault);
            },
        }
        *buffer = String::new();
        buffer.push_str(text);
        proof {
            assert(held + buffer@ =~= held + text@);
            assert(sink@.extended_by(before, held));
        }
        return Ok(());
    }
    buffer.push_str(text);
    proof {
        assert(Seq::<char>::empty() + buffer@ =~= held + text@);
        assert(sink@.extended_by(before, Seq::empty()));
    }
    Ok(())
}

/// Writes a text in escaped form, in pieces of bounded size.
fn write_escaped(sink: &mut OutputSink, text: &str, symbol: bool) -> (result: Result<
    (),
    PrintFault,
>)
    requires
        old(sink).well_formed(),
    ensures
        final(sink).well_formed(),
        result == answer(old(sink)@.emit_result()),
        final(sink)@.extended_by(
            old(sink)@,
            delivered(
                old(sink)@.emit_result(),
                if symbol {
                    escaped_symbol(text@)
                } else {
                    escaped_text(text@)
                },
            ),
        ),
{
    let ghost before = sink@;
    let mut buffer = String::new();
    let ghost mut sent = Seq::<char>::empty();
    assert(before.extended(sent) == before) by {
        assert(sent =~= Seq::<char>::empty());
        crate::execution::output::law_nothing_is_added(before);
    }
    for ch in iter: text.chars()
        invariant
            iter.seq() == text@,
            sink.well_formed(),
            sink@.extended_by(before, sent),
            sent + buffer@ == if symbol {
                escaped_symbol(text@.take(iter.index()))
            } else {
                escaped_text(text@.take(iter.index()))
            },
            before == old(sink)@,
    {
        let ghost held = buffer@;
        let ghost reached = sink@;
        let piece = if symbol {
            escape_symbol_char(ch)
        } else {
            escape_char(ch)
        };
        match append_bounded(sink, &mut buffer, piece.as_str()) {
            Ok(_) => {},
            Err(fault) => {
                assert(before.extended(Seq::empty()) == before) by {
                    crate::execution::output::law_nothing_is_added(before);
                }
                return Err(fault);
            },
        }
        proof {
            let more = choose|more: Seq<char>| #[trigger]
                sink@.extended_by(reached, more) && more + buffer@ == held + piece@;
            let next = text@.take(iter.index() + 1);
            assert(next.drop_last() =~= text@.take(iter.index()));
            assert(next.last() == ch);
            assert(before.extended(sent).extended(more) == before.extended(sent + more)) by {
                crate::execution::output::law_parts_join(before, sent, more);
            }
            assert((sent + more) + buffer@ =~= sent + (more + buffer@));
            assert(sent + (held + piece@) =~= (sent + held) + piece@);
            sent = sent + more;
        }
    }
    assert(text@.take(text@.len() as int) =~= text@);
    let result = write(sink, buffer.as_str());
    proof {
        assert(before.extended(sent).extended(buffer@) == before.extended(sent + buffer@)) by {
            crate::execution::output::law_parts_join(before, sent, buffer@);
        }
        assert(before.extended(Seq::empty()) == before) by {
            crate::execution::output::law_nothing_is_added(before);
        }
    }
    result
}

impl Structure {
    pub closed spec fn well_formed(&self) -> bool {
        self@.bounded()
    }

    pub fn new(counts_roots: bool) -> (structure: Structure)
        ensures
            structure.well_formed(),
            structure@ == StructureView::empty(counts_roots),
    {
        Structure {
            lists: Vec::new(),
            atom: AtomState::Idle,
            skipped_lists: 0,
            root_values: 0,
            counts_roots,
        }
    }

    pub fn root_values(&self) -> (count: usize)
        ensures
            count == self@.root_values,
    {
        self.root_values
    }

    fn replace_last(&mut self, state: ListState)
        requires
            old(self)@.lists.len() > 0,
        ensures
            final(self)@ == old(self)@.with_last(state),
    {
        let ghost before = self@;
        let _ = self.lists.pop();
        self.lists.push(state);
        assert(self@ =~= before.with_last(state));
    }

    /// Gives a value its place; says whether a space separates it.
    fn place(&mut self) -> (separated: Result<bool, PrintFault>)
        ensures
            match separated {
                Ok(separated) => old(self)@.placed() == Ok::<
                    (StructureView, Seq<char>),
                    PrintFault,
                >(
                    (
                        final(self)@,
                        if separated {
                            " "@
                        } else {
                            Seq::empty()
                        },
                    ),
                ),
                Err(fault) => {
                    &&& old(self)@.placed() == Err::<(StructureView, Seq<char>), PrintFault>(fault)
                    &&& final(self)@ == old(self)@
                },
            },
    {
        let depth: usize = self.lists.len();
        if depth == 0 {
            if self.counts_roots {
                if self.root_values == usize::MAX {
                    return Err(PrintFault::LimitExceeded);
                }
                self.root_values = self.root_values + 1;
            }
            return Ok(false);
        }
        match self.lists[depth - 1] {
            ListState::Empty => {
                self.replace_last(ListState::Values);
                Ok(false)
            },
            ListState::Values => Ok(true),
            ListState::AwaitingTail => {
                self.replace_last(ListState::Complete);
                Ok(false)
            },
            ListState::Complete => Err(PrintFault::InvalidSequence),
        }
    }

    /// Gives a value its place and writes what separates it.
    fn before_value(&mut self, sink: &mut OutputSink) -> (result: Result<(), PrintFault>)
        requires
            old(sink).well_formed(),
        ensures
            final(sink).well_formed(),
            match old(self)@.placed() {
                Ok((placed, separator)) => {
                    &&& final(self)@ == placed
                    &&& result == if separator.len() > 0 {
                        answer(old(sink)@.emit_result())
                    } else {
                        Ok(())
                    }
                    &&& final(sink)@.extended_by(
                        old(sink)@,
                        delivered(old(sink)@.emit_result(), separator),
                    )
                },
                Err(fault) => {
                    &&& final(self)@ == old(self)@
                    &&& result == Err::<(), PrintFault>(fault)
                    &&& final(sink)@ == old(sink)@
                },
            },
    {
        proof {
            reveal_strlit(" ");
            assert(sink@.extended(Seq::empty()) == sink@) by {
                crate::execution::output::law_nothing_is_added(sink@);
            }
        }
        match self.place() {
            Ok(separated) => {
                if separated {
                    write(sink, " ")
                } else {
                    Ok(())
                }
            },
            Err(fault) => Err(fault),
        }
    }

    fn no_atom(&self) -> (result: bool)
        ensures
            result == (self@.atom is Idle),
    {
        match self.atom {
            AtomState::Idle => true,
            AtomState::Text | AtomState::Symbol(_) => false,
        }
    }

    /// Prints a whole value.
    pub fn value(&mut self, sink: &mut OutputSink, text: &str) -> (result: Result<(), PrintFault>)
        requires
            old(sink).well_formed(),
            old(self).well_formed(),
        ensures
            final(sink).well_formed(),
            final(self).well_formed(),
            outcome(
                old(self)@.value(old(sink)@.emit_result(), text@),
                final(self)@,
                old(sink)@,
                final(sink)@,
                result,
            ),
    {
        let ghost before = sink@;
        assert(before.extended(Seq::empty()) == before) by {
            crate::execution::output::law_nothing_is_added(before);
        }
        if self.skipped_lists != 0 {
            return poll_output(sink);
        }
        if !self.no_atom() {
            return Err(PrintFault::InvalidSequence);
        }
        let ghost placed = self@.placed();
        match self.before_value(sink) {
            Ok(_) => {},
            Err(fault) => {
                return Err(fault);
            },
        }
        let result = write(sink, text);
        proof {
            let separator = placed->Ok_0.1;
            assert(before.extended(separator).extended(text@) == before.extended(
                separator + text@,
            )) by {
                crate::execution::output::law_parts_join(before, separator, text@);
            }
        }
        result
    }

    pub fn begin_list(&mut self, sink: &mut OutputSink, marker: &str) -> (result: Result<
        (),
        PrintFault,
    >)
        requires
            old(sink).well_formed(),
            old(self).well_formed(),
        ensures
            final(sink).well_formed(),
            final(self).well_formed(),
            outcome(
                old(self)@.begin_list(old(sink)@.emit_result(), marker@),
                final(self)@,
                old(sink)@,
                final(sink)@,
                result,
            ),
    {
        if self.skipped_lists != 0 {
            match poll_output(sink) {
                Ok(_) => {},
                Err(fault) => {
                    return Err(fault);
                },
            }
            if self.skipped_lists == usize::MAX {
                return Err(PrintFault::LimitExceeded);
            }
            self.skipped_lists = self.skipped_lists + 1;
            return Ok(());
        }
        if self.lists.len() == MAX_VALUE_DEPTH {
            let result = self.value(sink, marker);
            if result.is_ok() {
                self.skipped_lists = 1;
            }
            return result;
        }
        let result = self.value(sink, "(");
        if result.is_ok() {
            self.lists.push(ListState::Empty);
        }
        result
    }

    pub fn end_list(&mut self, sink: &mut OutputSink) -> (result: Result<(), PrintFault>)
        requires
            old(sink).well_formed(),
            old(self).well_formed(),
        ensures
            final(sink).well_formed(),
            final(self).well_formed(),
            outcome(
                old(self)@.end_list(old(sink)@.emit_result()),
                final(self)@,
                old(sink)@,
                final(sink)@,
                result,
            ),
    {
        let ghost before = self@;
        assert(sink@.extended(Seq::empty()) == sink@) by {
            crate::execution::output::law_nothing_is_added(sink@);
        }
        if self.skipped_lists != 0 {
            match poll_output(sink) {
                Ok(_) => {},
                Err(fault) => {
                    return Err(fault);
                },
            }
            self.skipped_lists = self.skipped_lists - 1;
            return Ok(());
        }
        let depth: usize = self.lists.len();
        if !self.no_atom() || depth == 0 || self.lists[depth - 1] == ListState::AwaitingTail {
            return Err(PrintFault::InvalidSequence);
        }
        let _ = self.lists.pop();
        assert(self@ =~= (StructureView { lists: before.lists.drop_last(), ..before }));
        write(sink, ")")
    }

    pub fn dot(&mut self, sink: &mut OutputSink) -> (result: Result<(), PrintFault>)
        requires
            old(sink).well_formed(),
            old(self).well_formed(),
        ensures
            final(sink).well_formed(),
            final(self).well_formed(),
            outcome(
                old(self)@.dot(old(sink)@.emit_result()),
                final(self)@,
                old(sink)@,
                final(sink)@,
                result,
            ),
    {
        assert(sink@.extended(Seq::empty()) == sink@) by {
            crate::execution::output::law_nothing_is_added(sink@);
        }
        if self.skipped_lists != 0 {
            return poll_output(sink);
        }
        let depth: usize = self.lists.len();
        if !self.no_atom() || depth == 0 || self.lists[depth - 1] != ListState::Values {
            return Err(PrintFault::InvalidSequence);
        }
        self.replace_last(ListState::AwaitingTail);
        write(sink, " . ")
    }

    pub fn begin_symbol(&mut self, sink: &mut OutputSink) -> (result: Result<(), PrintFault>)
        requires
            old(sink).well_formed(),
            old(self).well_formed(),
        ensures
            final(sink).well_formed(),
            final(self).well_formed(),
            outcome(
                old(self)@.begin_symbol(old(sink)@.emit_result()),
                final(self)@,
                old(sink)@,
                final(sink)@,
                result,
            ),
    {
        assert(sink@.extended(Seq::empty()) == sink@) by {
            crate::execution::output::law_nothing_is_added(sink@);
        }
        if self.skipped_lists != 0 {
            return poll_output(sink);
        }
        if !self.no_atom() {
            return Err(PrintFault::InvalidSequence);
        }
        let result = poll_output(sink);
        if result.is_ok() {
            self.atom = AtomState::Symbol(SymbolState::new());
        }
        result
    }

    pub fn symbol_chunk(&mut self, sink: &mut OutputSink, text: &str, readable: bool) -> (result:
        Result<(), PrintFault>)
        requires
            old(sink).well_formed(),
            old(self).well_formed(),
        ensures
            final(sink).well_formed(),
            final(self).well_formed(),
            outcome(
                old(self)@.symbol_chunk(old(sink)@.emit_result(), text@, readable),
                final(self)@,
                old(sink)@,
                final(sink)@,
                result,
            ),
    {
        let ghost before = sink@;
        assert(before.extended(Seq::empty()) == before) by {
            crate::execution::output::law_nothing_is_added(before);
        }
        if byte_count(text) > MAX_VALUE_TEXT_BYTES || !valid_symbol_text(text) {
            return Err(PrintFault::InvalidSequence);
        }
        if self.skipped_lists != 0 {
            return poll_output(sink);
        }
        match self.atom {
            AtomState::Idle | AtomState::Text => Err(PrintFault::InvalidSequence),
            AtomState::Symbol(state) => {
                if text.is_empty() {
                    return poll_output(sink);
                }
                let ghost separator = if state.at_start() {
                    self@.placed()->Ok_0.1
                } else {
                    Seq::empty()
                };
                if state.is_empty() {
                    match self.before_value(sink) {
                        Ok(_) => {},
                        Err(fault) => {
                            return Err(fault);
                        },
                    }
                }
                let mut state = state;
                state.push(text);
                self.atom = AtomState::Symbol(state);
                let ghost shown = if readable {
                    escaped_symbol(text@)
                } else {
                    text@
                };
                proof {
                    assert(before.extended(separator).extended(shown) == before.extended(
                        separator + shown,
                    )) by {
                        crate::execution::output::law_parts_join(before, separator, shown);
                    }
                    assert(Seq::<char>::empty() + shown =~= shown);
                }
                if readable {
                    write_escaped(sink, text, true)
                } else {
                    write(sink, text)
                }
            },
        }
    }

    pub fn end_symbol(&mut self, sink: &mut OutputSink) -> (result: Result<(), PrintFault>)
        requires
            old(sink).well_formed(),
            old(self).well_formed(),
        ensures
            final(sink).well_formed(),
            final(self).well_formed(),
            outcome(
                old(self)@.end_symbol(old(sink)@.emit_result()),
                final(self)@,
                old(sink)@,
                final(sink)@,
                result,
            ),
    {
        assert(sink@.extended(Seq::empty()) == sink@) by {
            crate::execution::output::law_nothing_is_added(sink@);
        }
        if self.skipped_lists != 0 {
            return poll_output(sink);
        }
        match self.atom {
            AtomState::Idle | AtomState::Text => Err(PrintFault::InvalidSequence),
            AtomState::Symbol(state) => {
                if !state.is_valid() {
                    return Err(PrintFault::InvalidSequence);
                }
                let result = poll_output(sink);
                if result.is_ok() {
                    self.atom = AtomState::Idle;
                }
                result
            },
        }
    }

    pub fn begin_string(&mut self, sink: &mut OutputSink, readable: bool) -> (result: Result<
        (),
        PrintFault,
    >)
        requires
            old(sink).well_formed(),
            old(self).well_formed(),
        ensures
            final(sink).well_formed(),
            final(self).well_formed(),
            outcome(
                old(self)@.begin_string(old(sink)@.emit_result(), readable),
                final(self)@,
                old(sink)@,
                final(sink)@,
                result,
            ),
    {
        let ghost before = sink@;
        assert(before.extended(Seq::empty()) == before) by {
            crate::execution::output::law_nothing_is_added(before);
        }
        if self.skipped_lists != 0 {
            return poll_output(sink);
        }
        if !self.no_atom() {
            return Err(PrintFault::InvalidSequence);
        }
        match poll_output(sink) {
            Ok(_) => {},
            Err(fault) => {
                return Err(fault);
            },
        }
        let ghost placed = self@.placed();
        match self.before_value(sink) {
            Ok(_) => {},
            Err(fault) => {
                return Err(fault);
            },
        }
        proof {
            let separator = placed->Ok_0.1;
            assert(before.extended(separator).extended("\""@) == before.extended(
                separator + "\""@,
            )) by {
                crate::execution::output::law_parts_join(before, separator, "\""@);
            }
            assert(separator + Seq::<char>::empty() =~= separator);
        }
        if readable {
            match write(sink, "\"") {
                Ok(_) => {},
                Err(fault) => {
                    return Err(fault);
                },
            }
        }
        self.atom = AtomState::Text;
        Ok(())
    }

    pub fn string_chunk(&self, sink: &mut OutputSink, text: &str, readable: bool) -> (result:
        Result<(), PrintFault>)
        requires
            old(sink).well_formed(),
            self.well_formed(),
        ensures
            final(sink).well_formed(),
            outcome(
                self@.string_chunk(old(sink)@.emit_result(), text@, readable),
                self@,
                old(sink)@,
                final(sink)@,
                result,
            ),
    {
        assert(sink@.extended(Seq::empty()) == sink@) by {
            crate::execution::output::law_nothing_is_added(sink@);
        }
        if byte_count(text) > MAX_VALUE_TEXT_BYTES {
            return Err(PrintFault::InvalidSequence);
        }
        if self.skipped_lists != 0 {
            return poll_output(sink);
        }
        match self.atom {
            AtomState::Idle | AtomState::Symbol(_) => {
                return Err(PrintFault::InvalidSequence);
            },
            AtomState::Text => {},
        }
        if !readable || !needs_escape(text) {
            return write(sink, text);
        }
        write_escaped(sink, text, false)
    }

    pub fn end_string(&mut self, sink: &mut OutputSink, readable: bool) -> (result: Result<
        (),
        PrintFault,
    >)
        requires
            old(sink).well_formed(),
            old(self).well_formed(),
        ensures
            final(sink).well_formed(),
            final(self).well_formed(),
            outcome(
                old(self)@.end_string(old(sink)@.emit_result(), readable),
                final(self)@,
                old(sink)@,
                final(sink)@,
                result,
            ),
    {
        assert(sink@.extended(Seq::empty()) == sink@) by {
            crate::execution::output::law_nothing_is_added(sink@);
        }
        if self.skipped_lists != 0 {
            return poll_output(sink);
        }
        match self.atom {
            AtomState::Idle | AtomState::Symbol(_) => {
                return Err(PrintFault::InvalidSequence);
            },
            AtomState::Text => {},
        }
        match poll_output(sink) {
            Ok(_) => {},
            Err(fault) => {
                return Err(fault);
            },
        }
        self.atom = AtomState::Idle;
        if readable {
            write(sink, "\"")
        } else {
            Ok(())
        }
    }

    /// Ends the printed values with a newline and makes them available to the
    /// reader. Where something is still open, only the latter.
    pub fn finish(self, sink: &mut OutputSink) -> (result: Result<(), PrintFault>)
        requires
            old(sink).well_formed(),
            self.well_formed(),
        ensures
            final(sink).well_formed(),
            result == if !self@.complete() {
                Err(PrintFault::InvalidSequence)
            } else {
                answer(old(sink)@.emit_result())
            },
            final(sink)@ == finished_output(old(sink)@, self@.complete()),
            result is Ok && !final(sink)@.blocked() ==> final(sink)@.pending.len() == 0,
    {
        if !self.no_atom() || self.lists.len() != 0 || self.skipped_lists != 0 {
            let _ = sink.flush();
            return Err(PrintFault::InvalidSequence);
        }
        match write(sink, "\n") {
            Ok(_) => {},
            Err(fault) => {
                return Err(fault);
            },
        }
        let _ = sink.flush();
        Ok(())
    }
}

/// Digits, with or without a sign before them, read as a number, and so do two of them with
/// an exponent marker between them. A text without a digit reads as none.
pub proof fn law_number_texts(
    sign_before: Seq<char>,
    whole: Seq<char>,
    marker: char,
    power_sign: Seq<char>,
    power: Seq<char>,
    other: Seq<char>,
)
    requires
        sign_before.len() == 0 || sign_before == seq!['+'] || sign_before == seq!['-'],
        power_sign.len() == 0 || power_sign == seq!['+'] || power_sign == seq!['-'],
        whole.len() > 0,
        power.len() > 0,
        forall|i: int| 0 <= i < whole.len() ==> '0' <= #[trigger] whole[i] <= '9',
        forall|i: int| 0 <= i < power.len() ==> '0' <= #[trigger] power[i] <= '9',
        marker == 'e' || marker == 'E',
        forall|i: int| 0 <= i < other.len() ==> !('0' <= #[trigger] other[i] <= '9'),
    ensures
        number_text(sign_before + whole),
        number_text(sign_before + whole + seq![marker] + power_sign + power),
        !number_text(other),
{
    let mantissa = sign_before + whole;
    let exponent = power_sign + power;
    let long = sign_before + whole + seq![marker] + power_sign + power;
    let at = mantissa.len() as int;
    lemma_signed_digits(sign_before, whole);
    lemma_signed_digits(power_sign, power);
    assert(long.take(at) =~= mantissa);
    assert(long.skip(at + 1) =~= exponent);
    assert(long[at] == marker);
    assert(exponent_at(long, at));
    if integer_text(other) {
        let rest = unsigned(other);
        assert(text::decimal_digit(rest[0]));
        let place: int = if sign(other[0]) {
            1
        } else {
            0
        };
        assert(rest[0] == other[place]);
    }
    if exponent_text(other) {
        let place = choose|place: int| #[trigger] exponent_at(other, place);
        let front = other.take(place);
        let rest = unsigned(front);
        assert(text::decimal_digit(rest[0]));
        let first: int = if sign(front[0]) {
            1
        } else {
            0
        };
        assert(rest[0] == front[first]);
        assert(front[first] == other[first]);
    }
}

proof fn lemma_signed_digits(sign_before: Seq<char>, digits: Seq<char>)
    requires
        sign_before.len() == 0 || sign_before == seq!['+'] || sign_before == seq!['-'],
        digits.len() > 0,
        forall|i: int| 0 <= i < digits.len() ==> '0' <= #[trigger] digits[i] <= '9',
    ensures
        integer_text(sign_before + digits),
{
    let whole = sign_before + digits;
    if sign_before.len() == 0 {
        assert(whole =~= digits);
        assert('0' <= digits[0] <= '9');
        assert(unsigned(whole) == digits);
    } else {
        assert(whole[0] == sign_before[0]);
        assert(unsigned(whole) =~= digits);
    }
}

/// The texts that read as nil.
pub proof fn law_nil_texts(shown: Seq<char>)
    ensures
        nil_text(shown) <==> shown.len() == 3 && (shown[0] == 'n' || shown[0] == 'N') && (shown[1]
            == 'i' || shown[1] == 'I') && (shown[2] == 'l' || shown[2] == 'L'),
{
    reveal_strlit("NIL");
    let upper = text::ascii_upper_text(shown);
    assert(upper.len() == shown.len());
    if shown.len() == 3 {
        assert(upper[0] == text::ascii_upper(shown[0]));
        assert(upper[1] == text::ascii_upper(shown[1]));
        assert(upper[2] == text::ascii_upper(shown[2]));
        if upper[0] == 'N' && upper[1] == 'I' && upper[2] == 'L' {
            assert(upper =~= "NIL"@);
        }
    }
}

/// A handle is made up of hexadecimal digits, at least one and at most 32.
pub proof fn law_handles(shown: Seq<char>)
    ensures
        handle_text(shown) <==> 0 < shown.len() && text::byte_len(shown) <= 32 && forall|i: int|
            0 <= i < shown.len() ==> ('0' <= #[trigger] shown[i] <= '9' || 'a' <= shown[i] <= 'f'
                || 'A' <= shown[i] <= 'F'),
{
    assert forall|i: int| 0 <= i < shown.len() implies (text::hex_digit(#[trigger] shown[i]) <==> (
    '0' <= shown[i] <= '9' || 'a' <= shown[i] <= 'f' || 'A' <= shown[i] <= 'F')) by {}
}

} // verus!
