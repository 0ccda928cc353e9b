//! What printed values read back as: a reader of strings and symbols that knows nothing of
//! the printer, and what it makes of what that prints.
use vstd::prelude::*;

use crate::execution::output::EmitResult;
use crate::printing;
use crate::printing::{AtomState, ListState, PrintFault, StructureView, SymbolState};
use crate::text;

verus! {

/// What a reader of a string expects next.
pub enum Expected {
    Any,
    /// What stands behind a backslash.
    Escaped,
    /// The rest of a code in octal digits, of which some were read.
    Octal { digits: int, code: int },
    /// Nothing: the string has ended, or holds what no string may hold.
    Nothing,
}

/// A string that is being read, without the quotation mark at its start.
pub struct StringReader {
    pub text: Seq<char>,
    pub expected: Expected,
    pub ended: bool,
}

impl StringReader {
    pub open spec fn start() -> StringReader {
        StringReader { text: Seq::empty(), expected: Expected::Any, ended: false }
    }

    pub open spec fn read(self, ch: char) -> StringReader {
        StringReader { text: self.text.push(ch), expected: Expected::Any, ..self }
    }

    pub open spec fn broken(self) -> StringReader {
        StringReader { expected: Expected::Nothing, ..self }
    }

    /// After one more character.
    pub open spec fn with(self, ch: char) -> StringReader {
        match self.expected {
            Expected::Nothing => self,
            Expected::Any => if ch == '"' {
                StringReader { expected: Expected::Nothing, ended: true, ..self }
            } else if ch == '\\' {
                StringReader { expected: Expected::Escaped, ..self }
            } else {
                self.read(ch)
            },
            Expected::Escaped => if ch == '"' || ch == '\\' {
                self.read(ch)
            } else if ch == 'n' {
                self.read('\n')
            } else if ch == 'r' {
                self.read('\r')
            } else if ch == 't' {
                self.read('\t')
            } else if ch == 'e' {
                self.read('\u{1b}')
            } else if '0' <= ch <= '7' {
                StringReader {
                    expected: Expected::Octal { digits: 1, code: ch as int - 48 },
                    ..self
                }
            } else {
                self.broken()
            },
            Expected::Octal { digits, code } => if !('0' <= ch <= '7') {
                self.broken()
            } else if digits == 2 {
                self.read((8 * code + (ch as int - 48)) as char)
            } else {
                StringReader {
                    expected: Expected::Octal { digits: digits + 1, code: 8 * code + (ch as int - 48) },
                    ..self
                }
            },
        }
    }

    /// After some more characters.
    pub open spec fn through(self, text: Seq<char>) -> StringReader
        decreases text.len(),
    {
        if text.len() == 0 {
            self
        } else {
            self.through(text.drop_last()).with(text.last())
        }
    }
}

proof fn lemma_through(reader: StringReader, first: Seq<char>, second: Seq<char>)
    ensures
        reader.through(first + second) == reader.through(first).through(second),
    decreases second.len(),
{
    if second.len() == 0 {
        assert(first + second =~= first);
    } else {
        assert((first + second).drop_last() =~= first + second.drop_last());
        assert((first + second).last() == second.last());
        lemma_through(reader, first, second.drop_last());
    }
}

proof fn lemma_one(reader: StringReader, ch: char)
    ensures
        reader.through(seq![ch]) == reader.with(ch),
{
    assert(seq![ch].drop_last() =~= Seq::<char>::empty());
    assert(reader.through(seq![ch].drop_last()) == reader);
}

proof fn lemma_two(reader: StringReader, first: char, second: char)
    ensures
        reader.through(seq![first, second]) == reader.with(first).with(second),
{
    assert(seq![first, second].drop_last() =~= seq![first]);
    lemma_one(reader, first);
}

proof fn lemma_four(reader: StringReader, first: char, second: char, third: char, fourth: char)
    ensures
        reader.through(seq![first, second, third, fourth]) == reader.with(first).with(second).with(
            third,
        ).with(fourth),
{
    let all = seq![first, second, third, fourth];
    assert(all.drop_last() =~= seq![first, second, third]);
    assert(all.drop_last().drop_last() =~= seq![first, second]);
    lemma_two(reader, first, second);
    assert(reader.through(all.drop_last()) == reader.with(first).with(second).with(third));
}

proof fn lemma_octal(reader: StringReader, ch: char)
    requires
        reader.expected is Any,
        text::control_character(ch),
    ensures
        ({
            let code = ch as int;
            reader.through(
                seq![
                    '\\',
                    text::digit(code / 64),
                    text::digit(code / 8 % 8),
                    text::digit(code % 8),
                ],
            ) == reader.read(ch)
        }),
{
    let code = ch as int;
    let high = code / 64;
    let middle = code / 8 % 8;
    let low = code % 8;
    assert(0 <= high <= 2 && 0 <= middle < 8 && 0 <= low < 8);
    assert(8 * (8 * high + middle) + low == code);
    assert(text::digit(high) as int == 48 + high);
    assert(text::digit(middle) as int == 48 + middle);
    assert(text::digit(low) as int == 48 + low);
    lemma_four(reader, '\\', text::digit(high), text::digit(middle), text::digit(low));
    assert(code as char == ch);
}

proof fn lemma_escaped(reader: StringReader, ch: char)
    requires
        reader.expected is Any,
    ensures
        reader.through(printing::escaped_char(ch)) == reader.read(ch),
{
    if ch == '"' || ch == '\\' {
        lemma_two(reader, '\\', ch);
    } else if ch == '\u{1b}' {
        lemma_two(reader, '\\', 'e');
    } else if ch == '\n' {
        lemma_two(reader, '\\', 'n');
    } else if ch == '\r' {
        lemma_two(reader, '\\', 'r');
    } else if ch == '\t' {
        lemma_two(reader, '\\', 't');
    } else if text::control_character(ch) {
        lemma_octal(reader, ch);
    } else {
        lemma_one(reader, ch);
    }
}

/// A string that is printed reads back as the same text: nothing in it ends it, and the
/// quotation mark behind it does.
pub proof fn law_printed_string_reads_back(string: Seq<char>)
    ensures
        ({
            let reader = StringReader::start().through(printing::escaped_text(string));
            &&& reader.text == string
            &&& reader.expected is Any
            &&& !reader.ended
            &&& reader.with('"').ended
            &&& reader.with('"').text == string
        }),
    decreases string.len(),
{
    if string.len() > 0 {
        let front = string.drop_last();
        law_printed_string_reads_back(front);
        let before = StringReader::start().through(printing::escaped_text(front));
        lemma_through(
            StringReader::start(),
            printing::escaped_text(front),
            printing::escaped_char(string.last()),
        );
        lemma_escaped(before, string.last());
        assert(front.push(string.last()) =~= string);
    }
}

/// The name that a symbol reads as, in which a backslash stands for the character behind
/// it. The flag says whether one was read.
pub open spec fn read_symbol(shown: Seq<char>) -> (Seq<char>, bool)
    decreases shown.len(),
{
    if shown.len() == 0 {
        (Seq::empty(), false)
    } else {
        let (name, escaping) = read_symbol(shown.drop_last());
        if shown.last() == '\\' && !escaping {
            (name, true)
        } else {
            (name.push(shown.last()), false)
        }
    }
}

/// A symbol that is printed reads back as the same name.
pub proof fn law_printed_symbol_reads_back(name: Seq<char>)
    ensures
        read_symbol(printing::escaped_symbol(name)) == (name, false),
    decreases name.len(),
{
    if name.len() > 0 {
        let front = name.drop_last();
        law_printed_symbol_reads_back(front);
        let before = printing::escaped_symbol(front);
        let shown = printing::escaped_symbol(name);
        if name.last() == '\\' {
            let half = before.push('\\');
            assert(shown.drop_last() =~= half);
            assert(half.drop_last() =~= before);
            assert(half.last() == '\\');
            assert(read_symbol(half) == (front, true));
        } else {
            assert(shown.drop_last() =~= before);
        }
        assert(front.push(name.last()) =~= name);
    }
}

/// Nothing keeps a value from being printed: no atom is open and nothing is skipped.
pub open spec fn ready(structure: StructureView) -> bool {
    &&& structure.atom is Idle
    &&& structure.skipped_lists == 0
    &&& structure.root_values < usize::MAX
}

/// A value is printed as it is: at once outside of lists, where it counts, and as the first
/// of a list or its tail; behind a space where another stands before it. Behind the tail
/// there is no place for a value.
pub proof fn law_values_are_separated(structure: StructureView, shown: Seq<char>)
    requires
        ready(structure),
        structure.counts_roots,
    ensures
        ({
            let printed = structure.value(EmitResult::Written, shown);
            let lists = structure.lists;
            let after = printed.structure;
            &&& lists.len() == 0 ==> printed.result is Ok && printed.text == shown
                && after.root_values == structure.root_values + 1 && after.lists == lists
            &&& lists.len() > 0 && lists.last() is Empty ==> printed.result is Ok && printed.text
                == shown && after.lists.last() is Values
            &&& lists.len() > 0 && lists.last() is Values ==> printed.result is Ok
                && printed.text == " "@ + shown && after.lists == lists
            &&& lists.len() > 0 && lists.last() is AwaitingTail ==> printed.result is Ok
                && printed.text == shown && after.lists.last() is Complete
            &&& lists.len() > 0 && lists.last() is Complete ==> printed.result == Err::<
                (),
                PrintFault,
            >(PrintFault::InvalidSequence) && printed.text.len() == 0 && after == structure
            &&& lists.len() > 0 ==> after.root_values == structure.root_values
                && after.lists.drop_last() == lists.drop_last()
            &&& after.atom is Idle
        }),
{
    let printed = structure.value(EmitResult::Written, shown);
    assert(Seq::<char>::empty() + shown =~= shown);
    if structure.lists.len() > 0 {
        assert(printed.structure.lists.drop_last() =~= structure.lists.drop_last());
    }
}

/// A list opens as a value does, and is empty then; it closes with what it opened with, and
/// what stood around it stands around it again. Before a tail that is still to come it does
/// not close; and where no list is open none closes.
pub proof fn law_lists_open_and_close(structure: StructureView, marker: Seq<char>)
    requires
        ready(structure),
        structure.counts_roots,
        structure.lists.len() < printing::MAX_VALUE_DEPTH,
    ensures
        ({
            let open = structure.begin_list(EmitResult::Written, marker);
            let value = structure.value(EmitResult::Written, "("@);
            let closed = structure.end_list(EmitResult::Written);
            &&& open.text == value.text
            &&& open.result == value.result
            &&& open.result is Ok ==> open.structure.lists == value.structure.lists.push(
                ListState::Empty,
            ) && open.structure.root_values == value.structure.root_values
            &&& closed.result is Ok <==> structure.lists.len() > 0 && !(structure.lists.last()
                is AwaitingTail)
            &&& closed.result is Ok ==> closed.text == ")"@ && closed.structure.lists
                == structure.lists.drop_last() && closed.structure.root_values
                == structure.root_values
            &&& closed.result is Err ==> closed.text.len() == 0 && closed.structure == structure
        }),
{
}

/// The tail of a list stands behind a dot, which itself stands behind at least one value and
/// between spaces.
pub proof fn law_tail_stands_behind_a_dot(structure: StructureView)
    requires
        ready(structure),
    ensures
        ({
            let dot = structure.dot(EmitResult::Written);
            &&& dot.result is Ok <==> structure.lists.len() > 0 && structure.lists.last() is Values
            &&& dot.result is Ok ==> dot.text == " . "@ && dot.structure.lists.last()
                is AwaitingTail && dot.structure.lists.len() == structure.lists.len()
            &&& dot.result is Err ==> dot.text.len() == 0 && dot.structure == structure
        }),
{
}

/// A string is printed between quotation marks, piece by piece, and takes its place as a
/// value does. What is printed of it reads back as its text.
pub proof fn law_strings_are_quoted(structure: StructureView, string: Seq<char>)
    requires
        ready(structure),
        structure.counts_roots,
        text::byte_len(string) <= printing::MAX_VALUE_TEXT_BYTES,
        structure.lists.len() == 0,
    ensures
        ({
            let begun = structure.begin_string(EmitResult::Written, true);
            let held = begun.structure.string_chunk(EmitResult::Written, string, true);
            let ended = held.structure.end_string(EmitResult::Written, true);
            let reader = StringReader::start().through(held.text + ended.text);
            &&& begun.result is Ok && held.result is Ok && ended.result is Ok
            &&& begun.text == "\""@
            &&& reader.ended
            &&& reader.text == string
            &&& ended.structure.atom is Idle
            &&& ended.structure.root_values == structure.root_values + 1
            &&& structure.string_chunk(EmitResult::Written, string, true).result is Err
            &&& structure.end_string(EmitResult::Written, true).result is Err
        }),
{
    let begun = structure.begin_string(EmitResult::Written, true);
    let held = begun.structure.string_chunk(EmitResult::Written, string, true);
    let ended = held.structure.end_string(EmitResult::Written, true);
    reveal_strlit("\"");
    assert(Seq::<char>::empty() + "\""@ =~= "\""@);
    assert(ended.text =~= seq!['"']);
    law_printed_string_reads_back(string);
    lemma_through(StringReader::start(), held.text, ended.text);
    lemma_one(StringReader::start().through(held.text), '"');
}

/// A symbol is printed as its name, with its backslashes doubled, and takes its place with
/// its first character. It ends as a symbol exactly where its name is neither empty nor nil
/// nor a number.
pub proof fn law_symbols_are_printed(structure: StructureView, name: Seq<char>)
    requires
        ready(structure),
        structure.counts_roots,
        structure.lists.len() == 0,
        name.len() > 0,
        text::byte_len(name) <= printing::MAX_VALUE_TEXT_BYTES,
        printing::symbol_text(name),
    ensures
        ({
            let begun = structure.begin_symbol(EmitResult::Written);
            let held = begun.structure.symbol_chunk(EmitResult::Written, name, true);
            let ended = held.structure.end_symbol(EmitResult::Written);
            &&& begun.result is Ok && begun.text.len() == 0
            &&& held.result is Ok
            &&& read_symbol(held.text) == (name, false)
            &&& ended.text.len() == 0
            &&& ended.result is Ok <==> !printing::nil_text(name) && !printing::number_text(name)
            &&& ended.result is Ok ==> ended.structure.atom is Idle && ended.structure.root_values
                == structure.root_values + 1
        }),
{
    let begun = structure.begin_symbol(EmitResult::Written);
    let held = begun.structure.symbol_chunk(EmitResult::Written, name, true);
    law_printed_symbol_reads_back(name);
    printing::law_symbol_is_neither_number_nor_nil(name);
    assert(Seq::<char>::empty() + printing::escaped_symbol(name) =~= printing::escaped_symbol(
        name,
    ));
    assert(begun.structure.atom == AtomState::Symbol(SymbolState::start()));
}

/// Printing stops where the channel does: nothing is written, and the answer of the channel
/// is passed on.
pub proof fn law_printing_stops_with_the_channel(
    structure: StructureView,
    status: EmitResult,
    shown: Seq<char>,
)
    requires
        ready(structure),
        structure.counts_roots,
        structure.lists.len() == 0,
        !(status is Written),
    ensures
        structure.value(status, shown).text.len() == 0,
        structure.value(status, shown).result == Err::<(), PrintFault>(
            PrintFault::Output(status),
        ),
        structure.begin_string(status, true).text.len() == 0,
        structure.begin_string(status, true).result == Err::<(), PrintFault>(
            PrintFault::Output(status),
        ),
{
}

/// The characters of which symbols, labels and handles are made up.
pub proof fn law_characters_of_values(ch: char)
    ensures
        printing::symbol_character(ch) <==> !text::control_character(ch)
            && !text::whitespace_character(ch) && !"()\";'."@.contains(ch),
        printing::label_character(ch) <==> !text::control_character(ch)
            && !text::whitespace_character(ch) && !"<>@\"\\"@.contains(ch),
{
    reveal_strlit("()\";'.");
    reveal_strlit("<>@\"\\");
    let marks = "()\";'."@;
    let others = "<>@\"\\"@;
    assert(marks[0] == '(' && marks[1] == ')' && marks[2] == '"' && marks[3] == ';' && marks[4]
        == '\'' && marks[5] == '.' && marks.len() == 6);
    assert(others[0] == '<' && others[1] == '>' && others[2] == '@' && others[3] == '"' && others[4]
        == '\\' && others.len() == 5);
    if marks.contains(ch) {
        let i = choose|i: int| 0 <= i < marks.len() && marks[i] == ch;
        assert(0 <= i < 6);
    }
    if others.contains(ch) {
        let i = choose|i: int| 0 <= i < others.len() && others[i] == ch;
        assert(0 <= i < 5);
    }
}

/// A value that cannot be read back is shown between marks that no value has, by its name
/// and what is known of it.
pub proof fn law_opaque_values_are_marked(name: Seq<char>, payload: Seq<char>)
    ensures
        printing::opaque_text(name, None) == "#<"@ + name + ">"@,
        payload.len() > 0 ==> printing::opaque_text(name, Some(payload)) == "#<"@ + name + " "@
            + payload + ">"@,
        printing::opaque_text(name, Some(Seq::empty())) == printing::opaque_text(name, None),
{
}

/// Lists are printed up to 65536 levels deep. One that is deeper is shown by a mark in its
/// place, nothing of it is printed, and with its end the list that it is in goes on.
pub proof fn law_deep_lists_are_cut(structure: StructureView, marker: Seq<char>, shown: Seq<char>)
    requires
        ready(structure),
        structure.lists.len() == 65536,
        structure.lists.last() is Empty,
    ensures
        ({
            let status = EmitResult::Written;
            let cut = structure.begin_list(status, marker);
            let inside = cut.structure;
            let deeper = inside.begin_list(status, marker);
            let back = inside.end_list(status);
            &&& cut.result is Ok && cut.text == marker
            &&& inside.lists.len() == 65536
            &&& inside.value(status, shown).text.len() == 0
            &&& inside.value(status, shown).structure == inside
            &&& deeper.text.len() == 0 && deeper.result is Ok
            &&& deeper.structure.end_list(status).structure == inside
            &&& back.text.len() == 0 && back.result is Ok
            &&& ready(back.structure)
            &&& back.structure.lists.last() is Values
        }),
{
    assert(Seq::<char>::empty() + marker =~= marker);
    let inside = structure.begin_list(EmitResult::Written, marker).structure;
    let deeper = inside.begin_list(EmitResult::Written, marker).structure;
    assert(deeper.end_list(EmitResult::Written).structure =~= inside);
}

} // verus!
