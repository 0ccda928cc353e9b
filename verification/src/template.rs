//! Program templates: text with markers in double braces.
use vstd::prelude::*;

use crate::text;
use crate::text::{chars_of, push_decimal, text_of};

verus! {

/// A marker and the text that replaces it.
pub struct Marker {
    pub name: &'static str,
    pub value: String,
}

/// Why a template cannot be rendered.
#[derive(Clone, Copy, Debug, PartialEq, Eq, Structural)]
pub enum RenderError {
    /// The marker at this position of the list does not occur.
    UnusedMarker(usize),
    /// A marker is left that no value was given for.
    UnknownMarker,
}

/// `pattern` stands at `position`.
pub open spec fn occurs_at(source: Seq<char>, pattern: Seq<char>, position: int) -> bool {
    &&& 0 <= position <= source.len() - pattern.len()
    &&& source.subrange(position, position + pattern.len()) == pattern
}

pub open spec fn occurs(source: Seq<char>, pattern: Seq<char>) -> bool {
    exists|position: int| #[trigger] occurs_at(source, pattern, position)
}

/// Every occurrence of `pattern`, from the left, replaced by `value`.
pub open spec fn replaced(source: Seq<char>, pattern: Seq<char>, value: Seq<char>) -> Seq<char>
    decreases source.len(),
{
    if source.len() == 0 || pattern.len() == 0 {
        source
    } else if occurs_at(source, pattern, 0) {
        value + replaced(source.skip(pattern.len() as int), pattern, value)
    } else {
        seq![source[0]] + replaced(source.skip(1), pattern, value)
    }
}

pub open spec fn placeholder(name: Seq<char>) -> Seq<char> {
    "{{"@ + name + "}}"@
}

pub open spec fn marker_view(marker: Marker) -> (Seq<char>, Seq<char>) {
    (marker.name@, marker.value@)
}

pub open spec fn markers_view(markers: Seq<Marker>) -> Seq<(Seq<char>, Seq<char>)> {
    markers.map_values(|marker: Marker| marker_view(marker))
}

/// The source with the markers replaced one after the other, or the position of
/// the first that does not occur.
pub open spec fn filled(source: Seq<char>, markers: Seq<(Seq<char>, Seq<char>)>) -> Result<
    Seq<char>,
    int,
>
    decreases markers.len(),
{
    if markers.len() == 0 {
        Ok(source)
    } else {
        match filled(source, markers.drop_last()) {
            Ok(before) => {
                let marker = markers.last();
                if occurs(before, placeholder(marker.0)) {
                    Ok(replaced(before, placeholder(marker.0), marker.1))
                } else {
                    Err(markers.len() - 1)
                }
            },
            Err(index) => Err(index),
        }
    }
}

/// The rendered template.
pub open spec fn rendered(source: Seq<char>, markers: Seq<(Seq<char>, Seq<char>)>) -> Result<
    Seq<char>,
    RenderError,
> {
    match filled(source, markers) {
        Ok(text) => if occurs(text, "{{"@) {
            Err(RenderError::UnknownMarker)
        } else {
            Ok(text)
        },
        Err(index) => Err(RenderError::UnusedMarker(index as usize)),
    }
}

/// The result of rendering as a text.
pub open spec fn result_view(result: Result<String, RenderError>) -> Result<
    Seq<char>,
    RenderError,
> {
    match result {
        Ok(text) => Ok(text@),
        Err(error) => Err(error),
    }
}

/// A text without the pattern stays as it is.
pub proof fn law_replace_without_occurrence(
    source: Seq<char>,
    pattern: Seq<char>,
    value: Seq<char>,
)
    requires
        !occurs(source, pattern),
    ensures
        replaced(source, pattern, value) == source,
    decreases source.len(),
{
    if source.len() > 0 && pattern.len() > 0 {
        assert(!occurs_at(source, pattern, 0));
        let rest = source.skip(1);
        assert forall|position: int| !#[trigger] occurs_at(rest, pattern, position) by {
            if occurs_at(rest, pattern, position) {
                assert(source.subrange(position + 1, position + 1 + pattern.len())
                    =~= rest.subrange(position, position + pattern.len()));
                assert(occurs_at(source, pattern, position + 1));
            }
        }
        law_replace_without_occurrence(rest, pattern, value);
        assert(source =~= seq![source[0]] + rest);
    }
}

/// What stands at one position and what stands at another have no character in common.
pub open spec fn disjoint(left: Seq<char>, at: int, right: Seq<char>, position: int) -> bool {
    at + left.len() <= position || position + right.len() <= at
}

/// `value` stands at a place that no `pattern` reaches into.
pub open spec fn stands_clear(source: Seq<char>, value: Seq<char>, pattern: Seq<char>) -> bool {
    exists|at: int| #[trigger] occurs_at(source, value, at) && clear_at(source, value, at, pattern)
}

pub open spec fn clear_at(
    source: Seq<char>,
    value: Seq<char>,
    at: int,
    pattern: Seq<char>,
) -> bool {
    forall|position: int| #[trigger]
        occurs_at(source, pattern, position) ==> disjoint(value, at, pattern, position)
}

/// `value` and `pattern` overlap in no text.
pub open spec fn apart(value: Seq<char>, pattern: Seq<char>) -> bool {
    forall|source: Seq<char>, at: int, position: int|
        #![trigger occurs_at(source, value, at), occurs_at(source, pattern, position)]
        occurs_at(source, value, at) && occurs_at(source, pattern, position) ==> disjoint(
            value,
            at,
            pattern,
            position,
        )
}

/// None of the first characters is `ch`.
pub open spec fn without(name: Seq<char>, ch: char, length: nat) -> bool
    decreases length,
{
    length == 0 || (name[length - 1] != ch && without(name, ch, (length - 1) as nat))
}

pub proof fn lemma_without(name: Seq<char>, ch: char, length: nat)
    requires
        without(name, ch, length),
    ensures
        forall|i: int| 0 <= i < length ==> name[i] != ch,
    decreases length,
{
    if length > 0 {
        lemma_without(name, ch, (length - 1) as nat);
    }
}

/// The value of a marker stands in the filled text, if no marker that is filled later can
/// overlap with it.
pub proof fn law_value_stays(
    source: Seq<char>,
    markers: Seq<(Seq<char>, Seq<char>)>,
    index: int,
)
    requires
        0 <= index < markers.len(),
        filled(source, markers) is Ok,
        forall|later: int|
            index < later < markers.len() ==> apart(
                markers[index].1,
                placeholder((#[trigger] markers[later]).0),
            ),
    ensures
        occurs(filled(source, markers)->Ok_0, markers[index].1),
    decreases markers.len(),
{
    reveal_strlit("{{");
    let earlier = markers.drop_last();
    let before = filled(source, earlier)->Ok_0;
    let pattern = placeholder(markers.last().0);
    if index == markers.len() - 1 {
        lemma_value_is_put_in(before, pattern, markers.last().1);
    } else {
        let value = markers[index].1;
        assert(earlier[index] == markers[index]);
        assert forall|later: int| index < later < earlier.len() implies apart(
            earlier[index].1,
            placeholder((#[trigger] earlier[later]).0),
        ) by {
            assert(earlier[later] == markers[later]);
        }
        law_value_stays(source, earlier, index);
        let at = choose|at: int| #[trigger] occurs_at(before, value, at);
        assert(apart(value, placeholder(markers[markers.len() - 1].0)));
        assert(clear_at(before, value, at, pattern));
        lemma_value_survives(before, value, at, pattern, markers.last().1);
    }
}

/// A value that stands clear of the last marker stands in the filled text.
pub proof fn law_clear_value_stays(
    source: Seq<char>,
    markers: Seq<(Seq<char>, Seq<char>)>,
    value: Seq<char>,
)
    requires
        markers.len() > 0,
        filled(source, markers) is Ok,
        stands_clear(
            filled(source, markers.drop_last())->Ok_0,
            value,
            placeholder(markers.last().0),
        ),
    ensures
        occurs(filled(source, markers)->Ok_0, value),
{
    reveal_strlit("{{");
    let before = filled(source, markers.drop_last())->Ok_0;
    let pattern = placeholder(markers.last().0);
    let at = choose|at: int| #[trigger]
        occurs_at(before, value, at) && clear_at(before, value, at, pattern);
    lemma_value_survives(before, value, at, pattern, markers.last().1);
}

/// A value without an opening brace overlaps with no marker that does not hold the
/// character that the value begins with.
pub proof fn law_plain_value_is_apart(value: Seq<char>, name: Seq<char>)
    requires
        value.len() > 0,
        !value.contains('{'),
        !placeholder(name).contains(value[0]),
    ensures
        apart(value, placeholder(name)),
{
    let pattern = placeholder(name);
    reveal_strlit("{{");
    assert(pattern[0] == '{');
    assert forall|source: Seq<char>, at: int, position: int|
        #![trigger occurs_at(source, value, at), occurs_at(source, pattern, position)]
        occurs_at(source, value, at) && occurs_at(source, pattern, position) implies disjoint(
        value,
        at,
        pattern,
        position,
    ) by {
        lemma_overlap(source, value, at, pattern, position);
        if !disjoint(value, at, pattern, position) && at <= position {
            assert(value[position - at] == '{');
        }
    }
}

/// A value that holds no open marker, does not end in an opening brace and begins with a
/// character that a marker does not hold, overlaps with that marker in no text.
pub proof fn law_closed_value_is_apart(value: Seq<char>, name: Seq<char>)
    requires
        value.len() > 0,
        !occurs(value, "{{"@),
        value.last() != '{',
        !placeholder(name).contains(value[0]),
    ensures
        apart(value, placeholder(name)),
{
    let pattern = placeholder(name);
    reveal_strlit("{{");
    assert(pattern[0] == '{' && pattern[1] == '{');
    assert forall|source: Seq<char>, at: int, position: int|
        #![trigger occurs_at(source, value, at), occurs_at(source, pattern, position)]
        occurs_at(source, value, at) && occurs_at(source, pattern, position) implies disjoint(
        value,
        at,
        pattern,
        position,
    ) by {
        lemma_overlap(source, value, at, pattern, position);
        if !disjoint(value, at, pattern, position) && at <= position {
            let first = position - at;
            assert(value[first] == '{');
            assert(first < value.len() - 1);
            assert(source.subrange(position, position + pattern.len())[1] == '{');
            assert(source.subrange(at, at + value.len())[first + 1] == '{');
            assert(value.subrange(first, first + 2) =~= "{{"@);
            assert(occurs_at(value, "{{"@, first));
        }
    }
}

proof fn lemma_overlap(
    source: Seq<char>,
    value: Seq<char>,
    at: int,
    pattern: Seq<char>,
    position: int,
)
    requires
        value.len() > 0,
        pattern.len() > 0,
        occurs_at(source, value, at),
        occurs_at(source, pattern, position),
        !pattern.contains(value[0]),
    ensures
        disjoint(value, at, pattern, position) || at <= position < at + value.len(),
        at <= position < at + value.len() ==> value[position - at] == pattern[0],
{
    let shown = source.subrange(at, at + value.len());
    let found = source.subrange(position, position + pattern.len());
    if position <= at < position + pattern.len() {
        assert(found[at - position] == source[at]);
        assert(shown[0] == source[at]);
        assert(pattern[at - position] == value[0]);
    }
    if at <= position < at + value.len() {
        assert(shown[position - at] == source[position]);
        assert(found[0] == source[position]);
    }
}

proof fn lemma_tail(source: Seq<char>, pattern: Seq<char>, cut: int, position: int)
    requires
        0 <= cut <= source.len(),
        cut <= position,
    ensures
        occurs_at(source.skip(cut), pattern, position - cut) <==> occurs_at(
            source,
            pattern,
            position,
        ),
{
    if position <= source.len() - pattern.len() {
        assert(source.skip(cut).subrange(position - cut, position - cut + pattern.len())
            =~= source.subrange(position, position + pattern.len()));
    }
}

/// What stands in a text stands behind a longer start, too.
proof fn lemma_longer_start(start: Seq<char>, source: Seq<char>, value: Seq<char>)
    requires
        occurs(source, value),
    ensures
        occurs(start + source, value),
{
    let at = choose|at: int| #[trigger] occurs_at(source, value, at);
    assert((start + source).skip(start.len() as int) =~= source);
    lemma_tail(start + source, value, start.len() as int, at + start.len());
    assert(occurs_at(start + source, value, at + start.len()));
}

proof fn lemma_value_is_put_in(source: Seq<char>, pattern: Seq<char>, value: Seq<char>)
    requires
        pattern.len() > 0,
        occurs(source, pattern),
    ensures
        occurs(replaced(source, pattern, value), value),
    decreases source.len(),
{
    if occurs_at(source, pattern, 0) {
        let result = replaced(source, pattern, value);
        assert(result.subrange(0, value.len() as int) =~= value);
        assert(occurs_at(result, value, 0));
    } else {
        let position = choose|position: int| #[trigger] occurs_at(source, pattern, position);
        lemma_tail(source, pattern, 1, position);
        assert(occurs_at(source.skip(1), pattern, position - 1));
        lemma_value_is_put_in(source.skip(1), pattern, value);
        lemma_longer_start(seq![source[0]], replaced(source.skip(1), pattern, value), value);
    }
}

/// The start of a text that no pattern reaches into is kept.
proof fn lemma_start_is_kept(source: Seq<char>, length: int, pattern: Seq<char>, value: Seq<char>)
    requires
        0 <= length <= source.len(),
        pattern.len() > 0,
        forall|position: int|
            0 <= position < length ==> !#[trigger] occurs_at(source, pattern, position),
    ensures
        replaced(source, pattern, value) == source.take(length) + replaced(
            source.skip(length),
            pattern,
            value,
        ),
    decreases length,
{
    if length == 0 {
        assert(source.skip(0) =~= source);
    } else {
        let rest = source.skip(1);
        assert(!occurs_at(source, pattern, 0));
        assert forall|position: int| 0 <= position < length - 1 implies !#[trigger] occurs_at(
            rest,
            pattern,
            position,
        ) by {
            lemma_tail(source, pattern, 1, position + 1);
            assert(!occurs_at(source, pattern, position + 1));
        }
        lemma_start_is_kept(rest, length - 1, pattern, value);
        assert(rest.skip(length - 1) =~= source.skip(length));
        assert(seq![source[0]] + rest.take(length - 1) =~= source.take(length));
        let tail = replaced(source.skip(length), pattern, value);
        assert(seq![source[0]] + (rest.take(length - 1) + tail) =~= source.take(length) + tail);
    }
}

proof fn lemma_value_survives(
    source: Seq<char>,
    value: Seq<char>,
    at: int,
    pattern: Seq<char>,
    other: Seq<char>,
)
    requires
        pattern.len() > 0,
        occurs_at(source, value, at),
        clear_at(source, value, at, pattern),
    ensures
        occurs(replaced(source, pattern, other), value),
    decreases source.len(),
{
    let result = replaced(source, pattern, other);
    if value.len() == 0 {
        assert(result.subrange(0, 0) =~= value);
        assert(occurs_at(result, value, 0));
    } else if at == 0 {
        assert forall|position: int| 0 <= position < value.len() implies !#[trigger] occurs_at(
            source,
            pattern,
            position,
        ) by {}
        lemma_start_is_kept(source, value.len() as int, pattern, other);
        assert(source.take(value.len() as int) =~= source.subrange(0, value.len() as int));
        assert(result.subrange(0, value.len() as int) =~= value);
        assert(occurs_at(result, value, 0));
    } else {
        let cut = if occurs_at(source, pattern, 0) {
            pattern.len() as int
        } else {
            1
        };
        let rest = source.skip(cut);
        lemma_tail(source, value, cut, at);
        assert forall|position: int| #[trigger] occurs_at(rest, pattern, position) implies disjoint(
            value,
            at - cut,
            pattern,
            position,
        ) by {
            lemma_tail(source, pattern, cut, position + cut);
            assert(occurs_at(source, pattern, position + cut));
        }
        lemma_value_survives(rest, value, at - cut, pattern, other);
        if occurs_at(source, pattern, 0) {
            lemma_longer_start(other, replaced(rest, pattern, other), value);
        } else {
            lemma_longer_start(seq![source[0]], replaced(rest, pattern, other), value);
        }
    }
}

/// Whether `pattern` stands at `position`.
pub(crate) fn matches_at(source: &Vec<char>, pattern: &Vec<char>, position: usize) -> (result: bool)
    requires
        position <= source@.len(),
    ensures
        result == occurs_at(source@, pattern@, position as int),
{
    let length: usize = source.len();
    if length - position < pattern.len() {
        return false;
    }
    let mut index: usize = 0;
    while index < pattern.len()
        invariant
            index <= pattern@.len(),
            length == source@.len(),
            position + pattern@.len() <= length,
            forall|i: int| 0 <= i < index ==> source@[position + i] == #[trigger] pattern@[i],
        decreases pattern@.len() - index,
    {
        if source[position + index] != pattern[index] {
            assert(source@.subrange(position as int, position + pattern@.len())[index as int]
                != pattern@[index as int]);
            return false;
        }
        index = index + 1;
    }
    assert(source@.subrange(position as int, position + pattern@.len()) =~= pattern@);
    true
}

/// The first position at or behind `start` where `pattern` stands.
pub(crate) fn find_from(source: &Vec<char>, pattern: &Vec<char>, start: usize) -> (position: Option<
    usize,
>)
    requires
        start <= source@.len(),
    ensures
        match position {
            Some(position) => {
                &&& start <= position <= source@.len() - pattern@.len()
                &&& occurs_at(source@, pattern@, position as int)
                &&& forall|i: int|
                    start <= i < position ==> !#[trigger] occurs_at(source@, pattern@, i)
            },
            None => forall|i: int| start <= i ==> !#[trigger] occurs_at(source@, pattern@, i),
        },
{
    let mut position: usize = start;
    while position < source.len()
        invariant
            start <= position <= source@.len(),
            forall|i: int| start <= i < position ==> !#[trigger] occurs_at(source@, pattern@, i),
        decreases source@.len() - position,
    {
        if matches_at(source, pattern, position) {
            return Some(position);
        }
        position = position + 1;
    }
    if matches_at(source, pattern, position) {
        return Some(position);
    }
    None
}

fn replace_all(source: &Vec<char>, pattern: &Vec<char>, value: &Vec<char>) -> (result: Vec<char>)
    requires
        pattern@.len() > 0,
    ensures
        result@ == replaced(source@, pattern@, value@),
{
    let mut result: Vec<char> = Vec::new();
    let mut position: usize = 0;
    assert(source@.skip(0) =~= source@);
    while position < source.len()
        invariant
            pattern@.len() > 0,
            position <= source@.len(),
            result@ + replaced(source@.skip(position as int), pattern@, value@) == replaced(
                source@,
                pattern@,
                value@,
            ),
        decreases source@.len() - position,
    {
        let ghost rest = source@.skip(position as int);
        let ghost before = result@;
        if matches_at(source, pattern, position) {
            let mut index: usize = 0;
            while index < value.len()
                invariant
                    index <= value@.len(),
                    result@ == before + value@.take(index as int),
                decreases value@.len() - index,
            {
                result.push(value[index]);
                index = index + 1;
                assert(result@ =~= before + value@.take(index as int));
            }
            proof {
                assert(value@.take(value@.len() as int) =~= value@);
                assert(rest.subrange(0, pattern@.len() as int) =~= source@.subrange(
                    position as int,
                    position + pattern@.len(),
                ));
                assert(occurs_at(rest, pattern@, 0));
                assert(rest.skip(pattern@.len() as int) =~= source@.skip(
                    position + pattern@.len(),
                ));
                let tail = replaced(source@.skip(position + pattern@.len()), pattern@, value@);
                assert((before + value@) + tail =~= before + (value@ + tail));
            }
            position = position + pattern.len();
        } else {
            result.push(source[position]);
            proof {
                if occurs_at(rest, pattern@, 0) {
                    assert(rest.subrange(0, pattern@.len() as int) =~= source@.subrange(
                        position as int,
                        position + pattern@.len(),
                    ));
                }
                assert(rest.skip(1) =~= source@.skip(position + 1));
                let tail = replaced(source@.skip(position + 1), pattern@, value@);
                assert(before.push(rest[0]) + tail =~= before + (seq![rest[0]] + tail));
            }
            position = position + 1;
        }
    }
    proof {
        assert(source@.skip(position as int) =~= Seq::<char>::empty());
        assert(result@ + Seq::<char>::empty() =~= result@);
    }
    result
}

/// A marker replaced by a text.
pub(crate) fn text_marker(name: &'static str, value: &str) -> (marker: Marker)
    ensures
        marker_view(marker) == (name@, value@),
{
    Marker { name, value: value.to_owned() }
}

/// A marker replaced by a numeral.
pub(crate) fn number_marker(name: &'static str, value: u64) -> (marker: Marker)
    ensures
        marker_view(marker) == (name@, text::decimal(value as nat)),
{
    let mut numeral = String::new();
    push_decimal(&mut numeral, value);
    assert(numeral@ =~= text::decimal(value as nat));
    Marker { name, value: numeral }
}

/// Renders a template: each marker of the list must occur, and none may be left.
pub fn render(template: &str, markers: &Vec<Marker>) -> (result: Result<String, RenderError>)
    ensures
        result_view(result) == rendered(template@, markers_view(markers@)),
{
    let mut source = chars_of(template);
    let mut index: usize = 0;
    let ghost views = markers_view(markers@);
    assert(views.take(0) =~= Seq::<(Seq<char>, Seq<char>)>::empty());
    while index < markers.len()
        invariant
            views == markers_view(markers@),
            index <= markers@.len(),
            filled(template@, views.take(index as int)) == Ok::<Seq<char>, int>(source@),
        decreases markers@.len() - index,
    {
        let mut shown = "{{".to_owned();
        shown.push_str(markers[index].name);
        shown.push_str("}}");
        let pattern = chars_of(shown.as_str());
        proof {
            reveal_strlit("{{");
            assert(pattern@ == placeholder(views[index as int].0));
            assert(views.take(index + 1).drop_last() =~= views.take(index as int));
            assert(views.take(index + 1).last() == views[index as int]);
        }
        match find_from(&source, &pattern, 0) {
            Some(_) => {
                let value = chars_of(markers[index].value.as_str());
                source = replace_all(&source, &pattern, &value);
            },
            None => {
                proof {
                    assert forall|position: int| !#[trigger]
                        occurs_at(source@, pattern@, position) by {}
                    lemma_first_missing(template@, views, index as int);
                }
                return Err(RenderError::UnusedMarker(index));
            },
        }
        index = index + 1;
    }
    assert(views.take(views.len() as int) =~= views);
    let braces = chars_of("{{");
    match find_from(&source, &braces, 0) {
        Some(_) => Err(RenderError::UnknownMarker),
        None => Ok(text_of(&source)),
    }
}

proof fn lemma_first_missing(
    source: Seq<char>,
    markers: Seq<(Seq<char>, Seq<char>)>,
    index: int,
)
    requires
        0 <= index < markers.len(),
        filled(source, markers.take(index + 1)) == Err::<Seq<char>, int>(index),
    ensures
        filled(source, markers) == Err::<Seq<char>, int>(index),
    decreases markers.len() - index,
{
    if markers.len() == index + 1 {
        assert(markers.take(index + 1) =~= markers);
    } else {
        assert(markers.drop_last().take(index + 1) =~= markers.take(index + 1));
        lemma_first_missing(source, markers.drop_last(), index);
    }
}

/// The first occurrence of a pattern is replaced by the value: what stands before it stays,
/// and what stands behind it is gone through in the same way.
pub proof fn law_value_takes_the_place(
    front: Seq<char>,
    pattern: Seq<char>,
    back: Seq<char>,
    value: Seq<char>,
)
    requires
        pattern.len() > 0,
        forall|position: int|
            0 <= position < front.len() ==> !#[trigger] occurs_at(
                front + pattern + back,
                pattern,
                position,
            ),
    ensures
        replaced(front + pattern + back, pattern, value) == front + value + replaced(
            back,
            pattern,
            value,
        ),
    decreases front.len(),
{
    let whole = front + pattern + back;
    if front.len() == 0 {
        assert(whole.subrange(0, pattern.len() as int) =~= pattern);
        assert(whole.skip(pattern.len() as int) =~= back);
        assert(occurs_at(whole, pattern, 0));
        assert(value + replaced(back, pattern, value) =~= front + value + replaced(
            back,
            pattern,
            value,
        ));
    } else {
        let shorter = front.skip(1);
        let rest = whole.skip(1);
        assert(rest =~= shorter + pattern + back);
        assert forall|position: int| 0 <= position < shorter.len() implies !#[trigger] occurs_at(
            rest,
            pattern,
            position,
        ) by {
            if occurs_at(rest, pattern, position) {
                assert(whole.subrange(position + 1, position + 1 + pattern.len())
                    =~= rest.subrange(position, position + pattern.len()));
                assert(occurs_at(whole, pattern, position + 1));
            }
        }
        law_value_takes_the_place(shorter, pattern, back, value);
        assert(!occurs_at(whole, pattern, 0));
        assert(seq![whole[0]] + (shorter + value + replaced(back, pattern, value)) =~= front + value
            + replaced(back, pattern, value));
    }
}

/// A template is rendered where every marker occurs when its turn comes and none is left;
/// the first that does not occur is told by its position.
pub proof fn law_markers_are_filled_in_turn(
    source: Seq<char>,
    markers: Seq<(Seq<char>, Seq<char>)>,
    marker: (Seq<char>, Seq<char>),
)
    ensures
        filled(source, Seq::empty()) == Ok::<Seq<char>, int>(source),
        filled(source, markers) is Err ==> filled(source, markers.push(marker)) == filled(
            source,
            markers,
        ),
        filled(source, markers) matches Ok(before) ==> {
            let pattern = "{{"@ + marker.0 + "}}"@;
            &&& occurs(before, pattern) ==> filled(source, markers.push(marker)) == Ok::<
                Seq<char>,
                int,
            >(replaced(before, pattern, marker.1))
            &&& !occurs(before, pattern) ==> filled(source, markers.push(marker)) == Err::<
                Seq<char>,
                int,
            >(markers.len() as int)
            &&& occurs(before, "{{"@) ==> rendered(source, markers) == Err::<
                Seq<char>,
                RenderError,
            >(RenderError::UnknownMarker)
            &&& !occurs(before, "{{"@) ==> rendered(source, markers) == Ok::<
                Seq<char>,
                RenderError,
            >(before)
        },
        filled(source, markers) matches Err(index) ==> rendered(source, markers) == Err::<
            Seq<char>,
            RenderError,
        >(RenderError::UnusedMarker(index as usize)),
{
    assert(markers.push(marker).drop_last() =~= markers);
    assert(markers.push(marker).last() == marker);
}

} // verus!
