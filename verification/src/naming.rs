//! Names and paths of documents.
use camino::Utf8Path;
use vstd::prelude::*;

use crate::text;
use crate::text::{chars_of, push_chars, to_ascii_upper};

verus! {

/// The name ends in the suffix of drawings, in capitals or not.
pub open spec fn has_drawing_suffix(name: Seq<char>) -> bool {
    &&& name.len() >= 4
    &&& text::ascii_upper_text(name.skip(name.len() - 4)) == ".DWG"@
}

/// The name of a document: one that was never saved loses the suffix that stands
/// behind its made-up name.
pub open spec fn stripped_name(name: Seq<char>, named: bool) -> Seq<char> {
    if !named && has_drawing_suffix(name) {
        name.take(name.len() - 4)
    } else {
        name
    }
}

fn ends_in_drawing_suffix(chars: &Vec<char>) -> (result: bool)
    ensures
        result == has_drawing_suffix(chars@),
{
    let length: usize = chars.len();
    if length < 4 {
        return false;
    }
    let ghost tail = text::ascii_upper_text(chars@.skip(length - 4));
    proof {
        reveal_strlit(".DWG");
        assert(tail.len() == 4);
        assert(tail[0] == text::ascii_upper(chars@[length - 4]));
        assert(tail[1] == text::ascii_upper(chars@[length - 3]));
        assert(tail[2] == text::ascii_upper(chars@[length - 2]));
        assert(tail[3] == text::ascii_upper(chars@[length - 1]));
    }
    if to_ascii_upper(chars[length - 4]) != '.' || to_ascii_upper(chars[length - 3]) != 'D'
        || to_ascii_upper(chars[length - 2]) != 'W' || to_ascii_upper(chars[length - 1]) != 'G' {
        return false;
    }
    assert(tail =~= ".DWG"@);
    true
}

/// The name of a document, without the suffix where it is not a path.
pub fn strip_drawing_suffix(name: String, named: bool) -> (stripped: String)
    ensures
        stripped@ == stripped_name(name@, named),
{
    if named {
        return name;
    }
    let chars = chars_of(name.as_str());
    if !ends_in_drawing_suffix(&chars) {
        return name;
    }
    let length: usize = chars.len();
    let mut stripped = String::new();
    push_chars(&mut stripped, &chars, 0, length - 4);
    assert(stripped@ =~= name@.take(length - 4));
    stripped
}

/// What stands behind the last slash.
pub open spec fn behind_last_slash(path: Seq<char>) -> Seq<char>
    decreases path.len(),
{
    if path.len() == 0 || path.last() == '/' {
        Seq::empty()
    } else {
        behind_last_slash(path.drop_last()).push(path.last())
    }
}

/// A path without what does not count at its end: slashes, and a dot of its own behind a
/// slash.
pub open spec fn trimmed(path: Seq<char>) -> Seq<char>
    decreases path.len(),
{
    if path.len() > 0 && path.last() == '/' {
        trimmed(path.drop_last())
    } else if path.len() > 1 && path.last() == '.' && path[path.len() - 2] == '/' {
        trimmed(path.drop_last())
    } else {
        path
    }
}

/// The final component of a path, whatever that is.
pub open spec fn last_part(path: Seq<char>) -> Seq<char> {
    behind_last_slash(trimmed(path))
}

/// The name at the end of a path: none where the path leads to a directory by way of dots
/// or has no component.
pub open spec fn final_name(path: Seq<char>) -> Option<Seq<char>> {
    let name = last_part(path);
    if name.len() == 0 || name == "."@ || name == ".."@ {
        None
    } else {
        Some(name)
    }
}

/// The final component of a path is part of it.
pub proof fn lemma_last_part(path: Seq<char>)
    ensures
        part_of(last_part(path), path),
{
    lemma_trimmed(path);
    lemma_last_part_ends(trimmed(path));
    let shorter = trimmed(path);
    let name = last_part(path);
    let start = shorter.len() - name.len();
    assert(path.subrange(start, start + name.len()) =~= name);
}

proof fn lemma_trimmed(path: Seq<char>)
    ensures
        trimmed(path).len() <= path.len(),
        trimmed(path) == path.take(trimmed(path).len() as int),
    decreases path.len(),
{
    if trimmed(path) == path {
        assert(path.take(path.len() as int) =~= path);
    } else {
        let front = path.drop_last();
        lemma_trimmed(front);
        assert(front.take(trimmed(front).len() as int) =~= path.take(
            trimmed(front).len() as int,
        ));
    }
}

proof fn lemma_last_part_ends(path: Seq<char>)
    ensures
        behind_last_slash(path).len() <= path.len(),
        behind_last_slash(path) == path.skip(path.len() - behind_last_slash(path).len()),
    decreases path.len(),
{
    if path.len() == 0 || path.last() == '/' {
        assert(path.skip(path.len() as int) =~= Seq::<char>::empty());
    } else {
        let front = path.drop_last();
        lemma_last_part_ends(front);
        let name = behind_last_slash(path);
        assert(name =~= path.skip(path.len() - name.len()));
    }
}

/// A name that holds nothing that separates components on some systems only.
pub open spec fn plain_component(name: Seq<char>) -> bool {
    forall|i: int| 0 <= i < name.len() ==> #[trigger] name[i] != '\\' && name[i] != ':'
}

/// Two separators at the start can give a path another meaning.
pub open spec fn starts_doubled(path: Seq<char>) -> bool {
    &&& path.len() >= 2
    &&& path[0] == '/' || path[0] == '\\'
    &&& path[1] == '/' || path[1] == '\\'
}

/// A path that ends in the same component on every system.
pub open spec fn ordinary_path(path: Seq<char>) -> bool {
    plain_component(last_part(path)) && !starts_doubled(path)
}

/// A text that occurs in another.
pub open spec fn part_of(part: Seq<char>, whole: Seq<char>) -> bool {
    exists|start: int|
        0 <= start <= whole.len() - part.len() && #[trigger] whole.subrange(
            start,
            start + part.len(),
        ) == part
}

/// `camino::Utf8Path::file_name`: the final component of a path, if that is a name.
/// Slashes at the end of the path, and dots of their own behind one, do not count. What
/// else counts as a separator depends on the system. Said is only what holds on every
/// one: a name is part of the path, and the name of an ordinary path is what stands
/// behind the last slash that counts, if that is a name.
#[verifier::external_body]
pub(crate) fn file_name(path: &str) -> (name: Option<&str>)
    ensures
        name matches Some(name) ==> name@.len() > 0 && part_of(name@, path@),
        ordinary_path(path@) ==> match name {
            Some(name) => final_name(path@) == Some(name@),
            None => final_name(path@) is None,
        },
{
    Utf8Path::new(path).file_name()
}

/// What is shown for a path, given its final component.
pub fn shown_name<'a>(path: &'a str, file_name: Option<&'a str>) -> (shown: &'a str)
    ensures
        shown@ == match file_name {
            Some(name) => name@,
            None => path@,
        },
{
    match file_name {
        Some(name) => name,
        None => path,
    }
}

/// What is shown for a path: its final component, or all of it.
pub open spec fn shows(shown: Seq<char>, path: Seq<char>) -> bool {
    &&& ordinary_path(path) ==> shown == match final_name(path) {
        Some(name) => name,
        None => path,
    }
    &&& shown == path || part_of(shown, path)
}

/// What is shown for a path.
pub fn path_display_name(path: &str) -> (shown: &str)
    ensures
        shows(shown@, path@),
{
    shown_name(path, file_name(path))
}

/// The name of a drawing file: something stands before the suffix.
pub open spec fn drawing_file_name(name: Seq<char>) -> bool {
    name.len() > 4 && has_drawing_suffix(name)
}

/// The path ends in the name of a drawing file.
pub open spec fn names_drawing(path: Seq<char>) -> bool {
    final_name(path) matches Some(name) && drawing_file_name(name)
}

/// What can be found out about whether a path names a drawing file: all there is to
/// know for an ordinary path, else no more than that a part of the path would have to.
pub open spec fn may_be_dwg(path: Seq<char>, dwg: bool) -> bool {
    &&& ordinary_path(path) ==> dwg == names_drawing(path)
    &&& dwg ==> exists|name: Seq<char>| #[trigger]
        part_of(name, path) && drawing_file_name(name)
}

/// Whether a file name is that of a drawing.
pub fn is_dwg_name(name: &str) -> (result: bool)
    ensures
        result == drawing_file_name(name@),
{
    let chars = chars_of(name);
    chars.len() > 4 && ends_in_drawing_suffix(&chars)
}

/// Whether a path names a drawing file.
pub fn is_dwg(path: &str) -> (result: bool)
    ensures
        may_be_dwg(path@, result),
{
    match file_name(path) {
        Some(name) => is_dwg_name(name),
        None => false,
    }
}

/// Two paths are the same: letter for letter, or but for capitals where the file
/// system does not tell them apart.
pub open spec fn same_path(left: Seq<char>, right: Seq<char>, ignore_case: bool) -> bool {
    if ignore_case {
        text::ascii_upper_text(left) == text::ascii_upper_text(right)
    } else {
        left == right
    }
}

pub fn paths_equal(left: &str, right: &str, ignore_case: bool) -> (result: bool)
    ensures
        result == same_path(left@, right@, ignore_case),
{
    let first = chars_of(left);
    let second = chars_of(right);
    if first.len() != second.len() {
        proof {
            assert(text::ascii_upper_text(left@).len() == left@.len());
            assert(text::ascii_upper_text(right@).len() == right@.len());
        }
        return false;
    }
    let mut index: usize = 0;
    while index < first.len()
        invariant
            index <= first@.len(),
            first@.len() == second@.len(),
            first@ == left@,
            second@ == right@,
            forall|i: int|
                0 <= i < index ==> if ignore_case {
                    text::ascii_upper(#[trigger] first@[i]) == text::ascii_upper(second@[i])
                } else {
                    first@[i] == second@[i]
                },
        decreases first@.len() - index,
    {
        let same = if ignore_case {
            to_ascii_upper(first[index]) == to_ascii_upper(second[index])
        } else {
            first[index] == second[index]
        };
        if !same {
            proof {
                assert(text::ascii_upper_text(left@)[index as int] == text::ascii_upper(
                    left@[index as int],
                ));
                assert(text::ascii_upper_text(right@)[index as int] == text::ascii_upper(
                    right@[index as int],
                ));
            }
            return false;
        }
        index = index + 1;
    }
    proof {
        if ignore_case {
            assert(text::ascii_upper_text(left@) =~= text::ascii_upper_text(right@));
        } else {
            assert(left@ =~= right@);
        }
    }
    true
}

/// The path of a drawing file, as the file system gives it, and whether the file
/// system ignores capitals.
#[derive(Clone, Debug, PartialEq, Eq)]
pub struct DrawingPath {
    pub text: String,
    pub ignore_case: bool,
}

impl DrawingPath {
    pub fn new(text: String, ignore_case: bool) -> (path: DrawingPath)
        ensures
            path.text@ == text@,
            path.ignore_case == ignore_case,
    {
        DrawingPath { text, ignore_case }
    }

    pub fn as_str(&self) -> (text: &str)
        ensures
            text@ == self.text@,
    {
        self.text.as_str()
    }

    /// Whether a path leads to the same file.
    pub fn matches(&self, path: &str) -> (result: bool)
        ensures
            result == same_path(path@, self.text@, self.ignore_case),
    {
        paths_equal(path, self.text.as_str(), self.ignore_case)
    }
}

/// A name ends in the suffix of drawings where its last four characters are a dot and the
/// letters D, W and G, small or capital.
pub proof fn law_drawing_suffix(name: Seq<char>)
    ensures
        has_drawing_suffix(name) <==> {
            let count = name.len() as int;
            &&& count >= 4
            &&& name[count - 4] == '.'
            &&& name[count - 3] == 'd' || name[count - 3] == 'D'
            &&& name[count - 2] == 'w' || name[count - 2] == 'W'
            &&& name[count - 1] == 'g' || name[count - 1] == 'G'
        },
{
    reveal_strlit(".DWG");
    if name.len() >= 4 {
        let tail = name.skip(name.len() - 4);
        let upper = text::ascii_upper_text(tail);
        assert(upper.len() == 4);
        assert(upper[0] == text::ascii_upper(name[name.len() - 4]));
        assert(upper[1] == text::ascii_upper(name[name.len() - 3]));
        assert(upper[2] == text::ascii_upper(name[name.len() - 2]));
        assert(upper[3] == text::ascii_upper(name[name.len() - 1]));
        if upper[0] == '.' && upper[1] == 'D' && upper[2] == 'W' && upper[3] == 'G' {
            assert(upper =~= ".DWG"@);
        }
    }
}

/// The name of a document that was saved stays. A made-up name loses the suffix of
/// drawings, once, and nothing else.
pub proof fn law_made_up_name_loses_its_suffix(stem: Seq<char>, suffix: Seq<char>, name: Seq<char>)
    requires
        suffix.len() == 4,
        has_drawing_suffix(suffix),
    ensures
        stripped_name(name, true) == name,
        stripped_name(stem + suffix, false) == stem,
        !has_drawing_suffix(name) ==> stripped_name(name, false) == name,
{
    let whole = stem + suffix;
    assert(whole.skip(whole.len() - 4) =~= suffix);
    assert(suffix.skip(0) =~= suffix);
    assert(whole.take(whole.len() - 4) =~= stem);
}

/// A component of a path that is a name: it is not empty, holds no slash, and is neither
/// the directory itself nor the one above it.
pub open spec fn proper_name(name: Seq<char>) -> bool {
    &&& name.len() > 0
    &&& forall|i: int| 0 <= i < name.len() ==> #[trigger] name[i] != '/'
    &&& !(name.len() == 1 && name[0] == '.')
    &&& !(name.len() == 2 && name[0] == '.' && name[1] == '.')
}

proof fn lemma_behind(directory: Seq<char>, name: Seq<char>)
    requires
        directory.len() == 0 || directory.last() == '/',
        forall|i: int| 0 <= i < name.len() ==> #[trigger] name[i] != '/',
    ensures
        behind_last_slash(directory + name) == name,
    decreases name.len(),
{
    let whole = directory + name;
    if name.len() == 0 {
        assert(whole =~= directory);
    } else {
        assert(whole.last() == name[name.len() - 1]);
        assert(whole.drop_last() =~= directory + name.drop_last());
        assert forall|i: int| 0 <= i < name.drop_last().len() implies #[trigger] name.drop_last()[i]
            != '/' by {
            assert(name.drop_last()[i] == name[i]);
        }
        lemma_behind(directory, name.drop_last());
        assert(name.drop_last().push(name.last()) =~= name);
    }
}

/// The name at the end of a path is what stands behind the directory that it is in, with
/// or without slashes behind it; and the path names a drawing file exactly where that name
/// has the suffix of drawings with something before it.
pub proof fn law_name_stands_behind_its_directory(directory: Seq<char>, name: Seq<char>)
    requires
        directory.len() == 0 || directory.last() == '/',
        proper_name(name),
    ensures
        final_name(directory + name) == Some(name),
        final_name((directory + name).push('/')) == Some(name),
        names_drawing(directory + name) <==> name.len() > 4 && has_drawing_suffix(name),
{
    reveal_strlit(".");
    reveal_strlit("..");
    let whole = directory + name;
    let last = name[name.len() - 1];
    assert(whole.last() == last);
    if last == '.' {
        if name.len() == 1 {
            assert(false);
        }
        assert(whole[whole.len() - 2] == name[name.len() - 2]);
    }
    assert(trimmed(whole) == whole);
    lemma_behind(directory, name);
    assert(name != "."@ && name != ".."@);
    let longer = whole.push('/');
    assert(longer.drop_last() =~= whole);
    assert(trimmed(longer) == whole);
}

/// A path that begins with no two separators, and ends in a name that holds none of any
/// system, is shown by that name; and it is the path of a drawing file exactly where that
/// name ends in the suffix of drawings, in small letters or capitals, with something before
/// it.
pub proof fn law_path_is_shown_by_its_name(
    directory: Seq<char>,
    name: Seq<char>,
    shown: Seq<char>,
    dwg: bool,
)
    requires
        directory.len() == 0 || directory.last() == '/',
        directory.len() >= 2 ==> !((directory[0] == '/' || directory[0] == '\\') && (directory[1]
            == '/' || directory[1] == '\\')),
        proper_name(name),
        forall|i: int| 0 <= i < name.len() ==> #[trigger] name[i] != '\\' && name[i] != ':',
    ensures
        shows(shown, directory + name) ==> shown == name,
        may_be_dwg(directory + name, dwg) ==> (dwg <==> {
            let count = name.len() as int;
            &&& count > 4
            &&& name[count - 4] == '.'
            &&& name[count - 3] == 'd' || name[count - 3] == 'D'
            &&& name[count - 2] == 'w' || name[count - 2] == 'W'
            &&& name[count - 1] == 'g' || name[count - 1] == 'G'
        }),
{
    let path = directory + name;
    law_name_stands_behind_its_directory(directory, name);
    law_drawing_suffix(name);
    assert(last_part(path) == name);
    if directory.len() == 1 {
        assert(path[1] == name[0]);
    } else if directory.len() == 0 {
        assert(path[0] == name[0]);
    } else {
        assert(path[0] == directory[0] && path[1] == directory[1]);
    }
    assert(ordinary_path(path));
}

} // verus!
