//! The open documents under identifiers of six letters and digits.
use vstd::prelude::*;

use crate::identity;
use crate::identity::{fresh_id, random_text, PublicId};
use crate::naming;
use crate::naming::{path_display_name, paths_equal, strip_drawing_suffix};
use crate::native::NativeDocumentSnapshot;
use crate::registry;
use crate::registry::{Entry, EntryView, Registered, Registry};
use crate::text::chars_of;

verus! {

/// The length of an identifier.
pub const DOCUMENT_ID_LENGTH: usize = 6;

/// The number of characters that identifiers are made of.
pub const DOCUMENT_ID_BASE: u64 = 31;

/// The characters that identifiers are made of: no two of them look alike.
pub const DOCUMENT_ID_ALPHABET: &'static str = "23456789abcdefghjkmnpqrstuvwxyz";

/// The native identity of a document and of the database it holds.
#[derive(Clone, Copy, Debug, PartialEq, Eq, Hash, Structural)]
pub struct NativeDocumentKey {
    pub document_token: usize,
    pub database_token: usize,
}

/// A document as it is known outside.
#[derive(Clone, Debug, PartialEq, Eq)]
pub struct Document {
    pub id: String,
    pub display_name: String,
    pub file_path: Option<String>,
    pub modified: bool,
    pub read_only: bool,
}

/// Whether a text is an identifier: six characters of the alphabet.
pub open spec fn is_document_id(id: Seq<char>) -> bool {
    &&& id.len() == DOCUMENT_ID_LENGTH
    &&& forall|i: int| 0 <= i < id.len() ==> DOCUMENT_ID_ALPHABET@.contains(#[trigger] id[i])
}

fn in_alphabet(alphabet: &Vec<char>, ch: char) -> (result: bool)
    ensures
        result == alphabet@.contains(ch),
{
    let mut index: usize = 0;
    while index < alphabet.len()
        invariant
            index <= alphabet@.len(),
            forall|i: int| 0 <= i < index ==> alphabet@[i] != ch,
        decreases alphabet@.len() - index,
    {
        if alphabet[index] == ch {
            assert(alphabet@[index as int] == ch);
            return true;
        }
        index = index + 1;
    }
    false
}

/// Whether a text is an identifier.
pub fn valid_document_id(id: &str) -> (result: bool)
    ensures
        result == is_document_id(id@),
{
    let chars = chars_of(id);
    if chars.len() != DOCUMENT_ID_LENGTH {
        return false;
    }
    let alphabet = chars_of(DOCUMENT_ID_ALPHABET);
    let mut index: usize = 0;
    while index < chars.len()
        invariant
            index <= chars@.len(),
            chars@ == id@,
            alphabet@ == DOCUMENT_ID_ALPHABET@,
            forall|i: int| 0 <= i < index ==> alphabet@.contains(#[trigger] chars@[i]),
        decreases chars@.len() - index,
    {
        if !in_alphabet(&alphabet, chars[index]) {
            assert(!DOCUMENT_ID_ALPHABET@.contains(id@[index as int]));
            return false;
        }
        index = index + 1;
    }
    true
}

/// A number written with the alphabet's characters as digits.
pub open spec fn numeral(number: int, width: nat) -> Seq<char>
    decreases width,
{
    if width == 0 {
        Seq::empty()
    } else {
        numeral(number / 31, (width - 1) as nat).push(DOCUMENT_ID_ALPHABET@[number % 31])
    }
}

/// The number of numerals of a width.
pub open spec fn numerals(width: nat) -> nat
    decreases width,
{
    if width == 0 {
        1
    } else {
        31 * numerals((width - 1) as nat)
    }
}

proof fn lemma_alphabet()
    ensures
        DOCUMENT_ID_ALPHABET@.len() == 31,
        forall|i: int| 0 <= i < 31 ==> (#[trigger] DOCUMENT_ID_ALPHABET@[i] as u32) < 0x80,
        forall|i: int, j: int|
            #![trigger DOCUMENT_ID_ALPHABET@[i], DOCUMENT_ID_ALPHABET@[j]]
            0 <= i < j < 31 ==> DOCUMENT_ID_ALPHABET@[i] != DOCUMENT_ID_ALPHABET@[j],
{
    reveal_strlit("23456789abcdefghjkmnpqrstuvwxyz");
    assert(DOCUMENT_ID_ALPHABET@ == "23456789abcdefghjkmnpqrstuvwxyz"@);
    assert forall|i: int| 0 <= i < 31 implies DOCUMENT_ID_ALPHABET@[i] as int == (if i < 8 {
        50 + i
    } else if i < 16 {
        89 + i
    } else if i < 18 {
        90 + i
    } else if i < 20 {
        91 + i
    } else {
        92 + i
    }) by {}
}

proof fn lemma_numeral(number: int, width: nat)
    ensures
        numeral(number, width).len() == width,
        forall|i: int|
            0 <= i < width ==> DOCUMENT_ID_ALPHABET@.contains(#[trigger] numeral(number, width)[i]),
    decreases width,
{
    lemma_alphabet();
    if width > 0 {
        lemma_numeral(number / 31, (width - 1) as nat);
    }
}

proof fn lemma_numerals_differ(left: int, right: int, width: nat)
    requires
        0 <= left < right < numerals(width),
    ensures
        numeral(left, width) != numeral(right, width),
    decreases width,
{
    lemma_alphabet();
    if width > 0 {
        let rest = (width - 1) as nat;
        let first = numeral(left, width);
        let second = numeral(right, width);
        if first == second {
            assert(first.last() == second.last());
            assert(left % 31 == right % 31);
            assert(first.drop_last() =~= numeral(left / 31, rest));
            assert(second.drop_last() =~= numeral(right / 31, rest));
            assert(left / 31 < right / 31);
            lemma_numerals_differ(left / 31, right / 31, rest);
        }
    }
}

impl PublicId for String {
    open spec fn genuine(id: Seq<char>) -> bool {
        is_document_id(id)
    }

    open spec fn count() -> nat {
        887503681
    }

    open spec fn nth(index: int) -> Seq<char> {
        numeral(index, DOCUMENT_ID_LENGTH as nat)
    }

    proof fn nth_is_genuine(index: int) {
        lemma_numeral(index, DOCUMENT_ID_LENGTH as nat);
    }

    proof fn nth_is_distinct(left: int, right: int) {
        reveal_with_fuel(numerals, 7);
        assert(numerals(6) == 887503681);
        lemma_numerals_differ(left, right, DOCUMENT_ID_LENGTH as nat);
    }

    fn same(&self, other: &Self) -> (result: bool) {
        paths_equal(self.as_str(), other.as_str(), false)
    }

    fn duplicate(&self) -> (copy: Self) {
        self.as_str().to_owned()
    }

    fn draw() -> (drawn: Option<Self>)
        ensures
            drawn is Some,
    {
        let alphabet = chars_of(DOCUMENT_ID_ALPHABET);
        proof {
            lemma_alphabet();
        }
        Some(random_text(alphabet.as_slice(), DOCUMENT_ID_LENGTH))
    }

    fn candidate(index: u64) -> (id: Self) {
        let alphabet = chars_of(DOCUMENT_ID_ALPHABET);
        proof {
            lemma_alphabet();
        }
        numeral_text(&alphabet, index, DOCUMENT_ID_LENGTH)
    }
}

fn numeral_text(alphabet: &Vec<char>, number: u64, width: usize) -> (text: String)
    requires
        alphabet@ == DOCUMENT_ID_ALPHABET@,
    ensures
        text@ == numeral(number as int, width as nat),
    decreases width,
{
    proof {
        lemma_alphabet();
    }
    if width == 0 {
        String::new()
    } else {
        let mut text = numeral_text(alphabet, number / DOCUMENT_ID_BASE, width - 1);
        text.push(alphabet[(number % DOCUMENT_ID_BASE) as usize]);
        text
    }
}

/// What is known of a document outside.
#[verifier::ext_equal]
pub struct DocumentView {
    pub id: Seq<char>,
    pub display_name: Seq<char>,
    pub file_path: Option<Seq<char>>,
    pub modified: bool,
    pub read_only: bool,
}

impl View for Document {
    type V = DocumentView;

    open spec fn view(&self) -> DocumentView {
        DocumentView {
            id: self.id@,
            display_name: self.display_name@,
            file_path: match self.file_path {
                Some(path) => Some(path@),
                None => None,
            },
            modified: self.modified,
            read_only: self.read_only,
        }
    }
}

/// A document that was saved is known by its path and shown by the last part of it; any
/// other is known by its name alone.
pub open spec fn describes(document: DocumentView, native: NativeDocumentSnapshot) -> bool {
    &&& document.modified == native.modified
    &&& document.read_only == native.read_only
    &&& if native.named {
        &&& document.file_path == Some(native.name@)
        &&& naming::shows(document.display_name, native.name@)
    } else {
        &&& document.file_path is None
        &&& document.display_name == naming::stripped_name(native.name@, false)
    }
}

/// The document that a report stands for.
fn public_document(id: String, native: &NativeDocumentSnapshot) -> (document: Document)
    ensures
        document@.id == id@,
        describes(document@, *native),
{
    let name = document_name(native.name.as_str().to_owned(), native.named);
    if native.named {
        let display_name = path_display_name(name.as_str()).to_owned();
        Document {
            id,
            display_name,
            file_path: Some(name),
            modified: native.modified,
            read_only: native.read_only,
        }
    } else {
        Document {
            id,
            display_name: name,
            file_path: None,
            modified: native.modified,
            read_only: native.read_only,
        }
    }
}

/// The name of a document, without the suffix where it was never saved.
pub fn document_name(name: String, named: bool) -> (stripped: String)
    ensures
        stripped@ == naming::stripped_name(name@, named),
{
    strip_drawing_suffix(name, named)
}

impl Registered for Document {
    type Id = String;

    open spec fn id_of(document: DocumentView) -> Seq<char> {
        document.id
    }

    open spec fn path_of(document: DocumentView) -> Option<Seq<char>> {
        document.file_path
    }

    open spec fn describes(document: DocumentView, native: NativeDocumentSnapshot) -> bool {
        describes(document, native)
    }

    fn from_native(id: String, native: &NativeDocumentSnapshot) -> (document: Document) {
        public_document(id, native)
    }

    fn id(&self) -> (id: &String) {
        &self.id
    }

    fn path(&self) -> (path: Option<&str>) {
        match &self.file_path {
            Some(path) => Some(path.as_str()),
            None => None,
        }
    }

    fn duplicate(&self) -> (copy: Document) {
        let file_path = match &self.file_path {
            Some(path) => Some(path.as_str().to_owned()),
            None => None,
        };
        Document {
            id: self.id.as_str().to_owned(),
            display_name: self.display_name.as_str().to_owned(),
            file_path,
            modified: self.modified,
            read_only: self.read_only,
        }
    }
}

/// The open documents, in the order of the native side.
pub struct DocumentRegistry {
    registry: Registry<Document>,
}

/// An open document and its native identity.
pub struct DocumentTarget {
    pub native_key: NativeDocumentKey,
    pub document: Document,
}

impl View for DocumentTarget {
    type V = EntryView<DocumentView>;

    open spec fn view(&self) -> EntryView<DocumentView> {
        EntryView { native_key: self.native_key, document: self.document@ }
    }
}

impl View for DocumentRegistry {
    type V = Seq<EntryView<DocumentView>>;

    closed spec fn view(&self) -> Seq<EntryView<DocumentView>> {
        self.registry@
    }
}

fn document_target(entry: Entry<Document>) -> (target: DocumentTarget)
    ensures
        target@ == entry@,
{
    DocumentTarget { native_key: entry.native_key, document: entry.document }
}

impl DocumentRegistry {
    pub open spec fn well_formed(&self) -> bool {
        registry::well_formed::<Document>(self@)
    }

    pub fn new() -> (registry: DocumentRegistry)
        ensures
            registry.well_formed(),
            registry@ == Seq::<EntryView<DocumentView>>::empty(),
    {
        DocumentRegistry { registry: Registry::new() }
    }

    /// Replaces the list by what a snapshot reports.
    pub fn replace(&mut self, native_documents: Vec<NativeDocumentSnapshot>)
        requires
            old(self).well_formed(),
            registry::has_room::<Document>(old(self)@, native_documents@),
        ensures
            final(self).well_formed(),
            registry::succeeds::<Document>(old(self)@, native_documents@, final(self)@),
    {
        self.registry.replace(native_documents);
    }

    /// The documents in order.
    pub fn list(&self) -> (listed: Vec<Document>)
        ensures
            listed@.len() == self@.len(),
            forall|i: int|
                #![trigger listed@[i]]
                0 <= i < listed@.len() ==> listed@[i]@ == self@[i].document,
    {
        self.registry.list()
    }

    /// The document with an identifier.
    pub fn find_by_id(&self, id: &str) -> (found: Option<DocumentTarget>)
        ensures
            match found {
                Some(target) => registry::with_id::<Document>(self@, id@) == Some(target@),
                None => registry::with_id::<Document>(self@, id@) is None,
            },
    {
        let id = id.to_owned();
        match self.registry.find_by_id(&id) {
            Some(entry) => Some(document_target(entry)),
            None => None,
        }
    }

    /// The document that is stored at a path.
    pub fn find_by_path(&self, path: &str, ignore_case: bool) -> (found: Option<DocumentTarget>)
        ensures
            match found {
                Some(target) => registry::with_path::<Document>(
                    self@,
                    path@,
                    ignore_case,
                ) == Some(target@),
                None => registry::with_path::<Document>(self@, path@, ignore_case) is None,
            },
    {
        match self.registry.find_by_path(path, ignore_case) {
            Some(entry) => Some(document_target(entry)),
            None => None,
        }
    }

    /// The native identities in order.
    pub fn native_keys(&self) -> (keys: Vec<NativeDocumentKey>)
        ensures
            keys@ == self@.map_values(|entry: EntryView<DocumentView>| entry.native_key),
    {
        self.registry.native_keys()
    }

    /// The identity of the one open document that fits the tokens that are known,
    /// where a token of zero is not known.
    pub fn resolve_native_key(&self, document_token: usize, database_token: usize) -> (key: Option<
        NativeDocumentKey,
    >)
        ensures
            match key {
                Some(key) => resolves(self@, document_token, database_token, key),
                None => forall|key: NativeDocumentKey|
                    !#[trigger] resolves(self@, document_token, database_token, key),
            },
    {
        if document_token == 0 && database_token == 0 {
            return None;
        }
        let keys = self.native_keys();
        let ghost list = self@;
        assert forall|i: int| 0 <= i < list.len() implies #[trigger] list[i].native_key
            == keys@[i] by {}
        let mut found: Option<usize> = None;
        let mut index: usize = 0;
        while index < keys.len()
            invariant
                index <= keys@.len(),
                keys@.len() == list.len(),
                forall|i: int| 0 <= i < list.len() ==> #[trigger] list[i].native_key == keys@[i],
                document_token != 0 || database_token != 0,
                list == self@,
                match found {
                    Some(place) => {
                        &&& place < index
                        &&& fits(keys@[place as int], document_token, database_token)
                        &&& forall|i: int|
                            0 <= i < index && i != place ==> !fits(
                                #[trigger] keys@[i],
                                document_token,
                                database_token,
                            )
                    },
                    None => forall|i: int|
                        0 <= i < index ==> !fits(
                            #[trigger] keys@[i],
                            document_token,
                            database_token,
                        ),
                },
            decreases keys@.len() - index,
        {
            let key = keys[index];
            if (document_token == 0 || key.document_token == document_token) && (database_token == 0
                || key.database_token == database_token) {
                if let Some(place) = found {
                    proof {
                        assert forall|other: NativeDocumentKey| !#[trigger] resolves(
                            list,
                            document_token,
                            database_token,
                            other,
                        ) by {
                            if resolves(list, document_token, database_token, other) {
                                let at = choose|at: int| #[trigger]
                                    resolves_at(list, document_token, database_token, other, at);
                                assert(fits(
                                    list[place as int].native_key,
                                    document_token,
                                    database_token,
                                ));
                                assert(fits(
                                    list[index as int].native_key,
                                    document_token,
                                    database_token,
                                ));
                            }
                        }
                    }
                    return None;
                }
                found = Some(index);
            }
            index = index + 1;
        }
        match found {
            Some(place) => {
                assert(resolves_at(
                    list,
                    document_token,
                    database_token,
                    keys@[place as int],
                    place as int,
                ));
                Some(keys[place])
            },
            None => {
                proof {
                    assert forall|other: NativeDocumentKey| !#[trigger] resolves(
                        list,
                        document_token,
                        database_token,
                        other,
                    ) by {
                        if resolves(list, document_token, database_token, other) {
                            let at = choose|at: int| #[trigger]
                                resolves_at(list, document_token, database_token, other, at);
                            assert(list[at].native_key == keys@[at]);
                        }
                    }
                }
                None
            },
        }
    }
}

/// A native identity agrees with the tokens that are known.
pub open spec fn fits(key: NativeDocumentKey, document_token: usize, database_token: usize) -> bool {
    &&& document_token == 0 || key.document_token == document_token
    &&& database_token == 0 || key.database_token == database_token
}

/// The document at a position is the only one that fits.
pub open spec fn resolves_at(
    list: Seq<EntryView<DocumentView>>,
    document_token: usize,
    database_token: usize,
    key: NativeDocumentKey,
    at: int,
) -> bool {
    &&& document_token != 0 || database_token != 0
    &&& 0 <= at < list.len()
    &&& list[at].native_key == key
    &&& fits(key, document_token, database_token)
    &&& forall|i: int|
        0 <= i < list.len() && i != at ==> !fits(
            (#[trigger] list[i]).native_key,
            document_token,
            database_token,
        )
}

/// The key belongs to the only document that fits.
pub open spec fn resolves(
    list: Seq<EntryView<DocumentView>>,
    document_token: usize,
    database_token: usize,
    key: NativeDocumentKey,
) -> bool {
    exists|at: int| #[trigger] resolves_at(list, document_token, database_token, key, at)
}

/// An identifier that is not reserved.
pub fn new_document_id(reserved_ids: &Vec<String>) -> (id: String)
    requires
        reserved_ids@.len() < 887503681,
    ensures
        is_document_id(id@),
        !identity::ids(reserved_ids@).contains(id@),
{
    fresh_id(reserved_ids)
}

/// A document says what was reported of it: whether it has changes and whether it can be
/// written. One that was saved has the path of its file, and is shown by the name at the
/// end of that; one that was not has no path, and is shown by its name without the suffix
/// of drawings.
pub proof fn law_document_says_what_was_reported(
    document: DocumentView,
    native: NativeDocumentSnapshot,
    directory: Seq<char>,
    name: Seq<char>,
    suffix: Seq<char>,
)
    requires
        describes(document, native),
        directory.len() == 0 || directory.last() == '/',
        naming::proper_name(name),
        naming::ordinary_path(directory + name),
        suffix.len() == 4,
        naming::has_drawing_suffix(suffix),
    ensures
        document.modified == native.modified,
        document.read_only == native.read_only,
        native.named <==> document.file_path is Some,
        native.named ==> document.file_path->0 == native.name@,
        native.named && native.name@ == directory + name ==> document.display_name == name,
        !native.named && native.name@ == name + suffix ==> document.display_name == name,
        !native.named && !naming::has_drawing_suffix(native.name@) ==> document.display_name
            == native.name@,
{
    naming::law_name_stands_behind_its_directory(directory, name);
    naming::law_made_up_name_loses_its_suffix(name, suffix, native.name@);
}

/// Tokens lead to a document only where exactly one has them: those that are not zero are
/// its own, no other document has them all, and at least one of them is given.
pub proof fn law_tokens_lead_to_one_document(
    list: Seq<EntryView<DocumentView>>,
    document_token: usize,
    database_token: usize,
    key: NativeDocumentKey,
    place: int,
)
    requires
        resolves(list, document_token, database_token, key),
        0 <= place < list.len(),
        document_token == 0 || list[place].native_key.document_token == document_token,
        database_token == 0 || list[place].native_key.database_token == database_token,
    ensures
        list[place].native_key == key,
        document_token != 0 || database_token != 0,
        document_token != 0 ==> key.document_token == document_token,
        database_token != 0 ==> key.database_token == database_token,
{
    let at = choose|at: int| #[trigger]
        resolves_at(list, document_token, database_token, key, at);
    if at != place {
        assert(!fits(list[place].native_key, document_token, database_token));
    }
}

/// Identifiers are six characters that are not mistaken for each other: no zero and no
/// one, no capital, and neither an i, an l nor an o.
pub proof fn law_identifiers_are_legible(id: Seq<char>)
    ensures
        is_document_id(id) <==> id.len() == 6 && forall|i: int|
            0 <= i < id.len() ==> ('2' <= #[trigger] id[i] <= '9' || 'a' <= id[i] <= 'z') && id[i]
                != 'i' && id[i] != 'l' && id[i] != 'o',
{
    assert forall|i: int| 0 <= i < id.len() implies (DOCUMENT_ID_ALPHABET@.contains(
        #[trigger] id[i],
    ) <==> ('2' <= id[i] <= '9' || 'a' <= id[i] <= 'z') && id[i] != 'i' && id[i] != 'l' && id[i]
        != 'o') by {
        lemma_legible(id[i]);
    }
}

proof fn lemma_legible(ch: char)
    ensures
        DOCUMENT_ID_ALPHABET@.contains(ch) <==> ('2' <= ch <= '9' || 'a' <= ch <= 'z') && ch != 'i'
            && ch != 'l' && ch != 'o',
{
    reveal_strlit("23456789abcdefghjkmnpqrstuvwxyz");
    let alphabet = "23456789abcdefghjkmnpqrstuvwxyz"@;
    assert(DOCUMENT_ID_ALPHABET@ == alphabet);
    if alphabet.contains(ch) {
        let i = choose|i: int| 0 <= i < alphabet.len() && alphabet[i] == ch;
        assert(0 <= i < 31);
    }
    if '2' <= ch <= '9' {
        assert(alphabet[ch as int - 50] == ch);
    } else if 'a' <= ch <= 'h' {
        assert(alphabet[ch as int - 89] == ch);
    } else if 'j' <= ch <= 'k' {
        assert(alphabet[ch as int - 90] == ch);
    } else if 'm' <= ch <= 'n' {
        assert(alphabet[ch as int - 91] == ch);
    } else if 'p' <= ch <= 'z' {
        assert(alphabet[ch as int - 92] == ch);
    }
}

} // verus!
