//! The open documents under identifiers of four hexadecimal digits.
use vstd::prelude::*;

use crate::documents::NativeDocumentKey;
use crate::identity;
use crate::identity::fresh_id;
use crate::ids::DocId;
use crate::naming;
use crate::naming::{path_display_name, strip_drawing_suffix, DrawingPath};
use crate::native::NativeDocumentSnapshot;
use crate::registry;
use crate::registry::{Entry, EntryView, Registered, Registry};

verus! {

pub type NativeDocKey = NativeDocumentKey;

pub type NativeDocSnapshot = NativeDocumentSnapshot;

/// A document as it is known outside.
#[derive(Clone, Debug, PartialEq, Eq)]
pub struct Doc {
    pub id: DocId,
    pub display_name: String,
    pub file_path: Option<String>,
    pub modified: bool,
    pub read_only: bool,
}

/// What is known of a document outside.
#[verifier::ext_equal]
pub struct DocView {
    pub id: int,
    pub display_name: Seq<char>,
    pub file_path: Option<Seq<char>>,
    pub modified: bool,
    pub read_only: bool,
}

impl View for Doc {
    type V = DocView;

    open spec fn view(&self) -> DocView {
        DocView {
            id: self.id@,
            display_name: self.display_name@,
            file_path: match self.file_path {
                Some(path) => Some(path@),
                None => None,
            },
            modified: self.modified,
            read_only: self.read_only,
        }
    }
}

/// A document that was saved is known by its path and shown by the last part of it; any
/// other is known by its name alone.
pub open spec fn describes(document: DocView, native: NativeDocumentSnapshot) -> bool {
    &&& document.modified == native.modified
    &&& document.read_only == native.read_only
    &&& if native.named {
        &&& document.file_path == Some(native.name@)
        &&& naming::shows(document.display_name, native.name@)
    } else {
        &&& document.file_path is None
        &&& document.display_name == naming::stripped_name(native.name@, false)
    }
}

/// The document that a report stands for.
fn public_document(id: DocId, native: &NativeDocumentSnapshot) -> (document: Doc)
    ensures
        document@.id == id@,
        describes(document@, *native),
{
    let name = document_name(native.name.as_str().to_owned(), native.named);
    if native.named {
        let display_name = path_display_name(name.as_str()).to_owned();
        Doc {
            id,
            display_name,
            file_path: Some(name),
            modified: native.modified,
            read_only: native.read_only,
        }
    } else {
        Doc {
            id,
            display_name: name,
            file_path: None,
            modified: native.modified,
            read_only: native.read_only,
        }
    }
}

/// The name of a document, without the suffix where it was never saved.
pub fn document_name(name: String, named: bool) -> (stripped: String)
    ensures
        stripped@ == naming::stripped_name(name@, named),
{
    strip_drawing_suffix(name, named)
}

impl Registered for Doc {
    type Id = DocId;

    open spec fn id_of(document: DocView) -> int {
        document.id
    }

    open spec fn path_of(document: DocView) -> Option<Seq<char>> {
        document.file_path
    }

    open spec fn describes(document: DocView, native: NativeDocumentSnapshot) -> bool {
        describes(document, native)
    }

    fn from_native(id: DocId, native: &NativeDocumentSnapshot) -> (document: Doc) {
        public_document(id, native)
    }

    fn id(&self) -> (id: &DocId) {
        &self.id
    }

    fn path(&self) -> (path: Option<&str>) {
        match &self.file_path {
            Some(path) => Some(path.as_str()),
            None => None,
        }
    }

    fn duplicate(&self) -> (copy: Doc) {
        let file_path = match &self.file_path {
            Some(path) => Some(path.as_str().to_owned()),
            None => None,
        };
        Doc {
            id: self.id,
            display_name: self.display_name.as_str().to_owned(),
            file_path,
            modified: self.modified,
            read_only: self.read_only,
        }
    }
}

/// The open documents, in the order of the native side.
pub struct DocRegistry {
    registry: Registry<Doc>,
}

/// An open document and its native identity.
pub struct DocTarget {
    pub native_key: NativeDocKey,
    pub document: Doc,
}

impl View for DocTarget {
    type V = EntryView<DocView>;

    open spec fn view(&self) -> EntryView<DocView> {
        EntryView { native_key: self.native_key, document: self.document@ }
    }
}

impl View for DocRegistry {
    type V = Seq<EntryView<DocView>>;

    closed spec fn view(&self) -> Seq<EntryView<DocView>> {
        self.registry@
    }
}

fn document_target(entry: Entry<Doc>) -> (target: DocTarget)
    ensures
        target@ == entry@,
{
    DocTarget { native_key: entry.native_key, document: entry.document }
}

impl DocRegistry {
    pub open spec fn well_formed(&self) -> bool {
        registry::well_formed::<Doc>(self@)
    }

    pub fn new() -> (registry: DocRegistry)
        ensures
            registry.well_formed(),
            registry@ == Seq::<EntryView<DocView>>::empty(),
    {
        DocRegistry { registry: Registry::new() }
    }

    /// Replaces the list by what a snapshot reports.
    pub fn replace_snapshot(&mut self, native_documents: Vec<NativeDocumentSnapshot>)
        requires
            old(self).well_formed(),
            registry::has_room::<Doc>(old(self)@, native_documents@),
        ensures
            final(self).well_formed(),
            registry::succeeds::<Doc>(old(self)@, native_documents@, final(self)@),
    {
        self.registry.replace(native_documents);
    }

    /// The documents in order.
    pub fn list(&self) -> (listed: Vec<Doc>)
        ensures
            listed@.len() == self@.len(),
            forall|i: int|
                #![trigger listed@[i]]
                0 <= i < listed@.len() ==> listed@[i]@ == self@[i].document,
    {
        self.registry.list()
    }

    /// The document with an identifier.
    pub fn find_by_id(&self, id: DocId) -> (found: Option<DocTarget>)
        ensures
            match found {
                Some(target) => registry::with_id::<Doc>(self@, id@) == Some(target@),
                None => registry::with_id::<Doc>(self@, id@) is None,
            },
    {
        match self.registry.find_by_id(&id) {
            Some(entry) => Some(document_target(entry)),
            None => None,
        }
    }

    /// The document that is stored at a path.
    pub fn find_by_path(&self, path: &DrawingPath) -> (found: Option<DocTarget>)
        ensures
            match found {
                Some(target) => registry::with_path::<Doc>(
                    self@,
                    path.text@,
                    path.ignore_case,
                ) == Some(target@),
                None => registry::with_path::<Doc>(self@, path.text@, path.ignore_case) is None,
            },
    {
        match self.registry.find_by_path(path.as_str(), path.ignore_case) {
            Some(entry) => Some(document_target(entry)),
            None => None,
        }
    }
}

/// An identifier that is not reserved.
pub fn new_document_id(reserved_ids: &Vec<DocId>) -> (id: DocId)
    requires
        reserved_ids@.len() < 65536,
    ensures
        !identity::ids(reserved_ids@).contains(id@),
{
    fresh_id(reserved_ids)
}

/// A document says what was reported of it: whether it has changes and whether it can be
/// written. One that was saved has the path of its file, and is shown by the name at the
/// end of that; one that was not has no path, and is shown by its name without the suffix
/// of drawings.
pub proof fn law_document_says_what_was_reported(
    document: DocView,
    native: NativeDocumentSnapshot,
    directory: Seq<char>,
    name: Seq<char>,
    suffix: Seq<char>,
)
    requires
        describes(document, native),
        directory.len() == 0 || directory.last() == '/',
        naming::proper_name(name),
        naming::ordinary_path(directory + name),
        suffix.len() == 4,
        naming::has_drawing_suffix(suffix),
    ensures
        document.modified == native.modified,
        document.read_only == native.read_only,
        native.named <==> document.file_path is Some,
        native.named ==> document.file_path->0 == native.name@,
        native.named && native.name@ == directory + name ==> document.display_name == name,
        !native.named && native.name@ == name + suffix ==> document.display_name == name,
        !native.named && !naming::has_drawing_suffix(native.name@) ==> document.display_name
            == native.name@,
{
    naming::law_name_stands_behind_its_directory(directory, name);
    naming::law_made_up_name_loses_its_suffix(name, suffix, native.name@);
}

} // verus!
