//! The open drawings under identifiers of four hexadecimal digits.
use vstd::prelude::*;

pub use crate::documents::NativeDocumentKey;
use crate::identity;
use crate::identity::fresh_id;
use crate::ids::DrawingId;
use crate::naming;
use crate::naming::{path_display_name, strip_drawing_suffix, DrawingPath};
use crate::native::NativeDocumentSnapshot;
use crate::registry;
use crate::registry::{Entry, EntryView, Registered, Registry};

verus! {

/// A drawing as it is known outside. `active` marks the one that the user works on.
#[derive(Clone, Debug, PartialEq, Eq)]
pub struct Drawing {
    pub id: DrawingId,
    pub name: DrawingName,
    pub modified: bool,
    pub read_only: bool,
    pub active: bool,
}

/// The path of a drawing that was saved, or the name of one that was not.
#[derive(Clone, Debug, PartialEq, Eq)]
pub enum DrawingName {
    Named(String),
    Unnamed(String),
}

pub enum DrawingNameView {
    Named(Seq<char>),
    Unnamed(Seq<char>),
}

pub struct DrawingView {
    pub id: int,
    pub name: DrawingNameView,
    pub modified: bool,
    pub read_only: bool,
    pub active: bool,
}

impl View for DrawingName {
    type V = DrawingNameView;

    open spec fn view(&self) -> DrawingNameView {
        match self {
            DrawingName::Named(path) => DrawingNameView::Named(path@),
            DrawingName::Unnamed(name) => DrawingNameView::Unnamed(name@),
        }
    }
}

impl View for Drawing {
    type V = DrawingView;

    open spec fn view(&self) -> DrawingView {
        DrawingView {
            id: self.id@,
            name: self.name@,
            modified: self.modified,
            read_only: self.read_only,
            active: self.active,
        }
    }
}

impl DrawingName {
    /// What the native name stands for: a path, or a made-up name without its suffix.
    pub fn from_native(name: String, named: bool) -> (result: DrawingName)
        ensures
            result@ == native_name(name@, named),
    {
        let name = strip_drawing_suffix(name, named);
        if named {
            DrawingName::Named(name)
        } else {
            DrawingName::Unnamed(name)
        }
    }

    fn duplicate(&self) -> (copy: DrawingName)
        ensures
            copy@ == self@,
    {
        match self {
            DrawingName::Named(path) => DrawingName::Named(path.as_str().to_owned()),
            DrawingName::Unnamed(name) => DrawingName::Unnamed(name.as_str().to_owned()),
        }
    }
}

pub open spec fn native_name(name: Seq<char>, named: bool) -> DrawingNameView {
    if named {
        DrawingNameView::Named(name)
    } else {
        DrawingNameView::Unnamed(naming::stripped_name(name, false))
    }
}

impl Drawing {
    /// What is shown for the drawing: the last part of its path, or its name.
    pub fn display_name(&self) -> (shown: &str)
        ensures
            match self@.name {
                DrawingNameView::Named(path) => naming::shows(shown@, path),
                DrawingNameView::Unnamed(name) => shown@ == name,
            },
    {
        match &self.name {
            DrawingName::Named(path) => path_display_name(path.as_str()),
            DrawingName::Unnamed(name) => name.as_str(),
        }
    }

    /// The path of a drawing that was saved.
    pub fn file_path(&self) -> (path: Option<&str>)
        ensures
            match path {
                Some(path) => self@.name == DrawingNameView::Named(path@),
                None => self@.name is Unnamed,
            },
    {
        match &self.name {
            DrawingName::Named(path) => Some(path.as_str()),
            DrawingName::Unnamed(_) => None,
        }
    }
}

impl Registered for Drawing {
    type Id = DrawingId;

    open spec fn id_of(document: DrawingView) -> int {
        document.id
    }

    open spec fn path_of(document: DrawingView) -> Option<Seq<char>> {
        match document.name {
            DrawingNameView::Named(path) => Some(path),
            DrawingNameView::Unnamed(_) => None,
        }
    }

    open spec fn describes(document: DrawingView, native: NativeDocumentSnapshot) -> bool {
        &&& document.name == native_name(native.name@, native.named)
        &&& document.modified == native.modified
        &&& document.read_only == native.read_only
        &&& document.active == native.active
    }

    fn from_native(id: DrawingId, native: &NativeDocumentSnapshot) -> (document: Drawing) {
        Drawing {
            id,
            name: DrawingName::from_native(native.name.as_str().to_owned(), native.named),
            modified: native.modified,
            read_only: native.read_only,
            active: native.active,
        }
    }

    fn id(&self) -> (id: &DrawingId) {
        &self.id
    }

    fn path(&self) -> (path: Option<&str>) {
        self.file_path()
    }

    fn duplicate(&self) -> (copy: Drawing) {
        Drawing {
            id: self.id,
            name: self.name.duplicate(),
            modified: self.modified,
            read_only: self.read_only,
            active: self.active,
        }
    }
}

/// The open drawings, in the order of the native side.
pub struct DrawingRegistry {
    registry: Registry<Drawing>,
}

/// An open drawing and its native identity.
pub struct DrawingTarget {
    pub native_key: NativeDocumentKey,
    pub drawing: Drawing,
}

impl View for DrawingTarget {
    type V = EntryView<DrawingView>;

    open spec fn view(&self) -> EntryView<DrawingView> {
        EntryView { native_key: self.native_key, document: self.drawing@ }
    }
}

impl View for DrawingRegistry {
    type V = Seq<EntryView<DrawingView>>;

    closed spec fn view(&self) -> Seq<EntryView<DrawingView>> {
        self.registry@
    }
}

fn drawing_target(entry: Entry<Drawing>) -> (target: DrawingTarget)
    ensures
        target@ == entry@,
{
    DrawingTarget { native_key: entry.native_key, drawing: entry.document }
}

impl DrawingRegistry {
    pub open spec fn well_formed(&self) -> bool {
        registry::well_formed::<Drawing>(self@)
    }

    pub fn new() -> (registry: DrawingRegistry)
        ensures
            registry.well_formed(),
            registry@ == Seq::<EntryView<DrawingView>>::empty(),
    {
        DrawingRegistry { registry: Registry::new() }
    }

    /// Replaces the list by what a snapshot reports.
    pub fn replace_snapshot(&mut self, native_documents: Vec<NativeDocumentSnapshot>)
        requires
            old(self).well_formed(),
            registry::has_room::<Drawing>(old(self)@, native_documents@),
        ensures
            final(self).well_formed(),
            registry::succeeds::<Drawing>(old(self)@, native_documents@, final(self)@),
    {
        self.registry.replace(native_documents);
    }

    /// The drawings in order.
    pub fn list(&self) -> (listed: Vec<Drawing>)
        ensures
            listed@.len() == self@.len(),
            forall|i: int|
                #![trigger listed@[i]]
                0 <= i < listed@.len() ==> listed@[i]@ == self@[i].document,
    {
        self.registry.list()
    }

    /// The drawing with an identifier.
    pub fn find_by_id(&self, id: DrawingId) -> (found: Option<DrawingTarget>)
        ensures
            match found {
                Some(target) => registry::with_id::<Drawing>(self@, id@) == Some(target@),
                None => registry::with_id::<Drawing>(self@, id@) is None,
            },
    {
        match self.registry.find_by_id(&id) {
            Some(entry) => Some(drawing_target(entry)),
            None => None,
        }
    }

    /// The drawing that is stored at a path.
    pub fn find_by_path(&self, path: &DrawingPath) -> (found: Option<DrawingTarget>)
        ensures
            match found {
                Some(target) => registry::with_path::<Drawing>(
                    self@,
                    path.text@,
                    path.ignore_case,
                ) == Some(target@),
                None => registry::with_path::<Drawing>(self@, path.text@, path.ignore_case) is None,
            },
    {
        match self.registry.find_by_path(path.as_str(), path.ignore_case) {
            Some(entry) => Some(drawing_target(entry)),
            None => None,
        }
    }
}

/// An identifier that is not reserved.
pub fn new_drawing_id(reserved_ids: &Vec<DrawingId>) -> (id: DrawingId)
    requires
        reserved_ids@.len() < 65535,
    ensures
        0 < id@ < 65536,
        !identity::ids(reserved_ids@).contains(id@),
{
    fresh_id(reserved_ids)
}

/// A drawing says what was reported of it: whether it has changes, whether it can be
/// written, and whether it is the one that the user works on. One that was saved has the
/// path of its file; one that was not has its name without the suffix of drawings.
pub proof fn law_drawing_says_what_was_reported(
    drawing: DrawingView,
    native: NativeDocumentSnapshot,
    stem: Seq<char>,
    suffix: Seq<char>,
)
    requires
        Drawing::describes(drawing, native),
        suffix.len() == 4,
        naming::has_drawing_suffix(suffix),
    ensures
        drawing.modified == native.modified,
        drawing.read_only == native.read_only,
        drawing.active == native.active,
        native.named <==> Drawing::path_of(drawing) is Some,
        native.named ==> Drawing::path_of(drawing)->0 == native.name@,
        !native.named && native.name@ == stem + suffix ==> drawing.name
            == DrawingNameView::Unnamed(stem),
        !native.named && !naming::has_drawing_suffix(native.name@) ==> drawing.name
            == DrawingNameView::Unnamed(native.name@),
{
    naming::law_made_up_name_loses_its_suffix(stem, suffix, native.name@);
}

} // verus!
