//! What the lists of open documents have in common: a snapshot replaces the list,
//! and documents that stay open keep their identifiers.
use vstd::prelude::*;

use crate::documents::NativeDocumentKey;
use crate::identity;
use crate::identity::{assign_ids, Assigned, Known, PublicId};
use crate::naming;
use crate::naming::paths_equal;
use crate::native::NativeDocumentSnapshot;

verus! {

/// A document as it is known outside, made from what the native side reports.
pub trait Registered: View + Sized {
    type Id: PublicId;

    spec fn id_of(document: Self::V) -> <Self::Id as View>::V;

    spec fn path_of(document: Self::V) -> Option<Seq<char>>;

    /// All of the document but its identifier follows from the report.
    spec fn describes(document: Self::V, native: NativeDocumentSnapshot) -> bool;

    fn from_native(id: Self::Id, native: &NativeDocumentSnapshot) -> (document: Self)
        ensures
            Self::id_of(document@) == id@,
            Self::describes(document@, *native),
    ;

    fn id(&self) -> (id: &Self::Id)
        ensures
            id@ == Self::id_of(self@),
    ;

    fn path(&self) -> (path: Option<&str>)
        ensures
            match path {
                Some(path) => Self::path_of(self@) == Some(path@),
                None => Self::path_of(self@) is None,
            },
    ;

    fn duplicate(&self) -> (copy: Self)
        ensures
            copy@ == self@,
    ;
}

/// A document and its native identity.
pub struct Entry<D> {
    pub native_key: NativeDocumentKey,
    pub document: D,
}

pub struct EntryView<V> {
    pub native_key: NativeDocumentKey,
    pub document: V,
}

impl<D: View> View for Entry<D> {
    type V = EntryView<D::V>;

    open spec fn view(&self) -> EntryView<D::V> {
        EntryView { native_key: self.native_key, document: self.document@ }
    }
}

/// The documents of a list.
pub struct Registry<D> {
    pub entries: Vec<Entry<D>>,
}

impl<D: View> View for Registry<D> {
    type V = Seq<EntryView<D::V>>;

    open spec fn view(&self) -> Seq<EntryView<D::V>> {
        self.entries@.map_values(|entry: Entry<D>| entry@)
    }
}

/// No document and no identifier occurs twice.
pub open spec fn well_formed<D: Registered>(list: Seq<EntryView<D::V>>) -> bool {
    &&& forall|i: int|
        0 <= i < list.len() ==> D::Id::genuine(D::id_of((#[trigger] list[i]).document))
    &&& forall|i: int, j: int|
        #![trigger list[i], list[j]]
        0 <= i < j < list.len() ==> list[i].native_key.document_token
            != list[j].native_key.document_token && D::id_of(list[i].document) != D::id_of(
            list[j].document,
        )
}

pub open spec fn tokens(native: Seq<NativeDocumentSnapshot>) -> Seq<usize> {
    native.map_values(|document: NativeDocumentSnapshot| document.document_token)
}

/// The tokens of the documents of a list.
pub open spec fn held_tokens<V>(list: Seq<EntryView<V>>) -> Seq<usize> {
    list.map_values(|entry: EntryView<V>| entry.native_key.document_token)
}

/// There are identifiers enough for a snapshot: the documents of the list hold theirs
/// while those that are new get one each.
pub open spec fn has_room<D: Registered>(
    list: Seq<EntryView<D::V>>,
    native: Seq<NativeDocumentSnapshot>,
) -> bool {
    list.len() + identity::newcomers(held_tokens(list), tokens(native), native.len() as int)
        <= D::Id::count()
}

/// A list after a snapshot: the reported documents in the reported order, each token
/// once; what stays open keeps its identifier, and what is new gets one that no
/// document of the list before had.
pub open spec fn succeeds<D: Registered>(
    before: Seq<EntryView<D::V>>,
    native: Seq<NativeDocumentSnapshot>,
    after: Seq<EntryView<D::V>>,
) -> bool {
    let positions = identity::first_positions(tokens(native), native.len() as int);
    &&& after.len() == positions.len()
    &&& forall|k: int|
        #![trigger after[k]]
        0 <= k < after.len() ==> {
            let report = native[positions[k]];
            &&& after[k].native_key.document_token == report.document_token
            &&& after[k].native_key.database_token == report.database_token
            &&& D::describes(after[k].document, report)
        }
    &&& forall|k: int, j: int|
        #![trigger after[k], before[j]]
        0 <= k < after.len() && 0 <= j < before.len() ==> {
            before[j].native_key.document_token == after[k].native_key.document_token <==> D::id_of(
                before[j].document,
            ) == D::id_of(after[k].document)
        }
}

/// The first document of a list, from a position on, that has an identifier.
pub open spec fn with_id<D: Registered>(
    list: Seq<EntryView<D::V>>,
    id: <D::Id as View>::V,
) -> Option<EntryView<D::V>>
    decreases list.len(),
{
    if list.len() == 0 {
        None
    } else if D::id_of(list[0].document) == id {
        Some(list[0])
    } else {
        with_id::<D>(list.skip(1), id)
    }
}

/// The first document of a list that is stored at a path.
pub open spec fn with_path<D: Registered>(
    list: Seq<EntryView<D::V>>,
    path: Seq<char>,
    ignore_case: bool,
) -> Option<EntryView<D::V>>
    decreases list.len(),
{
    if list.len() == 0 {
        None
    } else if D::path_of(list[0].document) is Some && naming::same_path(
        D::path_of(list[0].document)->0,
        path,
        ignore_case,
    ) {
        Some(list[0])
    } else {
        with_path::<D>(list.skip(1), path, ignore_case)
    }
}

proof fn lemma_view_len<D: View>(registry: Registry<D>)
    ensures
        registry@.len() == registry.entries@.len(),
        forall|i: int|
            0 <= i < registry.entries@.len() ==> #[trigger] registry@[i] == registry.entries@[i]@,
{
}

proof fn lemma_known_with_at<I: PublicId>(known: Seq<Known<I>>, at: int)
    requires
        identity::unambiguous(known),
        0 <= at < known.len(),
    ensures
        identity::known_with(known, known[at].token) == Some(known[at].id@),
    decreases known.len(),
{
    if at < known.len() - 1 {
        let rest = known.drop_last();
        assert(known[at].token != known[known.len() - 1].token);
        assert(rest[at] == known[at]);
        assert forall|i: int| 0 <= i < rest.len() implies I::genuine((#[trigger] rest[i]).id@) by {
            assert(rest[i] == known[i]);
        }
        assert forall|i: int, j: int|
            #![trigger rest[i], rest[j]]
            0 <= i < j < rest.len() implies rest[i].token != rest[j].token && rest[i].id@
            != rest[j].id@ by {
            assert(rest[i] == known[i] && rest[j] == known[j]);
        }
        lemma_known_with_at(rest, at);
    }
}

proof fn lemma_known_with_none<I: PublicId>(known: Seq<Known<I>>, token: usize)
    requires
        forall|j: int| 0 <= j < known.len() ==> (#[trigger] known[j]).token != token,
    ensures
        identity::known_with(known, token) is None,
    decreases known.len(),
{
    if known.len() > 0 {
        assert(known[known.len() - 1].token != token);
        let rest = known.drop_last();
        assert forall|j: int| 0 <= j < rest.len() implies (#[trigger] rest[j]).token != token by {
            assert(rest[j] == known[j]);
        }
        lemma_known_with_none(rest, token);
    }
}

impl<D: Registered> Registry<D> {
    pub fn new() -> (registry: Self)
        ensures
            registry@ == Seq::<EntryView<D::V>>::empty(),
            well_formed::<D>(registry@),
    {
        let registry = Registry { entries: Vec::new() };
        assert(registry@ =~= Seq::<EntryView<D::V>>::empty());
        registry
    }

    fn known(&self) -> (known: Vec<Known<D::Id>>)
        ensures
            known@.len() == self@.len(),
            forall|i: int|
                #![trigger known@[i]]
                0 <= i < known@.len() ==> known@[i].token == self@[i].native_key.document_token
                    && known@[i].id@ == D::id_of(self@[i].document),
    {
        let mut known: Vec<Known<D::Id>> = Vec::new();
        let mut index: usize = 0;
        proof {
            lemma_view_len(*self);
        }
        while index < self.entries.len()
            invariant
                index <= self.entries@.len(),
                known@.len() == index,
                self@.len() == self.entries@.len(),
                forall|i: int|
                    0 <= i < self.entries@.len() ==> #[trigger] self@[i] == self.entries@[i]@,
                forall|i: int|
                    #![trigger known@[i]]
                    0 <= i < known@.len() ==> known@[i].token == self@[i].native_key.document_token
                        && known@[i].id@ == D::id_of(self@[i].document),
            decreases self.entries@.len() - index,
        {
            let entry = &self.entries[index];
            assert(self@[index as int] == entry@);
            known.push(
                Known {
                    token: entry.native_key.document_token,
                    id: entry.document.id().duplicate(),
                },
            );
            index = index + 1;
        }
        known
    }

    /// Replaces the list by what a snapshot reports.
    pub fn replace(&mut self, native_documents: Vec<NativeDocumentSnapshot>)
        requires
            well_formed::<D>(old(self)@),
            has_room::<D>(old(self)@, native_documents@),
            D::Id::count() <= usize::MAX,
        ensures
            well_formed::<D>(final(self)@),
            succeeds::<D>(old(self)@, native_documents@, final(self)@),
    {
        let ghost before = self@;
        let ghost native = native_documents@;
        let known = self.known();
        let mut document_tokens: Vec<usize> = Vec::new();
        let mut position: usize = 0;
        while position < native_documents.len()
            invariant
                position <= native_documents@.len(),
                document_tokens@ == tokens(native_documents@).take(position as int),
            decreases native_documents@.len() - position,
        {
            document_tokens.push(native_documents[position].document_token);
            position = position + 1;
            assert(document_tokens@ =~= tokens(native_documents@).take(position as int));
        }
        proof {
            assert(tokens(native).take(native.len() as int) =~= tokens(native));
            assert forall|i: int| 0 <= i < known@.len() implies D::Id::genuine(
                (#[trigger] known@[i]).id@,
            ) by {
                assert(D::Id::genuine(D::id_of(before[i].document)));
            }
            assert forall|i: int, j: int|
                #![trigger known@[i], known@[j]]
                0 <= i < j < known@.len() implies known@[i].token != known@[j].token
                && known@[i].id@ != known@[j].id@ by {
                assert(before[i].native_key.document_token != before[j].native_key.document_token);
            }
        }
        assert(identity::tokens_of(known@) =~= held_tokens(before));
        let mut assigned = assign_ids(&known, &document_tokens);
        let ghost plan = assigned@;
        let ghost positions = identity::first_positions(tokens(native), native.len() as int);
        proof {
            identity::lemma_first_positions(tokens(native), native.len() as int);
            assert forall|k: int| 0 <= k < plan.len() implies (#[trigger] plan[k]).index
                == positions[k] by {
                assert(plan.map_values(|entry: Assigned<D::Id>| entry.index as int)[k]
                    == positions[k]);
            }
            assert(plan.map_values(|entry: Assigned<D::Id>| entry.index as int).len()
                == positions.len());
        }
        let mut entries: Vec<Entry<D>> = Vec::new();
        while assigned.len() > 0
            invariant
                entries@.len() + assigned@.len() == plan.len(),
                plan.len() == positions.len(),
                assigned@ == plan.skip(entries@.len() as int),
                native == native_documents@,
                forall|k: int|
                    #![trigger plan[k]]
                    0 <= k < plan.len() ==> plan[k].index == positions[k],
                forall|k: int|
                    #![trigger positions[k]]
                    0 <= k < positions.len() ==> 0 <= positions[k] < native.len(),
                forall|k: int|
                    #![trigger entries@[k]]
                    0 <= k < entries@.len() ==> {
                        let report = native[positions[k]];
                        &&& entries@[k].native_key.document_token == report.document_token
                        &&& entries@[k].native_key.database_token == report.database_token
                        &&& D::describes(entries@[k].document@, report)
                        &&& D::id_of(entries@[k].document@) == plan[k].id@
                    },
            decreases assigned@.len(),
        {
            let ghost place = entries@.len() as int;
            assert(assigned@[0] == plan[place]);
            let Assigned { index, id } = assigned.remove(0);
            let report = &native_documents[index];
            let document = D::from_native(id, report);
            entries.push(
                Entry {
                    native_key: NativeDocumentKey {
                        document_token: report.document_token,
                        database_token: report.database_token,
                    },
                    document,
                },
            );
            assert(assigned@ =~= plan.skip(entries@.len() as int));
        }
        self.entries = entries;
        proof {
            lemma_view_len(*self);
            let after = self@;
            assert forall|k: int|
                #![trigger after[k]]
                0 <= k < after.len() implies after[k].native_key.document_token == tokens(
                native,
            )[positions[k]] && D::id_of(after[k].document) == plan[k].id@ && D::Id::genuine(
                D::id_of(after[k].document),
            ) by {
                assert(after[k] == entries@[k]@);
                assert(D::Id::genuine(plan[k].id@));
            }
            assert forall|k: int, l: int|
                #![trigger after[k], after[l]]
                0 <= k < l < after.len() implies after[k].native_key.document_token
                != after[l].native_key.document_token && D::id_of(after[k].document) != D::id_of(
                after[l].document,
            ) by {
                assert(plan[k].id@ != plan[l].id@);
                assert(tokens(native)[positions[k]] != tokens(native)[positions[l]]);
            }
            assert forall|k: int, j: int|
                #![trigger after[k], before[j]]
                0 <= k < after.len() && 0 <= j < before.len() implies (
            before[j].native_key.document_token == after[k].native_key.document_token <==> D::id_of(
                before[j].document,
            ) == D::id_of(after[k].document)) by {
                let token = tokens(native)[positions[k]];
                assert(plan[k].index == positions[k]);
                assert(after[k].native_key.document_token == token);
                assert(known@[j].token == before[j].native_key.document_token);
                if known@[j].token == token {
                    lemma_known_with_at(known@, j);
                } else if known@[j].id@ == plan[k].id@ {
                    if exists|m: int| 0 <= m < known@.len() && (#[trigger] known@[m]).token == token {
                        let m = choose|m: int|
                            0 <= m < known@.len() && (#[trigger] known@[m]).token == token;
                        lemma_known_with_at(known@, m);
                        if m < j {
                            assert(known@[m].id@ != known@[j].id@);
                        } else {
                            assert(known@[j].id@ != known@[m].id@);
                        }
                    } else {
                        lemma_known_with_none(known@, token);
                        assert(known@[j].id@ != plan[k].id@);
                    }
                }
            }
        }
    }

    /// The documents in order.
    pub fn list(&self) -> (listed: Vec<D>)
        ensures
            listed@.len() == self@.len(),
            forall|i: int|
                #![trigger listed@[i]]
                0 <= i < listed@.len() ==> listed@[i]@ == self@[i].document,
    {
        let mut listed: Vec<D> = Vec::new();
        let mut index: usize = 0;
        proof {
            lemma_view_len(*self);
        }
        while index < self.entries.len()
            invariant
                index <= self.entries@.len(),
                listed@.len() == index,
                self@.len() == self.entries@.len(),
                forall|i: int|
                    0 <= i < self.entries@.len() ==> #[trigger] self@[i] == self.entries@[i]@,
                forall|i: int|
                    #![trigger listed@[i]]
                    0 <= i < listed@.len() ==> listed@[i]@ == self@[i].document,
            decreases self.entries@.len() - index,
        {
            assert(self@[index as int] == self.entries@[index as int]@);
            listed.push(self.entries[index].document.duplicate());
            index = index + 1;
        }
        listed
    }

    fn target(&self, index: usize) -> (target: Entry<D>)
        requires
            index < self@.len(),
        ensures
            target@ == self@[index as int],
    {
        proof {
            lemma_view_len(*self);
        }
        let entry = &self.entries[index];
        assert(self@[index as int] == entry@);
        Entry { native_key: entry.native_key, document: entry.document.duplicate() }
    }

    /// The document with an identifier.
    pub fn find_by_id(&self, id: &D::Id) -> (found: Option<Entry<D>>)
        ensures
            match found {
                Some(target) => with_id::<D>(self@, id@) == Some(target@),
                None => with_id::<D>(self@, id@) is None,
            },
    {
        let mut index: usize = 0;
        proof {
            lemma_view_len(*self);
            assert(self@.skip(0) =~= self@);
        }
        while index < self.entries.len()
            invariant
                index <= self.entries@.len(),
                self@.len() == self.entries@.len(),
                forall|i: int|
                    0 <= i < self.entries@.len() ==> #[trigger] self@[i] == self.entries@[i]@,
                with_id::<D>(self@, id@) == with_id::<D>(self@.skip(index as int), id@),
            decreases self.entries@.len() - index,
        {
            assert(self@[index as int] == self.entries@[index as int]@);
            assert(self@.skip(index as int)[0] == self@[index as int]);
            if self.entries[index].document.id().same(id) {
                return Some(self.target(index));
            }
            assert(self@.skip(index as int).skip(1) =~= self@.skip(index + 1));
            index = index + 1;
        }
        None
    }

    /// The document that is stored at a path.
    pub fn find_by_path(&self, path: &str, ignore_case: bool) -> (found: Option<Entry<D>>)
        ensures
            match found {
                Some(target) => with_path::<D>(self@, path@, ignore_case) == Some(target@),
                None => with_path::<D>(self@, path@, ignore_case) is None,
            },
    {
        let mut index: usize = 0;
        proof {
            lemma_view_len(*self);
            assert(self@.skip(0) =~= self@);
        }
        while index < self.entries.len()
            invariant
                index <= self.entries@.len(),
                self@.len() == self.entries@.len(),
                forall|i: int|
                    0 <= i < self.entries@.len() ==> #[trigger] self@[i] == self.entries@[i]@,
                with_path::<D>(self@, path@, ignore_case) == with_path::<D>(
                    self@.skip(index as int),
                    path@,
                    ignore_case,
                ),
            decreases self.entries@.len() - index,
        {
            assert(self@[index as int] == self.entries@[index as int]@);
            assert(self@.skip(index as int)[0] == self@[index as int]);
            let matching = match self.entries[index].document.path() {
                Some(stored) => paths_equal(stored, path, ignore_case),
                None => false,
            };
            if matching {
                return Some(self.target(index));
            }
            assert(self@.skip(index as int).skip(1) =~= self@.skip(index + 1));
            index = index + 1;
        }
        None
    }

    /// The native identities in order.
    pub fn native_keys(&self) -> (keys: Vec<NativeDocumentKey>)
        ensures
            keys@ == self@.map_values(|entry: EntryView<D::V>| entry.native_key),
    {
        let mut keys: Vec<NativeDocumentKey> = Vec::new();
        let mut index: usize = 0;
        let ghost expected = self@.map_values(|entry: EntryView<D::V>| entry.native_key);
        proof {
            lemma_view_len(*self);
        }
        while index < self.entries.len()
            invariant
                index <= self.entries@.len(),
                expected == self@.map_values(|entry: EntryView<D::V>| entry.native_key),
                self@.len() == self.entries@.len(),
                forall|i: int|
                    0 <= i < self.entries@.len() ==> #[trigger] self@[i] == self.entries@[i]@,
                keys@ == expected.take(index as int),
            decreases self.entries@.len() - index,
        {
            assert(self@[index as int] == self.entries@[index as int]@);
            keys.push(self.entries[index].native_key);
            index = index + 1;
            assert(keys@ =~= expected.take(index as int));
        }
        assert(expected.take(index as int) =~= expected);
        keys
    }
}

/// A snapshot has room where the list and it are together no longer than there are
/// identifiers, and always where it reports only documents of the list.
pub proof fn law_room_for_snapshots<D: Registered>(
    list: Seq<EntryView<D::V>>,
    native: Seq<NativeDocumentSnapshot>,
)
    ensures
        list.len() + native.len() <= D::Id::count() ==> has_room::<D>(list, native),
        list.len() <= D::Id::count() && (forall|i: int|
            0 <= i < native.len() ==> held_tokens(list).contains(
                #[trigger] native[i].document_token,
            )) ==> has_room::<D>(list, native),
{
    identity::lemma_newcomers_bound(held_tokens(list), tokens(native), native.len() as int);
    if forall|i: int|
        0 <= i < native.len() ==> held_tokens(list).contains(#[trigger] native[i].document_token) {
        assert forall|i: int| 0 <= i < tokens(native).len() implies held_tokens(list).contains(
            #[trigger] tokens(native)[i],
        ) by {
            assert(tokens(native)[i] == native[i].document_token);
        }
        identity::lemma_no_newcomers(held_tokens(list), tokens(native), native.len() as int);
    }
}

/// A document that stays open keeps its identifier, whatever else changes.
pub proof fn law_identity_is_kept<D: Registered>(
    before: Seq<EntryView<D::V>>,
    native: Seq<NativeDocumentSnapshot>,
    after: Seq<EntryView<D::V>>,
    old_place: int,
    new_place: int,
)
    requires
        succeeds::<D>(before, native, after),
        0 <= old_place < before.len(),
        0 <= new_place < after.len(),
        before[old_place].native_key.document_token == after[new_place].native_key.document_token,
    ensures
        D::id_of(after[new_place].document) == D::id_of(before[old_place].document),
{
    assert(after[new_place] == after[new_place] && before[old_place] == before[old_place]);
}

/// A document that is new gets an identifier that no document of the list before had.
pub proof fn law_new_identifiers_are_unused<D: Registered>(
    before: Seq<EntryView<D::V>>,
    native: Seq<NativeDocumentSnapshot>,
    after: Seq<EntryView<D::V>>,
    place: int,
)
    requires
        succeeds::<D>(before, native, after),
        0 <= place < after.len(),
        forall|j: int|
            0 <= j < before.len() ==> (#[trigger] before[j]).native_key.document_token
                != after[place].native_key.document_token,
    ensures
        forall|j: int|
            0 <= j < before.len() ==> D::id_of((#[trigger] before[j]).document) != D::id_of(
                after[place].document,
            ),
{
    assert(after[place] == after[place]);
}

/// Where no token is reported twice, the list holds what was reported, in that order.
pub proof fn law_native_order_is_kept<D: Registered>(
    before: Seq<EntryView<D::V>>,
    native: Seq<NativeDocumentSnapshot>,
    after: Seq<EntryView<D::V>>,
)
    requires
        succeeds::<D>(before, native, after),
        forall|i: int, j: int|
            #![trigger native[i], native[j]]
            0 <= i < j < native.len() ==> native[i].document_token != native[j].document_token,
    ensures
        after.len() == native.len(),
        forall|k: int|
            #![trigger after[k]]
            0 <= k < after.len() ==> after[k].native_key.document_token == native[k].document_token
                && D::describes(after[k].document, native[k]),
{
    lemma_all_first(tokens(native), native.len() as int);
}

proof fn lemma_all_first(list: Seq<usize>, upto: int)
    requires
        0 <= upto <= list.len(),
        forall|i: int, j: int|
            #![trigger list[i], list[j]]
            0 <= i < j < list.len() ==> list[i] != list[j],
    ensures
        identity::first_positions(list, upto) == Seq::new(upto as nat, |i: int| i),
    decreases upto,
{
    if upto > 0 {
        lemma_all_first(list, upto - 1);
        assert(!identity::seen_before(list, upto - 1));
        assert(identity::first_positions(list, upto) =~= Seq::new(upto as nat, |i: int| i));
    } else {
        assert(identity::first_positions(list, upto) =~= Seq::new(upto as nat, |i: int| i));
    }
}

proof fn lemma_with_id_at<D: Registered>(list: Seq<EntryView<D::V>>, place: int)
    requires
        well_formed::<D>(list),
        0 <= place < list.len(),
    ensures
        with_id::<D>(list, D::id_of(list[place].document)) == Some(list[place]),
    decreases list.len(),
{
    if place > 0 {
        let rest = list.skip(1);
        assert(D::id_of(list[0].document) != D::id_of(list[place].document));
        assert forall|i: int| 0 <= i < rest.len() implies D::Id::genuine(
            D::id_of((#[trigger] rest[i]).document),
        ) by {
            assert(rest[i] == list[i + 1]);
        }
        assert forall|i: int, j: int|
            #![trigger rest[i], rest[j]]
            0 <= i < j < rest.len() implies rest[i].native_key.document_token
            != rest[j].native_key.document_token && D::id_of(rest[i].document) != D::id_of(
            rest[j].document,
        ) by {
            assert(rest[i] == list[i + 1] && rest[j] == list[j + 1]);
        }
        assert(rest[place - 1] == list[place]);
        lemma_with_id_at::<D>(rest, place - 1);
    }
}

/// Each listed document is found by its identifier.
pub proof fn law_listed_documents_are_found<D: Registered>(
    list: Seq<EntryView<D::V>>,
    place: int,
)
    requires
        well_formed::<D>(list),
        0 <= place < list.len(),
    ensures
        with_id::<D>(list, D::id_of(list[place].document)) == Some(list[place]),
{
    lemma_with_id_at::<D>(list, place);
}

/// Every reported document is listed, as it was first reported, under its native identity;
/// and nothing is listed that was not reported, nor anything twice.
pub proof fn law_listed_is_what_was_reported<D: Registered>(
    before: Seq<EntryView<D::V>>,
    native: Seq<NativeDocumentSnapshot>,
    after: Seq<EntryView<D::V>>,
    place: int,
    report: int,
)
    requires
        succeeds::<D>(before, native, after),
    ensures
        0 <= report < native.len() && (forall|i: int|
            0 <= i < report ==> (#[trigger] native[i]).document_token
                != native[report].document_token) ==> exists|k: int|
            #![trigger after[k]]
            0 <= k < after.len() && after[k].native_key.document_token
                == native[report].document_token && after[k].native_key.database_token
                == native[report].database_token && D::describes(
                after[k].document,
                native[report],
            ),
        0 <= place < after.len() ==> exists|i: int|
            #![trigger native[i]]
            0 <= i < native.len() && native[i].document_token
                == after[place].native_key.document_token && D::describes(
                after[place].document,
                native[i],
            ),
        forall|k: int, l: int|
            #![trigger after[k], after[l]]
            0 <= k < l < after.len() ==> after[k].native_key.document_token
                != after[l].native_key.document_token,
{
    let reported = tokens(native);
    let positions = identity::first_positions(reported, native.len() as int);
    identity::lemma_first_positions(reported, native.len() as int);
    assert forall|k: int, l: int|
        #![trigger after[k], after[l]]
        0 <= k < l < after.len() implies after[k].native_key.document_token
        != after[l].native_key.document_token by {
        assert(reported[positions[k]] != reported[positions[l]]);
        assert(reported[positions[k]] == native[positions[k]].document_token);
        assert(reported[positions[l]] == native[positions[l]].document_token);
    }
    if 0 <= place < after.len() {
        assert(0 <= positions[place] < native.len());
        assert(native[positions[place]].document_token == after[place].native_key.document_token);
    }
    if 0 <= report < native.len() && (forall|i: int|
        0 <= i < report ==> (#[trigger] native[i]).document_token
            != native[report].document_token) {
        assert(!identity::seen_before(reported, report)) by {
            if identity::seen_before(reported, report) {
                let i = choose|i: int| 0 <= i < report && reported[i] == reported[report];
                assert(native[i].document_token == native[report].document_token);
            }
        }
        lemma_first_is_listed(reported, report, native.len() as int);
        let k = choose|k: int| 0 <= k < positions.len() && positions[k] == report;
        assert(after[k].native_key.document_token == native[report].document_token);
    }
}

proof fn lemma_first_is_listed(list: Seq<usize>, place: int, upto: int)
    requires
        0 <= place < upto,
        !identity::seen_before(list, place),
    ensures
        exists|k: int|
            0 <= k < identity::first_positions(list, upto).len()
                && #[trigger] identity::first_positions(list, upto)[k] == place,
    decreases upto,
{
    let after = identity::first_positions(list, upto);
    if place == upto - 1 {
        assert(after[after.len() - 1] == place);
    } else {
        lemma_first_is_listed(list, place, upto - 1);
        let rest = identity::first_positions(list, upto - 1);
        let k = choose|k: int| 0 <= k < rest.len() && #[trigger] rest[k] == place;
        assert(after[k] == place);
    }
}

/// A search by identifier finds a document that has it, and finds one wherever there is
/// one.
pub proof fn law_search_by_identifier<D: Registered>(
    list: Seq<EntryView<D::V>>,
    id: <D::Id as View>::V,
)
    ensures
        match with_id::<D>(list, id) {
            Some(found) => list.contains(found) && D::id_of(found.document) == id,
            None => forall|i: int|
                0 <= i < list.len() ==> D::id_of((#[trigger] list[i]).document) != id,
        },
    decreases list.len(),
{
    if list.len() > 0 {
        if D::id_of(list[0].document) == id {
            assert(list.contains(list[0]));
        } else {
            let rest = list.skip(1);
            law_search_by_identifier::<D>(rest, id);
            match with_id::<D>(rest, id) {
                Some(found) => {
                    let k = choose|k: int| 0 <= k < rest.len() && rest[k] == found;
                    assert(list[k + 1] == found);
                },
                None => {
                    assert forall|i: int| 0 <= i < list.len() implies D::id_of(
                        (#[trigger] list[i]).document,
                    ) != id by {
                        if i > 0 {
                            assert(rest[i - 1] == list[i]);
                        }
                    }
                },
            }
        }
    }
}

/// A search by path finds a document that is stored there, and finds one wherever there is
/// one.
pub proof fn law_search_by_path<D: Registered>(
    list: Seq<EntryView<D::V>>,
    path: Seq<char>,
    ignore_case: bool,
)
    ensures
        match with_path::<D>(list, path, ignore_case) {
            Some(found) => list.contains(found) && D::path_of(found.document) is Some
                && naming::same_path(D::path_of(found.document)->0, path, ignore_case),
            None => forall|i: int|
                0 <= i < list.len() && D::path_of((#[trigger] list[i]).document) is Some
                    ==> !naming::same_path(D::path_of(list[i].document)->0, path, ignore_case),
        },
    decreases list.len(),
{
    if list.len() > 0 {
        if D::path_of(list[0].document) is Some && naming::same_path(
            D::path_of(list[0].document)->0,
            path,
            ignore_case,
        ) {
            assert(list.contains(list[0]));
        } else {
            let rest = list.skip(1);
            law_search_by_path::<D>(rest, path, ignore_case);
            match with_path::<D>(rest, path, ignore_case) {
                Some(found) => {
                    let k = choose|k: int| 0 <= k < rest.len() && rest[k] == found;
                    assert(list[k + 1] == found);
                },
                None => {
                    assert forall|i: int| 0 <= i < list.len() && D::path_of(
                        (#[trigger] list[i]).document,
                    ) is Some implies !naming::same_path(
                        D::path_of(list[i].document)->0,
                        path,
                        ignore_case,
                    ) by {
                        if i > 0 {
                            assert(rest[i - 1] == list[i]);
                        }
                    }
                },
            }
        }
    }
}

} // verus!
