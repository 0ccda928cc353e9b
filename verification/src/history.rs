//! What is known of the undo history of each drawing.
//!
//! The ledger remembers only steps that this plugin made, as a contiguous run at
//! the top of the history. Whatever else may have changed the history makes it
//! forget. Each change gives the drawing a new revision, so that a claim on a
//! step cannot outlive the state it was made in.
use std::collections::VecDeque;

use vstd::prelude::*;

use crate::documents::NativeDocumentKey;

verus! {

pub const MAX_TRACKED_HISTORY_DOCUMENTS: usize = 32;

pub const MAX_RETAINED_HISTORY_STEPS: usize = 256;

#[derive(Clone, Copy, Debug, PartialEq, Eq, Structural)]
pub struct ExecutionId(pub u64);

#[derive(Clone, Copy, Debug, PartialEq, Eq, Structural)]
pub struct HistoryRevision(pub u64);

#[derive(Clone, Copy, Debug, PartialEq, Eq, Structural)]
pub enum HistoryDirection {
    Undo,
    Redo,
}

/// The intention to undo or redo one step.
#[derive(Clone, Copy, Debug, PartialEq, Eq, Structural)]
pub struct HistoryClaim {
    pub key: NativeDocumentKey,
    pub direction: HistoryDirection,
    pub expected_step: ExecutionId,
    pub revision: HistoryRevision,
}

pub struct HistoryLedger {
    pub documents: VecDeque<DocumentHistory>,
    pub next_revision: u64,
    pub revision_exhausted: bool,
}

pub struct DocumentHistory {
    pub key: NativeDocumentKey,
    pub revision: HistoryRevision,
    pub undo: VecDeque<ExecutionId>,
    pub redo: VecDeque<ExecutionId>,
}

/// The history of one drawing: the steps that can be undone and redone, the next
/// one last.
#[verifier::ext_equal]
pub struct DocumentView {
    pub key: NativeDocumentKey,
    pub revision: int,
    pub undo: Seq<ExecutionId>,
    pub redo: Seq<ExecutionId>,
}

/// The drawings, the one that changed last at the end.
#[verifier::ext_equal]
pub struct LedgerView {
    pub documents: Seq<DocumentView>,
    pub next_revision: int,
    pub revision_exhausted: bool,
}

impl View for DocumentHistory {
    type V = DocumentView;

    open spec fn view(&self) -> DocumentView {
        DocumentView {
            key: self.key,
            revision: self.revision.0 as int,
            undo: self.undo@,
            redo: self.redo@,
        }
    }
}

impl View for HistoryLedger {
    type V = LedgerView;

    open spec fn view(&self) -> LedgerView {
        LedgerView {
            documents: self.documents@.map_values(|document: DocumentHistory| document@),
            next_revision: self.next_revision as int,
            revision_exhausted: self.revision_exhausted,
        }
    }
}

/// The entries whose key is wanted, in their order.
pub open spec fn kept(
    documents: Seq<DocumentView>,
    wanted: spec_fn(NativeDocumentKey) -> bool,
) -> Seq<DocumentView>
    decreases documents.len(),
{
    if documents.len() == 0 {
        Seq::empty()
    } else {
        let before = kept(documents.drop_last(), wanted);
        if wanted(documents.last().key) {
            before.push(documents.last())
        } else {
            before
        }
    }
}

/// The position of a key, or the number of entries.
pub open spec fn position(documents: Seq<DocumentView>, key: NativeDocumentKey) -> int
    decreases documents.len(),
{
    if documents.len() == 0 || documents[0].key == key {
        0
    } else {
        1 + position(documents.drop_first(), key)
    }
}

impl DocumentView {
    pub open spec fn steps(self, direction: HistoryDirection) -> Seq<ExecutionId> {
        match direction {
            HistoryDirection::Undo => self.undo,
            HistoryDirection::Redo => self.redo,
        }
    }

    pub open spec fn top(self, direction: HistoryDirection) -> Option<ExecutionId> {
        let steps = self.steps(direction);
        if steps.len() > 0 {
            Some(steps.last())
        } else {
            None
        }
    }

    /// After a new step: nothing can be redone any more, and the oldest step is
    /// forgotten where there are too many.
    pub open spec fn stepped(self, step: ExecutionId, revision: int) -> DocumentView {
        DocumentView {
            undo: if self.undo.len() == MAX_RETAINED_HISTORY_STEPS {
                self.undo.skip(1).push(step)
            } else {
                self.undo.push(step)
            },
            redo: Seq::empty(),
            revision,
            ..self
        }
    }

    /// After the top step was undone or redone.
    pub open spec fn moved(self, direction: HistoryDirection, revision: int) -> DocumentView {
        match direction {
            HistoryDirection::Undo => DocumentView {
                undo: self.undo.drop_last(),
                redo: self.redo.push(self.undo.last()),
                revision,
                ..self
            },
            HistoryDirection::Redo => DocumentView {
                redo: self.redo.drop_last(),
                undo: self.undo.push(self.redo.last()),
                revision,
                ..self
            },
        }
    }
}

impl LedgerView {
    pub open spec fn empty() -> LedgerView {
        LedgerView { documents: Seq::empty(), next_revision: 1, revision_exhausted: false }
    }

    /// The limits, and that every revision given out is below the next one.
    pub open spec fn consistent(self) -> bool {
        &&& self.documents.len() <= MAX_TRACKED_HISTORY_DOCUMENTS
        &&& 0 <= self.next_revision <= u64::MAX
        &&& self.revision_exhausted ==> self.documents.len() == 0
        &&& forall|i: int|
            #![trigger self.documents[i]]
            0 <= i < self.documents.len() ==> {
                &&& self.documents[i].undo.len() + self.documents[i].redo.len()
                    <= MAX_RETAINED_HISTORY_STEPS
                &&& 0 <= self.documents[i].revision < self.next_revision
            }
        &&& forall|i: int, j: int|
            #![trigger self.documents[i], self.documents[j]]
            0 <= i < j < self.documents.len() ==> self.documents[i].key != self.documents[j].key
    }

    pub open spec fn find(self, key: NativeDocumentKey) -> Option<DocumentView> {
        let found = position(self.documents, key);
        if 0 <= found < self.documents.len() {
            Some(self.documents[found])
        } else {
            None
        }
    }

    pub open spec fn without(self, key: NativeDocumentKey) -> LedgerView {
        let found = position(self.documents, key);
        if 0 <= found < self.documents.len() {
            LedgerView { documents: self.documents.remove(found), ..self }
        } else {
            self
        }
    }

    /// The drawing moves to the end; the oldest is forgotten where there are too many.
    pub open spec fn retained(self, document: DocumentView) -> LedgerView {
        LedgerView {
            documents: if self.documents.len() == MAX_TRACKED_HISTORY_DOCUMENTS {
                self.documents.skip(1).push(document)
            } else {
                self.documents.push(document)
            },
            ..self
        }
    }

    /// Whether a revision is left to be given out.
    pub open spec fn can_revise(self) -> bool {
        !self.revision_exhausted && self.next_revision < u64::MAX
    }

    /// After a revision was asked for. When none is left, everything is forgotten
    /// for good.
    pub open spec fn revised(self) -> LedgerView {
        if self.revision_exhausted {
            self
        } else if self.next_revision == u64::MAX {
            LedgerView { documents: Seq::empty(), revision_exhausted: true, ..self }
        } else {
            LedgerView { next_revision: self.next_revision + 1, ..self }
        }
    }

    pub open spec fn claim(self, key: NativeDocumentKey, direction: HistoryDirection) -> Option<
        HistoryClaim,
    > {
        match self.find(key) {
            Some(document) => match document.top(direction) {
                Some(expected_step) => Some(
                    HistoryClaim {
                        key,
                        direction,
                        expected_step,
                        revision: HistoryRevision(document.revision as u64),
                    },
                ),
                None => None,
            },
            None => None,
        }
    }

    /// After an execution that made one step.
    pub open spec fn with_step(self, key: NativeDocumentKey, step: ExecutionId) -> LedgerView {
        if !self.can_revise() {
            self.revised()
        } else {
            let document = match self.find(key) {
                Some(document) => document,
                None => DocumentView {
                    key,
                    revision: self.next_revision,
                    undo: Seq::empty(),
                    redo: Seq::empty(),
                },
            };
            self.revised().without(key).retained(document.stepped(step, self.next_revision))
        }
    }

    /// After an execution that made no step: nothing can be redone any more.
    pub open spec fn without_redo(self, key: NativeDocumentKey) -> LedgerView {
        match self.find(key) {
            None => self,
            Some(document) => if document.redo.len() == 0 {
                self.without(key).retained(document)
            } else if !self.can_revise() {
                self.without(key).revised()
            } else {
                self.without(key).revised().retained(
                    DocumentView {
                        redo: Seq::empty(),
                        revision: self.next_revision,
                        ..document
                    },
                )
            },
        }
    }

    /// The claim was made in the present state of its drawing.
    pub open spec fn current(self, claim: HistoryClaim) -> bool {
        self.find(claim.key) matches Some(document) && document.revision == claim.revision.0
            && document.top(claim.direction) == Some(claim.expected_step)
    }

    /// Whether a claim carried out with this result counts.
    pub open spec fn completes(self, claim: HistoryClaim, succeeded: bool) -> bool {
        succeeded && self.can_revise() && self.current(claim)
    }

    /// After a claim was carried out. If it failed or was not current, the drawing
    /// is forgotten.
    pub open spec fn completed(self, claim: HistoryClaim, succeeded: bool) -> LedgerView {
        if !succeeded {
            self.without(claim.key)
        } else if !self.can_revise() {
            self.revised()
        } else if !self.current(claim) {
            self.revised().without(claim.key)
        } else {
            self.revised().without(claim.key).retained(
                self.find(claim.key)->0.moved(claim.direction, self.next_revision),
            )
        }
    }
}

proof fn lemma_position(documents: Seq<DocumentView>, key: NativeDocumentKey, index: int)
    requires
        0 <= index <= documents.len(),
        forall|i: int| 0 <= i < index ==> (#[trigger] documents[i]).key != key,
        index < documents.len() ==> documents[index].key == key,
    ensures
        position(documents, key) == index,
    decreases index,
{
    if index > 0 {
        let rest = documents.drop_first();
        assert(documents[0].key != key);
        assert forall|i: int| 0 <= i < index - 1 implies (#[trigger] rest[i]).key != key by {
            assert(rest[i] == documents[i + 1]);
        }
        lemma_position(rest, key, index - 1);
    }
}

proof fn lemma_position_found(documents: Seq<DocumentView>, key: NativeDocumentKey)
    ensures
        0 <= position(documents, key) <= documents.len(),
        position(documents, key) < documents.len() ==> documents[position(documents, key)].key
            == key,
        forall|i: int|
            0 <= i < position(documents, key) ==> (#[trigger] documents[i]).key != key,
    decreases documents.len(),
{
    if documents.len() > 0 && documents[0].key != key {
        let rest = documents.drop_first();
        lemma_position_found(rest, key);
        assert forall|i: int| 0 <= i < position(documents, key) implies (
        #[trigger] documents[i]).key != key by {
            if i > 0 {
                assert(documents[i] == rest[i - 1]);
            }
        }
    }
}

/// Removing a drawing keeps the ledger consistent and leaves no trace of it.
proof fn lemma_without(ledger: LedgerView, key: NativeDocumentKey)
    requires
        ledger.consistent(),
    ensures
        ledger.without(key).consistent(),
        ledger.without(key).find(key) is None,
        forall|i: int|
            0 <= i < ledger.without(key).documents.len() ==> (
            #[trigger] ledger.without(key).documents[i]).key != key,
        ledger.find(key) is Some ==> ledger.without(key).documents.len() + 1
            == ledger.documents.len(),
        ledger.find(key) matches Some(document) ==> document.key == key && document.undo.len()
            + document.redo.len() <= MAX_RETAINED_HISTORY_STEPS && 0 <= document.revision
            < ledger.next_revision,
{
    lemma_position_found(ledger.documents, key);
    let found = position(ledger.documents, key);
    let after = ledger.without(key).documents;
    assert forall|i: int| 0 <= i < after.len() implies (#[trigger] after[i]).key != key by {
        if found < ledger.documents.len() {
            if i < found {
                assert(after[i] == ledger.documents[i]);
            } else {
                assert(after[i] == ledger.documents[i + 1]);
                assert(ledger.documents[found].key != ledger.documents[i + 1].key);
            }
        } else {
            assert(after[i] == ledger.documents[i]);
        }
    }
    lemma_position(after, key, after.len() as int);
    if found < ledger.documents.len() {
        assert forall|i: int| #![trigger after[i]] 0 <= i < after.len() implies after[i].undo.len()
            + after[i].redo.len() <= MAX_RETAINED_HISTORY_STEPS && 0 <= after[i].revision
            < ledger.next_revision by {
            if i < found {
                assert(after[i] == ledger.documents[i]);
            } else {
                assert(after[i] == ledger.documents[i + 1]);
            }
        }
        assert forall|i: int, j: int|
            #![trigger after[i], after[j]]
            0 <= i < j < after.len() implies after[i].key != after[j].key by {
            let left = if i < found {
                i
            } else {
                i + 1
            };
            let right = if j < found {
                j
            } else {
                j + 1
            };
            assert(after[i] == ledger.documents[left]);
            assert(after[j] == ledger.documents[right]);
        }
    }
}

proof fn lemma_retained(ledger: LedgerView, document: DocumentView)
    requires
        ledger.consistent(),
        !ledger.revision_exhausted,
        forall|i: int|
            0 <= i < ledger.documents.len() ==> (#[trigger] ledger.documents[i]).key
                != document.key,
        document.undo.len() + document.redo.len() <= MAX_RETAINED_HISTORY_STEPS,
        0 <= document.revision < ledger.next_revision,
    ensures
        ledger.retained(document).consistent(),
        ledger.retained(document).find(document.key) == Some(document),
{
    let after = ledger.retained(document).documents;
    let shift: int = if ledger.documents.len() == MAX_TRACKED_HISTORY_DOCUMENTS {
        1
    } else {
        0
    };
    assert forall|i: int| 0 <= i < after.len() - 1 implies #[trigger] after[i]
        == ledger.documents[i + shift] by {}
    assert(after[after.len() - 1] == document);
    assert forall|i: int| 0 <= i < after.len() - 1 implies (#[trigger] after[i]).key
        != document.key by {
        assert(after[i] == ledger.documents[i + shift]);
    }
    lemma_position(after, document.key, after.len() - 1);
    assert forall|i: int, j: int|
        #![trigger after[i], after[j]]
        0 <= i < j < after.len() implies after[i].key != after[j].key by {
        assert(after[i] == ledger.documents[i + shift]);
        if j < after.len() - 1 {
            assert(after[j] == ledger.documents[j + shift]);
        }
    }
}

proof fn lemma_kept(ledger: LedgerView, wanted: spec_fn(NativeDocumentKey) -> bool)
    requires
        ledger.consistent(),
    ensures
        (LedgerView { documents: kept(ledger.documents, wanted), ..ledger }).consistent(),
        forall|i: int|
            #![trigger kept(ledger.documents, wanted)[i]]
            0 <= i < kept(ledger.documents, wanted).len() ==> wanted(
                kept(ledger.documents, wanted)[i].key,
            ) && ledger.documents.contains(kept(ledger.documents, wanted)[i]),
        kept(ledger.documents, wanted).len() <= ledger.documents.len(),
    decreases ledger.documents.len(),
{
    let documents = ledger.documents;
    if documents.len() > 0 {
        let shorter = LedgerView { documents: documents.drop_last(), ..ledger };
        assert forall|i: int, j: int|
            #![trigger shorter.documents[i], shorter.documents[j]]
            0 <= i < j < shorter.documents.len() implies shorter.documents[i].key
            != shorter.documents[j].key by {
            assert(shorter.documents[i] == documents[i]);
            assert(shorter.documents[j] == documents[j]);
        }
        assert forall|i: int| #![trigger shorter.documents[i]] 0 <= i
            < shorter.documents.len() implies shorter.documents[i].undo.len()
            + shorter.documents[i].redo.len() <= MAX_RETAINED_HISTORY_STEPS && 0
            <= shorter.documents[i].revision < shorter.next_revision by {
            assert(shorter.documents[i] == documents[i]);
        }
        lemma_kept(shorter, wanted);
        let before = kept(shorter.documents, wanted);
        let after = kept(documents, wanted);
        assert forall|i: int| #![trigger after[i]] 0 <= i < after.len() implies wanted(after[i].key)
            && documents.contains(after[i]) by {
            if i < before.len() {
                assert(after[i] == before[i]);
                let j = choose|j: int|
                    0 <= j < shorter.documents.len() && shorter.documents[j] == before[i];
                assert(documents[j] == before[i]);
            } else {
                assert(after[i] == documents[documents.len() - 1]);
            }
        }
        assert forall|i: int, j: int|
            #![trigger after[i], after[j]]
            0 <= i < j < after.len() implies after[i].key != after[j].key by {
            assert(after[i] == before[i]);
            if j < before.len() {
                assert(after[j] == before[j]);
            } else {
                let k = choose|k: int|
                    0 <= k < shorter.documents.len() && shorter.documents[k] == before[i];
                assert(documents[k] == before[i]);
                assert(after[j] == documents[documents.len() - 1]);
            }
        }
        assert forall|i: int| #![trigger after[i]] 0 <= i < after.len() implies after[i].undo.len()
            + after[i].redo.len() <= MAX_RETAINED_HISTORY_STEPS && 0 <= after[i].revision
            < ledger.next_revision by {
            let k = choose|k: int| 0 <= k < documents.len() && documents[k] == after[i];
            assert(documents[k] == after[i]);
        }
    }
}

proof fn lemma_without_is_kept(ledger: LedgerView, key: NativeDocumentKey)
    requires
        ledger.consistent(),
    ensures
        ledger.without(key).documents == kept(
            ledger.documents,
            |other: NativeDocumentKey| other != key,
        ),
    decreases ledger.documents.len(),
{
    let documents = ledger.documents;
    let wanted = |other: NativeDocumentKey| other != key;
    lemma_position_found(documents, key);
    if documents.len() > 0 {
        let shorter = LedgerView { documents: documents.drop_last(), ..ledger };
        assert forall|i: int, j: int|
            #![trigger shorter.documents[i], shorter.documents[j]]
            0 <= i < j < shorter.documents.len() implies shorter.documents[i].key
            != shorter.documents[j].key by {
            assert(shorter.documents[i] == documents[i]);
            assert(shorter.documents[j] == documents[j]);
        }
        assert forall|i: int| #![trigger shorter.documents[i]] 0 <= i
            < shorter.documents.len() implies shorter.documents[i].undo.len()
            + shorter.documents[i].redo.len() <= MAX_RETAINED_HISTORY_STEPS && 0
            <= shorter.documents[i].revision < shorter.next_revision by {
            assert(shorter.documents[i] == documents[i]);
        }
        lemma_without_is_kept(shorter, key);
        let found = position(documents, key);
        let last = documents.len() - 1;
        if found < last {
            assert(shorter.documents[found] == documents[found]);
            assert forall|i: int| 0 <= i < found implies (
            #[trigger] shorter.documents[i]).key != key by {
                assert(shorter.documents[i] == documents[i]);
            }
            lemma_position(shorter.documents, key, found);
            assert(documents[found].key != documents[last].key);
            assert(documents.remove(found) =~= shorter.documents.remove(found).push(
                documents.last(),
            ));
        } else {
            assert forall|i: int| 0 <= i < last implies (
            #[trigger] shorter.documents[i]).key != key by {
                assert(shorter.documents[i] == documents[i]);
            }
            lemma_position(shorter.documents, key, last);
            if found == last {
                assert(documents.remove(found) =~= shorter.documents);
            } else {
                assert(documents =~= shorter.documents.push(documents.last()));
            }
        }
    }
}

/// Undoing a step and redoing it brings back both stacks, in a new revision.
pub proof fn law_redo_reverts_undo(ledger: LedgerView, claim: HistoryClaim)
    requires
        ledger.consistent(),
        ledger.next_revision + 1 < u64::MAX,
        ledger.completes(claim, true),
        claim.direction is Undo,
    ensures
        ({
            let undone = ledger.completed(claim, true);
            let redo = undone.claim(claim.key, HistoryDirection::Redo);
            &&& undone.consistent()
            &&& redo matches Some(redo) && redo.expected_step == claim.expected_step
                && undone.completes(redo, true)
            &&& undone.completed(redo->0, true).find(claim.key) == Some(
                DocumentView {
                    revision: ledger.next_revision + 1,
                    ..ledger.find(claim.key)->0
                },
            )
        }),
{
    let document = ledger.find(claim.key)->0;
    let revised = ledger.revised();
    lemma_without(ledger, claim.key);
    lemma_without(revised, claim.key);
    let moved = document.moved(HistoryDirection::Undo, ledger.next_revision);
    lemma_retained(revised.without(claim.key), moved);
    let undone = ledger.completed(claim, true);
    assert(undone.find(claim.key) == Some(moved));
    let redo = undone.claim(claim.key, HistoryDirection::Redo)->0;
    let again = undone.revised();
    lemma_without(undone, claim.key);
    lemma_without(again, claim.key);
    let restored = moved.moved(HistoryDirection::Redo, undone.next_revision);
    assert(restored.undo =~= document.undo);
    assert(restored.redo =~= document.redo);
    lemma_retained(again.without(claim.key), restored);
}

/// A claim made before a new step of the same drawing cannot be completed after
/// it, and trying forgets the drawing.
pub proof fn law_new_step_makes_claims_stale(
    ledger: LedgerView,
    claim: HistoryClaim,
    step: ExecutionId,
)
    requires
        ledger.consistent(),
        ledger.claim(claim.key, claim.direction) == Some(claim),
    ensures
        !ledger.with_step(claim.key, step).completes(claim, true),
        ledger.with_step(claim.key, step).completed(claim, true).find(claim.key) is None,
{
    let after = ledger.with_step(claim.key, step);
    lemma_without(ledger, claim.key);
    if ledger.can_revise() {
        let document = ledger.find(claim.key)->0;
        lemma_without(ledger.revised(), claim.key);
        lemma_retained(
            ledger.revised().without(claim.key),
            document.stepped(step, ledger.next_revision),
        );
        lemma_without(after.revised(), claim.key);
    }
    lemma_without(after, claim.key);
}

/// A claim does not survive that its drawing is forgotten, even if a drawing of
/// the same key comes to be known again.
pub proof fn law_forgotten_drawing_makes_claims_stale(
    ledger: LedgerView,
    claim: HistoryClaim,
    step: ExecutionId,
)
    requires
        ledger.consistent(),
        ledger.claim(claim.key, claim.direction) == Some(claim),
    ensures
        !ledger.without(claim.key).completes(claim, true),
        !ledger.without(claim.key).with_step(claim.key, step).completes(claim, true),
{
    lemma_without(ledger, claim.key);
    let forgotten = ledger.without(claim.key);
    lemma_without(forgotten, claim.key);
    let after = forgotten.with_step(claim.key, step);
    if forgotten.can_revise() {
        lemma_without(forgotten.revised(), claim.key);
        let fresh = DocumentView {
            key: claim.key,
            revision: forgotten.next_revision,
            undo: Seq::empty(),
            redo: Seq::empty(),
        };
        lemma_retained(
            forgotten.revised().without(claim.key),
            fresh.stepped(step, forgotten.next_revision),
        );
    }
}

/// Once the revisions have run out, nothing is known any more and nothing comes
/// to be known.
pub proof fn law_exhaustion_is_final(
    ledger: LedgerView,
    key: NativeDocumentKey,
    direction: HistoryDirection,
    step: ExecutionId,
)
    requires
        ledger.consistent(),
        ledger.revision_exhausted,
    ensures
        ledger.claim(key, direction) is None,
        ledger.with_step(key, step) == ledger,
        ledger.without_redo(key) == ledger,
{
}

proof fn lemma_known(ledger: LedgerView, place: int)
    requires
        ledger.consistent(),
        0 <= place < ledger.documents.len(),
    ensures
        position(ledger.documents, ledger.documents[place].key) == place,
        ledger.find(ledger.documents[place].key) == Some(ledger.documents[place]),
        ledger.revised().documents.len() > 0 ==> ledger.revised().find(ledger.documents[place].key)
            == Some(ledger.documents[place]),
{
    let key = ledger.documents[place].key;
    assert forall|i: int| 0 <= i < place implies (#[trigger] ledger.documents[i]).key != key by {
        assert(ledger.documents[i].key != ledger.documents[place].key);
    }
    lemma_position(ledger.documents, key, place);
}

/// The drawing has no history in the ledger.
pub open spec fn unknown(ledger: LedgerView, key: NativeDocumentKey) -> bool {
    forall|i: int| 0 <= i < ledger.documents.len() ==> (#[trigger] ledger.documents[i]).key != key
}

proof fn lemma_unknown(ledger: LedgerView, key: NativeDocumentKey)
    requires
        unknown(ledger, key),
    ensures
        position(ledger.documents, key) == ledger.documents.len(),
        ledger.find(key) is None,
        ledger.without(key) == ledger,
{
    lemma_position(ledger.documents, key, ledger.documents.len() as int);
}

/// The step to undo is the last one that was made or redone, and the step to redo is the
/// last one that was undone; a claim carries it, with the revision that it was made in.
/// Without such a step there is no claim.
pub proof fn law_claim_is_on_the_last_step(ledger: LedgerView, place: int, key: NativeDocumentKey)
    requires
        ledger.consistent(),
    ensures
        unknown(ledger, key) ==> ledger.claim(key, HistoryDirection::Undo) is None && ledger.claim(
            key,
            HistoryDirection::Redo,
        ) is None,
        0 <= place < ledger.documents.len() && ledger.documents[place].key == key ==> {
            let document = ledger.documents[place];
            let undo = ledger.claim(key, HistoryDirection::Undo);
            let redo = ledger.claim(key, HistoryDirection::Redo);
            &&& undo is None <==> document.undo.len() == 0
            &&& redo is None <==> document.redo.len() == 0
            &&& undo is Some ==> undo->0.key == key && undo->0.direction is Undo
                && undo->0.expected_step == document.undo[document.undo.len() - 1]
                && undo->0.revision.0 as int == document.revision
            &&& redo is Some ==> redo->0.key == key && redo->0.direction is Redo
                && redo->0.expected_step == document.redo[document.redo.len() - 1]
                && redo->0.revision.0 as int == document.revision
        },
{
    if unknown(ledger, key) {
        lemma_unknown(ledger, key);
    }
    if 0 <= place < ledger.documents.len() && ledger.documents[place].key == key {
        lemma_known(ledger, place);
    }
}

/// A new step of a drawing comes on top of the steps that can be undone, of which no more
/// than 256 are remembered, the latest; nothing can be redone any more. The drawing is the
/// latest of the ledger, and every other one stays as it was.
pub proof fn law_new_step_comes_on_top(
    ledger: LedgerView,
    place: int,
    step: ExecutionId,
)
    requires
        ledger.consistent(),
        !ledger.revision_exhausted,
        ledger.next_revision < u64::MAX,
        0 <= place < ledger.documents.len(),
    ensures
        ({
            let document = ledger.documents[place];
            let after = ledger.with_step(document.key, step);
            let last = after.documents.last();
            &&& after.documents == ledger.documents.remove(place).push(last)
            &&& last.key == document.key
            &&& last.revision == ledger.next_revision
            &&& last.redo.len() == 0
            &&& last.undo.len() > 0
            &&& last.undo[last.undo.len() - 1] == step
            &&& document.undo.len() < 256 ==> last.undo.drop_last() == document.undo
            &&& document.undo.len() == 256 ==> last.undo.drop_last() == document.undo.skip(1)
            &&& after.next_revision == ledger.next_revision + 1
        }),
{
    let document = ledger.documents[place];
    lemma_known(ledger, place);
    let after = ledger.with_step(document.key, step);
    let last = after.documents.last();
    assert(after.documents =~= ledger.documents.remove(place).push(last));
    assert(last.undo.drop_last() =~= if document.undo.len() == 256 {
        document.undo.skip(1)
    } else {
        document.undo
    });
}

/// The first step of a drawing makes it known, with that one step to undo. No more than 32
/// drawings are remembered, the latest; the others stay as they were.
pub proof fn law_first_step_makes_a_drawing_known(
    ledger: LedgerView,
    key: NativeDocumentKey,
    step: ExecutionId,
)
    requires
        ledger.consistent(),
        !ledger.revision_exhausted,
        ledger.next_revision < u64::MAX,
        unknown(ledger, key),
    ensures
        ({
            let after = ledger.with_step(key, step);
            let last = after.documents.last();
            &&& last.key == key
            &&& last.revision == ledger.next_revision
            &&& last.undo == seq![step]
            &&& last.redo.len() == 0
            &&& ledger.documents.len() < 32 ==> after.documents == ledger.documents.push(last)
            &&& ledger.documents.len() == 32 ==> after.documents == ledger.documents.skip(1).push(
                last,
            )
        }),
{
    lemma_unknown(ledger, key);
    lemma_unknown(ledger.revised(), key);
    let after = ledger.with_step(key, step);
    assert(after.documents.last().undo =~= seq![step]);
}

/// Undoing the last step of a drawing leaves the steps below it to undo, and the step
/// itself to redo; redoing it is the other way round. Every other drawing stays as it was.
pub proof fn law_carried_out_step_changes_sides(ledger: LedgerView, place: int, claim: HistoryClaim)
    requires
        ledger.consistent(),
        !ledger.revision_exhausted,
        ledger.next_revision < u64::MAX,
        0 <= place < ledger.documents.len(),
        claim.key == ledger.documents[place].key,
        claim.revision.0 as int == ledger.documents[place].revision,
        claim.direction is Undo ==> ledger.documents[place].undo.len() > 0
            && ledger.documents[place].undo.last() == claim.expected_step,
        claim.direction is Redo ==> ledger.documents[place].redo.len() > 0
            && ledger.documents[place].redo.last() == claim.expected_step,
    ensures
        ledger.completes(claim, true),
        ({
            let document = ledger.documents[place];
            let after = ledger.completed(claim, true);
            let last = after.documents.last();
            &&& after.documents == ledger.documents.remove(place).push(last)
            &&& last.key == document.key
            &&& last.revision == ledger.next_revision
            &&& claim.direction is Undo ==> last.undo.push(claim.expected_step) == document.undo
                && last.redo == document.redo.push(claim.expected_step)
            &&& claim.direction is Redo ==> last.redo.push(claim.expected_step) == document.redo
                && last.undo == document.undo.push(claim.expected_step)
        }),
{
    let document = ledger.documents[place];
    lemma_known(ledger, place);
    let after = ledger.completed(claim, true);
    let last = after.documents.last();
    assert(after.documents =~= ledger.documents.remove(place).push(last));
    if claim.direction is Undo {
        assert(last.undo.push(claim.expected_step) =~= document.undo);
    } else {
        assert(last.redo.push(claim.expected_step) =~= document.redo);
    }
}

/// A step that could not be undone or redone makes the ledger forget its drawing, and so
/// does one that was not claimed in the present state; every other drawing stays as it
/// was, and nothing counts as carried out.
pub proof fn law_failed_step_forgets_its_drawing(ledger: LedgerView, place: int, claim: HistoryClaim)
    requires
        ledger.consistent(),
        !ledger.revision_exhausted,
        ledger.next_revision < u64::MAX,
        0 <= place < ledger.documents.len(),
        claim.key == ledger.documents[place].key,
    ensures
        !ledger.completes(claim, false),
        ledger.completed(claim, false).documents == ledger.documents.remove(place),
        claim.revision.0 as int != ledger.documents[place].revision ==> {
            &&& !ledger.completes(claim, true)
            &&& ledger.completed(claim, true).documents == ledger.documents.remove(place)
        },
{
    lemma_known(ledger, place);
}

/// An execution that made no step of its own leaves nothing to redo in its drawing, and
/// what can be undone stays; every other drawing stays as it was.
pub proof fn law_execution_without_a_step_clears_redo(ledger: LedgerView, place: int)
    requires
        ledger.consistent(),
        !ledger.revision_exhausted,
        ledger.next_revision < u64::MAX,
        0 <= place < ledger.documents.len(),
    ensures
        ({
            let document = ledger.documents[place];
            let after = ledger.without_redo(document.key);
            let last = after.documents.last();
            &&& after.documents == ledger.documents.remove(place).push(last)
            &&& last.key == document.key
            &&& last.undo == document.undo
            &&& last.redo.len() == 0
            &&& last.revision == if document.redo.len() == 0 {
                document.revision
            } else {
                ledger.next_revision
            }
        }),
{
    let document = ledger.documents[place];
    lemma_known(ledger, place);
    let after = ledger.without_redo(document.key);
    if document.redo.len() == 0 {
        assert(document.redo =~= Seq::empty());
    }
    assert(after.documents =~= ledger.documents.remove(place).push(after.documents.last()));
}

/// The drawings that stay open keep their history, in their order; the others are
/// forgotten.
pub proof fn law_open_drawings_keep_their_history(
    documents: Seq<DocumentView>,
    wanted: spec_fn(NativeDocumentKey) -> bool,
)
    ensures
        forall|i: int|
            0 <= i < documents.len() && wanted((#[trigger] documents[i]).key) ==> kept(
                documents,
                wanted,
            ).contains(documents[i]),
        forall|i: int|
            0 <= i < kept(documents, wanted).len() ==> wanted(
                (#[trigger] kept(documents, wanted)[i]).key,
            ) && documents.contains(kept(documents, wanted)[i]),
        kept(documents, wanted).len() <= documents.len(),
        (forall|i: int| 0 <= i < documents.len() ==> wanted((#[trigger] documents[i]).key))
            ==> kept(documents, wanted) == documents,
    decreases documents.len(),
{
    if documents.len() > 0 {
        let front = documents.drop_last();
        law_open_drawings_keep_their_history(front, wanted);
        let before = kept(front, wanted);
        let after = kept(documents, wanted);
        assert forall|i: int| 0 <= i < documents.len() && wanted(
            (#[trigger] documents[i]).key,
        ) implies after.contains(documents[i]) by {
            if i < front.len() {
                assert(front[i] == documents[i]);
                let k = choose|k: int| 0 <= k < before.len() && before[k] == front[i];
                assert(after[k] == documents[i]);
            } else {
                assert(after[before.len() as int] == documents[i]);
            }
        }
        assert forall|i: int| 0 <= i < after.len() implies wanted((#[trigger] after[i]).key)
            && documents.contains(after[i]) by {
            if i < before.len() {
                assert(after[i] == before[i]);
                let k = choose|k: int| 0 <= k < front.len() && front[k] == before[i];
                assert(documents[k] == after[i]);
            } else {
                assert(after[i] == documents[documents.len() - 1]);
            }
        }
        if forall|i: int| 0 <= i < documents.len() ==> wanted((#[trigger] documents[i]).key) {
            assert forall|i: int| 0 <= i < front.len() implies wanted((#[trigger] front[i]).key) by {
                assert(front[i] == documents[i]);
            }
            assert(wanted(documents[documents.len() - 1].key));
            assert(after =~= documents);
        }
    }
}

impl DocumentHistory {
    fn top(&self, direction: HistoryDirection) -> (step: Option<ExecutionId>)
        ensures
            step == self@.top(direction),
    {
        match direction {
            HistoryDirection::Undo => {
                let count: usize = self.undo.len();
                if count > 0 {
                    Some(self.undo[count - 1])
                } else {
                    None
                }
            },
            HistoryDirection::Redo => {
                let count: usize = self.redo.len();
                if count > 0 {
                    Some(self.redo[count - 1])
                } else {
                    None
                }
            },
        }
    }
}

fn contains_key(keys: &Vec<NativeDocumentKey>, key: NativeDocumentKey) -> (result: bool)
    ensures
        result == keys@.contains(key),
{
    let mut index: usize = 0;
    while index < keys.len()
        invariant
            index <= keys@.len(),
            forall|i: int| 0 <= i < index ==> keys@[i] != key,
        decreases keys@.len() - index,
    {
        if keys[index] == key {
            assert(keys@[index as int] == key);
            return true;
        }
        index = index + 1;
    }
    false
}

impl HistoryLedger {
    pub open spec fn well_formed(&self) -> bool {
        self@.consistent()
    }

    /// A ledger that knows nothing.
    pub fn new() -> (ledger: HistoryLedger)
        ensures
            ledger.well_formed(),
            ledger@ == LedgerView::empty(),
    {
        let ledger = HistoryLedger {
            documents: VecDeque::new(),
            next_revision: 1,
            revision_exhausted: false,
        };
        assert(ledger@ =~= LedgerView::empty());
        ledger
    }

    /// Forgets every drawing that is not among the keys.
    pub fn reconcile_documents(&mut self, keys: Vec<NativeDocumentKey>)
        requires
            old(self).well_formed(),
        ensures
            final(self).well_formed(),
            final(self)@ == (LedgerView {
                documents: kept(
                    old(self)@.documents,
                    |key: NativeDocumentKey| keys@.contains(key),
                ),
                ..old(self)@
            }),
    {
        let ghost before = self@;
        let ghost wanted = |key: NativeDocumentKey| keys@.contains(key);
        proof {
            lemma_kept(before, wanted);
        }
        let mut kept_documents: VecDeque<DocumentHistory> = VecDeque::new();
        let count: usize = self.documents.len();
        let mut index: usize = 0;
        proof {
            assert(before.documents.take(0) =~= Seq::<DocumentView>::empty());
            assert(kept_documents@.map_values(|document: DocumentHistory| document@)
                =~= Seq::<DocumentView>::empty());
            assert(before.documents.skip(0) =~= self@.documents);
        }
        while index < count
            invariant
                index <= count,
                count == before.documents.len(),
                self@.documents == before.documents.skip(index as int),
                self@.next_revision == before.next_revision,
                self@.revision_exhausted == before.revision_exhausted,
                wanted == (|key: NativeDocumentKey| keys@.contains(key)),
                kept_documents@.map_values(|document: DocumentHistory| document@) == kept(
                    before.documents.take(index as int),
                    wanted,
                ),
            decreases count - index,
        {
            let ghost rest = self.documents@;
            let ghost rest_views = self@.documents;
            proof {
                assert(rest.len() == rest_views.len());
            }
            match self.documents.pop_front() {
                Some(document) => {
                    proof {
                        assert(rest_views[0] == rest[0]@);
                        assert(before.documents[index as int] == document@);
                        assert forall|i: int| 0 <= i < self@.documents.len() implies
                            #[trigger] self@.documents[i] == rest_views[i + 1] by {
                            assert(self@.documents[i] == rest[i + 1]@);
                        }
                        let next = before.documents.take(index + 1);
                        assert(next.drop_last() =~= before.documents.take(index as int));
                        assert(next.last() == document@);
                        assert(self@.documents =~= before.documents.skip(index + 1));
                    }
                    if contains_key(&keys, document.key) {
                        let ghost earlier = kept_documents@;
                        kept_documents.push_back(document);
                        assert(kept_documents@.map_values(|document: DocumentHistory| document@)
                            =~= earlier.map_values(|document: DocumentHistory| document@).push(
                            document@,
                        ));
                    }
                },
                None => {},
            }
            index = index + 1;
        }
        assert(before.documents.take(count as int) =~= before.documents);
        self.documents = kept_documents;
    }

    fn find_position(&self, key: NativeDocumentKey) -> (found: usize)
        ensures
            found == position(self@.documents, key),
            found <= self@.documents.len(),
    {
        let mut index: usize = 0;
        while index < self.documents.len()
            invariant
                index <= self@.documents.len(),
                self@.documents.len() == self.documents@.len(),
                forall|i: int| 0 <= i < index ==> (#[trigger] self@.documents[i]).key != key,
            decreases self@.documents.len() - index,
        {
            assert(self@.documents[index as int] == self.documents@[index as int]@);
            if self.documents[index].key == key {
                proof {
                    lemma_position(self@.documents, key, index as int);
                }
                return index;
            }
            index = index + 1;
        }
        proof {
            lemma_position(self@.documents, key, index as int);
        }
        index
    }

    /// Forgets a drawing.
    pub fn invalidate(&mut self, key: NativeDocumentKey)
        requires
            old(self).well_formed(),
        ensures
            final(self).well_formed(),
            final(self)@ == old(self)@.without(key),
            final(self)@.documents == kept(
                old(self)@.documents,
                |other: NativeDocumentKey| other != key,
            ),
    {
        proof {
            lemma_without_is_kept(self@, key);
            lemma_without(self@, key);
        }
        let _ = self.take_document(key);
    }

    /// Forgets every drawing.
    pub fn invalidate_all(&mut self)
        requires
            old(self).well_formed(),
        ensures
            final(self).well_formed(),
            final(self)@ == (LedgerView { documents: Seq::empty(), ..old(self)@ }),
    {
        let ghost before = self@;
        self.documents.clear();
        assert(self@ =~= (LedgerView { documents: Seq::empty(), ..before }));
    }

    /// An execution made one step in a drawing.
    pub fn record_owned_step(&mut self, key: NativeDocumentKey, step: ExecutionId)
        requires
            old(self).well_formed(),
        ensures
            final(self).well_formed(),
            final(self)@ == old(self)@.with_step(key, step),
    {
        let ghost before = self@;
        let revision = match self.allocate_revision() {
            Some(revision) => revision,
            None => {
                return ;
            },
        };
        proof {
            lemma_without(before, key);
            lemma_without(before.revised(), key);
        }
        let mut history = match self.take_document(key) {
            Some(history) => history,
            None => DocumentHistory {
                key,
                revision,
                undo: VecDeque::new(),
                redo: VecDeque::new(),
            },
        };
        let ghost document = history@;
        proof {
            assert(before.find(key) is None ==> document =~= (DocumentView {
                key,
                revision: before.next_revision,
                undo: Seq::empty(),
                redo: Seq::empty(),
            }));
        }
        history.redo.clear();
        if history.undo.len() == MAX_RETAINED_HISTORY_STEPS {
            let _ = history.undo.pop_front();
        }
        history.undo.push_back(step);
        history.revision = revision;
        proof {
            assert(history@ =~= document.stepped(step, before.next_revision));
            lemma_retained(self@, history@);
        }
        self.retain_document(history);
    }

    /// An execution changed a drawing without making a step.
    pub fn record_no_step_execution(&mut self, key: NativeDocumentKey)
        requires
            old(self).well_formed(),
        ensures
            final(self).well_formed(),
            final(self)@ == old(self)@.without_redo(key),
    {
        let ghost before = self@;
        proof {
            lemma_without(before, key);
        }
        let mut history = match self.take_document(key) {
            Some(history) => history,
            None => {
                return ;
            },
        };
        let ghost document = history@;
        if history.redo.len() == 0 {
            proof {
                lemma_retained(self@, document);
            }
            self.retain_document(history);
            return ;
        }
        let ghost taken = self@;
        let revision = match self.allocate_revision() {
            Some(revision) => revision,
            None => {
                return ;
            },
        };
        history.redo.clear();
        history.revision = revision;
        proof {
            assert(history@ =~= (DocumentView {
                redo: Seq::empty(),
                revision: before.next_revision,
                ..document
            }));
            lemma_retained(self@, history@);
        }
        self.retain_document(history);
    }

    /// The intention to undo or redo the top step, where one is known.
    pub fn prepare(&self, key: NativeDocumentKey, direction: HistoryDirection) -> (claim: Option<
        HistoryClaim,
    >)
        ensures
            claim == self@.claim(key, direction),
    {
        let found: usize = self.find_position(key);
        if found == self.documents.len() {
            return None;
        }
        assert(self@.documents[found as int] == self.documents@[found as int]@);
        let history = &self.documents[found];
        match history.top(direction) {
            Some(expected_step) => Some(
                HistoryClaim { key, direction, expected_step, revision: history.revision },
            ),
            None => None,
        }
    }

    /// A claim was carried out; says whether the ledger follows it.
    pub fn complete(&mut self, claim: HistoryClaim, succeeded: bool) -> (completed: bool)
        requires
            old(self).well_formed(),
        ensures
            final(self).well_formed(),
            completed == old(self)@.completes(claim, succeeded),
            final(self)@ == old(self)@.completed(claim, succeeded),
    {
        let ghost before = self@;
        if !succeeded {
            self.invalidate(claim.key);
            return false;
        }
        let revision = match self.allocate_revision() {
            Some(revision) => revision,
            None => {
                return false;
            },
        };
        proof {
            lemma_without(before, claim.key);
            lemma_without(before.revised(), claim.key);
        }
        let mut history = match self.take_document(claim.key) {
            Some(history) => history,
            None => {
                return false;
            },
        };
        let ghost document = history@;
        let top = history.top(claim.direction);
        let matching = match top {
            Some(step) => step == claim.expected_step,
            None => false,
        };
        if history.revision != claim.revision || !matching {
            return false;
        }
        match claim.direction {
            HistoryDirection::Undo => {
                if let Some(step) = history.undo.pop_back() {
                    history.redo.push_back(step);
                }
                assert(history.undo@ =~= document.undo.drop_last());
            },
            HistoryDirection::Redo => {
                if let Some(step) = history.redo.pop_back() {
                    history.undo.push_back(step);
                }
                assert(history.redo@ =~= document.redo.drop_last());
            },
        }
        history.revision = revision;
        proof {
            assert(history@ =~= document.moved(claim.direction, before.next_revision));
            lemma_retained(self@, history@);
        }
        self.retain_document(history);
        true
    }

    /// An undo or redo was issued without a claim.
    pub fn force_issued(&mut self, key: NativeDocumentKey)
        requires
            old(self).well_formed(),
        ensures
            final(self).well_formed(),
            final(self)@ == old(self)@.without(key),
    {
        self.invalidate(key);
    }

    pub fn seed_owned_step(&mut self, key: NativeDocumentKey, value: u64)
        requires
            old(self).well_formed(),
        ensures
            final(self).well_formed(),
            final(self)@ == old(self)@.with_step(key, ExecutionId(value)),
    {
        self.record_owned_step(key, ExecutionId::from_raw(value));
    }

    /// Whether a step of the drawing can be undone or redone.
    pub fn has_owned_step(&self, key: NativeDocumentKey) -> (result: bool)
        ensures
            result == (self@.claim(key, HistoryDirection::Undo) is Some || self@.claim(
                key,
                HistoryDirection::Redo,
            ) is Some),
    {
        self.prepare(key, HistoryDirection::Undo).is_some() || self.prepare(
            key,
            HistoryDirection::Redo,
        ).is_some()
    }

    fn take_document(&mut self, key: NativeDocumentKey) -> (taken: Option<DocumentHistory>)
        ensures
            final(self)@ == old(self)@.without(key),
            match taken {
                Some(taken) => old(self)@.find(key) == Some(taken@),
                None => old(self)@.find(key) is None,
            },
    {
        let ghost before = self@;
        let ghost documents = self.documents@;
        let found: usize = self.find_position(key);
        if found == self.documents.len() {
            return None;
        }
        assert(before.documents[found as int] == documents[found as int]@);
        let taken = self.documents.remove(found);
        assert(self@ =~= before.without(key));
        taken
    }

    fn retain_document(&mut self, history: DocumentHistory)
        requires
            old(self)@.documents.len() <= MAX_TRACKED_HISTORY_DOCUMENTS,
        ensures
            final(self)@ == old(self)@.retained(history@),
    {
        let ghost before = self@;
        if self.documents.len() == MAX_TRACKED_HISTORY_DOCUMENTS {
            let _ = self.documents.pop_front();
        }
        self.documents.push_back(history);
        assert(self@ =~= before.retained(history@));
    }

    fn allocate_revision(&mut self) -> (revision: Option<HistoryRevision>)
        requires
            old(self).well_formed(),
        ensures
            final(self).well_formed(),
            final(self)@ == old(self)@.revised(),
            revision is Some <==> old(self)@.can_revise(),
            revision matches Some(revision) ==> revision.0 == old(self)@.next_revision,
    {
        let ghost before = self@;
        if self.revision_exhausted {
            return None;
        }
        let revision = HistoryRevision(self.next_revision);
        if self.next_revision == u64::MAX {
            self.documents.clear();
            self.revision_exhausted = true;
            assert(self@ =~= before.revised());
            return None;
        }
        self.next_revision = self.next_revision + 1;
        assert(self@ =~= before.revised());
        Some(revision)
    }
}

impl ExecutionId {
    pub fn from_raw(value: u64) -> (id: ExecutionId)
        ensures
            id == ExecutionId(value),
    {
        ExecutionId(value)
    }
}

} // verus!
