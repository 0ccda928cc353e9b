//! Public identifiers: short, drawn at random, and kept for as long as a
//! document stays open.
use vstd::prelude::*;

verus! {

/// How often an identifier is drawn at random before the free ones are searched.
pub const DRAW_LIMIT: u32 = 64;

/// `nanoid::format` with `nanoid::rngs::default`, which is what the `nanoid!` macro
/// calls: a random text of the given length over the alphabet. It never returns
/// for an empty alphabet or a length of zero, refuses an alphabet of more than 255
/// characters, and counts the length in bytes. Which text it is depends on chance.
#[verifier::external_body]
pub(crate) fn random_text(alphabet: &[char], length: usize) -> (drawn: String)
    requires
        0 < alphabet@.len() <= 255,
        forall|i: int| 0 <= i < alphabet@.len() ==> (#[trigger] alphabet@[i] as u32) < 0x80,
        0 < length <= 1024,
    ensures
        drawn@.len() == length,
        forall|i: int| 0 <= i < drawn@.len() ==> alphabet@.contains(#[trigger] drawn@[i]),
{
    nanoid::format(nanoid::rngs::default, alphabet, length)
}

/// A kind of identifier, of which there are `count()` different ones.
pub trait PublicId: View + Sized {
    spec fn genuine(id: Self::V) -> bool;

    spec fn count() -> nat;

    /// The identifiers in some order.
    spec fn nth(index: int) -> Self::V;

    proof fn nth_is_genuine(index: int)
        requires
            0 <= index < Self::count(),
        ensures
            Self::genuine(Self::nth(index)),
    ;

    proof fn nth_is_distinct(left: int, right: int)
        requires
            0 <= left < right < Self::count(),
        ensures
            Self::nth(left) != Self::nth(right),
    ;

    fn same(&self, other: &Self) -> (result: bool)
        ensures
            result == (self@ == other@),
    ;

    fn duplicate(&self) -> (copy: Self)
        ensures
            copy@ == self@,
    ;

    /// An identifier drawn at random, unless what was drawn is none.
    fn draw() -> (drawn: Option<Self>)
        ensures
            drawn matches Some(id) ==> Self::genuine(id@),
    ;

    fn candidate(index: u64) -> (id: Self)
        requires
            index < Self::count(),
        ensures
            id@ == Self::nth(index as int),
    ;
}

/// The identifiers in a list.
pub open spec fn ids<I: PublicId>(entries: Seq<I>) -> Seq<I::V> {
    entries.map_values(|id: I| id@)
}

fn is_reserved<I: PublicId>(reserved: &Vec<I>, id: &I) -> (result: bool)
    ensures
        result == ids(reserved@).contains(id@),
{
    let mut index: usize = 0;
    while index < reserved.len()
        invariant
            index <= reserved@.len(),
            forall|i: int| 0 <= i < index ==> (#[trigger] reserved@[i])@ != id@,
        decreases reserved@.len() - index,
    {
        if reserved[index].same(id) {
            assert(ids(reserved@)[index as int] == id@);
            return true;
        }
        index = index + 1;
    }
    proof {
        if ids(reserved@).contains(id@) {
            let i = choose|i: int| 0 <= i < ids(reserved@).len() && ids(reserved@)[i] == id@;
            assert(reserved@[i]@ == id@);
        }
    }
    false
}

/// Of more candidates than there are places in a list, one is not in it.
proof fn lemma_one_is_free<I: PublicId>(taken: Seq<I::V>, upto: int)
    requires
        taken.len() < upto <= I::count(),
    ensures
        exists|index: int| 0 <= index < upto && !taken.contains(#[trigger] I::nth(index)),
    decreases taken.len(),
{
    if forall|index: int| 0 <= index < upto ==> taken.contains(#[trigger] I::nth(index)) {
        let last = I::nth(upto - 1);
        assert(taken.contains(last));
        let at = choose|at: int| 0 <= at < taken.len() && taken[at] == last;
        let rest = taken.remove(at);
        lemma_one_is_free::<I>(rest, upto - 1);
        let index = choose|index: int|
            0 <= index < upto - 1 && !rest.contains(#[trigger] I::nth(index));
        I::nth_is_distinct(index, upto - 1);
        assert(taken.contains(I::nth(index)));
        let found = choose|found: int| 0 <= found < taken.len() && taken[found] == I::nth(index);
        if found < at {
            assert(rest[found] == I::nth(index));
        } else {
            assert(rest[found - 1] == I::nth(index));
        }
        assert(false);
    }
}

/// An identifier that is not reserved: one drawn at random, or the first free one
/// where chance keeps hitting reserved ones.
pub fn fresh_id<I: PublicId>(reserved: &Vec<I>) -> (id: I)
    requires
        reserved@.len() < I::count(),
    ensures
        I::genuine(id@),
        !ids(reserved@).contains(id@),
{
    let mut attempt: u32 = 0;
    while attempt < DRAW_LIMIT
        decreases DRAW_LIMIT - attempt,
    {
        if let Some(id) = I::draw() {
            if !is_reserved(reserved, &id) {
                return id;
            }
        }
        attempt = attempt + 1;
    }
    let mut index: usize = 0;
    while index < reserved.len()
        invariant
            index <= reserved@.len() < I::count(),
            forall|i: int|
                0 <= i < index ==> ids(reserved@).contains(#[trigger] I::nth(i)),
        decreases reserved@.len() - index,
    {
        let id = I::candidate(index as u64);
        proof {
            I::nth_is_genuine(index as int);
        }
        if !is_reserved(reserved, &id) {
            return id;
        }
        index = index + 1;
    }
    proof {
        lemma_one_is_free::<I>(ids(reserved@), reserved@.len() as int + 1);
        I::nth_is_genuine(index as int);
    }
    I::candidate(index as u64)
}

/// A document that was open before, and its identifier.
pub struct Known<I> {
    pub token: usize,
    pub id: I,
}

/// The place of a document in the new list, and its identifier.
pub struct Assigned<I> {
    pub index: usize,
    pub id: I,
}

/// Whether a token occurs in front of a position.
pub open spec fn seen_before(tokens: Seq<usize>, index: int) -> bool {
    exists|i: int| 0 <= i < index && tokens[i] == tokens[index]
}

/// The positions below `upto` where a token occurs for the first time.
pub open spec fn first_positions(tokens: Seq<usize>, upto: int) -> Seq<int>
    decreases upto,
{
    if upto <= 0 {
        Seq::empty()
    } else if seen_before(tokens, upto - 1) {
        first_positions(tokens, upto - 1)
    } else {
        first_positions(tokens, upto - 1).push(upto - 1)
    }
}

/// The known document with a token.
pub open spec fn known_with<I: PublicId>(known: Seq<Known<I>>, token: usize) -> Option<I::V>
    decreases known.len(),
{
    if known.len() == 0 {
        None
    } else if known.last().token == token {
        Some(known.last().id@)
    } else {
        known_with(known.drop_last(), token)
    }
}

/// Each token belongs to one document and each identifier too.
pub open spec fn unambiguous<I: PublicId>(known: Seq<Known<I>>) -> bool {
    &&& forall|i: int| 0 <= i < known.len() ==> I::genuine((#[trigger] known[i]).id@)
    &&& forall|i: int, j: int|
        #![trigger known[i], known[j]]
        0 <= i < j < known.len() ==> known[i].token != known[j].token && known[i].id@
            != known[j].id@
}

/// The identifiers of a new list of documents: a document that stays open keeps
/// its own, and any other gets one that no document had or has.
pub open spec fn assigned_ids<I: PublicId>(
    known: Seq<Known<I>>,
    tokens: Seq<usize>,
    assigned: Seq<Assigned<I>>,
) -> bool {
    &&& assigned.map_values(|entry: Assigned<I>| entry.index as int) == first_positions(
        tokens,
        tokens.len() as int,
    )
    &&& forall|i: int|
        #![trigger assigned[i]]
        0 <= i < assigned.len() ==> {
            &&& I::genuine(assigned[i].id@)
            &&& match known_with(known, tokens[assigned[i].index as int]) {
                Some(id) => assigned[i].id@ == id,
                None => forall|j: int|
                    0 <= j < known.len() ==> (#[trigger] known[j]).id@ != assigned[i].id@,
            }
        }
    &&& forall|i: int, j: int|
        #![trigger assigned[i], assigned[j]]
        0 <= i < j < assigned.len() ==> assigned[i].id@ != assigned[j].id@
}

pub proof fn lemma_first_positions(tokens: Seq<usize>, upto: int)
    requires
        0 <= upto <= tokens.len(),
    ensures
        first_positions(tokens, upto).len() <= upto,
        forall|k: int|
            #![trigger first_positions(tokens, upto)[k]]
            0 <= k < first_positions(tokens, upto).len() ==> 0 <= first_positions(tokens, upto)[k]
                < upto && !seen_before(tokens, first_positions(tokens, upto)[k]),
        forall|k: int, l: int|
            #![trigger first_positions(tokens, upto)[k], first_positions(tokens, upto)[l]]
            0 <= k < l < first_positions(tokens, upto).len() ==> first_positions(tokens, upto)[k]
                < first_positions(tokens, upto)[l] && tokens[first_positions(tokens, upto)[k]]
                != tokens[first_positions(tokens, upto)[l]],
    decreases upto,
{
    if upto > 0 {
        lemma_first_positions(tokens, upto - 1);
    }
}

proof fn lemma_known_with<I: PublicId>(known: Seq<Known<I>>, token: usize)
    ensures
        match known_with(known, token) {
            Some(id) => exists|j: int|
                0 <= j < known.len() && (#[trigger] known[j]).token == token && known[j].id@ == id,
            None => forall|j: int| 0 <= j < known.len() ==> (#[trigger] known[j]).token != token,
        },
    decreases known.len(),
{
    if known.len() > 0 {
        let rest = known.drop_last();
        lemma_known_with(rest, token);
        if known.last().token == token {
            assert(known[known.len() - 1].token == token);
        } else {
            match known_with(rest, token) {
                Some(id) => {
                    let j = choose|j: int|
                        0 <= j < rest.len() && (#[trigger] rest[j]).token == token && rest[j].id@
                            == id;
                    assert(known[j] == rest[j]);
                },
                None => {
                    assert forall|j: int| 0 <= j < known.len() implies (
                    #[trigger] known[j]).token != token by {
                        if j < rest.len() {
                            assert(known[j] == rest[j]);
                        }
                    }
                },
            }
        }
    }
}

fn find_known<'a, I: PublicId>(known: &'a Vec<Known<I>>, token: usize) -> (found: Option<&'a I>)
    requires
        unambiguous(known@),
    ensures
        match found {
            Some(id) => known_with(known@, token) == Some(id@) && ids_of(known@).contains(id@),
            None => known_with(known@, token) is None,
        },
{
    let mut index: usize = 0;
    proof {
        lemma_known_with(known@, token);
    }
    while index < known.len()
        invariant
            index <= known@.len(),
            unambiguous(known@),
            match known_with(known@, token) {
                Some(id) => exists|j: int|
                    0 <= j < known@.len() && (#[trigger] known@[j]).token == token && known@[j].id@
                        == id,
                None => forall|j: int|
                    0 <= j < known@.len() ==> (#[trigger] known@[j]).token != token,
            },
            forall|j: int| 0 <= j < index ==> (#[trigger] known@[j]).token != token,
        decreases known@.len() - index,
    {
        if known[index].token == token {
            proof {
                let id = known_with(known@, token)->0;
                let j = choose|j: int|
                    0 <= j < known@.len() && (#[trigger] known@[j]).token == token && known@[j].id@
                        == id;
                assert(j == index);
                assert(ids_of(known@)[index as int] == known@[index as int].id@);
            }
            return Some(&known[index].id);
        }
        index = index + 1;
    }
    None
}

/// The tokens of some documents.
pub open spec fn tokens_of<I: PublicId>(known: Seq<Known<I>>) -> Seq<usize> {
    known.map_values(|entry: Known<I>| entry.token)
}

/// How many tokens below `upto` are new: each counts once, and one that is held does not.
pub open spec fn newcomers(held: Seq<usize>, tokens: Seq<usize>, upto: int) -> nat
    decreases upto,
{
    if upto <= 0 {
        0
    } else if seen_before(tokens, upto - 1) || held.contains(tokens[upto - 1]) {
        newcomers(held, tokens, upto - 1)
    } else {
        newcomers(held, tokens, upto - 1) + 1
    }
}

pub proof fn lemma_newcomers_bound(held: Seq<usize>, tokens: Seq<usize>, upto: int)
    requires
        0 <= upto,
    ensures
        newcomers(held, tokens, upto) <= upto,
    decreases upto,
{
    if upto > 0 {
        lemma_newcomers_bound(held, tokens, upto - 1);
    }
}

pub proof fn lemma_no_newcomers(held: Seq<usize>, tokens: Seq<usize>, upto: int)
    requires
        0 <= upto <= tokens.len(),
        forall|i: int| 0 <= i < tokens.len() ==> held.contains(#[trigger] tokens[i]),
    ensures
        newcomers(held, tokens, upto) == 0,
    decreases upto,
{
    if upto > 0 {
        lemma_no_newcomers(held, tokens, upto - 1);
        assert(held.contains(tokens[upto - 1]));
    }
}

proof fn lemma_newcomers_grow(held: Seq<usize>, tokens: Seq<usize>, upto: int, beyond: int)
    requires
        upto <= beyond,
    ensures
        newcomers(held, tokens, upto) <= newcomers(held, tokens, beyond),
    decreases beyond - upto,
{
    if upto < beyond {
        lemma_newcomers_grow(held, tokens, upto, beyond - 1);
    }
}

pub open spec fn ids_of<I: PublicId>(known: Seq<Known<I>>) -> Seq<I::V> {
    known.map_values(|entry: Known<I>| entry.id@)
}

fn token_seen(tokens: &Vec<usize>, index: usize) -> (result: bool)
    requires
        index < tokens@.len(),
    ensures
        result == seen_before(tokens@, index as int),
{
    let mut earlier: usize = 0;
    while earlier < index
        invariant
            earlier <= index < tokens@.len(),
            forall|i: int| 0 <= i < earlier ==> tokens@[i] != tokens@[index as int],
        decreases index - earlier,
    {
        if tokens[earlier] == tokens[index] {
            assert(tokens@[earlier as int] == tokens@[index as int]);
            return true;
        }
        earlier = earlier + 1;
    }
    false
}

/// Assigns identifiers to a new list of documents, given by their tokens.
pub fn assign_ids<I: PublicId>(known: &Vec<Known<I>>, tokens: &Vec<usize>) -> (assigned: Vec<
    Assigned<I>,
>)
    requires
        unambiguous(known@),
        known@.len() + newcomers(tokens_of(known@), tokens@, tokens@.len() as int) <= I::count(),
        I::count() <= usize::MAX,
    ensures
        assigned_ids(known@, tokens@, assigned@),
        assigned@.len() <= tokens@.len(),
{
    let mut reserved: Vec<I> = Vec::new();
    let mut position: usize = 0;
    while position < known.len()
        invariant
            position <= known@.len(),
            ids(reserved@) == ids_of(known@).take(position as int),
        decreases known@.len() - position,
    {
        let ghost before = reserved@;
        reserved.push(known[position].id.duplicate());
        position = position + 1;
        assert(ids(reserved@) =~= ids(before).push(known@[position - 1].id@));
        assert(ids(reserved@) =~= ids_of(known@).take(position as int));
    }
    proof {
        assert(ids_of(known@).take(known@.len() as int) =~= ids_of(known@));
        assert(ids(reserved@).len() == reserved@.len());
        assert forall|j: int| 0 <= j < known@.len() implies ids(reserved@).contains(
            (#[trigger] known@[j]).id@,
        ) by {
            assert(ids(reserved@)[j] == ids_of(known@)[j]);
        }
    }
    let mut assigned: Vec<Assigned<I>> = Vec::new();
    let mut index: usize = 0;
    while index < tokens.len()
        invariant
            index <= tokens@.len(),
            unambiguous(known@),
            known@.len() + newcomers(tokens_of(known@), tokens@, tokens@.len() as int)
                <= I::count(),
            I::count() <= usize::MAX,
            assigned@.len() <= index,
            reserved@.len() == known@.len() + newcomers(
                tokens_of(known@),
                tokens@,
                index as int,
            ),
            forall|j: int| 0 <= j < known@.len() ==> ids(reserved@).contains(
                (#[trigger] known@[j]).id@,
            ),
            forall|k: int| 0 <= k < assigned@.len() ==> ids(reserved@).contains(
                (#[trigger] assigned@[k]).id@,
            ),
            assigned@.map_values(|entry: Assigned<I>| entry.index as int) == first_positions(
                tokens@,
                index as int,
            ),
            forall|i: int|
                #![trigger assigned@[i]]
                0 <= i < assigned@.len() ==> {
                    &&& assigned@[i].index < index
                    &&& I::genuine(assigned@[i].id@)
                    &&& match known_with(known@, tokens@[assigned@[i].index as int]) {
                        Some(id) => assigned@[i].id@ == id,
                        None => forall|j: int|
                            0 <= j < known@.len() ==> (#[trigger] known@[j]).id@
                                != assigned@[i].id@,
                    }
                },
            forall|i: int, j: int|
                #![trigger assigned@[i], assigned@[j]]
                0 <= i < j < assigned@.len() ==> assigned@[i].id@ != assigned@[j].id@,
        decreases tokens@.len() - index,
    {
        proof {
            lemma_first_positions(tokens@, index as int);
        }
        if !token_seen(tokens, index) {
            let token: usize = tokens[index];
            let ghost before = assigned@;
            let ghost held = reserved@;
            let ghost positions = first_positions(tokens@, index as int);
            let id = match find_known(known, token) {
                Some(id) => {
                    let copy = id.duplicate();
                    proof {
                        lemma_known_with(known@, token);
                        let j = choose|j: int|
                            0 <= j < known@.len() && (#[trigger] known@[j]).token == token
                                && known@[j].id@ == copy@;
                        assert(tokens_of(known@)[j] == token);
                        assert forall|k: int| 0 <= k < before.len() implies (
                        #[trigger] before[k]).id@ != copy@ by {
                            let other = tokens@[before[k].index as int];
                            assert(before.map_values(|entry: Assigned<I>| entry.index as int)[k]
                                == positions[k]);
                            if before[k].id@ == copy@ {
                                match known_with(known@, other) {
                                    Some(kept) => {
                                        lemma_known_with(known@, other);
                                        let m = choose|m: int|
                                            0 <= m < known@.len() && (#[trigger] known@[m]).token
                                                == other && known@[m].id@ == kept;
                                        if m < j {
                                            assert(known@[m].id@ != known@[j].id@);
                                        } else if j < m {
                                            assert(known@[j].id@ != known@[m].id@);
                                        }
                                        assert(other == token);
                                        assert(tokens@[before[k].index as int]
                                            == tokens@[index as int]);
                                        assert(seen_before(tokens@, index as int));
                                    },
                                    None => {
                                        assert(known@[j].id@ != before[k].id@);
                                    },
                                }
                            }
                        }
                    }
                    copy
                },
                None => {
                    proof {
                        lemma_known_with(known@, token);
                        if tokens_of(known@).contains(token) {
                            let j = choose|j: int|
                                0 <= j < tokens_of(known@).len() && tokens_of(known@)[j] == token;
                            assert(known@[j].token == token);
                        }
                        lemma_newcomers_grow(
                            tokens_of(known@),
                            tokens@,
                            index + 1,
                            tokens@.len() as int,
                        );
                    }
                    let fresh = fresh_id(&reserved);
                    proof {
                        assert forall|k: int| 0 <= k < before.len() implies (
                        #[trigger] before[k]).id@ != fresh@ by {}
                        assert forall|j: int| 0 <= j < known@.len() implies (
                        #[trigger] known@[j]).id@ != fresh@ by {}
                    }
                    reserved.push(fresh.duplicate());
                    proof {
                        assert(ids(reserved@) =~= ids(held).push(fresh@));
                        assert(ids(reserved@)[held.len() as int] == fresh@);
                        assert forall|j: int| 0 <= j < known@.len() implies ids(
                            reserved@,
                        ).contains((#[trigger] known@[j]).id@) by {
                            let m = choose|m: int|
                                0 <= m < ids(held).len() && ids(held)[m] == known@[j].id@;
                            assert(ids(reserved@)[m] == known@[j].id@);
                        }
                        assert forall|k: int| 0 <= k < before.len() implies ids(
                            reserved@,
                        ).contains((#[trigger] before[k]).id@) by {
                            let m = choose|m: int|
                                0 <= m < ids(held).len() && ids(held)[m] == before[k].id@;
                            assert(ids(reserved@)[m] == before[k].id@);
                        }
                    }
                    fresh
                },
            };
            proof {
                lemma_known_with(known@, token);
                if known_with(known@, token) is Some {
                    let j = choose|j: int|
                        0 <= j < known@.len() && (#[trigger] known@[j]).token == token
                            && known@[j].id@ == id@;
                    assert(ids(reserved@).contains(known@[j].id@));
                }
            }
            assigned.push(Assigned { index, id });
            proof {
                assert(assigned@.map_values(|entry: Assigned<I>| entry.index as int)
                    =~= before.map_values(|entry: Assigned<I>| entry.index as int).push(
                    index as int,
                ));
            }
        }
        index = index + 1;
    }
    assigned
}

} // verus!
