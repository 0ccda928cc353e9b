//! Places for executions, of which there are few. A place is held in shares: by the
//! response to a request, and by the job. It is free again when the last share is
//! given back.
use vstd::prelude::*;

verus! {

/// How many executions may be admitted at once.
pub const MAX_ADMITTED_EXECUTIONS: usize = 8;

/// A share of a place.
#[derive(Debug, PartialEq, Eq, Structural)]
pub struct ExecutionReservation {
    pub place: usize,
}

/// The places, each with the number of its shares.
pub struct ReservationPool {
    shares: Vec<u64>,
}

impl View for ReservationPool {
    type V = Seq<u64>;

    closed spec fn view(&self) -> Seq<u64> {
        self.shares@
    }
}

impl ReservationPool {
    pub open spec fn well_formed(&self) -> bool {
        self@.len() == MAX_ADMITTED_EXECUTIONS
    }

    pub fn new() -> (pool: ReservationPool)
        ensures
            pool.well_formed(),
            forall|place: int| 0 <= place < MAX_ADMITTED_EXECUTIONS ==> #[trigger] pool@[place] == 0,
    {
        let mut shares: Vec<u64> = Vec::new();
        while shares.len() < MAX_ADMITTED_EXECUTIONS
            invariant
                shares@.len() <= MAX_ADMITTED_EXECUTIONS,
                forall|place: int| 0 <= place < shares@.len() ==> #[trigger] shares@[place] == 0,
            decreases MAX_ADMITTED_EXECUTIONS - shares@.len(),
        {
            shares.push(0);
        }
        ReservationPool { shares }
    }

    /// One more share of a place.
    pub fn share(&mut self, reservation: &ExecutionReservation) -> (shared: ExecutionReservation)
        requires
            old(self).well_formed(),
            reservation.place < MAX_ADMITTED_EXECUTIONS,
            0 < old(self)@[reservation.place as int] < u64::MAX,
        ensures
            final(self).well_formed(),
            shared == *reservation,
            final(self)@ == old(self)@.update(
                reservation.place as int,
                (old(self)@[reservation.place as int] + 1) as u64,
            ),
    {
        let place: usize = reservation.place;
        let count: u64 = self.shares[place];
        self.shares.set(place, count + 1);
        ExecutionReservation { place }
    }

    /// Gives a share back.
    pub fn release(&mut self, reservation: ExecutionReservation)
        requires
            old(self).well_formed(),
            reservation.place < MAX_ADMITTED_EXECUTIONS,
            0 < old(self)@[reservation.place as int],
        ensures
            final(self).well_formed(),
            final(self)@ == old(self)@.update(
                reservation.place as int,
                (old(self)@[reservation.place as int] - 1) as u64,
            ),
    {
        let place: usize = reservation.place;
        let count: u64 = self.shares[place];
        self.shares.set(place, count - 1);
    }
}

/// Takes a free place, where there is one.
pub fn try_reserve_execution(pool: &mut ReservationPool) -> (reservation: Option<
    ExecutionReservation,
>)
    requires
        old(pool).well_formed(),
    ensures
        final(pool).well_formed(),
        match reservation {
            Some(reservation) => {
                &&& reservation.place < MAX_ADMITTED_EXECUTIONS
                &&& old(pool)@[reservation.place as int] == 0
                &&& final(pool)@ == old(pool)@.update(reservation.place as int, 1)
            },
            None => {
                &&& forall|place: int|
                    0 <= place < MAX_ADMITTED_EXECUTIONS ==> #[trigger] old(pool)@[place] > 0
                &&& final(pool)@ == old(pool)@
            },
        },
{
    let mut place: usize = 0;
    while place < MAX_ADMITTED_EXECUTIONS
        invariant
            place <= MAX_ADMITTED_EXECUTIONS,
            pool@.len() == MAX_ADMITTED_EXECUTIONS,
            pool@ == old(pool)@,
            forall|i: int| 0 <= i < place ==> #[trigger] pool@[i] > 0,
        decreases MAX_ADMITTED_EXECUTIONS - place,
    {
        if pool.shares[place] == 0 {
            pool.shares.set(place, 1);
            return Some(ExecutionReservation { place });
        }
        place = place + 1;
    }
    None
}

/// A place that is shared stays taken until both shares are given back.
pub proof fn law_shared_place_stays_taken(shares: Seq<u64>, place: int)
    requires
        0 <= place < shares.len(),
        0 < shares[place] < u64::MAX,
    ensures
        ({
            let shared = shares.update(place, (shares[place] + 1) as u64);
            let once = shared.update(place, (shared[place] - 1) as u64);
            once[place] > 0 && once == shares
        }),
{
    let shared = shares.update(place, (shares[place] + 1) as u64);
    assert(shared.update(place, (shared[place] - 1) as u64) =~= shares);
}

} // verus!
