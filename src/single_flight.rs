use vstd::prelude::*;

use crate::info_hash::InfoHash;

verus! {

/// The tickets of the resolutions in flight, one per info-hash at most.
///
/// A ticket `T` is whatever the caller shares among the requests that wait
/// on one resolution (a handle to its eventual outcome).
pub struct FlightRegistry<T> {
    keys: Vec<InfoHash>,
    tickets: Vec<T>,
}

/// Registering a ticket: a caller that finds no ticket for the info-hash
/// leads the resolution with its own ticket; any other caller joins the
/// ticket that is there, and the registry stays as it was.
pub open spec fn register_step<T>(flights: Map<Seq<u8>, T>, info_hash: Seq<u8>, ticket: T) -> (
    Map<Seq<u8>, T>,
    bool,
) {
    if flights.contains_key(info_hash) {
        (flights, false)
    } else {
        (flights.insert(info_hash, ticket), true)
    }
}

/// How many of the callers that register `tickets` in turn for one info-hash lead a resolution.
pub open spec fn leaders<T>(flights: Map<Seq<u8>, T>, info_hash: Seq<u8>, tickets: Seq<T>) -> nat
    decreases tickets.len(),
{
    if tickets.len() == 0 {
        0
    } else {
        let (next, lead) = register_step(flights, info_hash, tickets[0]);
        (if lead {
            1nat
        } else {
            0nat
        }) + leaders(next, info_hash, tickets.drop_first())
    }
}

/// The registry after the callers register `tickets` in turn for one info-hash.
pub open spec fn after_registrations<T>(
    flights: Map<Seq<u8>, T>,
    info_hash: Seq<u8>,
    tickets: Seq<T>,
) -> Map<Seq<u8>, T>
    decreases tickets.len(),
{
    if tickets.len() == 0 {
        flights
    } else {
        after_registrations(
            register_step(flights, info_hash, tickets[0]).0,
            info_hash,
            tickets.drop_first(),
        )
    }
}

impl<T> FlightRegistry<T> {
    /// The keys are unique and each has its ticket.
    pub closed spec fn wf(&self) -> bool {
        &&& self.keys@.len() == self.tickets@.len()
        &&& forall|i: int, j: int|
            0 <= i < self.keys@.len() && 0 <= j < self.keys@.len() && #[trigger] self.keys@[i]@
                == #[trigger] self.keys@[j]@ ==> i == j
    }

    spec fn has_key(&self, k: Seq<u8>) -> bool {
        exists|i: int| 0 <= i < self.keys@.len() && #[trigger] self.keys@[i]@ == k
    }

    spec fn index_of(&self, k: Seq<u8>) -> int {
        choose|i: int| 0 <= i < self.keys@.len() && #[trigger] self.keys@[i]@ == k
    }

    /// The ticket in flight for each info-hash.
    pub closed spec fn view(&self) -> Map<Seq<u8>, T> {
        Map::new(|k: Seq<u8>| self.has_key(k), |k: Seq<u8>| self.tickets@[self.index_of(k)])
    }

    proof fn lemma_index(&self, i: int)
        requires
            self.wf(),
            0 <= i < self.keys@.len(),
        ensures
            self.has_key(self.keys@[i]@),
            self.index_of(self.keys@[i]@) == i,
            self@.contains_key(self.keys@[i]@),
            self@[self.keys@[i]@] == self.tickets@[i],
    {
        let k = self.keys@[i]@;
        assert(self.has_key(k));
        let j = self.index_of(k);
        assert(self.keys@[j]@ == k);
    }

    /// An empty registry.
    pub fn new() -> (r: Self)
        ensures
            r.wf(),
            r@ == Map::<Seq<u8>, T>::empty(),
    {
        let r = FlightRegistry { keys: Vec::new(), tickets: Vec::new() };
        assert(r@ =~= Map::<Seq<u8>, T>::empty());
        r
    }

    fn find(&self, info_hash: &InfoHash) -> (r: Option<usize>)
        requires
            self.wf(),
        ensures
            r is None <==> !self@.contains_key(info_hash@),
            r is Some ==> r->0 < self.keys@.len() && self.keys@[r->0 as int]@ == info_hash@,
    {
        let mut i: usize = 0;
        while i < self.keys.len()
            invariant
                i <= self.keys@.len(),
                forall|j: int| 0 <= j < i ==> #[trigger] self.keys@[j]@ != info_hash@,
            decreases self.keys@.len() - i,
        {
            if self.keys[i].same_as(info_hash) {
                proof {
                    assert(self.has_key(info_hash@));
                }
                return Some(i);
            }
            i = i + 1;
        }
        None
    }

    /// Whether a resolution of `info_hash` is in flight.
    pub fn is_in_flight(&self, info_hash: &InfoHash) -> (r: bool)
        requires
            self.wf(),
        ensures
            r == self@.contains_key(info_hash@),
    {
        self.find(info_hash).is_some()
    }

    /// The ticket in flight for `info_hash`, if any.
    pub fn ticket(&self, info_hash: &InfoHash) -> (r: Option<&T>)
        requires
            self.wf(),
        ensures
            r is Some <==> self@.contains_key(info_hash@),
            r is Some ==> *r->0 == self@[info_hash@],
    {
        match self.find(info_hash) {
            Some(i) => {
                proof {
                    self.lemma_index(i as int);
                }
                Some(&self.tickets[i])
            },
            None => None,
        }
    }

    /// Registers `ticket` for `info_hash` unless one is already in flight;
    /// returns whether the caller leads the resolution.
    pub fn register(&mut self, info_hash: InfoHash, ticket: T) -> (leader: bool)
        requires
            old(self).wf(),
        ensures
            final(self).wf(),
            (final(self)@, leader) == register_step(old(self)@, info_hash@, ticket),
    {
        match self.find(&info_hash) {
            Some(_) => false,
            None => {
                let ghost before = *self;
                let ghost k = info_hash@;
                self.keys.push(info_hash);
                self.tickets.push(ticket);
                proof {
                    let n = before.keys@.len() as int;
                    assert(self.keys@[n]@ == k);
                    assert forall|i: int, j: int|
                        0 <= i < self.keys@.len() && 0 <= j < self.keys@.len()
                            && #[trigger] self.keys@[i]@ == #[trigger] self.keys@[j]@ implies i
                        == j by {
                        if i < n && j < n {
                            assert(before.keys@[i] == self.keys@[i]);
                            assert(before.keys@[j] == self.keys@[j]);
                        } else if i < n {
                            assert(before.keys@[i] == self.keys@[i]);
                            before.lemma_index(i);
                        } else if j < n {
                            assert(before.keys@[j] == self.keys@[j]);
                            before.lemma_index(j);
                        }
                    }
                    assert forall|q: Seq<u8>| #[trigger]
                        self@.contains_key(q) == before@.insert(k, ticket).contains_key(q) by {
                        if self.has_key(q) && q != k {
                            let i = self.index_of(q);
                            assert(i < n);
                            assert(before.keys@[i] == self.keys@[i]);
                        }
                        if before.has_key(q) {
                            let i = before.index_of(q);
                            assert(self.keys@[i] == before.keys@[i]);
                        }
                    }
                    assert forall|q: Seq<u8>| #[trigger]
                        self@.contains_key(q) implies self@[q] == before@.insert(k, ticket)[q] by {
                        let i = self.index_of(q);
                        self.lemma_index(i);
                        if q != k {
                            assert(i < n);
                            assert(before.keys@[i] == self.keys@[i]);
                            before.lemma_index(i);
                        } else {
                            self.lemma_index(n);
                        }
                    }
                    assert(self@ =~= before@.insert(k, ticket));
                }
                true
            },
        }
    }

    /// Removes the ticket of `info_hash` once its resolution is over, and
    /// hands it back; a later request for it starts a fresh resolution.
    pub fn complete(&mut self, info_hash: &InfoHash) -> (r: Option<T>)
        requires
            old(self).wf(),
        ensures
            final(self).wf(),
            final(self)@ == old(self)@.remove(info_hash@),
            r is Some <==> old(self)@.contains_key(info_hash@),
            r is Some ==> r->0 == old(self)@[info_hash@],
    {
        match self.find(info_hash) {
            None => {
                assert(self@ =~= self@.remove(info_hash@));
                None
            },
            Some(x) => {
                let ghost before = *self;
                let ghost k = info_hash@;
                proof {
                    before.lemma_index(x as int);
                }
                self.keys.remove(x);
                let t = self.tickets.remove(x);
                proof {
                    let m = x as int;
                    assert forall|i: int|
                        0 <= i < self.keys@.len() implies #[trigger] self.keys@[i] == before.keys@[
                        if i < m {
                            i
                        } else {
                            i + 1
                        }] && self.tickets@[i] == before.tickets@[if i < m {
                        i
                    } else {
                        i + 1
                    }] by {}
                    assert forall|i: int, j: int|
                        0 <= i < self.keys@.len() && 0 <= j < self.keys@.len()
                            && #[trigger] self.keys@[i]@ == #[trigger] self.keys@[j]@ implies i
                        == j by {
                        let oi = if i < m {
                            i
                        } else {
                            i + 1
                        };
                        let oj = if j < m {
                            j
                        } else {
                            j + 1
                        };
                        assert(before.keys@[oi]@ == before.keys@[oj]@);
                    }
                    assert forall|q: Seq<u8>| #[trigger]
                        self@.contains_key(q) == before@.remove(k).contains_key(q) by {
                        if self.has_key(q) {
                            let i = self.index_of(q);
                            let oi = if i < m {
                                i
                            } else {
                                i + 1
                            };
                            assert(before.keys@[oi]@ == q);
                            before.lemma_index(oi);
                            assert(oi != m);
                        }
                        if before.has_key(q) && q != k {
                            let i = before.index_of(q);
                            assert(i != m);
                            let ni = if i < m {
                                i
                            } else {
                                i - 1
                            };
                            assert(self.keys@[ni]@ == q);
                        }
                    }
                    assert forall|q: Seq<u8>| #[trigger]
                        self@.contains_key(q) implies self@[q] == before@.remove(k)[q] by {
                        let i = self.index_of(q);
                        self.lemma_index(i);
                        let oi = if i < m {
                            i
                        } else {
                            i + 1
                        };
                        before.lemma_index(oi);
                    }
                    assert(self@ =~= before@.remove(k));
                }
                Some(t)
            },
        }
    }
}

/// Of any run of registrations for one info-hash with no completion between
/// them, exactly one leads a resolution when none was in flight before, and
/// none does otherwise; every caller of the run shares the ticket in flight.
pub proof fn lemma_single_flight<T>(flights: Map<Seq<u8>, T>, info_hash: Seq<u8>, tickets: Seq<T>)
    ensures
        leaders(flights, info_hash, tickets) == if !flights.contains_key(info_hash)
            && tickets.len() > 0 {
            1nat
        } else {
            0nat
        },
        tickets.len() > 0 ==> after_registrations(flights, info_hash, tickets).contains_key(
            info_hash,
        ) && after_registrations(flights, info_hash, tickets)[info_hash] == if flights.contains_key(
            info_hash,
        ) {
            flights[info_hash]
        } else {
            tickets[0]
        },
    decreases tickets.len(),
{
    if tickets.len() > 0 {
        let next = register_step(flights, info_hash, tickets[0]).0;
        lemma_single_flight(next, info_hash, tickets.drop_first());
        if tickets.len() == 1 {
            assert(tickets.drop_first().len() == 0);
        }
    }
}

/// Once the resolution in flight completes, the next caller for the same
/// info-hash leads a fresh one with its own ticket.
pub proof fn lemma_fresh_after_complete<T>(flights: Map<Seq<u8>, T>, info_hash: Seq<u8>, ticket: T)
    ensures
        register_step(flights.remove(info_hash), info_hash, ticket).1,
        register_step(flights.remove(info_hash), info_hash, ticket).0[info_hash] == ticket,
{
}

} // verus!
