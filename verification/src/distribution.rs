//! Backend selection: which backend of a rule's distribution takes a request.
//!
//! Availability is live state owned elsewhere. Selection either reads a
//! snapshot of it, one flag per backend, or asks an oracle backend by
//! backend; nothing is remembered from one selection to the next.

use vstd::prelude::*;
use crate::errors::RoutingError;
use crate::policy::{Distribution, DistributionView, WeightedBackend, WeightedBackendView};
use crate::seqs::{first_true, lemma_first_true, lemma_first_true_is, lemma_first_true_none};

verus! {

/// Whether a health snapshot reports backend `i` as available. A backend the
/// snapshot has no flag for counts as unavailable.
pub open spec fn available(health: Seq<bool>, i: int) -> bool {
    0 <= i < health.len() && health[i]
}

/// One flag per backend: whether the snapshot reports it as available.
pub open spec fn pool(count: nat, health: Seq<bool>) -> Seq<bool> {
    Seq::new(count, |i: int| available(health, i))
}

/// The weight of the available backends among the first `upto`.
pub open spec fn pool_weight(backends: Seq<WeightedBackendView>, health: Seq<bool>, upto: int) -> nat
    decreases upto,
{
    if upto <= 0 {
        0
    } else {
        pool_weight(backends, health, upto - 1) + if available(health, upto - 1) {
            backends[upto - 1].weight
        } else {
            0
        }
    }
}

/// The backend that holds ticket `ticket` of the weight pool: the available
/// backends own consecutive runs of tickets, in list order, each as many as
/// its weight.
pub open spec fn ticket_holder(
    backends: Seq<WeightedBackendView>,
    health: Seq<bool>,
    ticket: int,
) -> Option<int> {
    first_true(Seq::new(backends.len(), |i: int| pool_weight(backends, health, i + 1) > ticket))
}

/// The backend that a distribution selects under a health snapshot.
///
/// `FirstAvailable` takes the first available backend in list order.
/// `RandomAvailable` reduces `draw` to a ticket of the weight pool of the
/// available backends and takes the ticket's holder. Either fails with
/// `NoBackendAvailable` where the pool is empty.
pub open spec fn chosen_backend(dist: DistributionView, health: Seq<bool>, draw: u64) -> Result<
    int,
    RoutingError,
> {
    match dist {
        DistributionView::FirstAvailable(backends) => match first_true(pool(backends.len(), health)) {
            Some(i) => Ok(i),
            None => Err(RoutingError::NoBackendAvailable),
        },
        DistributionView::RandomAvailable(backends) => {
            let total = pool_weight(backends, health, backends.len() as int);
            if total == 0 {
                Err(RoutingError::NoBackendAvailable)
            } else {
                match ticket_holder(backends, health, draw as int % total as int) {
                    Some(i) => Ok(i),
                    None => Err(RoutingError::NoBackendAvailable),
                }
            }
        },
    }
}

/// Backend selection fails in one way only.
pub proof fn lemma_chosen_backend_error(
    dist: DistributionView,
    health: Seq<bool>,
    draw: u64,
)
    ensures
        chosen_backend(dist, health, draw) matches Err(e) ==> e == RoutingError::NoBackendAvailable,
{
}

/// The pool weight grows with the number of backends counted, by at most
/// `u32::MAX` for each.
pub proof fn lemma_pool_weight_bounds(
    backends: Seq<WeightedBackend>,
    health: Seq<bool>,
    lo: int,
    hi: int,
)
    requires
        0 <= lo <= hi <= backends.len(),
    ensures
        pool_weight(backends_view(backends), health, lo) <= pool_weight(
            backends_view(backends),
            health,
            hi,
        ) <= pool_weight(backends_view(backends), health, lo) + (hi - lo) * 0xffff_ffff,
    decreases hi - lo,
{
    if lo < hi {
        lemma_pool_weight_bounds(backends, health, lo, hi - 1);
    }
}

/// The view of a backend list.
pub open spec fn backends_view(backends: Seq<WeightedBackend>) -> Seq<WeightedBackendView> {
    backends.map_values(|w: WeightedBackend| w@)
}

/// A ticket's holder is available, and the ticket lies in the holder's run:
/// the run starts at the pool weight before the holder and is as long as the
/// holder's weight. So an available backend is drawn by as many tickets as
/// its weight, and an unavailable one by none.
pub proof fn lemma_ticket_holder(
    backends: Seq<WeightedBackendView>,
    health: Seq<bool>,
    ticket: int,
)
    requires
        0 <= ticket < pool_weight(backends, health, backends.len() as int),
    ensures
        ticket_holder(backends, health, ticket) matches Some(i) && {
            &&& 0 <= i < backends.len()
            &&& available(health, i)
            &&& pool_weight(backends, health, i) <= ticket < pool_weight(backends, health, i)
                + backends[i].weight
        },
{
    let flags = Seq::new(backends.len(), |i: int| pool_weight(backends, health, i + 1) > ticket);
    lemma_first_true(flags);
    assert(backends.len() > 0);
    match first_true(flags) {
        None => {
            assert(!flags[backends.len() - 1]);
        },
        Some(i) => {
            assert(flags[i]);
            assert(pool_weight(backends, health, i + 1) == pool_weight(backends, health, i) + if available(
                health,
                i,
            ) {
                backends[i].weight
            } else {
                0
            });
            if i > 0 {
                assert(!flags[i - 1]);
            }
        },
    }
}

/// What an availability oracle has answered so far: `health[i]` is what it
/// said of backend `i`, for as many backends as it was asked about.
pub open spec fn answered<F: Fn(&WeightedBackend) -> bool>(
    oracle: &F,
    backends: Seq<WeightedBackend>,
    health: Seq<bool>,
) -> bool {
    &&& health.len() <= backends.len()
    &&& forall|i: int|
        0 <= i < health.len() ==> call_ensures(*oracle, (&backends[i],), #[trigger] health[i])
}

/// How many backends are asked about for a selection that ends as `picked`.
/// `FirstAvailable` asks in list order up to the backend it takes, and about
/// every backend where it takes none; `RandomAvailable` asks about every
/// backend before it draws.
pub open spec fn asked(dist: DistributionView, picked: Result<int, RoutingError>) -> nat {
    match (dist, picked) {
        (DistributionView::FirstAvailable(_), Ok(i)) => (i + 1) as nat,
        _ => dist.backends().len(),
    }
}

/// A selection as the index it names.
pub open spec fn index_of(picked: Result<usize, RoutingError>) -> Result<int, RoutingError> {
    match picked {
        Ok(i) => Ok(i as int),
        Err(e) => Err(e),
    }
}

/// Whether `picked` is the selection that `dist` makes by asking `oracle`,
/// with `health` for what the oracle said: the oracle was asked about as many
/// backends as the strategy asks about, in list order, and the selection is
/// the one that [`chosen_backend`] gives under its answers.
pub open spec fn selected_by<F: Fn(&WeightedBackend) -> bool>(
    oracle: &F,
    dist: &Distribution,
    health: Seq<bool>,
    draw: u64,
    picked: Result<usize, RoutingError>,
) -> bool {
    &&& answered(oracle, dist.list(), health)
    &&& health.len() == asked(dist@, index_of(picked))
    &&& chosen_backend(dist@, health, draw) == index_of(picked)
}

/// What a first-available selection by an oracle means for the oracle's
/// answers: the backend taken is one that the oracle called available, after
/// it called every backend before it unavailable; and where none is taken,
/// the oracle called every backend of the list unavailable.
pub proof fn lemma_first_available_by_oracle<F: Fn(&WeightedBackend) -> bool>(
    oracle: &F,
    dist: &Distribution,
    health: Seq<bool>,
    draw: u64,
    picked: Result<usize, RoutingError>,
)
    requires
        dist is FirstAvailable,
        selected_by(oracle, dist, health, draw, picked),
    ensures
        match picked {
            Ok(i) => {
                &&& i < dist.list().len()
                &&& call_ensures(*oracle, (&dist.list()[i as int],), true)
                &&& forall|j: int|
                    0 <= j < i ==> call_ensures(*oracle, (&#[trigger] dist.list()[j],), false)
            },
            Err(e) => {
                &&& e == RoutingError::NoBackendAvailable
                &&& forall|j: int|
                    0 <= j < dist.list().len() ==> call_ensures(
                        *oracle,
                        (&#[trigger] dist.list()[j],),
                        false,
                    )
            },
        },
{
    let flags = pool(dist@.backends().len(), health);
    lemma_first_true(flags);
    assert(dist@.backends().len() == dist.list().len());
    match picked {
        Ok(i) => {
            assert(flags[i as int]);
            assert(call_ensures(*oracle, (&dist.list()[i as int],), health[i as int]));
            assert forall|j: int| 0 <= j < i implies call_ensures(
                *oracle,
                (&#[trigger] dist.list()[j],),
                false,
            ) by {
                assert(!flags[j]);
                assert(call_ensures(*oracle, (&dist.list()[j],), health[j]));
            }
        },
        Err(e) => {
            assert forall|j: int| 0 <= j < dist.list().len() implies call_ensures(
                *oracle,
                (&#[trigger] dist.list()[j],),
                false,
            ) by {
                assert(!flags[j]);
                assert(call_ensures(*oracle, (&dist.list()[j],), health[j]));
            }
        },
    }
}

/// The pool weight never shrinks as more backends are counted.
pub proof fn lemma_pool_weight_grows(
    backends: Seq<WeightedBackendView>,
    health: Seq<bool>,
    lo: int,
    hi: int,
)
    requires
        lo <= hi,
    ensures
        pool_weight(backends, health, lo) <= pool_weight(backends, health, hi),
    decreases hi - lo,
{
    if lo < hi {
        lemma_pool_weight_grows(backends, health, lo, hi - 1);
    }
}

/// Every ticket in the run of an available backend is held by that backend:
/// with `lemma_ticket_holder`, an available backend holds exactly as many
/// tickets of the pool as its weight, so that a uniform draw selects it in
/// proportion to its weight.
pub proof fn lemma_ticket_run(
    backends: Seq<WeightedBackendView>,
    health: Seq<bool>,
    i: int,
    ticket: int,
)
    requires
        0 <= i < backends.len(),
        available(health, i),
        pool_weight(backends, health, i) <= ticket < pool_weight(backends, health, i)
            + backends[i].weight,
    ensures
        ticket_holder(backends, health, ticket) == Some(i),
{
    assert(pool_weight(backends, health, i + 1) == pool_weight(backends, health, i)
        + backends[i].weight);
    lemma_pool_weight_grows(backends, health, i + 1, backends.len() as int);
    lemma_ticket_holder(backends, health, ticket);
    let j = ticket_holder(backends, health, ticket)->0;
    assert(pool_weight(backends, health, j + 1) == pool_weight(backends, health, j) + if available(
        health,
        j,
    ) {
        backends[j].weight
    } else {
        0
    });
    if j < i {
        lemma_pool_weight_grows(backends, health, j + 1, i);
    } else if j > i {
        lemma_pool_weight_grows(backends, health, i + 1, j);
    }
}

impl Distribution {
    /// The backends in list order.
    pub open spec fn list(&self) -> Seq<WeightedBackend> {
        match self {
            Distribution::FirstAvailable(b) => b@,
            Distribution::RandomAvailable(b) => b@,
        }
    }

    /// The backends, whatever the strategy.
    pub fn backends(&self) -> (list: &Vec<WeightedBackend>)
        ensures
            list@ == self.list(),
            backends_view(list@) == self@.backends(),
    {
        match self {
            Distribution::FirstAvailable(b) => b,
            Distribution::RandomAvailable(b) => b,
        }
    }

    /// Selects a backend under a health snapshot that holds one flag per
    /// backend, in list order. `draw` is a random number, read by the weighted
    /// strategy only.
    pub fn select_with(&self, health: &[bool], draw: u64) -> (r: Result<usize, RoutingError>)
        ensures
            match r {
                Ok(i) => chosen_backend(self@, health@, draw) == Ok::<int, RoutingError>(i as int),
                Err(e) => chosen_backend(self@, health@, draw) == Err::<int, RoutingError>(e),
            },
            r matches Ok(i) ==> i < self@.backends().len(),
    {
        match self {
            Distribution::FirstAvailable(backends) => first_in_pool(backends, health),
            Distribution::RandomAvailable(backends) => draw_from_pool(backends, health, draw),
        }
    }
}

impl Distribution {
    /// Selects a backend by asking `is_available` about the backends, each
    /// time anew. `FirstAvailable` asks in list order and stops at the first
    /// backend that is available; `RandomAvailable` asks about every backend
    /// and draws among the available ones. The selection is the one that
    /// [`chosen_backend`] gives for the answers received, and rests on an
    /// answer for every backend that the strategy asks about.
    pub fn select<F: Fn(&WeightedBackend) -> bool>(&self, is_available: &F, draw: u64) -> (r: Result<
        usize,
        RoutingError,
    >)
        requires
            forall|i: int|
                0 <= i < self.list().len() ==> call_requires(
                    *is_available,
                    (&#[trigger] self.list()[i],),
                ),
        ensures
            exists|health: Seq<bool>| #[trigger]
                selected_by(is_available, self, health, draw, r),
            r matches Ok(i) ==> i < self.list().len(),
            (self is FirstAvailable && self.list().len() == 0) ==> r == Err::<usize, RoutingError>(
                RoutingError::NoBackendAvailable,
            ),
    {
        match self {
            Distribution::FirstAvailable(backends) => {
                let ghost mut health: Seq<bool> = Seq::empty();
                let mut i: usize = 0;
                while i < backends.len()
                    invariant
                        i <= backends.len(),
                        health.len() == i,
                        self is FirstAvailable,
                        backends@ == self.list(),
                        forall|i: int|
                            0 <= i < self.list().len() ==> call_requires(
                                *is_available,
                                (&#[trigger] self.list()[i],),
                            ),
                        answered(is_available, backends@, health),
                        forall|j: int| 0 <= j < i ==> !health[j],
                    decreases backends.len() - i,
                {
                    let up = is_available(&backends[i]);
                    proof {
                        let ghost asked = health;
                        health = health.push(up);
                        assert forall|j: int| 0 <= j < health.len() implies call_ensures(
                            *is_available,
                            (&backends@[j],),
                            #[trigger] health[j],
                        ) by {
                            if j < i {
                                assert(health[j] == asked[j]);
                            }
                        }
                        assert forall|j: int| 0 <= j < i implies !health[j] by {
                            assert(health[j] == asked[j]);
                        }
                    }
                    if up {
                        proof {
                            let flags = pool(backends@.len(), health);
                            assert(flags[i as int]);
                            lemma_first_true_is(flags, i as int);
                            assert(self@.backends().len() == backends@.len());
                            assert(answered(is_available, self.list(), health));
                            assert(selected_by(
                                is_available,
                                self,
                                health,
                                draw,
                                Ok::<usize, RoutingError>(i),
                            ));
                        }
                        return Ok(i);
                    }
                    i += 1;
                }
                proof {
                    lemma_first_true_none(pool(backends@.len(), health));
                    assert(selected_by(
                        is_available,
                        self,
                        health,
                        draw,
                        Err::<usize, RoutingError>(RoutingError::NoBackendAvailable),
                    ));
                }
                Err(RoutingError::NoBackendAvailable)
            },
            Distribution::RandomAvailable(backends) => {
                let mut health: Vec<bool> = Vec::new();
                let mut i: usize = 0;
                while i < backends.len()
                    invariant
                        i <= backends.len(),
                        health@.len() == i,
                        backends@ == self.list(),
                        forall|i: int|
                            0 <= i < self.list().len() ==> call_requires(
                                *is_available,
                                (&#[trigger] self.list()[i],),
                            ),
                        answered(is_available, backends@, health@),
                    decreases backends.len() - i,
                {
                    let up = is_available(&backends[i]);
                    health.push(up);
                    i += 1;
                }
                let picked = draw_from_pool(backends, health.as_slice(), draw);
                proof {
                    assert(self@.backends().len() == backends@.len());
                    assert(selected_by(is_available, self, health@, draw, picked));
                }
                picked
            },
        }
    }
}

/// The first backend that the snapshot reports as available.
fn first_in_pool(backends: &Vec<WeightedBackend>, health: &[bool]) -> (r: Result<
    usize,
    RoutingError,
>)
    ensures
        match r {
            Ok(i) => first_true(pool(backends@.len(), health@)) == Some(i as int) && i
                < backends.len(),
            Err(e) => first_true(pool(backends@.len(), health@)) is None && e
                == RoutingError::NoBackendAvailable,
        },
{
    let ghost flags = pool(backends@.len(), health@);
    let mut i: usize = 0;
    while i < backends.len() && i < health.len()
        invariant
            i <= backends.len(),
            i <= health.len(),
            flags == pool(backends@.len(), health@),
            forall|j: int| 0 <= j < i ==> !flags[j],
        decreases backends.len() - i,
    {
        if health[i] {
            proof {
                lemma_first_true_is(flags, i as int);
            }
            return Ok(i);
        }
        i += 1;
    }
    proof {
        lemma_first_true_none(flags);
    }
    Err(RoutingError::NoBackendAvailable)
}

/// The total weight of the backends that the snapshot reports as available.
fn total_weight(backends: &Vec<WeightedBackend>, health: &[bool]) -> (total: u128)
    ensures
        total == pool_weight(backends_view(backends@), health@, backends.len() as int),
{
    let mut total: u128 = 0;
    let mut i: usize = 0;
    while i < backends.len()
        invariant
            i <= backends.len(),
            total == pool_weight(backends_view(backends@), health@, i as int),
            total <= i * 0xffff_ffff,
        decreases backends.len() - i,
    {
        if i < health.len() && health[i] {
            total = total + backends[i].weight as u128;
        }
        i += 1;
    }
    total
}

/// The holder of the ticket that `draw` reduces to.
fn draw_from_pool(backends: &Vec<WeightedBackend>, health: &[bool], draw: u64) -> (r: Result<
    usize,
    RoutingError,
>)
    ensures
        match r {
            Ok(i) => chosen_backend(DistributionView::RandomAvailable(backends_view(backends@)), health@, draw)
                == Ok::<int, RoutingError>(i as int) && i < backends.len(),
            Err(e) => chosen_backend(DistributionView::RandomAvailable(backends_view(backends@)), health@, draw)
                == Err::<int, RoutingError>(e),
        },
{
    let ghost list = backends_view(backends@);
    let total = total_weight(backends, health);
    if total == 0 {
        return Err(RoutingError::NoBackendAvailable);
    }
    let ticket: u128 = draw as u128 % total;
    let ghost flags = Seq::new(
        list.len(),
        |i: int| pool_weight(list, health@, i + 1) > draw as int % total as int,
    );
    let mut seen: u128 = 0;
    let mut i: usize = 0;
    while i < backends.len()
        invariant
            i <= backends.len(),
            list == backends_view(backends@),
            flags == Seq::new(
                list.len(),
                |i: int| pool_weight(list, health@, i + 1) > draw as int % total as int,
            ),
            ticket == draw as int % total as int,
            seen == pool_weight(list, health@, i as int),
            seen <= ticket,
            ticket < total,
            total == pool_weight(list, health@, backends.len() as int),
            forall|j: int| 0 <= j < i ==> !flags[j],
        decreases backends.len() - i,
    {
        proof {
            lemma_pool_weight_bounds(backends@, health@, i as int + 1, backends.len() as int);
            lemma_pool_weight_bounds(backends@, health@, 0, i as int + 1);
        }
        if i < health.len() && health[i] {
            seen = seen + backends[i].weight as u128;
        }
        if seen > ticket {
            proof {
                lemma_first_true_is(flags, i as int);
            }
            return Ok(i);
        }
        i += 1;
    }
    // The ticket is below the total weight, so its holder was met above.
    assert(false);
    Err(RoutingError::NoBackendAvailable)
}

} // verus!
