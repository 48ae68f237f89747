//! The routing layer: backends paired with inclusive ranges of actuator IDs.
//! Each ID goes to the first backend whose range holds it; an ID that no
//! range holds goes nowhere and yields nothing.
use vstd::prelude::*;
use core::ops::RangeInclusive;

verus! {

/// Whether the inclusive range `r` holds actuator ID `id`.
pub open spec fn in_range(r: RangeInclusive<u8>, id: u32) -> bool {
    r@.start <= id && if r@.exhausted {
        id < r@.end
    } else {
        id <= r@.end
    }
}

/// The position of the first range that holds `id`, if any.
pub open spec fn first_match(ranges: Seq<RangeInclusive<u8>>, id: u32) -> Option<int>
    decreases ranges.len(),
{
    if ranges.len() == 0 {
        None
    } else {
        match first_match(ranges.drop_last(), id) {
            Some(i) => Some(i),
            None => if in_range(ranges.last(), id) {
                Some(ranges.len() - 1)
            } else {
                None
            },
        }
    }
}

/// Range `i` holds `id` and no range before it does.
pub open spec fn routes_to(ranges: Seq<RangeInclusive<u8>>, id: u32, i: int) -> bool {
    &&& 0 <= i < ranges.len()
    &&& in_range(ranges[i], id)
    &&& forall|j: int| 0 <= j < i ==> !in_range(#[trigger] ranges[j], id)
}

/// No range holds `id`.
pub open spec fn unrouted(ranges: Seq<RangeInclusive<u8>>, id: u32) -> bool {
    forall|j: int| 0 <= j < ranges.len() ==> !in_range(#[trigger] ranges[j], id)
}

/// No actuator ID lies in two of the ranges.
pub open spec fn disjoint_ranges(ranges: Seq<RangeInclusive<u8>>) -> bool {
    forall|i: int, j: int, id: u32|
        0 <= i < ranges.len() && 0 <= j < ranges.len() && i != j && #[trigger] in_range(ranges[i], id)
            ==> !#[trigger] in_range(ranges[j], id)
}

/// The first match is the one range that holds `id` with none before it.
pub proof fn lemma_first_match(ranges: Seq<RangeInclusive<u8>>, id: u32)
    ensures
        match first_match(ranges, id) {
            Some(i) => routes_to(ranges, id, i),
            None => unrouted(ranges, id),
        },
    decreases ranges.len(),
{
    if ranges.len() > 0 {
        let front = ranges.drop_last();
        lemma_first_match(front, id);
        assert forall|j: int| 0 <= j < front.len() implies front[j] == ranges[j] by {}
    }
}

/// One unit of a routed batch: the item at `position` goes to the backend at
/// `backend`.
#[derive(Debug, Clone, Copy, PartialEq, Eq, Structural)]
pub struct Route {
    pub position: usize,
    pub backend: usize,
}

/// The routes of a batch of IDs, in batch order; IDs that no range holds are
/// left out.
pub open spec fn planned_routes(ranges: Seq<RangeInclusive<u8>>, ids: Seq<u32>) -> Seq<Route>
    decreases ids.len(),
{
    if ids.len() == 0 {
        Seq::empty()
    } else {
        let prev = planned_routes(ranges, ids.drop_last());
        match first_match(ranges, ids.last()) {
            Some(b) => prev.push(Route { position: (ids.len() - 1) as usize, backend: b as usize }),
            None => prev,
        }
    }
}

/// Every route names a position of the batch and the first backend whose
/// range holds the ID there.
pub proof fn lemma_routes_sound(ranges: Seq<RangeInclusive<u8>>, ids: Seq<u32>)
    requires
        ranges.len() <= usize::MAX,
        ids.len() <= usize::MAX,
    ensures
        forall|e: int| 0 <= e < planned_routes(ranges, ids).len() ==> {
            let r = #[trigger] planned_routes(ranges, ids)[e];
            &&& r.position < ids.len()
            &&& first_match(ranges, ids[r.position as int]) == Some(r.backend as int)
        },
    decreases ids.len(),
{
    if ids.len() > 0 {
        let front = ids.drop_last();
        lemma_routes_sound(ranges, front);
        lemma_first_match(ranges, ids.last());
        assert forall|e: int| 0 <= e < planned_routes(ranges, ids).len() implies {
            let r = #[trigger] planned_routes(ranges, ids)[e];
            &&& r.position < ids.len()
            &&& first_match(ranges, ids[r.position as int]) == Some(r.backend as int)
        } by {
            if e < planned_routes(ranges, front).len() {
                let r = planned_routes(ranges, front)[e];
                assert(front[r.position as int] == ids[r.position as int]);
            }
        }
    }
}

/// Every position whose ID some range holds has a route.
pub proof fn lemma_routes_complete(ranges: Seq<RangeInclusive<u8>>, ids: Seq<u32>, k: int)
    requires
        ranges.len() <= usize::MAX,
        ids.len() <= usize::MAX,
        0 <= k < ids.len(),
        first_match(ranges, ids[k]) is Some,
    ensures
        exists|e: int|
            0 <= e < planned_routes(ranges, ids).len() && #[trigger] planned_routes(ranges, ids)[e]
                == (Route { position: k as usize, backend: first_match(ranges, ids[k])->0 as usize }),
    decreases ids.len(),
{
    lemma_first_match(ranges, ids[k]);
    let routes = planned_routes(ranges, ids);
    let want = Route { position: k as usize, backend: first_match(ranges, ids[k])->0 as usize };
    if k == ids.len() - 1 {
        assert(routes[routes.len() - 1] == want);
    } else {
        let front = ids.drop_last();
        assert(front[k] == ids[k]);
        lemma_routes_complete(ranges, front, k);
        let e = choose|e: int|
            0 <= e < planned_routes(ranges, front).len() && #[trigger] planned_routes(ranges, front)[e] == want;
        assert(routes[e] == want);
    }
}

/// With disjoint ranges, an ID inside the range of backend `a` is routed to
/// backend `a`, and every route of its position goes to backend `a`: no
/// other backend is invoked for it.
pub proof fn lemma_routing_disjoint(ranges: Seq<RangeInclusive<u8>>, ids: Seq<u32>, k: int, a: int)
    requires
        disjoint_ranges(ranges),
        ranges.len() <= usize::MAX,
        ids.len() <= usize::MAX,
        0 <= a < ranges.len(),
        0 <= k < ids.len(),
        in_range(ranges[a], ids[k]),
    ensures
        first_match(ranges, ids[k]) == Some(a),
        exists|e: int|
            0 <= e < planned_routes(ranges, ids).len() && #[trigger] planned_routes(ranges, ids)[e]
                == (Route { position: k as usize, backend: a as usize }),
        forall|e: int|
            0 <= e < planned_routes(ranges, ids).len() && (#[trigger] planned_routes(ranges, ids)[e]).position == k
                ==> planned_routes(ranges, ids)[e].backend == a,
{
    lemma_first_match(ranges, ids[k]);
    let f = first_match(ranges, ids[k]);
    if f is None {
        assert(!in_range(ranges[a], ids[k]));
    } else if f->0 != a {
        assert(in_range(ranges[f->0], ids[k]));
    }
    lemma_routes_sound(ranges, ids);
    lemma_routes_complete(ranges, ids, k);
}

/// An ID that no range holds gets no route: nothing is asked of any backend
/// for it, and it yields no result.
pub proof fn lemma_unmatched_id(ranges: Seq<RangeInclusive<u8>>, ids: Seq<u32>, k: int)
    requires
        ranges.len() <= usize::MAX,
        ids.len() <= usize::MAX,
        0 <= k < ids.len(),
        unrouted(ranges, ids[k]),
    ensures
        first_match(ranges, ids[k]) is None,
        forall|e: int|
            0 <= e < planned_routes(ranges, ids).len()
                ==> (#[trigger] planned_routes(ranges, ids)[e]).position != k,
{
    lemma_first_match(ranges, ids[k]);
    if first_match(ranges, ids[k]) is Some {
        let i = first_match(ranges, ids[k])->0;
        assert(in_range(ranges[i], ids[k]));
    }
    lemma_routes_sound(ranges, ids);
}

/// Backends of type `A`, each owning an inclusive range of actuator IDs.
pub struct ProxyActuator<A> {
    actuators: Vec<(A, RangeInclusive<u8>)>,
}

impl<A> ProxyActuator<A> {
    /// The ID ranges, in the order the backends were given.
    pub closed spec fn ranges(&self) -> Seq<RangeInclusive<u8>> {
        self.actuators@.map_values(|p: (A, RangeInclusive<u8>)| p.1)
    }

    /// The backends, in the order they were given.
    pub closed spec fn backends(&self) -> Seq<A> {
        self.actuators@.map_values(|p: (A, RangeInclusive<u8>)| p.0)
    }

    /// Takes ownership of the backends, each with its range of IDs.
    pub fn new(actuators: Vec<(A, RangeInclusive<u8>)>) -> (r: ProxyActuator<A>)
        ensures
            r.ranges() == actuators@.map_values(|p: (A, RangeInclusive<u8>)| p.1),
            r.backends() == actuators@.map_values(|p: (A, RangeInclusive<u8>)| p.0),
    {
        ProxyActuator { actuators }
    }

    /// The number of backends.
    pub fn len(&self) -> (r: usize)
        ensures
            r == self.ranges().len(),
            r == self.backends().len(),
    {
        self.actuators.len()
    }

    /// The backend at `index`.
    pub fn actuator(&self, index: usize) -> (r: &A)
        requires
            index < self.backends().len(),
        ensures
            *r == self.backends()[index as int],
    {
        &self.actuators[index].0
    }

    /// The first backend whose range holds `id`, by its position.
    pub fn find_actuator_for_id(&self, id: u32) -> (r: Option<usize>)
        ensures
            r == match first_match(self.ranges(), id) {
                Some(i) => Some(i as usize),
                None => None::<usize>,
            },
            match r {
                Some(i) => routes_to(self.ranges(), id, i as int),
                None => unrouted(self.ranges(), id),
            },
    {
        let ghost ranges = self.ranges();
        proof {
            lemma_first_match(ranges, id);
        }
        let mut i: usize = 0;
        while i < self.actuators.len()
            invariant
                ranges == self.ranges(),
                i <= ranges.len(),
                forall|j: int| 0 <= j < i ==> !in_range(#[trigger] ranges[j], id),
            decreases ranges.len() - i,
        {
            let range = &self.actuators[i].1;
            assert(*range == ranges[i as int]);
            if id <= 255 && range.contains(&(id as u8)) {
                proof {
                    lemma_first_match(ranges, id);
                    let f = first_match(ranges, id)->0;
                    assert(routes_to(ranges, id, i as int));
                    if f < i {
                        assert(!in_range(ranges[f], id));
                    } else if f > i {
                        assert(!in_range(ranges[i as int], id));
                    }
                }
                return Some(i);
            }
            i = i + 1;
        }
        None
    }

    /// Routes a batch of IDs: for each ID that some range holds, in batch
    /// order, its position in the batch and the backend that owns it.
    pub fn route_batch(&self, ids: &Vec<u32>) -> (r: Vec<Route>)
        ensures
            r@ == planned_routes(self.ranges(), ids@),
    {
        let mut routes: Vec<Route> = Vec::new();
        let mut k: usize = 0;
        while k < ids.len()
            invariant
                k <= ids@.len(),
                routes@ == planned_routes(self.ranges(), ids@.subrange(0, k as int)),
            decreases ids@.len() - k,
        {
            proof {
                assert(ids@.subrange(0, k + 1).drop_last() =~= ids@.subrange(0, k as int));
            }
            match self.find_actuator_for_id(ids[k]) {
                Some(b) => routes.push(Route { position: k, backend: b }),
                None => {},
            }
            k = k + 1;
        }
        assert(ids@.subrange(0, k as int) =~= ids@);
        routes
    }
}

} // verus!
