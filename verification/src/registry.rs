//! Where each endpoint sits on the canvas.
//!
//! An endpoint gets its position when it is first seen and keeps it from then
//! on. Nothing is ever removed.

use crate::geometry::{Canvas, Point};
use vstd::hash_map::StringHashMap;
use vstd::prelude::*;
use vstd::string::StringExecFns;

verus! {

/// What resolving `endpoint` makes of the assignments `places`, and the
/// position it returns, when `candidate` is the position on offer for an
/// endpoint that has none: a known endpoint keeps its position and the
/// candidate is not used.
pub open spec fn resolved(places: Map<Seq<char>, Point>, endpoint: Seq<char>, candidate: Point) -> (
    Map<Seq<char>, Point>,
    Point,
) {
    if places.contains_key(endpoint) {
        (places, places[endpoint])
    } else {
        (places.insert(endpoint, candidate), candidate)
    }
}

/// The assignment of positions to endpoints. Its view is the map from an
/// endpoint's text to its position.
pub struct Registry {
    canvas: Canvas,
    places: StringHashMap<Point>,
}

impl View for Registry {
    type V = Map<Seq<char>, Point>;

    closed spec fn view(&self) -> Map<Seq<char>, Point> {
        self.places@
    }
}

impl Registry {
    /// Every assigned position lies on the canvas.
    pub closed spec fn wf(&self) -> bool {
        &&& self.canvas.wf()
        &&& forall|endpoint: Seq<char>| #[trigger]
            self.places@.contains_key(endpoint) ==> self.canvas.contains(self.places@[endpoint])
    }

    /// The canvas that positions are drawn from.
    pub closed spec fn canvas(&self) -> Canvas {
        self.canvas
    }

    /// Every endpoint of the registry sits on the canvas.
    pub proof fn lemma_places_on_canvas(&self, endpoint: Seq<char>)
        requires
            self.wf(),
            self@.contains_key(endpoint),
        ensures
            self.canvas().contains(self@[endpoint]),
    {
    }

    /// A registry that knows no endpoint yet.
    pub fn new(canvas: Canvas) -> (r: Registry)
        ensures
            r@ == Map::<Seq<char>, Point>::empty(),
            r.canvas() == canvas,
            r.wf(),
    {
        proof {
            use_type_invariant(canvas);
        }
        Registry { canvas, places: StringHashMap::new() }
    }

    /// The number of endpoints seen so far.
    pub fn len(&self) -> (n: usize)
        ensures
            n == self@.len(),
    {
        self.places.len()
    }

    /// The canvas that positions are drawn from.
    pub fn get_canvas(&self) -> (c: Canvas)
        ensures
            c == self.canvas(),
    {
        self.canvas
    }

    /// The position of `endpoint`, if it has one.
    pub fn lookup(&self, endpoint: &str) -> (r: Option<Point>)
        requires
            self.wf(),
        ensures
            r == (if self@.contains_key(endpoint@) {
                Some(self@[endpoint@])
            } else {
                None
            }),
            r matches Some(p) ==> self.canvas().contains(p),
    {
        match self.places.get(endpoint) {
            Some(p) => Some(*p),
            None => None,
        }
    }

    /// The position of `endpoint`, which becomes `candidate` if the endpoint
    /// had none.
    pub fn resolve_with(&mut self, endpoint: &str, candidate: Point) -> (p: Point)
        requires
            old(self).wf(),
            old(self).canvas().contains(candidate),
        ensures
            final(self).wf(),
            (final(self)@, p) == resolved(old(self)@, endpoint@, candidate),
            old(self)@.contains_key(endpoint@) ==> final(self)@ == old(self)@ && p == old(self)@[endpoint@],
            !old(self)@.contains_key(endpoint@) ==> final(self)@ == old(self)@.insert(endpoint@, candidate)
                && p == candidate,
            final(self).canvas() == old(self).canvas(),
            final(self).canvas().contains(p),
    {
        match self.places.get(endpoint) {
            Some(p) => *p,
            None => {
                self.places.insert(String::from_str(endpoint), candidate);
                candidate
            },
        }
    }

    /// The position of `endpoint`, drawn at random from the canvas if the
    /// endpoint had none. Nothing is drawn for a known endpoint.
    pub fn resolve(&mut self, endpoint: &str) -> (p: Point)
        requires
            old(self).wf(),
        ensures
            final(self).wf(),
            (final(self)@, p) == resolved(old(self)@, endpoint@, p),
            old(self)@.contains_key(endpoint@) ==> final(self)@ == old(self)@ && p == old(self)@[endpoint@],
            !old(self)@.contains_key(endpoint@) ==> final(self)@ == old(self)@.insert(endpoint@, p),
            final(self).canvas() == old(self).canvas(),
            final(self).canvas().contains(p),
    {
        match self.places.get(endpoint) {
            Some(p) => *p,
            None => {
                let fresh = self.canvas.rand_pos();
                self.places.insert(String::from_str(endpoint), fresh);
                fresh
            },
        }
    }
}

/// Resolving never takes an endpoint away and never moves one: every
/// assignment from before is still there, and the resolved endpoint has the
/// returned position.
pub proof fn lemma_resolved_extends(
    places: Map<Seq<char>, Point>,
    endpoint: Seq<char>,
    candidate: Point,
)
    ensures
        places.submap_of(resolved(places, endpoint, candidate).0),
        resolved(places, endpoint, candidate).0.contains_key(endpoint),
        resolved(places, endpoint, candidate).0[endpoint] == resolved(places, endpoint, candidate).1,
        resolved(places, endpoint, candidate).0.dom() == places.dom().insert(endpoint),
{
}

/// Resolving an endpoint twice in a row gives the same position both times,
/// whatever is on offer the second time, and the second call changes nothing.
pub proof fn lemma_resolve_is_idempotent(
    places: Map<Seq<char>, Point>,
    endpoint: Seq<char>,
    first: Point,
    second: Point,
)
    ensures
        ({
            let (once, place) = resolved(places, endpoint, first);
            let (twice, again) = resolved(once, endpoint, second);
            again == place && twice == once
        }),
{
}

/// Once an endpoint has been resolved, resolving any other endpoint leaves it
/// where it was: it keeps the position that the first call returned, and a
/// later call for it returns that position again.
pub proof fn lemma_first_seen_wins(
    places: Map<Seq<char>, Point>,
    endpoint: Seq<char>,
    other: Seq<char>,
    offer: Point,
    other_offer: Point,
    later_offer: Point,
)
    requires
        endpoint != other,
    ensures
        ({
            let (after_first, place) = resolved(places, endpoint, offer);
            let (after_other, _) = resolved(after_first, other, other_offer);
            &&& after_other.contains_key(endpoint)
            &&& after_other[endpoint] == place
            &&& resolved(after_other, endpoint, later_offer).1 == place
        }),
{
}

} // verus!
