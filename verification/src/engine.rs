//! The animation engine: the packets in flight and the places of their
//! endpoints.
//!
//! A tick takes the pairs that arrived since the last one, in their order,
//! and spawns one animation for each. Then every live animation, the new ones
//! among them, moves one step, and those that arrive are removed. What is left
//! is what the tick hands to the renderer. How many waiting pairs a tick
//! takes is the caller's choice, see `Drain`; all that it hands over are
//! spawned in that tick.

use crate::animation::{lemma_step_approaches, PacketAnimation, Transit};
use crate::classifier::EndpointPair;
use crate::geometry::{Canvas, Point};
use crate::registry::{lemma_resolved_extends, resolved, Registry};
use vstd::prelude::*;

verus! {

/// The usual divisor: a packet covers a tenth of what is left of its way per
/// tick.
pub const DEFAULT_STEPS: i32 = 10;

/// How many of the pairs that wait in the channel one tick takes.
#[derive(Clone, Copy, Debug, PartialEq, Eq, Structural)]
pub enum Drain {
    /// At most one: a burst of frames is spread over as many ticks.
    OnePerTick,
    /// All that wait: every pair is spawned in the tick after its capture.
    All,
}

impl Drain {
    /// Whether a tick that has taken `taken` pairs so far polls the channel
    /// once more.
    pub fn polls_again(self, taken: usize) -> (again: bool)
        ensures
            again == match self {
                Drain::OnePerTick => taken == 0,
                Drain::All => true,
            },
    {
        match self {
            Drain::OnePerTick => taken == 0,
            Drain::All => true,
        }
    }
}

/// The animations as contracts see them.
pub open spec fn views(packets: Seq<PacketAnimation>) -> Seq<Transit> {
    Seq::new(packets.len(), |i: int| packets[i]@)
}

/// The assignments after both endpoints of `pair` have been resolved, the
/// source first, with `source` and `destination` on offer for them.
pub open spec fn enrolled(
    places: Map<Seq<char>, Point>,
    pair: (Seq<char>, Seq<char>),
    source: Point,
    destination: Point,
) -> Map<Seq<char>, Point> {
    resolved(resolved(places, pair.0, source).0, pair.1, destination).0
}

/// The animation that `pair` spawns when its endpoints sit where `places`
/// says.
pub open spec fn spawned(places: Map<Seq<char>, Point>, pair: (Seq<char>, Seq<char>)) -> Transit {
    Transit::launch(pair.0, pair.1, places[pair.0], places[pair.1])
}

/// The animation stays within the box of its two endpoints, and these sit
/// where `places` has them.
pub open spec fn anchored(a: Transit, places: Map<Seq<char>, Point>) -> bool {
    &&& a.wf()
    &&& places.contains_key(a.source_endpoint)
    &&& places[a.source_endpoint] == a.source
    &&& places.contains_key(a.destination_endpoint)
    &&& places[a.destination_endpoint] == a.destination
}

/// What becomes of one animation in a tick: nothing if it arrives, and the
/// animation one step further if it does not.
pub open spec fn next(a: Transit, steps: int) -> Option<Transit> {
    if a.converged(steps) {
        None
    } else {
        Some(a.stepped(steps))
    }
}

/// The live set after the update and the reaping of one tick: those that
/// did not arrive, each one step further, in their old order.
pub open spec fn advanced(live: Seq<Transit>, steps: int) -> Seq<Transit> {
    live.filter_map(|a: Transit| next(a, steps))
}

/// The number of animations that arrive in one tick.
pub open spec fn arrivals(live: Seq<Transit>, steps: int) -> nat {
    live.filter(|a: Transit| a.converged(steps)).len()
}

/// The pairs as contracts see them.
pub open spec fn pair_views(pairs: Seq<EndpointPair>) -> Seq<(Seq<char>, Seq<char>)> {
    Seq::new(pairs.len(), |i: int| pairs[i]@)
}

/// The animations that `pairs` spawn, one for each pair and in their order,
/// when the endpoints sit where `places` says.
pub open spec fn spawned_all(
    places: Map<Seq<char>, Point>,
    pairs: Seq<(Seq<char>, Seq<char>)>,
) -> Seq<Transit> {
    Seq::new(pairs.len(), |i: int| spawned(places, pairs[i]))
}

/// The assignments after the endpoints of all `pairs` have been resolved in
/// order, where `chosen` holds the place on offer for each endpoint.
pub open spec fn enrolled_all(
    places: Map<Seq<char>, Point>,
    pairs: Seq<(Seq<char>, Seq<char>)>,
    chosen: Map<Seq<char>, Point>,
) -> Map<Seq<char>, Point>
    decreases pairs.len(),
{
    if pairs.len() == 0 {
        places
    } else {
        enrolled(
            enrolled_all(places, pairs.drop_last(), chosen),
            pairs.last(),
            chosen[pairs.last().0],
            chosen[pairs.last().1],
        )
    }
}

/// `enrolled_all` looks at `chosen` only where the endpoints of `pairs` are.
proof fn lemma_enrolled_all_reads_endpoints(
    places: Map<Seq<char>, Point>,
    pairs: Seq<(Seq<char>, Seq<char>)>,
    c1: Map<Seq<char>, Point>,
    c2: Map<Seq<char>, Point>,
)
    requires
        forall|i: int|
            0 <= i < pairs.len() ==> c1[(#[trigger] pairs[i]).0] == c2[pairs[i].0] && c1[pairs[i].1]
                == c2[pairs[i].1],
    ensures
        enrolled_all(places, pairs, c1) == enrolled_all(places, pairs, c2),
    decreases pairs.len(),
{
    if pairs.len() > 0 {
        lemma_enrolled_all_reads_endpoints(places, pairs.drop_last(), c1, c2);
    }
}

/// Spawning never takes an endpoint away and never moves one: after any
/// number of pairs every assignment from before is still there, and both
/// endpoints of every pair have a place.
pub proof fn lemma_enrolled_all_extends(
    places: Map<Seq<char>, Point>,
    pairs: Seq<(Seq<char>, Seq<char>)>,
    chosen: Map<Seq<char>, Point>,
)
    ensures
        places.submap_of(enrolled_all(places, pairs, chosen)),
        forall|i: int|
            0 <= i < pairs.len() ==> enrolled_all(places, pairs, chosen).contains_key(
                (#[trigger] pairs[i]).0,
            ) && enrolled_all(places, pairs, chosen).contains_key(pairs[i].1),
    decreases pairs.len(),
{
    if pairs.len() > 0 {
        let before = enrolled_all(places, pairs.drop_last(), chosen);
        let last = pairs.last();
        lemma_enrolled_all_extends(places, pairs.drop_last(), chosen);
        let middle = resolved(before, last.0, chosen[last.0]).0;
        lemma_resolved_extends(before, last.0, chosen[last.0]);
        lemma_resolved_extends(middle, last.1, chosen[last.1]);
        assert forall|i: int| 0 <= i < pairs.len() implies enrolled_all(
            places,
            pairs,
            chosen,
        ).contains_key((#[trigger] pairs[i]).0) && enrolled_all(places, pairs, chosen).contains_key(
            pairs[i].1,
        ) by {
            if i < pairs.len() - 1 {
                assert(pairs.drop_last()[i] == pairs[i]);
            }
        }
    }
}

/// The state of the engine. It belongs to the thread that ticks.
pub struct State {
    packets: Vec<PacketAnimation>,
    map: Registry,
    steps: i32,
}

impl State {
    /// The live set, oldest animation first.
    pub closed spec fn live(&self) -> Seq<Transit> {
        views(self.packets@)
    }

    /// The position of every endpoint seen so far.
    pub closed spec fn places(&self) -> Map<Seq<char>, Point> {
        self.map@
    }

    /// The canvas that endpoints are placed on.
    pub closed spec fn canvas(&self) -> Canvas {
        self.map.canvas()
    }

    /// The divisor of the interpolation step.
    pub closed spec fn steps(&self) -> int {
        self.steps as int
    }

    /// The divisor is positive, every endpoint sits on the canvas, and every
    /// live animation runs between the places of two known endpoints.
    pub closed spec fn wf(&self) -> bool {
        &&& self.steps >= 1
        &&& self.map.wf()
        &&& forall|i: int|
            0 <= i < self.packets@.len() ==> anchored(#[trigger] self.packets@[i]@, self.map@)
    }

    /// An engine with nothing in flight and no endpoint placed, if `steps` can
    /// be a divisor.
    pub fn new(canvas: Canvas, steps: i32) -> (r: Option<State>)
        ensures
            r.is_some() <==> steps >= 1,
            r matches Some(state) ==> {
                &&& state.wf()
                &&& state.live() == Seq::<Transit>::empty()
                &&& state.places() == Map::<Seq<char>, Point>::empty()
                &&& state.canvas() == canvas
                &&& state.steps() == steps
            },
    {
        if steps >= 1 {
            let state = State { packets: Vec::new(), map: Registry::new(canvas), steps };
            Some(state)
        } else {
            None
        }
    }

    /// The live set, oldest animation first, as the renderer reads it.
    pub fn packets(&self) -> (packets: &Vec<PacketAnimation>)
        ensures
            views(packets@) == self.live(),
    {
        &self.packets
    }

    /// The positions of the endpoints.
    pub fn registry(&self) -> (registry: &Registry)
        ensures
            registry@ == self.places(),
            registry.canvas() == self.canvas(),
            self.wf() ==> registry.wf(),
    {
        &self.map
    }

    /// Puts the animation for `pair` behind the live ones, between the places
    /// `source` and `destination` that its endpoints have been resolved to.
    fn launch(&mut self, pair: &EndpointPair, source: Point, destination: Point)
        requires
            old(self).wf(),
            old(self).places().contains_key(pair@.0),
            old(self).places().contains_key(pair@.1),
            old(self).places()[pair@.0] == source,
            old(self).places()[pair@.1] == destination,
        ensures
            final(self).wf(),
            final(self).places() == old(self).places(),
            final(self).canvas() == old(self).canvas(),
            final(self).steps() == old(self).steps(),
            final(self).live() == old(self).live().push(spawned(old(self).places(), pair@)),
    {
        let animation = PacketAnimation::launch(
            pair.source.clone(),
            pair.destination.clone(),
            source,
            destination,
        );
        self.packets.push(animation);
    }

    /// Spawns the animation for `pair`, with `source` and `destination` as the
    /// places of those of its endpoints that have none yet.
    pub fn spawn_with(&mut self, pair: &EndpointPair, source: Point, destination: Point)
        requires
            old(self).wf(),
            old(self).canvas().contains(source),
            old(self).canvas().contains(destination),
        ensures
            final(self).wf(),
            final(self).places() == enrolled(old(self).places(), pair@, source, destination),
            old(self).places().submap_of(final(self).places()),
            final(self).live() == old(self).live().push(spawned(final(self).places(), pair@)),
            final(self).canvas() == old(self).canvas(),
            final(self).steps() == old(self).steps(),
    {
        let from = self.map.resolve_with(pair.source.as_str(), source);
        let to = self.map.resolve_with(pair.destination.as_str(), destination);
        self.launch(pair, from, to);
    }

    /// Spawns the animation for `pair`. An endpoint that has no place yet gets
    /// one drawn at random from the canvas, the source before the destination.
    pub fn spawn(&mut self, pair: &EndpointPair)
        requires
            old(self).wf(),
        ensures
            final(self).wf(),
            final(self).places() == enrolled(
                old(self).places(),
                pair@,
                final(self).places()[pair@.0],
                final(self).places()[pair@.1],
            ),
            old(self).places().submap_of(final(self).places()),
            final(self).live() == old(self).live().push(spawned(final(self).places(), pair@)),
            final(self).canvas() == old(self).canvas(),
            final(self).steps() == old(self).steps(),
    {
        let from = self.map.resolve(pair.source.as_str());
        let to = self.map.resolve(pair.destination.as_str());
        self.launch(pair, from, to);
    }

    /// The update pass and the reaping of one tick: every live animation
    /// moves one step, and those that arrive are removed. Returns how many
    /// were removed.
    pub fn advance(&mut self) -> (removed: usize)
        requires
            old(self).wf(),
        ensures
            final(self).wf(),
            final(self).live() == advanced(old(self).live(), old(self).steps()),
            removed == arrivals(old(self).live(), old(self).steps()),
            final(self).live().len() + removed == old(self).live().len(),
            final(self).places() == old(self).places(),
            final(self).canvas() == old(self).canvas(),
            final(self).steps() == old(self).steps(),
    {
        let mut before: Vec<PacketAnimation> = Vec::new();
        core::mem::swap(&mut self.packets, &mut before);
        let total: usize = before.len();
        let ghost was = views(before@);
        let ghost places = self.map@;
        let ghost n = self.steps as int;
        let steps: i32 = self.steps;
        let mut kept: Vec<PacketAnimation> = Vec::new();
        let mut removed: usize = 0;
        for packet in it: before.into_iter()
            invariant
                steps == n >= 1,
                was == views(it.seq()),
                it.seq().len() == total,
                views(kept@) == advanced(was.take(it.index() as int), n),
                removed == arrivals(was.take(it.index() as int), n),
                kept@.len() + removed == it.index(),
                forall|i: int| 0 <= i < it.seq().len() ==> anchored(#[trigger] it.seq()[i]@, places),
                forall|i: int| 0 <= i < kept@.len() ==> anchored(#[trigger] kept@[i]@, places),
        {
            let ghost i = it.index() as int;
            let mut packet = packet;
            proof {
                was.lemma_filter_map_take_succ(|a: Transit| next(a, n), i);
                was.lemma_take_succ_push(i);
                was.take(i).lemma_filter_push(was[i], |a: Transit| a.converged(n));
            }
            let arrived = packet.step(steps);
            if arrived {
                removed = removed + 1;
            } else {
                kept.push(packet);
            }
        }
        assert(was.take(was.len() as int) =~= was);
        self.packets = kept;
        removed
    }

    /// The spawn phase of one tick: one animation for each of `pairs`, in
    /// their order, behind the live ones.
    pub fn ingest(&mut self, pairs: &Vec<EndpointPair>)
        requires
            old(self).wf(),
        ensures
            final(self).wf(),
            final(self).places() == enrolled_all(
                old(self).places(),
                pair_views(pairs@),
                final(self).places(),
            ),
            old(self).places().submap_of(final(self).places()),
            final(self).live() == old(self).live() + spawned_all(
                final(self).places(),
                pair_views(pairs@),
            ),
            final(self).live().len() == old(self).live().len() + pairs@.len(),
            final(self).canvas() == old(self).canvas(),
            final(self).steps() == old(self).steps(),
    {
        let ghost all = pair_views(pairs@);
        let mut i: usize = 0;
        while i < pairs.len()
            invariant
                i <= pairs@.len(),
                all == pair_views(pairs@),
                self.wf(),
                self.canvas() == old(self).canvas(),
                self.steps() == old(self).steps(),
                self.places() == enrolled_all(old(self).places(), all.take(i as int), self.places()),
                self.live() == old(self).live() + spawned_all(self.places(), all.take(i as int)),
                forall|j: int|
                    0 <= j < i ==> self.places().contains_key((#[trigger] all[j]).0)
                        && self.places().contains_key(all[j].1),
            decreases pairs@.len() - i,
        {
            let ghost before = self.places();
            self.spawn(&pairs[i]);
            proof {
                let now = self.places();
                let done = all.take(i as int);
                let next_done = all.take(i as int + 1);
                assert(next_done.drop_last() =~= done);
                lemma_enrolled_all_reads_endpoints(old(self).places(), done, before, now);
                assert(spawned_all(now, next_done) =~= spawned_all(before, done).push(
                    spawned(now, all[i as int]),
                ));
            }
            i = i + 1;
        }
        assert(all.take(i as int) =~= all);
        proof {
            lemma_enrolled_all_extends(old(self).places(), all, self.places());
        }
    }

    /// One tick: the animations for `pairs` are spawned, then every live
    /// animation moves one step, and those that arrive are removed. Returns how
    /// many were removed.
    pub fn tick(&mut self, pairs: &Vec<EndpointPair>) -> (removed: usize)
        requires
            old(self).wf(),
        ensures
            final(self).wf(),
            final(self).places() == enrolled_all(
                old(self).places(),
                pair_views(pairs@),
                final(self).places(),
            ),
            old(self).places().submap_of(final(self).places()),
            final(self).live() == advanced(
                old(self).live() + spawned_all(final(self).places(), pair_views(pairs@)),
                old(self).steps(),
            ),
            removed == arrivals(
                old(self).live() + spawned_all(final(self).places(), pair_views(pairs@)),
                old(self).steps(),
            ),
            final(self).live().len() + removed == old(self).live().len() + pairs@.len(),
            final(self).canvas() == old(self).canvas(),
            final(self).steps() == old(self).steps(),
    {
        self.ingest(pairs);
        self.advance()
    }
}

/// The live set after `ticks` ticks in which no pair arrives.
pub open spec fn after_ticks(live: Seq<Transit>, steps: int, ticks: nat) -> Seq<Transit>
    decreases ticks,
{
    if ticks == 0 {
        live
    } else {
        after_ticks(advanced(live, steps), steps, (ticks - 1) as nat)
    }
}

/// What `advanced` and `arrivals` make of a live set with one more animation
/// at its end.
proof fn lemma_advanced_push(live: Seq<Transit>, last: Transit, steps: int)
    ensures
        advanced(live.push(last), steps) == if last.converged(steps) {
            advanced(live, steps)
        } else {
            advanced(live, steps).push(last.stepped(steps))
        },
        arrivals(live.push(last), steps) == if last.converged(steps) {
            arrivals(live, steps) + 1
        } else {
            arrivals(live, steps)
        },
{
    let longer = live.push(last);
    assert(longer.drop_last() =~= live);
    live.lemma_filter_push(last, |a: Transit| a.converged(steps));
    if !last.converged(steps) {
        assert(advanced(live, steps) + seq![last.stepped(steps)] =~= advanced(live, steps).push(
            last.stepped(steps),
        ));
    }
}

/// In a tick the live set loses as many animations as arrive in it: those
/// that stay and those that arrive add up to those that were live.
pub proof fn lemma_conservation(live: Seq<Transit>, steps: int)
    ensures
        advanced(live, steps).len() + arrivals(live, steps) == live.len(),
    decreases live.len(),
{
    if live.len() == 0 {
        assert(live.filter(|a: Transit| a.converged(steps)).len() <= live.len()) by {
            live.lemma_filter_len(|a: Transit| a.converged(steps));
        }
    } else {
        lemma_conservation(live.drop_last(), steps);
        lemma_advanced_push(live.drop_last(), live.last(), steps);
        assert(live.drop_last().push(live.last()) =~= live);
    }
}

/// No animation is removed while its step is not zero on both axes: it is in
/// the live set after the tick, one step further.
pub proof fn lemma_only_arrivals_leave(live: Seq<Transit>, steps: int, i: int)
    requires
        0 <= i < live.len(),
        !live[i].converged(steps),
    ensures
        advanced(live, steps).contains(live[i].stepped(steps)),
    decreases live.len(),
{
    let rest = live.drop_last();
    lemma_advanced_push(rest, live.last(), steps);
    assert(rest.push(live.last()) =~= live);
    if i == live.len() - 1 {
        let kept = advanced(rest, steps).push(live.last().stepped(steps));
        assert(kept[kept.len() - 1] == live[i].stepped(steps));
    } else {
        lemma_only_arrivals_leave(rest, steps, i);
        let j = choose|j: int|
            0 <= j < advanced(rest, steps).len() && advanced(rest, steps)[j] == live[i].stepped(
                steps,
            );
        assert(advanced(live, steps)[j] == live[i].stepped(steps));
    }
}

/// Every animation that is live after a tick was live before it, did not
/// arrive, and is one step further.
pub proof fn lemma_survivors_moved(live: Seq<Transit>, steps: int, j: int)
    requires
        0 <= j < advanced(live, steps).len(),
    ensures
        exists|i: int|
            0 <= i < live.len() && !(#[trigger] live[i]).converged(steps) && advanced(
                live,
                steps,
            )[j] == live[i].stepped(steps),
    decreases live.len(),
{
    if live.len() > 0 {
        let rest = live.drop_last();
        lemma_advanced_push(rest, live.last(), steps);
        if j < advanced(rest, steps).len() {
            lemma_survivors_moved(rest, steps, j);
        }
    }
}

/// Without new pairs the live set runs empty: once more ticks have passed
/// than the longest way left counts pixels, both axes added up, nothing is
/// live.
pub proof fn lemma_drains(live: Seq<Transit>, steps: int, ticks: nat)
    requires
        steps >= 1,
        forall|i: int| 0 <= i < live.len() ==> (#[trigger] live[i]).distance() < ticks,
    ensures
        after_ticks(live, steps, ticks).len() == 0,
    decreases ticks,
{
    if ticks == 0 {
        // No way is shorter than nothing, so nothing can be live.
        if live.len() > 0 {
            assert(live[0].distance() >= 0);
        }
    } else {
        let then = advanced(live, steps);
        assert forall|j: int| 0 <= j < then.len() implies (#[trigger] then[j]).distance() < ticks
            - 1 by {
            lemma_survivors_moved(live, steps, j);
            let i = choose|i: int|
                0 <= i < live.len() && !(#[trigger] live[i]).converged(steps) && then[j]
                    == live[i].stepped(steps);
            lemma_step_approaches(live[i], steps);
        }
        lemma_drains(then, steps, (ticks - 1) as nat);
    }
}

/// Every live animation is on the canvas, and so are its two endpoints.
pub proof fn lemma_live_on_canvas(state: &State, i: int)
    requires
        state.wf(),
        0 <= i < state.live().len(),
    ensures
        state.canvas().contains(state.live()[i].source),
        state.canvas().contains(state.live()[i].destination),
        state.canvas().contains(state.live()[i].position),
        anchored(state.live()[i], state.places()),
{
    let a = state.packets@[i]@;
    state.map.lemma_places_on_canvas(a.source_endpoint);
    state.map.lemma_places_on_canvas(a.destination_endpoint);
}

} // verus!
