//! One packet on its way across the canvas.
//!
//! Every tick an animation in transit moves by a fraction of what is left of
//! its way, each axis for itself and rounded toward zero. It has arrived once
//! the step has shrunk to nothing on both axes at the same time: an axis
//! whose step is zero stays put while the other axis still moves. An arrived
//! animation is put on its destination.

use crate::geometry::Point;
use vstd::prelude::*;

verus! {

/// `a` divided by `n`, rounded toward zero.
pub open spec fn quotient(a: int, n: int) -> int
    recommends
        n >= 1,
{
    if a >= 0 {
        a / n
    } else {
        -((-a) / n)
    }
}

/// `x` lies between `a` and `b`, whichever of the two is the smaller.
pub open spec fn between(a: int, x: int, b: int) -> bool {
    (a <= x <= b) || (b <= x <= a)
}

/// The distance from `a` to `b` on one axis.
pub open spec fn gap(a: int, b: int) -> nat {
    if a <= b {
        (b - a) as nat
    } else {
        (a - b) as nat
    }
}

/// An animation as contracts see it.
pub ghost struct Transit {
    pub source_endpoint: Seq<char>,
    pub destination_endpoint: Seq<char>,
    pub source: Point,
    pub destination: Point,
    pub position: Point,
}

impl Transit {
    /// The animation for a packet that sets out from `source`.
    pub open spec fn launch(
        source_endpoint: Seq<char>,
        destination_endpoint: Seq<char>,
        source: Point,
        destination: Point,
    ) -> Transit {
        Transit { source_endpoint, destination_endpoint, source, destination, position: source }
    }

    /// The position never leaves the box that source and destination span.
    pub open spec fn wf(self) -> bool {
        &&& between(self.source.x as int, self.position.x as int, self.destination.x as int)
        &&& between(self.source.y as int, self.position.y as int, self.destination.y as int)
    }

    /// This tick's step along the x axis.
    pub open spec fn delta_x(self, steps: int) -> int {
        quotient(self.destination.x - self.position.x, steps)
    }

    /// This tick's step along the y axis.
    pub open spec fn delta_y(self, steps: int) -> int {
        quotient(self.destination.y - self.position.y, steps)
    }

    /// The animation arrives this tick: the step is zero on both axes.
    pub open spec fn converged(self, steps: int) -> bool {
        self.delta_x(steps) == 0 && self.delta_y(steps) == 0
    }

    /// The animation after this tick: on its destination if it arrives, and
    /// one step further on both axes if it does not.
    pub open spec fn stepped(self, steps: int) -> Transit {
        if self.converged(steps) {
            Transit { position: self.destination, ..self }
        } else {
            Transit {
                position: Point {
                    x: (self.position.x + self.delta_x(steps)) as i32,
                    y: (self.position.y + self.delta_y(steps)) as i32,
                },
                ..self
            }
        }
    }

    /// The animation after `ticks` ticks.
    pub open spec fn after(self, steps: int, ticks: nat) -> Transit
        decreases ticks,
    {
        if ticks == 0 {
            self
        } else {
            self.stepped(steps).after(steps, (ticks - 1) as nat)
        }
    }

    /// What is left of the way, both axes added up.
    pub open spec fn distance(self) -> nat {
        gap(self.position.x as int, self.destination.x as int) + gap(
            self.position.y as int,
            self.destination.y as int,
        )
    }
}

/// A step is no longer than what is left of the way and points toward the
/// destination. It is zero exactly when less than `n` is left.
pub proof fn lemma_quotient(a: int, n: int)
    requires
        n >= 1,
    ensures
        a >= 0 ==> 0 <= quotient(a, n) <= a,
        a <= 0 ==> a <= quotient(a, n) <= 0,
        quotient(a, n) == 0 <==> -n < a < n,
{
    if a >= 0 {
        assert(0 <= a / n <= a && (a / n == 0 <==> a < n)) by (nonlinear_arith)
            requires
                a >= 0,
                n >= 1,
        ;
    } else {
        let b = -a;
        assert(0 <= b / n <= b && (b / n == 0 <==> b < n)) by (nonlinear_arith)
            requires
                b >= 0,
                n >= 1,
        ;
    }
}

/// A step leads toward the destination and not past it: on each axis the new
/// position lies between the old one and the destination. So an animation
/// that stayed within the box of its endpoints still does.
pub proof fn lemma_step_stays_between(a: Transit, steps: int)
    requires
        steps >= 1,
    ensures
        between(
            a.position.x as int,
            a.stepped(steps).position.x as int,
            a.destination.x as int,
        ),
        between(
            a.position.y as int,
            a.stepped(steps).position.y as int,
            a.destination.y as int,
        ),
        a.stepped(steps).position.x == a.position.x + a.delta_x(steps) || a.converged(steps),
        a.stepped(steps).position.y == a.position.y + a.delta_y(steps) || a.converged(steps),
        a.wf() ==> a.stepped(steps).wf(),
{
    lemma_quotient(a.destination.x - a.position.x, steps);
    lemma_quotient(a.destination.y - a.position.y, steps);
}

/// An animation that does not arrive gets closer: what is left of its way
/// shrinks with every tick. One that arrives stands on its destination.
pub proof fn lemma_step_approaches(a: Transit, steps: int)
    requires
        steps >= 1,
    ensures
        !a.converged(steps) ==> a.stepped(steps).distance() < a.distance(),
        a.converged(steps) ==> a.stepped(steps).position == a.destination,
        a.distance() == 0 ==> a.converged(steps),
{
    lemma_quotient(a.destination.x - a.position.x, steps);
    lemma_quotient(a.destination.y - a.position.y, steps);
    lemma_step_stays_between(a, steps);
}

/// Arrival is final: an animation that has arrived stays where it is and
/// arrives again in every later tick.
pub proof fn lemma_arrival_is_final(a: Transit, steps: int)
    requires
        steps >= 1,
        a.converged(steps),
    ensures
        a.stepped(steps).converged(steps),
        a.stepped(steps).stepped(steps) == a.stepped(steps),
{
    lemma_quotient(0, steps);
}

/// Every animation arrives: after as many ticks as there are pixels left of
/// its way, counting both axes, the step is zero on both.
pub proof fn lemma_arrives_within(a: Transit, steps: int, ticks: nat)
    requires
        steps >= 1,
        ticks >= a.distance(),
    ensures
        a.after(steps, ticks).converged(steps),
    decreases ticks,
{
    lemma_step_approaches(a, steps);
    if ticks == 0 {
    } else if a.converged(steps) {
        lemma_arrival_is_final(a, steps);
        lemma_step_approaches(a.stepped(steps), steps);
        lemma_stays_arrived(a.stepped(steps), steps, (ticks - 1) as nat);
    } else {
        lemma_arrives_within(a.stepped(steps), steps, (ticks - 1) as nat);
    }
}

/// An animation that arrives now arrives after any number of further ticks.
proof fn lemma_stays_arrived(a: Transit, steps: int, ticks: nat)
    requires
        steps >= 1,
        a.converged(steps),
    ensures
        a.after(steps, ticks).converged(steps),
    decreases ticks,
{
    if ticks > 0 {
        lemma_arrival_is_final(a, steps);
        lemma_stays_arrived(a.stepped(steps), steps, (ticks - 1) as nat);
    }
}

/// One in-flight packet: the two endpoints, where each of them sits, and
/// where the packet is now.
#[derive(Debug)]
pub struct PacketAnimation {
    source_endpoint: String,
    destination_endpoint: String,
    source: Point,
    destination: Point,
    position: Point,
}

impl View for PacketAnimation {
    type V = Transit;

    closed spec fn view(&self) -> Transit {
        Transit {
            source_endpoint: self.source_endpoint@,
            destination_endpoint: self.destination_endpoint@,
            source: self.source,
            destination: self.destination,
            position: self.position,
        }
    }
}

impl PacketAnimation {
    /// A packet that sets out from `source` toward `destination`.
    pub fn launch(
        source_endpoint: String,
        destination_endpoint: String,
        source: Point,
        destination: Point,
    ) -> (a: PacketAnimation)
        ensures
            a@ == Transit::launch(source_endpoint@, destination_endpoint@, source, destination),
            a@.wf(),
    {
        PacketAnimation {
            source_endpoint,
            destination_endpoint,
            source,
            destination,
            position: source,
        }
    }

    /// The endpoint that the packet comes from.
    pub fn source_endpoint(&self) -> (e: &str)
        ensures
            e@ == self@.source_endpoint,
    {
        self.source_endpoint.as_str()
    }

    /// The endpoint that the packet goes to.
    pub fn destination_endpoint(&self) -> (e: &str)
        ensures
            e@ == self@.destination_endpoint,
    {
        self.destination_endpoint.as_str()
    }

    /// Where the source endpoint sits.
    pub fn source(&self) -> (p: Point)
        ensures
            p == self@.source,
    {
        self.source
    }

    /// Where the destination endpoint sits.
    pub fn destination(&self) -> (p: Point)
        ensures
            p == self@.destination,
    {
        self.destination
    }

    /// Where the packet is now.
    pub fn position(&self) -> (p: Point)
        ensures
            p == self@.position,
    {
        self.position
    }

    /// Moves the packet by one tick, with `steps` as the divisor of what is
    /// left of the way, and says whether it has arrived.
    pub fn step(&mut self, steps: i32) -> (arrived: bool)
        requires
            steps >= 1,
        ensures
            final(self)@ == old(self)@.stepped(steps as int),
            arrived == old(self)@.converged(steps as int),
            old(self)@.wf() ==> final(self)@.wf(),
    {
        let n: i64 = steps as i64;
        let left_x: i64 = self.destination.x as i64 - self.position.x as i64;
        let left_y: i64 = self.destination.y as i64 - self.position.y as i64;
        let delta_x: i64 = left_x / n;
        let delta_y: i64 = left_y / n;
        proof {
            lemma_quotient(left_x as int, n as int);
            lemma_quotient(left_y as int, n as int);
        }
        if delta_x == 0 && delta_y == 0 {
            self.position = self.destination;
            true
        } else {
            let x: i64 = self.position.x as i64 + delta_x;
            let y: i64 = self.position.y as i64 + delta_y;
            self.position = Point { x: x as i32, y: y as i32 };
            false
        }
    }
}

} // verus!
