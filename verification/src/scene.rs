//! What a tick hands to the renderer: the shapes to draw and the colour
//! behind them.
//!
//! Every live packet is drawn as three rings, on its source, on its
//! destination and where it is now, and a line from where it is to where it
//! goes. Drawing itself happens elsewhere.

use crate::animation::{PacketAnimation, Transit};
use crate::engine::views;
use crate::geometry::Point;
use vstd::prelude::*;

verus! {

/// Radius of the ring that marks a position, in pixels.
pub const MARKER_RADIUS: i16 = 16;

/// The green part of every background colour.
pub const BACKGROUND_GREEN: u8 = 64;

/// Length of the background's colour cycle, in ticks.
pub const PHASES: u8 = 255;

/// A colour by its red, green and blue parts.
#[derive(Clone, Copy, Debug, PartialEq, Eq, Structural)]
pub struct Color {
    pub r: u8,
    pub g: u8,
    pub b: u8,
}

/// One thing to draw, in the renderer's sixteen-bit coordinates.
#[derive(Clone, Copy, Debug, PartialEq, Eq, Structural)]
pub enum Shape {
    Circle { x: i16, y: i16, radius: i16 },
    Line { x1: i16, y1: i16, x2: i16, y2: i16 },
}

/// A canvas coordinate as the renderer takes it: its low sixteen bits. A
/// coordinate up to `i16::MAX` is unchanged.
pub open spec fn pixel(v: i32) -> i16 {
    v as i16
}

/// The ring on `p`.
pub open spec fn marker(p: Point) -> Shape {
    Shape::Circle { x: pixel(p.x), y: pixel(p.y), radius: MARKER_RADIUS }
}

/// The four shapes of one packet.
pub open spec fn shapes_of(a: Transit) -> Seq<Shape> {
    seq![
        marker(a.source),
        marker(a.destination),
        marker(a.position),
        Shape::Line {
            x1: pixel(a.position.x),
            y1: pixel(a.position.y),
            x2: pixel(a.destination.x),
            y2: pixel(a.destination.y),
        },
    ]
}

/// The shapes of all packets, oldest packet first.
pub open spec fn scene(live: Seq<Transit>) -> Seq<Shape>
    decreases live.len(),
{
    if live.len() == 0 {
        Seq::empty()
    } else {
        scene(live.drop_last()) + shapes_of(live.last())
    }
}

/// The phase of the colour cycle after `phase`.
pub open spec fn following_phase(phase: u8) -> u8 {
    ((phase + 1) % (PHASES as int)) as u8
}

/// The background colour in `phase`: red rises with the phase and blue falls.
pub open spec fn backdrop(phase: u8) -> Color {
    Color { r: phase, g: BACKGROUND_GREEN, b: (255 - phase) as u8 }
}

fn to_pixel(v: i32) -> (r: i16)
    ensures
        r == pixel(v),
        0 <= v <= i16::MAX ==> r == v,
{
    v as i16
}

fn ring(p: Point) -> (s: Shape)
    ensures
        s == marker(p),
{
    Shape::Circle { x: to_pixel(p.x), y: to_pixel(p.y), radius: MARKER_RADIUS }
}

/// The shapes to draw for the given live set.
pub fn draw_list(packets: &Vec<PacketAnimation>) -> (shapes: Vec<Shape>)
    ensures
        shapes@ == scene(views(packets@)),
{
    let ghost live = views(packets@);
    let mut shapes: Vec<Shape> = Vec::new();
    let mut i: usize = 0;
    while i < packets.len()
        invariant
            i <= packets@.len(),
            live == views(packets@),
            shapes@ == scene(live.take(i as int)),
        decreases packets@.len() - i,
    {
        let packet = &packets[i];
        let position = packet.position();
        let destination = packet.destination();
        proof {
            let done = live.take(i as int + 1);
            assert(done.drop_last() =~= live.take(i as int));
        }
        shapes.push(ring(packet.source()));
        shapes.push(ring(destination));
        shapes.push(ring(position));
        shapes.push(
            Shape::Line {
                x1: to_pixel(position.x),
                y1: to_pixel(position.y),
                x2: to_pixel(destination.x),
                y2: to_pixel(destination.y),
            },
        );
        i = i + 1;
    }
    assert(live.take(i as int) =~= live);
    shapes
}

/// The phase of the colour cycle that follows `phase`.
pub fn next_phase(phase: u8) -> (r: u8)
    ensures
        r == following_phase(phase),
        r < PHASES,
{
    let wide: u16 = (phase as u16 + 1) % (PHASES as u16);
    wide as u8
}

/// The colour to clear the canvas with in `phase`.
pub fn background(phase: u8) -> (c: Color)
    ensures
        c == backdrop(phase),
{
    Color { r: phase, g: BACKGROUND_GREEN, b: 255 - phase }
}

} // verus!
