use packet_visualizer::classifier::EndpointPair;
use packet_visualizer::engine::{Drain, State, DEFAULT_STEPS};
use packet_visualizer::geometry::{Canvas, Point};

fn canvas() -> Canvas {
    Canvas::new(800, 600).unwrap()
}

fn engine() -> State {
    State::new(canvas(), 10).unwrap()
}

fn pair(source: &str, destination: &str) -> EndpointPair {
    EndpointPair { source: source.to_string(), destination: destination.to_string() }
}

fn positions(state: &State) -> Vec<(i32, i32)> {
    state.packets().iter().map(|a| (a.position().x, a.position().y)).collect()
}

#[test]
fn default_divisor_is_ten() {
    assert_eq!(DEFAULT_STEPS, 10);
    assert!(State::new(canvas(), DEFAULT_STEPS).is_some());
}

#[test]
fn new_engine_is_empty() {
    let state = engine();
    assert!(state.packets().is_empty());
    assert_eq!(state.registry().len(), 0);
    assert_eq!(state.registry().get_canvas(), canvas());
}

#[test]
fn divisor_must_be_positive() {
    assert!(State::new(canvas(), 0).is_none());
    assert!(State::new(canvas(), -10).is_none());
    assert!(State::new(canvas(), i32::MIN).is_none());
    assert!(State::new(canvas(), 1).is_some());
    assert!(State::new(canvas(), 60).is_some());
    assert!(State::new(canvas(), i32::MAX).is_some());
}

#[test]
fn spawn_puts_the_packet_on_its_source() {
    let mut state = engine();
    state.spawn_with(&pair("10.0.0.1", "10.0.0.2"), Point::new(0, 0), Point::new(100, 100));
    assert_eq!(state.packets().len(), 1);
    let a = &state.packets()[0];
    assert_eq!(a.position(), Point::new(0, 0));
    assert_eq!(a.source(), Point::new(0, 0));
    assert_eq!(a.destination(), Point::new(100, 100));
    assert_eq!(a.source_endpoint(), "10.0.0.1");
    assert_eq!(a.destination_endpoint(), "10.0.0.2");
    assert_eq!(state.registry().lookup("10.0.0.1"), Some(Point::new(0, 0)));
    assert_eq!(state.registry().lookup("10.0.0.2"), Some(Point::new(100, 100)));
    assert_eq!(state.registry().len(), 2);
}

#[test]
fn one_pair_spawns_one_animation() {
    let mut state = engine();
    for n in 1..=20 {
        state.spawn(&pair("10.0.0.1", "10.0.0.2"));
        assert_eq!(state.packets().len(), n);
    }
    assert_eq!(state.registry().len(), 2);
}

#[test]
fn ingest_spawns_one_animation_for_each_pair_in_order() {
    let mut state = engine();
    let pairs = vec![
        pair("10.0.0.1", "10.0.0.2"),
        pair("10.0.0.3", "10.0.0.4"),
        pair("10.0.0.1", "10.0.0.2"),
        pair("10.0.0.2", "10.0.0.1"),
    ];
    state.ingest(&pairs);
    assert_eq!(state.packets().len(), 4);
    assert_eq!(state.registry().len(), 4);
    for (a, p) in state.packets().iter().zip(pairs.iter()) {
        assert_eq!(a.source_endpoint(), p.source);
        assert_eq!(a.destination_endpoint(), p.destination);
        assert_eq!(Some(a.source()), state.registry().lookup(&p.source));
        assert_eq!(Some(a.destination()), state.registry().lookup(&p.destination));
        assert_eq!(a.position(), a.source());
    }
}

#[test]
fn two_pairs_injected_give_two_animations_on_their_sources() {
    let mut state = engine();
    state.ingest(&vec![pair("10.0.0.1", "10.0.0.2"), pair("192.168.1.5", "192.168.1.1")]);
    assert_eq!(state.packets().len(), 2);
    let first = &state.packets()[0];
    let second = &state.packets()[1];
    assert_eq!(Some(first.position()), state.registry().lookup("10.0.0.1"));
    assert_eq!(Some(second.position()), state.registry().lookup("192.168.1.5"));
    assert_eq!(first.position(), first.source());
    assert_eq!(second.position(), second.source());
}

#[test]
fn live_set_runs_empty_without_new_pairs() {
    let mut state = engine();
    state.ingest(&vec![pair("10.0.0.1", "10.0.0.2"), pair("192.168.1.5", "192.168.1.1")]);
    assert_eq!(state.packets().len(), 2);
    // No way on an 800 by 600 canvas is longer than 799 + 599 pixels, and
    // every tick in transit shortens a way by one pixel at least.
    let mut removed = 0;
    let mut ticks = 0;
    while !state.packets().is_empty() {
        removed += state.tick(&vec![]);
        ticks += 1;
        assert!(ticks <= 799 + 599 + 1);
    }
    assert_eq!(removed, 2);
    assert_eq!(state.tick(&vec![]), 0);
    assert!(state.packets().is_empty());
    assert_eq!(state.registry().len(), 4);
}

#[test]
fn end_to_end_with_placed_endpoints() {
    let mut state = engine();
    state.spawn_with(&pair("10.0.0.1", "10.0.0.2"), Point::new(0, 0), Point::new(100, 100));
    state.spawn_with(&pair("10.0.0.3", "10.0.0.4"), Point::new(700, 500), Point::new(695, 400));
    assert_eq!(positions(&state), vec![(0, 0), (700, 500)]);
    // Both ways are a hundred pixels long on their longer axis: 27 ticks in
    // transit, arrival in tick 28.
    for tick in 1..=27 {
        assert_eq!(state.tick(&vec![]), 0, "tick {}", tick);
        assert_eq!(state.packets().len(), 2);
    }
    assert_eq!(positions(&state), vec![(91, 91), (700, 409)]);
    assert_eq!(state.tick(&vec![]), 2);
    assert!(state.packets().is_empty());
}

#[test]
fn ten_ticks_are_not_enough_for_a_hundred_pixels() {
    let mut state = engine();
    state.spawn_with(&pair("10.0.0.1", "10.0.0.2"), Point::new(0, 0), Point::new(100, 100));
    for _ in 0..5 {
        assert_eq!(state.tick(&vec![]), 0);
    }
    assert_eq!(positions(&state), vec![(40, 40)]);
    for _ in 0..5 {
        assert_eq!(state.tick(&vec![]), 0);
    }
    assert_eq!(positions(&state), vec![(63, 63)]);
}

#[test]
fn tick_moves_the_packets_it_spawns() {
    let mut state = engine();
    // Place the endpoints, and let the packet that placed them arrive.
    state.spawn_with(&pair("far-a", "far-b"), Point::new(0, 0), Point::new(100, 200));
    while !state.packets().is_empty() {
        state.tick(&vec![]);
    }
    let removed = state.tick(&vec![pair("far-a", "far-b"), pair("far-b", "far-a")]);
    assert_eq!(removed, 0);
    assert_eq!(positions(&state), vec![(10, 20), (90, 180)]);
}

#[test]
fn packet_between_near_endpoints_arrives_in_the_tick_that_spawns_it() {
    let mut state = engine();
    state.spawn_with(&pair("near-a", "near-b"), Point::new(50, 50), Point::new(59, 41));
    assert_eq!(state.packets().len(), 1);
    assert_eq!(state.tick(&vec![pair("near-b", "near-a")]), 2);
    assert!(state.packets().is_empty());
}

#[test]
fn packet_to_its_own_source_arrives_at_once() {
    let mut state = engine();
    assert_eq!(state.tick(&vec![pair("10.0.0.1", "10.0.0.1")]), 1);
    assert!(state.packets().is_empty());
    assert_eq!(state.registry().len(), 1);
}

#[test]
fn removed_are_those_whose_step_is_zero_on_both_axes() {
    let mut state = engine();
    state.spawn_with(&pair("a", "b"), Point::new(0, 0), Point::new(100, 100)); // both axes move
    state.spawn_with(&pair("c", "d"), Point::new(10, 10), Point::new(19, 1)); // both stalled
    state.spawn_with(&pair("e", "f"), Point::new(20, 20), Point::new(25, 300)); // x stalled
    state.spawn_with(&pair("g", "h"), Point::new(300, 30), Point::new(30, 39)); // y stalled
    state.spawn_with(&pair("i", "j"), Point::new(40, 40), Point::new(40, 40)); // no way at all
    assert_eq!(state.packets().len(), 5);
    let removed = state.advance();
    assert_eq!(removed, 2);
    assert_eq!(positions(&state), vec![(10, 10), (20, 48), (273, 30)]);
    let left: Vec<&str> = state.packets().iter().map(|a| a.source_endpoint()).collect();
    assert_eq!(left, vec!["a", "e", "g"]);
}

#[test]
fn live_set_shrinks_by_what_a_tick_removes() {
    let mut state = engine();
    let pairs: Vec<EndpointPair> =
        (0..40).map(|i| pair(&format!("h{}", i % 7), &format!("h{}", (i * 3 + 1) % 7))).collect();
    state.ingest(&pairs);
    assert_eq!(state.packets().len(), 40);
    let mut live = 40;
    let mut ticks = 0;
    while live > 0 {
        let removed = state.tick(&vec![]);
        assert_eq!(state.packets().len() + removed, live);
        live = state.packets().len();
        ticks += 1;
        assert!(ticks < 2000);
    }
}

#[test]
fn survivors_keep_their_order() {
    let mut state = engine();
    state.spawn_with(&pair("a", "b"), Point::new(0, 0), Point::new(400, 0));
    state.spawn_with(&pair("c", "d"), Point::new(0, 10), Point::new(5, 10));
    state.spawn_with(&pair("e", "f"), Point::new(0, 20), Point::new(200, 20));
    state.spawn_with(&pair("g", "h"), Point::new(0, 30), Point::new(9, 30));
    state.spawn_with(&pair("i", "j"), Point::new(0, 40), Point::new(100, 40));
    assert_eq!(state.advance(), 2);
    let left: Vec<&str> = state.packets().iter().map(|a| a.source_endpoint()).collect();
    assert_eq!(left, vec!["a", "e", "i"]);
    assert_eq!(positions(&state), vec![(40, 0), (20, 20), (10, 40)]);
}

#[test]
fn endpoints_keep_their_place_over_ticks() {
    let mut state = engine();
    state.spawn_with(&pair("10.0.0.1", "10.0.0.2"), Point::new(5, 6), Point::new(70, 80));
    for i in 0..100 {
        state.tick(&vec![pair(&format!("10.0.1.{}", i), "10.0.0.1")]);
        assert_eq!(state.registry().lookup("10.0.0.1"), Some(Point::new(5, 6)));
        assert_eq!(state.registry().lookup("10.0.0.2"), Some(Point::new(70, 80)));
    }
    assert_eq!(state.registry().len(), 102);
}

#[test]
fn spawn_with_keeps_known_places() {
    let mut state = engine();
    state.spawn_with(&pair("a", "b"), Point::new(1, 1), Point::new(2, 2));
    state.spawn_with(&pair("b", "c"), Point::new(3, 3), Point::new(4, 4));
    state.spawn_with(&pair("c", "a"), Point::new(5, 5), Point::new(6, 6));
    assert_eq!(state.registry().lookup("a"), Some(Point::new(1, 1)));
    assert_eq!(state.registry().lookup("b"), Some(Point::new(2, 2)));
    assert_eq!(state.registry().lookup("c"), Some(Point::new(4, 4)));
    assert_eq!(positions(&state), vec![(1, 1), (2, 2), (4, 4)]);
    let goals: Vec<Point> = state.packets().iter().map(|a| a.destination()).collect();
    assert_eq!(goals, vec![Point::new(2, 2), Point::new(4, 4), Point::new(1, 1)]);
}

#[test]
fn source_is_resolved_before_destination() {
    let mut state = engine();
    // Both endpoints are the same and unknown: the place on offer for the
    // source is taken.
    state.spawn_with(&pair("a", "a"), Point::new(1, 1), Point::new(2, 2));
    assert_eq!(state.registry().lookup("a"), Some(Point::new(1, 1)));
    assert_eq!(state.packets()[0].destination(), Point::new(1, 1));
}

#[test]
fn every_live_packet_is_on_the_canvas() {
    let small = Canvas::new(40, 30).unwrap();
    let mut state = State::new(small, 3).unwrap();
    for round in 0..60 {
        let pairs = vec![
            pair(&format!("h{}", round % 9), &format!("h{}", (round + 4) % 9)),
            pair(&format!("h{}", (round * 5) % 9), &format!("h{}", (round * 2) % 9)),
        ];
        state.tick(&pairs);
        for a in state.packets().iter() {
            for p in [a.source(), a.destination(), a.position()] {
                assert!(0 <= p.x && p.x < 40);
                assert!(0 <= p.y && p.y < 30);
            }
        }
    }
}

#[test]
fn empty_tick_on_empty_engine() {
    let mut state = engine();
    assert_eq!(state.tick(&vec![]), 0);
    assert_eq!(state.advance(), 0);
    state.ingest(&vec![]);
    assert!(state.packets().is_empty());
    assert_eq!(state.registry().len(), 0);
}

#[test]
fn one_per_tick_polls_until_the_first_pair() {
    assert!(Drain::OnePerTick.polls_again(0));
    assert!(!Drain::OnePerTick.polls_again(1));
    assert!(!Drain::OnePerTick.polls_again(2));
    assert!(!Drain::OnePerTick.polls_again(usize::MAX));
}

#[test]
fn full_drain_polls_until_the_channel_is_empty() {
    assert!(Drain::All.polls_again(0));
    assert!(Drain::All.polls_again(1));
    assert!(Drain::All.polls_again(1000));
    assert!(Drain::All.polls_again(usize::MAX));
}

#[test]
fn burst_is_spread_over_ticks_when_one_pair_is_taken_per_tick() {
    // Three pairs wait. Taken one per tick, the third is spawned two ticks
    // after the first; taken all at once, all three move together.
    let waiting = vec![pair("a", "b"), pair("a", "b"), pair("a", "b")];
    let mut slow = engine();
    slow.spawn_with(&pair("a", "b"), Point::new(0, 0), Point::new(1000, 0));
    let mut fast = engine();
    fast.spawn_with(&pair("a", "b"), Point::new(0, 0), Point::new(1000, 0));
    let mut queue = waiting.clone();
    for _ in 0..3 {
        let mut batch = Vec::new();
        while !queue.is_empty() && Drain::OnePerTick.polls_again(batch.len()) {
            batch.push(queue.remove(0));
        }
        assert_eq!(batch.len(), 1);
        slow.tick(&batch);
    }
    let mut queue = waiting.clone();
    for _ in 0..3 {
        let mut batch = Vec::new();
        while !queue.is_empty() && Drain::All.polls_again(batch.len()) {
            batch.push(queue.remove(0));
        }
        fast.tick(&batch);
    }
    assert_eq!(positions(&slow), vec![(271, 0), (271, 0), (190, 0), (100, 0)]);
    assert_eq!(positions(&fast), vec![(271, 0), (271, 0), (271, 0), (271, 0)]);
}
