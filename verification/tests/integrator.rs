use pathtracer::integrator::{advance_path, begin_path, Event, PathStep, Radiance};

fn follow(max_depth: u32, events: &[Event]) -> (PathStep, usize) {
    let mut step = begin_path(max_depth);
    let mut traced: usize = 0;
    while let PathStep::Trace(remaining) = step {
        if traced == events.len() {
            break;
        }
        step = advance_path(remaining, events[traced]);
        traced += 1;
    }
    (step, traced)
}

fn cast(max_depth: u32, events: &[Event]) -> Radiance {
    if max_depth == 0 {
        return Radiance::Black;
    }
    match events[0] {
        Event::Missed => Radiance::Background,
        Event::Ended => Radiance::Surface,
        Event::Scattered => cast(max_depth - 1, &events[1..]),
    }
}

fn events_of(code: u32, len: usize) -> Vec<Event> {
    let mut events: Vec<Event> = Vec::new();
    let mut rest: u32 = code;
    while events.len() < len {
        events.push(match rest % 3 {
            0 => Event::Missed,
            1 => Event::Ended,
            _ => Event::Scattered,
        });
        rest /= 3;
    }
    events
}

#[test]
fn path_without_budget_is_black_at_once() {
    assert_eq!(begin_path(0), PathStep::Settle(Radiance::Black));
    assert_eq!(follow(0, &[Event::Missed]), (PathStep::Settle(Radiance::Black), 0));
}

#[test]
fn path_with_budget_traces_first() {
    assert_eq!(begin_path(1), PathStep::Trace(1));
    assert_eq!(begin_path(10), PathStep::Trace(10));
    assert_eq!(begin_path(u32::MAX), PathStep::Trace(u32::MAX));
}

#[test]
fn miss_settles_on_the_background() {
    assert_eq!(advance_path(5, Event::Missed), PathStep::Settle(Radiance::Background));
    assert_eq!(advance_path(1, Event::Missed), PathStep::Settle(Radiance::Background));
}

#[test]
fn surface_without_outgoing_ray_settles_on_its_colour() {
    assert_eq!(advance_path(5, Event::Ended), PathStep::Settle(Radiance::Surface));
    assert_eq!(advance_path(1, Event::Ended), PathStep::Settle(Radiance::Surface));
}

#[test]
fn scattering_spends_one_ray_of_the_budget() {
    assert_eq!(advance_path(5, Event::Scattered), PathStep::Trace(4));
    assert_eq!(advance_path(2, Event::Scattered), PathStep::Trace(1));
    assert_eq!(advance_path(u32::MAX, Event::Scattered), PathStep::Trace(u32::MAX - 1));
}

#[test]
fn last_ray_of_the_budget_scattered_is_black() {
    assert_eq!(advance_path(1, Event::Scattered), PathStep::Settle(Radiance::Black));
}

#[test]
fn spent_budget_settles_whatever_the_event() {
    assert_eq!(advance_path(0, Event::Missed), PathStep::Settle(Radiance::Black));
    assert_eq!(advance_path(0, Event::Ended), PathStep::Settle(Radiance::Black));
    assert_eq!(advance_path(0, Event::Scattered), PathStep::Settle(Radiance::Black));
}

#[test]
fn one_bounce_on_a_diffuse_surface_is_black() {
    let events = [Event::Scattered, Event::Missed];
    assert_eq!(follow(1, &events), (PathStep::Settle(Radiance::Black), 1));
    assert_eq!(follow(2, &events), (PathStep::Settle(Radiance::Background), 2));
}

#[test]
fn emitter_in_view_settles_on_its_colour() {
    assert_eq!(follow(1, &[Event::Ended]), (PathStep::Settle(Radiance::Surface), 1));
    assert_eq!(
        follow(3, &[Event::Scattered, Event::Ended, Event::Missed]),
        (PathStep::Settle(Radiance::Surface), 2)
    );
}

#[test]
fn following_a_path_agrees_with_casting_it() {
    let mut max_depth: u32 = 0;
    while max_depth <= 5 {
        let len: usize = 5;
        let mut code: u32 = 0;
        while code < 243 {
            let events = events_of(code, len);
            let (step, traced) = follow(max_depth, &events);
            assert_eq!(step, PathStep::Settle(cast(max_depth, &events)));
            assert!(traced <= max_depth as usize);
            code += 1;
        }
        max_depth += 1;
    }
}
