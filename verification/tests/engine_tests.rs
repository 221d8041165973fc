use tetroid::engine::{Control, Engine};
use tetroid::input::{Event, Key, MouseButton};
use tetroid::render::{Drawable, RenderData};
use tetroid::state::State;
use tetroid::world::World;

const TICK: u64 = 20_000_000;

fn engine_with(width: u32, height: u32, live: &[(i32, i32)]) -> Engine {
    let mut world = World::with_size(width, height);
    for &(x, y) in live {
        *world.get_mut(x, y).unwrap() = true;
    }
    Engine::new(world, 2, 0, 0)
}

fn live_cells(engine: &Engine) -> Vec<(i32, i32)> {
    let world = engine.world();
    let mut cells = Vec::new();
    for y in 0..world.height() as i32 {
        for x in 0..world.width() as i32 {
            if world.get(x, y) == Some(true) {
                cells.push((x, y));
            }
        }
    }
    cells
}

fn key(key: Key) -> Event {
    Event::KeyDown { key, repeat: false }
}

fn down(x: i32, y: i32) -> Event {
    Event::MouseButtonDown { x, y, button: MouseButton::Left }
}

fn up() -> Event {
    Event::MouseButtonUp { button: MouseButton::Left }
}

fn motion(x: i32, y: i32) -> Event {
    Event::MouseMotion { x, y }
}

#[test]
fn new_engine_is_idle() {
    let engine = engine_with(4, 4, &[(1, 1)]);
    assert_eq!(engine.pixel_size(), 2);
    assert!(!engine.stroke().active);
    assert!(engine.stroke().pending.is_empty());
    assert_eq!(engine.stroke().last, None);
    assert_eq!(engine.clock().ups(), 0);
    assert_eq!(engine.world().state(), State::Paused);
    assert_eq!(live_cells(&engine), vec![(1, 1)]);
}

#[test]
fn update_waits_for_its_trigger() {
    let mut engine = engine_with(4, 4, &[]);
    assert!(!engine.update_due(16_666_666));
    assert_eq!(engine.update(16_666_666, &vec![Event::Quit, key(Key::Space)]), Control::Continue);
    assert_eq!(engine.world().state(), State::Paused);
    assert!(engine.update_due(16_666_667));
    assert_eq!(engine.update(16_666_667, &vec![key(Key::Space)]), Control::Continue);
    assert_eq!(engine.world().state(), State::Playing);
    assert_eq!(engine.clock().ups(), 6000);
}

#[test]
fn paused_world_does_not_advance() {
    let blinker = [(1, 2), (2, 2), (3, 2)];
    let mut engine = engine_with(5, 5, &blinker);
    assert_eq!(engine.update(TICK, &vec![]), Control::Continue);
    assert_eq!(live_cells(&engine), blinker.to_vec());
}

#[test]
fn playing_world_advances_once_per_update() {
    let mut engine = engine_with(5, 5, &[(1, 2), (2, 2), (3, 2)]);
    // The toggle is applied before the step of the same update.
    assert_eq!(engine.update(TICK, &vec![key(Key::Space)]), Control::Continue);
    assert_eq!(live_cells(&engine), vec![(2, 1), (2, 2), (2, 3)]);
    // No step while the trigger has not fired again.
    assert_eq!(engine.update(TICK + 1, &vec![]), Control::Continue);
    assert_eq!(live_cells(&engine), vec![(2, 1), (2, 2), (2, 3)]);
    assert_eq!(engine.update(2 * TICK, &vec![]), Control::Continue);
    assert_eq!(live_cells(&engine), vec![(1, 2), (2, 2), (3, 2)]);
}

#[test]
fn held_keys_are_ignored() {
    let mut engine = engine_with(3, 3, &[(1, 1)]);
    let held = vec![
        Event::KeyDown { key: Key::Space, repeat: true },
        Event::KeyDown { key: Key::E, repeat: true },
        Event::KeyDown { key: Key::Other, repeat: false },
        Event::Other,
    ];
    assert_eq!(engine.update(TICK, &held), Control::Continue);
    assert_eq!(engine.world().state(), State::Paused);
    assert_eq!(live_cells(&engine), vec![(1, 1)]);
}

#[test]
fn clear_key_works_in_either_state() {
    let mut engine = engine_with(3, 3, &[(0, 0), (2, 2)]);
    assert_eq!(engine.update(TICK, &vec![key(Key::E)]), Control::Continue);
    assert_eq!(live_cells(&engine), vec![]);
    assert_eq!(engine.world().state(), State::Paused);
    let mut engine = engine_with(3, 3, &[(0, 0), (2, 2)]);
    assert_eq!(engine.update(TICK, &vec![key(Key::Space), key(Key::E)]), Control::Continue);
    assert_eq!(live_cells(&engine), vec![]);
    assert_eq!(engine.world().state(), State::Playing);
}

#[test]
fn quit_events_end_the_update_at_once() {
    for quit in [
        Event::Quit,
        key(Key::Escape),
        key(Key::Q),
        Event::KeyDown { key: Key::Q, repeat: true },
    ] {
        let mut engine = engine_with(5, 5, &[(1, 2), (2, 2), (3, 2)]);
        let events = vec![key(Key::Space), down(0, 0), quit, key(Key::E)];
        assert_eq!(engine.update(TICK, &events), Control::Quit);
        // What came before the quit event was taken; nothing was painted,
        // cleared or stepped.
        assert_eq!(engine.world().state(), State::Playing);
        assert_eq!(live_cells(&engine), vec![(1, 2), (2, 2), (3, 2)]);
        assert!(engine.stroke().active);
        assert_eq!(engine.stroke().pending, vec![(0, 0)]);
    }
}

#[test]
fn click_alone_paints_nothing() {
    let mut engine = engine_with(6, 6, &[]);
    assert_eq!(engine.update(TICK, &vec![down(5, 4)]), Control::Continue);
    assert_eq!(live_cells(&engine), vec![]);
    assert!(engine.stroke().active);
    assert_eq!(engine.stroke().last, Some((5, 4)));
    assert!(engine.stroke().pending.is_empty());
    // Released without a move: still nothing.
    assert_eq!(engine.update(2 * TICK, &vec![up()]), Control::Continue);
    assert_eq!(live_cells(&engine), vec![]);
    // Press and release within one update.
    assert_eq!(engine.update(3 * TICK, &vec![down(2, 2), up()]), Control::Continue);
    assert_eq!(live_cells(&engine), vec![]);
}

#[test]
fn first_move_paints_from_the_place_of_the_press() {
    let mut engine = engine_with(6, 6, &[]);
    assert_eq!(engine.update(TICK, &vec![down(5, 4)]), Control::Continue);
    assert_eq!(live_cells(&engine), vec![]);
    // A move within the cell of the press paints that cell.
    assert_eq!(engine.update(2 * TICK, &vec![motion(4, 5)]), Control::Continue);
    assert_eq!(live_cells(&engine), vec![(2, 2)]);
    assert_eq!(engine.stroke().last, Some((4, 5)));
    let mut engine = engine_with(6, 6, &[]);
    assert_eq!(engine.update(TICK, &vec![down(0, 2)]), Control::Continue);
    assert_eq!(engine.update(2 * TICK, &vec![motion(6, 2)]), Control::Continue);
    assert_eq!(live_cells(&engine), vec![(0, 1), (1, 1), (2, 1), (3, 1)]);
}

#[test]
fn second_press_begins_a_new_stroke() {
    let mut engine = engine_with(6, 6, &[]);
    let events = vec![down(0, 0), motion(10, 0), down(0, 10), motion(2, 10)];
    assert_eq!(engine.update(TICK, &events), Control::Continue);
    // The samples before the second press were not painted and are dropped.
    assert_eq!(live_cells(&engine), vec![(0, 5), (1, 5)]);
}

#[test]
fn drag_paints_a_connected_stroke_across_updates() {
    let mut engine = engine_with(6, 6, &[]);
    assert_eq!(engine.update(TICK, &vec![motion(9, 9), down(0, 0), motion(6, 0)]), Control::Continue);
    assert_eq!(live_cells(&engine), vec![(0, 0), (1, 0), (2, 0), (3, 0)]);
    assert_eq!(engine.update(2 * TICK, &vec![motion(6, 6)]), Control::Continue);
    assert_eq!(
        live_cells(&engine),
        vec![(0, 0), (1, 0), (2, 0), (3, 0), (3, 1), (3, 2), (3, 3)]
    );
    assert_eq!(engine.stroke().last, Some((6, 6)));
}

#[test]
fn release_drops_samples_that_were_not_painted() {
    let mut engine = engine_with(6, 6, &[]);
    let events = vec![down(0, 0), motion(10, 10), up(), motion(4, 4)];
    assert_eq!(engine.update(TICK, &events), Control::Continue);
    assert_eq!(live_cells(&engine), vec![]);
    assert!(!engine.stroke().active);
    assert_eq!(engine.stroke().last, None);
    assert!(engine.stroke().pending.is_empty());
}

#[test]
fn other_buttons_do_not_paint() {
    let mut engine = engine_with(6, 6, &[]);
    let events = vec![
        Event::MouseButtonDown { x: 2, y: 2, button: MouseButton::Other },
        motion(8, 8),
    ];
    assert_eq!(engine.update(TICK, &events), Control::Continue);
    assert_eq!(live_cells(&engine), vec![]);
    let events = vec![down(2, 2), Event::MouseButtonUp { button: MouseButton::Other }, motion(6, 2)];
    assert_eq!(engine.update(2 * TICK, &events), Control::Continue);
    assert_eq!(live_cells(&engine), vec![(1, 1), (2, 1), (3, 1)]);
}

#[test]
fn painted_cells_take_part_in_the_step_of_the_same_update() {
    let mut engine = engine_with(5, 5, &[]);
    let events = vec![key(Key::Space), down(2, 4), motion(6, 4)];
    assert_eq!(engine.update(TICK, &events), Control::Continue);
    // The stroke paints (1,2), (2,2), (3,2); the step turns that blinker.
    assert_eq!(live_cells(&engine), vec![(2, 1), (2, 2), (2, 3)]);
}

#[test]
fn frame_follows_the_render_trigger() {
    let mut world = World::with_size(3, 3);
    *world.get_mut(1, 2).unwrap() = true;
    let mut engine = Engine::new(world, 4, 100_000_000, 0);
    assert!(!engine.render_due(100_000_000));
    assert_eq!(engine.render(100_000_000), None);
    assert!(engine.render_due(100_000_001));
    let queue = engine.render(100_000_001).unwrap();
    assert_eq!(queue.len(), 2);
    assert_eq!(
        queue[0],
        RenderData { x: 4, y: 8, z: 0, w: 4, h: 4, tex: Drawable::Shared("Blue") }
    );
    assert_eq!(queue[1].w, 100);
    assert_eq!(queue[1].h, 100);
    assert_eq!(engine.render(150_000_000), None);
}

#[test]
fn status_is_refreshed_after_the_frame_that_is_due_for_it() {
    let mut world = World::with_size(3, 3);
    *world.get_mut(0, 0).unwrap() = true;
    *world.get_mut(1, 0).unwrap() = true;
    let mut engine = Engine::new(world, 2, 0, 0);
    assert_eq!(engine.update(25_000_000, &vec![]), Control::Continue);
    for i in 1..=5 {
        assert!(engine.render(i * 100_000_000).is_some());
        assert_eq!(engine.world().text().text, "UPS: 0.00\nFPS: 0.00\nnum: 0");
    }
    // The sixth frame still shows the old text and refreshes it afterwards:
    // five frames were counted in 0.6 s.
    let queue = engine.render(600_000_000).unwrap();
    match &queue[2].tex {
        Drawable::Text { text, .. } => assert_eq!(text, "UPS: 0.00\nFPS: 0.00\nnum: 0"),
        other => panic!("not a text: {:?}", other),
    }
    assert_eq!(engine.world().text().text, "UPS: 40.00\nFPS: 8.33\nnum: 2");
    assert_eq!(engine.world().text().fontname, "Standard");
    let queue = engine.render(700_000_000).unwrap();
    match &queue[2].tex {
        Drawable::Text { text, .. } => assert_eq!(text, "UPS: 40.00\nFPS: 8.33\nnum: 2"),
        other => panic!("not a text: {:?}", other),
    }
}

#[test]
fn update_is_seen_by_the_frame_of_the_same_pass() {
    let mut engine = engine_with(5, 5, &[(1, 2), (2, 2), (3, 2)]);
    assert_eq!(engine.update(TICK, &vec![key(Key::Space)]), Control::Continue);
    let queue = engine.render(TICK).unwrap();
    let places: Vec<(usize, usize)> = queue[..3].iter().map(|r| (r.x, r.y)).collect();
    assert_eq!(places, vec![(4, 2), (4, 4), (4, 6)]);
}

#[test]
fn handle_event_reports_quit_without_touching_the_engine() {
    let mut engine = engine_with(3, 3, &[(1, 1)]);
    assert_eq!(engine.handle_event(key(Key::Space)), Control::Continue);
    assert_eq!(engine.handle_event(Event::Quit), Control::Quit);
    assert_eq!(engine.world().state(), State::Playing);
    assert!(Event::Quit.quits());
    assert!(key(Key::Escape).quits());
    assert!(key(Key::Q).quits());
    assert!(!key(Key::E).quits());
    assert!(!motion(1, 1).quits());
}

#[test]
fn pass_updates_before_it_draws() {
    let mut engine = engine_with(5, 5, &[(1, 2), (2, 2), (3, 2)]);
    let (control, queue) = engine.pass(TICK, &vec![key(Key::Space)]);
    assert_eq!(control, Control::Continue);
    let queue = queue.expect("a frame is due at every pass");
    let places: Vec<(usize, usize)> = queue[..3].iter().map(|r| (r.x, r.y)).collect();
    assert_eq!(places, vec![(4, 2), (4, 4), (4, 6)]);
    assert_eq!(queue.len(), 4);
    assert_eq!((queue[3].w, queue[3].h), (100, 100));
}

#[test]
fn pass_that_quits_draws_nothing() {
    let mut engine = engine_with(5, 5, &[(2, 2)]);
    let (control, queue) = engine.pass(TICK, &vec![Event::Quit]);
    assert_eq!(control, Control::Quit);
    assert_eq!(queue, None);
}

#[test]
fn pass_without_an_update_may_still_draw() {
    let mut world = World::with_size(2, 2);
    *world.get_mut(1, 1).unwrap() = true;
    let mut engine = Engine::new(world, 3, 1_000, 0);
    // Too early for an update: the events are not taken.
    let (control, queue) = engine.pass(5_000, &vec![Event::Quit]);
    assert_eq!(control, Control::Continue);
    let queue = queue.unwrap();
    assert_eq!(
        queue[0],
        RenderData { x: 3, y: 3, z: 0, w: 3, h: 3, tex: Drawable::Shared("Blue") }
    );
    let (control, queue) = engine.pass(5_500, &vec![]);
    assert_eq!(control, Control::Continue);
    assert_eq!(queue, None);
}

#[test]
fn transitions_per_second_do_not_depend_on_the_frame_period() {
    let mut counts = Vec::new();
    for frame_period in [0, 40_000_000, 3_000_000_000] {
        let mut engine = Engine::new(World::with_size(1, 1), 1, frame_period, 0);
        let mut updates = 0;
        let mut now = 0;
        while now <= 1_000_000_000 {
            if engine.update_due(now) {
                updates += 1;
            }
            engine.pass(now, &vec![]);
            now += 500_000;
        }
        counts.push(updates);
    }
    assert_eq!(counts, vec![58, 58, 58]);
}
