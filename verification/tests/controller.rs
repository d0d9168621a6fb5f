use fractal_zoom::cache::{ZoomLevel, TILE_CACHE_SIZE};
use fractal_zoom::controller::{
    animation_step, generation_factor, Anchor, Controller, GenerateOrder, Mode, PointerEvent, PointerOutcome, Ratio,
    TickStep, ZoomDirection, MAX_MESSAGES_PER_TICK,
};
use fractal_zoom::grid::{GridOffset, GridWindow};
use fractal_zoom::worker::{tile_done, ToUI};

const ONE: Ratio = Ratio { num: 1, den: 1 };

fn unit_view() -> GridWindow {
    GridWindow::new(0, 0, 0, 0)
}

#[test]
fn press_starts_zooming_and_release_ends_it() {
    let mut controller = Controller::new();
    assert_eq!(controller.mode(), Mode::Idle);
    assert!(controller.is_zoom_in());
    let outcome = controller.handle_pointer_event(PointerEvent::Press { touch: false, digit: 0 });
    assert_eq!(outcome, PointerOutcome { track_position: true, redraw: true });
    assert_eq!(controller.mode(), Mode::Zooming(ZoomDirection::In));
    let outcome = controller.handle_pointer_event(PointerEvent::Release { touch: false, digit: 0 });
    assert_eq!(outcome, PointerOutcome { track_position: false, redraw: false });
    assert_eq!(controller.mode(), Mode::Idle);
    assert!(controller.is_zoom_in());
}

#[test]
fn second_digit_zooms_out() {
    let mut controller = Controller::new();
    let outcome = controller.handle_pointer_event(PointerEvent::Press { touch: false, digit: 1 });
    assert_eq!(outcome, PointerOutcome { track_position: true, redraw: true });
    assert_eq!(controller.mode(), Mode::Zooming(ZoomDirection::Out));
    assert!(!controller.is_zoom_in());
    controller.handle_pointer_event(PointerEvent::Release { touch: false, digit: 1 });
    assert_eq!(controller.mode(), Mode::Idle);
}

#[test]
fn second_finger_zooms_out_until_it_is_lifted() {
    let mut controller = Controller::new();
    controller.handle_pointer_event(PointerEvent::Press { touch: true, digit: 0 });
    assert_eq!(controller.mode(), Mode::Zooming(ZoomDirection::In));
    let outcome = controller.handle_pointer_event(PointerEvent::Press { touch: true, digit: 1 });
    assert_eq!(outcome, PointerOutcome { track_position: false, redraw: true });
    assert_eq!(controller.mode(), Mode::Zooming(ZoomDirection::Out));
    controller.handle_pointer_event(PointerEvent::Release { touch: true, digit: 1 });
    assert_eq!(controller.mode(), Mode::Zooming(ZoomDirection::In));
    controller.handle_pointer_event(PointerEvent::Release { touch: true, digit: 0 });
    assert_eq!(controller.mode(), Mode::Idle);
}

#[test]
fn lifting_a_second_finger_leaves_an_idle_view_idle() {
    let mut controller = Controller::new();
    controller.handle_pointer_event(PointerEvent::Release { touch: true, digit: 1 });
    assert_eq!(controller.mode(), Mode::Idle);
}

#[test]
fn move_follows_the_mouse_and_the_first_finger() {
    let mut controller = Controller::new();
    let follow = PointerOutcome { track_position: true, redraw: false };
    let ignore = PointerOutcome { track_position: false, redraw: false };
    assert_eq!(controller.handle_pointer_event(PointerEvent::Move { touch: false, digit: 2 }), follow);
    assert_eq!(controller.handle_pointer_event(PointerEvent::Move { touch: true, digit: 0 }), follow);
    assert_eq!(controller.handle_pointer_event(PointerEvent::Move { touch: true, digit: 1 }), ignore);
    assert_eq!(controller.mode(), Mode::Idle);
}

#[test]
fn step_factors() {
    assert_eq!(animation_step(ZoomDirection::In), Ratio { num: 98, den: 100 });
    assert_eq!(animation_step(ZoomDirection::Out), Ratio { num: 102, den: 100 });
    assert_eq!(generation_factor(Mode::Idle), ONE);
    assert_eq!(generation_factor(Mode::Zooming(ZoomDirection::In)), Ratio { num: 8, den: 10 });
    assert_eq!(generation_factor(Mode::Zooming(ZoomDirection::Out)), Ratio { num: 2, den: 1 });
    assert_eq!(98.0 / 100.0, 0.98);
    assert_eq!(102.0 / 100.0, 1.02);
    assert_eq!(8.0 / 10.0, 0.8);
}

#[test]
fn first_tick_of_an_idle_view_starts_the_first_pass() {
    let mut controller = Controller::new();
    let desired = ZoomLevel(0.5f64.to_bits());
    controller.handle_tick();
    assert_eq!(controller.next_step(desired), TickStep::Receive);
    controller.receive(None);
    // The cache was made for zoom 0, so the view has moved on: catch up.
    let step = controller.next_step(desired);
    assert_eq!(step, TickStep::Generate(GenerateOrder { factor: ONE, anchor: Anchor::Pointer }));
    let tasks = controller.generate_tiles(desired, unit_view(), false);
    assert_eq!(tasks.len(), 9);
    assert_eq!(tasks[0].at, GridOffset { i: 0, j: 0 });
    // A pass is under way: nothing more is started in this tick.
    assert_eq!(controller.next_step(desired), TickStep::Finish);
    assert_eq!(controller.next_step(desired), TickStep::Finish);
    assert_eq!(controller.cache().in_flight(), 9);
}

#[test]
fn initial_pass_is_centred_on_the_view() {
    let mut controller = Controller::new();
    let desired = ZoomLevel(0);
    controller.handle_tick();
    assert_eq!(controller.next_step(desired), TickStep::Receive);
    controller.receive(None);
    // The pending zoom is the desired one, and no layer is drawn yet.
    let step = controller.next_step(desired);
    assert_eq!(step, TickStep::Generate(GenerateOrder { factor: ONE, anchor: Anchor::ViewCenter }));
    let tasks = controller.generate_tiles(desired, GridWindow::new(5, 5, 5, 5), false);
    assert!(tasks.is_empty());
    assert_eq!(controller.next_step(desired), TickStep::Finish);
}

#[test]
fn tick_takes_at_most_ten_messages() {
    let mut controller = Controller::new();
    let desired = ZoomLevel(1);
    controller.handle_tick();
    assert_eq!(controller.next_step(desired), TickStep::Receive);
    controller.receive(None);
    assert!(matches!(controller.next_step(desired), TickStep::Generate(_)));
    let mut tasks = controller.generate_tiles(desired, GridWindow::new(-1, 1, -1, 1), false);
    assert_eq!(tasks.len(), 25);
    assert_eq!(controller.next_step(desired), TickStep::Finish);

    controller.handle_tick();
    let mut taken = 0;
    loop {
        match controller.next_step(desired) {
            TickStep::Receive => {
                let message = tile_done(tasks.remove(0));
                assert!(controller.accepts(&message));
                controller.receive(Some(message));
                taken += 1;
            }
            TickStep::Finish => break,
            step => panic!("unexpected step {:?}", step),
        }
    }
    assert_eq!(taken, MAX_MESSAGES_PER_TICK);
    assert_eq!(taken, 10);
    assert_eq!(controller.cache().in_flight(), 15);
    assert_eq!(controller.cache().displayable_len(), 10);
}

#[test]
fn bailed_messages_count_towards_the_cap() {
    let mut controller = Controller::new();
    let desired = ZoomLevel(1);
    controller.handle_tick();
    controller.receive(None);
    assert!(matches!(controller.next_step(desired), TickStep::Generate(_)));
    let mut tasks = controller.generate_tiles(desired, GridWindow::new(-1, 1, -1, 1), false);
    controller.handle_tick();
    let mut taken = 0;
    while controller.next_step(desired) == TickStep::Receive {
        let message = ToUI::TileBailed { tile: tasks.pop().unwrap() };
        assert!(controller.accepts(&message));
        controller.receive(Some(message));
        taken += 1;
    }
    assert_eq!(taken, 10);
    assert_eq!(controller.cache().empty_len(), TILE_CACHE_SIZE - 15);
    assert_eq!(controller.cache().displayable_len(), 0);
}

#[test]
fn zooming_tick_steps_the_zoom_and_kicks_a_pass() {
    let mut controller = Controller::new();
    controller.handle_pointer_event(PointerEvent::Press { touch: false, digit: 0 });
    let desired = ZoomLevel(0);
    controller.handle_tick();
    assert_eq!(controller.next_step(desired), TickStep::Receive);
    controller.receive(None);
    // Pending zoom equals the desired zoom and no layer is drawn: first pass.
    let step = controller.next_step(desired);
    assert_eq!(step, TickStep::Generate(GenerateOrder { factor: ONE, anchor: Anchor::ViewCenter }));
    // The pass finds nothing to do, so generation is idle still.
    assert!(controller.generate_tiles(desired, GridWindow::new(9, 9, 9, 9), false).is_empty());
    assert_eq!(controller.next_step(desired), TickStep::ZoomStep(Ratio { num: 98, den: 100 }));
    let stepped = ZoomLevel(1);
    let step = controller.next_step(stepped);
    assert_eq!(
        step,
        TickStep::Generate(GenerateOrder { factor: Ratio { num: 8, den: 10 }, anchor: Anchor::Pointer })
    );
    let tasks = controller.generate_tiles(ZoomLevel(2), unit_view(), false);
    assert_eq!(tasks.len(), 9);
    assert_eq!(controller.next_step(stepped), TickStep::Finish);
}

#[test]
fn zooming_out_steps_by_its_own_factors() {
    let mut controller = Controller::new();
    controller.handle_pointer_event(PointerEvent::Press { touch: false, digit: 1 });
    let desired = ZoomLevel(5);
    controller.handle_tick();
    controller.receive(None);
    let step = controller.next_step(desired);
    assert_eq!(
        step,
        TickStep::Generate(GenerateOrder { factor: Ratio { num: 2, den: 1 }, anchor: Anchor::Pointer })
    );
    let tasks = controller.generate_tiles(ZoomLevel(10), GridWindow::new(0, 1, 0, 0), false);
    // Farthest first while zooming out.
    assert_eq!(tasks.len(), 12);
    assert_eq!(tasks[11].at, GridOffset { i: 0, j: 0 });
    assert_eq!(tasks[10].at, GridOffset { i: 1, j: 0 });
    assert_eq!(controller.next_step(desired), TickStep::ZoomStep(Ratio { num: 102, den: 100 }));
    // A pass is under way: no kick.
    assert_eq!(controller.next_step(desired), TickStep::Finish);
}

#[test]
fn zooming_in_dispatches_nearest_first() {
    let mut controller = Controller::new();
    controller.handle_tick();
    controller.receive(None);
    assert!(matches!(controller.next_step(ZoomLevel(3)), TickStep::Generate(_)));
    let tasks = controller.generate_tiles(ZoomLevel(3), GridWindow::new(0, 1, 0, 0), false);
    assert_eq!(tasks[0].at, GridOffset { i: 0, j: 0 });
    assert_eq!(tasks[1].at, GridOffset { i: 1, j: 0 });
}

#[test]
fn idle_tick_with_a_drawn_layer_does_nothing() {
    let mut controller = Controller::new();
    let desired = ZoomLevel(4);
    // First pass, all tiles rendered.
    controller.handle_tick();
    controller.receive(None);
    assert!(matches!(controller.next_step(desired), TickStep::Generate(_)));
    let tasks = controller.generate_tiles(desired, unit_view(), false);
    controller.handle_tick();
    for tile in tasks {
        assert_eq!(controller.next_step(desired), TickStep::Receive);
        controller.receive(Some(tile_done(tile)));
    }
    assert_eq!(controller.next_step(desired), TickStep::Receive);
    controller.receive(None);
    // No layer is current yet: the pending layer is promoted by a new pass.
    let step = controller.next_step(desired);
    assert_eq!(step, TickStep::Generate(GenerateOrder { factor: ONE, anchor: Anchor::ViewCenter }));
    let tasks = controller.generate_tiles(desired, unit_view(), false);
    assert_eq!(controller.next_step(desired), TickStep::Finish);
    controller.handle_tick();
    for tile in tasks {
        assert_eq!(controller.next_step(desired), TickStep::Receive);
        controller.receive(Some(tile_done(tile)));
    }
    controller.receive(None);
    assert_eq!(controller.next_step(desired), TickStep::Finish);
    assert_eq!(controller.cache().displayable_len(), 18);
}

#[test]
fn bail_window_carries_the_direction() {
    let mut controller = Controller::new();
    let window = controller.bail_window(unit_view(), true);
    assert!(window.is_zoom_in);
    assert!(window.tiles_imperceptible);
    assert_eq!(window.view, unit_view());
    controller.handle_pointer_event(PointerEvent::Press { touch: false, digit: 1 });
    assert!(!controller.bail_window(unit_view(), false).is_zoom_in);
}
