use fractal_zoom::run_view::{
    DrawApp, Resize, RunView, RunViewEvent, RunViewRef, StdinToHost, TextureId, WidgetDraw,
};

#[test]
fn own_timer_counts_frames() {
    let mut view = RunView::new(7);
    assert_eq!(view.frame(), 0);
    view.handle_event(RunViewEvent::Timer(7));
    view.handle_event(RunViewEvent::Timer(7));
    assert_eq!(view.frame(), 2);
}

#[test]
fn other_events_change_nothing() {
    let mut view = RunView::new(7);
    for event in [
        RunViewEvent::Timer(8),
        RunViewEvent::FingerDown,
        RunViewEvent::FingerUp,
        RunViewEvent::FingerMove,
        RunViewEvent::Other,
    ] {
        view.handle_event(event);
    }
    assert_eq!(view.frame(), 0);
    assert_eq!(view.last_size(), (0, 0));
}

#[test]
fn first_step_of_a_pass_hands_over() {
    let mut view = RunView::new(1);
    assert_eq!(view.draw_walk_widget(5), WidgetDraw::HookAbove);
    assert_eq!(view.draw_walk_widget(5), WidgetDraw::Done);
    assert_eq!(view.draw_walk_widget(6), WidgetDraw::HookAbove);
}

#[test]
fn drawing_at_a_new_size_resizes_the_first_texture() {
    let mut view = RunView::new(1);
    view.draw_walk_widget(1);
    let textures = vec![TextureId(10), TextureId(20)];
    let resize = view.draw((640, 480), &textures);
    assert_eq!(resize, Some(Resize { texture: TextureId(10), width: 640, height: 480 }));
    assert_eq!(view.last_size(), (640, 480));
    assert_eq!(view.draw_bg(), DrawApp { texture: Some(TextureId(20)) });
    let resize = view.draw((640, 480), &textures);
    assert_eq!(resize, None);
    let resize = view.draw((640, 481), &textures);
    assert_eq!(resize, Some(Resize { texture: TextureId(10), width: 640, height: 481 }));
}

#[test]
fn drawing_without_a_process_changes_nothing() {
    let mut view = RunView::new(1);
    view.draw_walk_widget(1);
    assert_eq!(view.draw((640, 480), &Vec::new()), None);
    assert_eq!(view.last_size(), (0, 0));
    assert_eq!(view.draw_bg(), DrawApp { texture: None });
}

#[test]
fn ready_to_start_forgets_the_size() {
    let mut view = RunView::new(1);
    view.draw_walk_widget(1);
    let textures = vec![TextureId(3)];
    view.draw((100, 50), &textures);
    view.handle_stdin_to_host(StdinToHost::DrawComplete);
    assert_eq!(view.last_size(), (100, 50));
    view.handle_stdin_to_host(StdinToHost::ReadyToStart);
    assert_eq!(view.last_size(), (0, 0));
    let resize = view.draw((100, 50), &textures);
    assert_eq!(resize, Some(Resize { texture: TextureId(3), width: 100, height: 50 }));
}

#[test]
fn handle_forwards_to_its_view() {
    let mut handle = RunViewRef(Some(RunView::new(2)));
    handle.handle_event(RunViewEvent::Timer(2));
    assert_eq!(handle.0.as_ref().unwrap().frame(), 1);
    handle.0.as_mut().unwrap().draw_walk_widget(1);
    let resize = handle.draw((8, 9), &vec![TextureId(1)]);
    assert_eq!(resize, Some(Resize { texture: TextureId(1), width: 8, height: 9 }));
}

#[test]
fn empty_handle_does_nothing() {
    let mut handle = RunViewRef(None);
    handle.handle_event(RunViewEvent::Timer(2));
    assert_eq!(handle.draw((8, 9), &vec![TextureId(1)]), None);
    assert!(handle.0.is_none());
}
