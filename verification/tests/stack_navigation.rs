use fractal_zoom::stack_navigation::{
    ActiveStackView, ActiveView, LiveId, NavigationEvent, Slide, SlideState, StackNavigation,
    StackNavigationAction, StackNavigationRef, StackNavigationTransitionAction, StackNavigationView,
    StackNavigationViewRef, ViewEvent, BACK_MOUSE_BUTTON, DEFAULT_OFFSET_TO_HIDE,
};

const A: LiveId = LiveId(1);
const B: LiveId = LiveId(2);
const MISSING: LiveId = LiveId(99);

fn navigation() -> StackNavigation {
    let mut navigation =
        StackNavigation::new(vec![StackNavigationView::new(A, "first"), StackNavigationView::new(B, "second")]);
    navigation.handle_actions(800);
    navigation
}

fn slide_of(navigation: &StackNavigation, id: LiveId) -> Slide {
    navigation.stack_navigation_view(id).unwrap().slide()
}

#[test]
fn new_view_is_hidden() {
    let view = StackNavigationView::new(A, "title");
    assert_eq!(view.id(), A);
    assert_eq!(view.title(), "title");
    assert_eq!(
        view.slide(),
        Slide { visible: false, offset: 0, offset_to_hide: 10000, state: SlideState::Hide, animating: false }
    );
    assert_eq!(DEFAULT_OFFSET_TO_HIDE, 10000);
    assert!(!view.is_showing());
    assert!(!view.is_animating());
}

#[test]
fn shown_view_slides_in_from_the_right_edge() {
    let mut view = StackNavigationView::new(A, "title");
    view.show(640);
    assert_eq!(
        view.slide(),
        Slide { visible: true, offset: 640, offset_to_hide: 640, state: SlideState::Show, animating: true }
    );
    assert!(view.is_showing());
    assert!(view.is_animating());
    let outcome = view.handle_event(ViewEvent::Animate { offset: 0, done: true });
    assert!(outcome.redraw);
    assert!(outcome.actions.is_empty());
    assert!(view.is_showing());
    assert!(!view.is_animating());
    assert_eq!(view.slide().offset, 0);
}

#[test]
fn back_button_sends_the_view_away() {
    let mut view = StackNavigationView::new(A, "title");
    view.show(640);
    view.handle_event(ViewEvent::Animate { offset: 0, done: true });
    assert_eq!(BACK_MOUSE_BUTTON, 3);
    let outcome = view.handle_event(ViewEvent::MouseUp { button: 3 });
    assert_eq!(outcome.actions, vec![StackNavigationTransitionAction::HideBegin]);
    assert!(!outcome.redraw);
    assert_eq!(view.slide().state, SlideState::Hide);
    assert!(view.is_animating());
    assert!(view.is_showing());
    assert!(view.slide().visible);
    // The view slides out; it is put away once it is past its hiding offset.
    let outcome = view.handle_event(ViewEvent::Animate { offset: 640, done: false });
    assert!(outcome.actions.is_empty());
    assert!(view.slide().visible);
    let outcome = view.handle_event(ViewEvent::Animate { offset: 641, done: false });
    assert_eq!(outcome.actions, vec![StackNavigationTransitionAction::HideEnd]);
    assert!(!view.slide().visible);
    assert!(!view.is_animating());
    assert!(!view.is_showing());
}

#[test]
fn other_mouse_buttons_do_not_send_the_view_away() {
    let mut view = StackNavigationView::new(A, "title");
    view.show(640);
    let before = view.slide();
    assert!(view.handle_event(ViewEvent::MouseUp { button: 0 }).actions.is_empty());
    assert!(view.handle_event(ViewEvent::Other).actions.is_empty());
    assert_eq!(view.slide(), before);
}

#[test]
fn left_button_sends_the_view_away() {
    let mut view = StackNavigationView::new(A, "title");
    view.show(640);
    let outcome = view.handle_event(ViewEvent::LeftButtonClicked);
    assert_eq!(outcome.actions, vec![StackNavigationTransitionAction::HideBegin]);
    assert_eq!(view.hide_stack_view(), StackNavigationTransitionAction::HideBegin);
}

#[test]
fn view_beyond_its_hiding_offset_goes_at_once() {
    let mut view = StackNavigationView::new(A, "title");
    view.show(640);
    view.set_offset_to_hide(100);
    let outcome = view.handle_event(ViewEvent::LeftButtonClicked);
    assert_eq!(
        outcome.actions,
        vec![StackNavigationTransitionAction::HideBegin, StackNavigationTransitionAction::HideEnd]
    );
    assert!(!view.slide().visible);
    assert!(!view.is_showing());
}

#[test]
fn view_handle_forwards() {
    let mut handle = StackNavigationViewRef(Some(StackNavigationView::new(A, "title")));
    assert!(!handle.is_showing());
    assert!(!handle.is_animating());
    handle.show(300);
    assert!(handle.is_showing());
    assert!(handle.is_animating());
    handle.set_offset_to_hide(250);
    assert_eq!(handle.0.as_ref().unwrap().slide().offset_to_hide, 250);
    assert_eq!(handle.0.as_ref().unwrap().slide().offset, 300);
}

#[test]
fn empty_view_handle_shows_nothing() {
    let mut handle = StackNavigationViewRef(None);
    handle.show(300);
    handle.set_offset_to_hide(1);
    assert!(!handle.is_showing());
    assert!(!handle.is_animating());
    assert!(handle.0.is_none());
}

#[test]
fn root_view_is_alone_at_first() {
    let mut navigation = navigation();
    assert_eq!(navigation.active_stack_view(), ActiveStackView::Inactive);
    assert_eq!(navigation.screen_width(), 800);
    assert_eq!(navigation.get_active_views(), vec![ActiveView::Root]);
}

#[test]
fn navigation_shows_a_view_over_the_root() {
    let mut navigation = navigation();
    assert_eq!(navigation.show_stack_view_by_id(B), Some(B));
    assert_eq!(navigation.active_stack_view(), ActiveStackView::Active(B));
    assert_eq!(
        slide_of(&navigation, B),
        Slide { visible: true, offset: 800, offset_to_hide: 800, state: SlideState::Show, animating: true }
    );
    assert!(!slide_of(&navigation, A).visible);
    assert_eq!(navigation.get_active_views(), vec![ActiveView::Root, ActiveView::Stack(B)]);
    let told = navigation.handle_event(NavigationEvent::View(ViewEvent::Animate { offset: 0, done: true }));
    assert!(told.is_empty());
    assert_eq!(navigation.get_active_views(), vec![ActiveView::Stack(B)]);
}

#[test]
fn navigation_ignores_requests_while_a_view_is_active() {
    let mut navigation = navigation();
    navigation.show_stack_view_by_id(A);
    assert_eq!(navigation.show_stack_view_by_id(B), None);
    assert_eq!(navigation.active_stack_view(), ActiveStackView::Active(A));
    assert!(!slide_of(&navigation, B).visible);
}

#[test]
fn view_that_has_gone_leaves_the_root_alone() {
    let mut navigation = navigation();
    navigation.show_stack_view_by_id(A);
    navigation.handle_event(NavigationEvent::View(ViewEvent::Animate { offset: 0, done: true }));
    let told = navigation.handle_event(NavigationEvent::View(ViewEvent::MouseUp { button: 3 }));
    assert_eq!(told, vec![StackNavigationTransitionAction::HideBegin]);
    assert_eq!(navigation.get_active_views(), vec![ActiveView::Root, ActiveView::Stack(A)]);
    let told = navigation.handle_event(NavigationEvent::View(ViewEvent::Animate { offset: 801, done: false }));
    assert_eq!(told, vec![StackNavigationTransitionAction::HideEnd]);
    assert_eq!(navigation.active_stack_view(), ActiveStackView::Active(A));
    assert_eq!(navigation.get_active_views(), vec![ActiveView::Root]);
    assert_eq!(navigation.active_stack_view(), ActiveStackView::Inactive);
    // Now another view can be shown.
    assert_eq!(navigation.show_stack_view_by_id(B), Some(B));
}

#[test]
fn unknown_view_is_active_until_the_navigation_looks() {
    let mut navigation = navigation();
    assert_eq!(navigation.show_stack_view_by_id(MISSING), Some(MISSING));
    assert_eq!(navigation.active_stack_view(), ActiveStackView::Active(MISSING));
    assert!(navigation.stack_navigation_view(MISSING).is_none());
    assert_eq!(navigation.get_active_views(), vec![ActiveView::Root]);
    assert_eq!(navigation.active_stack_view(), ActiveStackView::Inactive);
}

#[test]
fn new_window_width_moves_the_hiding_offset_of_the_active_view() {
    let mut navigation = navigation();
    navigation.show_stack_view_by_id(A);
    navigation.handle_event(NavigationEvent::WindowGeomChange { inner_width: 1024 });
    assert_eq!(navigation.screen_width(), 1024);
    assert_eq!(slide_of(&navigation, A).offset_to_hide, 1024);
    assert_eq!(slide_of(&navigation, A).offset, 800);
    assert_eq!(slide_of(&navigation, B).offset_to_hide, 10000);
}

#[test]
fn reload_keeps_the_active_view_visible() {
    let mut navigation = navigation();
    navigation.show_stack_view_by_id(A);
    navigation.after_apply_from(false);
    assert_eq!(navigation.active_stack_view(), ActiveStackView::Active(A));
    assert!(slide_of(&navigation, A).visible);
    assert_eq!(slide_of(&navigation, A).offset, 0);
    navigation.after_apply_from(true);
    assert_eq!(navigation.active_stack_view(), ActiveStackView::Inactive);
}

#[test]
fn title_of_a_view_is_replaced() {
    let mut navigation = navigation();
    navigation.set_title(B, "renamed");
    assert_eq!(navigation.stack_navigation_view(B).unwrap().title(), "renamed");
    assert_eq!(navigation.stack_navigation_view(A).unwrap().title(), "first");
    navigation.set_title(MISSING, "nobody");
    assert_eq!(navigation.stack_navigation_view(A).unwrap().title(), "first");
}

#[test]
fn first_view_of_a_name_is_the_one_found() {
    let mut navigation =
        StackNavigation::new(vec![StackNavigationView::new(A, "one"), StackNavigationView::new(A, "two")]);
    navigation.set_title(A, "changed");
    assert_eq!(navigation.stack_navigation_view(A).unwrap().title(), "changed");
}

#[test]
fn handle_follows_the_first_navigation_action() {
    let mut handle = StackNavigationRef(Some(navigation()));
    let actions = vec![
        StackNavigationAction::Nothing,
        StackNavigationAction::NavigateTo(B),
        StackNavigationAction::NavigateTo(A),
    ];
    assert_eq!(handle.handle_stack_view_actions(&actions), Some(B));
    assert_eq!(handle.0.as_ref().unwrap().active_stack_view(), ActiveStackView::Active(B));
    assert_eq!(handle.handle_stack_view_actions(&actions), None);
    assert_eq!(handle.0.as_ref().unwrap().active_stack_view(), ActiveStackView::Active(B));
}

#[test]
fn handle_without_navigation_action_does_nothing() {
    let mut handle = StackNavigationRef(Some(navigation()));
    assert_eq!(handle.handle_stack_view_actions(&vec![StackNavigationAction::Nothing]), None);
    assert_eq!(handle.handle_stack_view_actions(&Vec::new()), None);
    assert_eq!(handle.0.as_ref().unwrap().active_stack_view(), ActiveStackView::Inactive);
}

#[test]
fn handle_shows_and_retitles() {
    let mut handle = StackNavigationRef(Some(navigation()));
    assert_eq!(handle.show_stack_view_by_id(A), Some(A));
    handle.set_title(A, "shown");
    let navigation = handle.0.as_ref().unwrap();
    assert_eq!(navigation.stack_navigation_view(A).unwrap().title(), "shown");
    assert!(navigation.stack_navigation_view(A).unwrap().is_showing());
}

#[test]
fn empty_navigation_handle_does_nothing() {
    let mut handle = StackNavigationRef(None);
    assert_eq!(handle.show_stack_view_by_id(A), None);
    assert_eq!(handle.handle_stack_view_actions(&vec![StackNavigationAction::NavigateTo(A)]), None);
    handle.set_title(A, "nobody");
    assert!(handle.0.is_none());
}
