//! Stack navigation: a root view and views that slide in over it.
//!
//! At most one stack view is active. While it slides in or out, the root
//! view is drawn below it. A view that has slid out past its hiding offset
//! is hidden, and the root view is alone again.

use vstd::prelude::*;
use crate::label::Label;

verus! {

/// Name of a widget.
#[derive(Clone, Copy, Debug, PartialEq, Eq, Hash, Structural)]
pub struct LiveId(pub u64);

/// What a widget asks of the navigation.
#[derive(Clone, Copy, Debug, PartialEq, Eq, Hash, Structural)]
pub enum StackNavigationAction {
    /// Nothing is asked.
    Nothing,
    NavigateTo(LiveId),
}

/// What the navigation tells a view that comes or goes.
#[derive(Clone, Copy, Debug, PartialEq, Eq, Hash, Structural)]
pub enum StackNavigationTransitionAction {
    /// Nothing is told.
    Nothing,
    /// The view is being shown: sent when it begins to slide in.
    Show,
    /// The view is being hidden: sent when it begins to slide out.
    HideBegin,
    /// The view is hidden: sent when it has slid out.
    HideEnd,
}

/// The state that the slide animation of a view aims at.
#[derive(Clone, Copy, Debug, PartialEq, Eq, Structural)]
pub enum SlideState {
    Show,
    Hide,
}

/// The mouse button that stands for "back".
pub const BACK_MOUSE_BUTTON: usize = 3;

/// Hiding offset of a view that no window size has reached yet.
pub const DEFAULT_OFFSET_TO_HIDE: i64 = 10000;

/// Where a stack view is and what its slide animation does. Offsets are in
/// layout units.
#[derive(Clone, Copy, Debug, PartialEq, Eq, Structural)]
pub struct Slide {
    pub visible: bool,
    pub offset: i64,
    pub offset_to_hide: i64,
    pub state: SlideState,
    pub animating: bool,
}

/// What reaches a stack view.
#[derive(Clone, Copy, Debug, PartialEq, Eq, Structural)]
pub enum ViewEvent {
    /// The animation moved the view to `offset`; `done` says whether it has
    /// come to its end.
    Animate { offset: i64, done: bool },
    /// A mouse button was released.
    MouseUp { button: usize },
    /// The button at the left of the header was clicked.
    LeftButtonClicked,
    /// Anything else.
    Other,
}

impl Slide {
    /// The slide of a view that was never shown.
    pub open spec fn initial() -> Slide {
        Slide {
            visible: false,
            offset: 0,
            offset_to_hide: DEFAULT_OFFSET_TO_HIDE,
            state: SlideState::Hide,
            animating: false,
        }
    }

    /// The slide when the view begins to slide in from the right edge of a
    /// root view of width `root_width`.
    pub open spec fn shown(self, root_width: i64) -> Slide {
        Slide {
            visible: true,
            offset: root_width,
            offset_to_hide: root_width,
            state: SlideState::Show,
            animating: true,
        }
    }

    /// Whether the view is shown or on its way.
    pub open spec fn is_showing(self) -> bool {
        self.state == SlideState::Show || self.animating
    }

    /// Whether the event asks the view to go.
    pub open spec fn asks_to_hide(event: ViewEvent) -> bool {
        event == ViewEvent::LeftButtonClicked || event == (ViewEvent::MouseUp {
            button: BACK_MOUSE_BUTTON,
        })
    }

    /// The slide after the animation has moved the view, if the event is one
    /// of the animation.
    pub open spec fn animated(self, event: ViewEvent) -> Slide {
        match event {
            ViewEvent::Animate { offset, done } => Slide { offset, animating: !done, ..self },
            _ => self,
        }
    }

    /// The slide after it was told to go, if the event asks for that.
    pub open spec fn dismissed(self, event: ViewEvent) -> Slide {
        if Self::asks_to_hide(event) {
            Slide { state: SlideState::Hide, animating: true, ..self }
        } else {
            self
        }
    }

    /// Whether the view has slid out of sight.
    pub open spec fn is_out(self) -> bool {
        self.state == SlideState::Hide && self.offset > self.offset_to_hide
    }

    /// The slide after a view that is out of sight was put away.
    pub open spec fn settled(self) -> Slide {
        if self.is_out() {
            Slide { visible: false, animating: false, ..self }
        } else {
            self
        }
    }

    /// The slide after an event.
    pub open spec fn after(self, event: ViewEvent) -> Slide {
        self.animated(event).dismissed(event).settled()
    }

    /// What the view tells its surroundings on an event: that it begins to
    /// hide, that it is hidden, or both in that order.
    pub open spec fn tells(self, event: ViewEvent) -> Seq<StackNavigationTransitionAction> {
        let begin = if Self::asks_to_hide(event) {
            seq![StackNavigationTransitionAction::HideBegin]
        } else {
            Seq::empty()
        };
        let end = if self.animated(event).dismissed(event).is_out() {
            seq![StackNavigationTransitionAction::HideEnd]
        } else {
            Seq::empty()
        };
        begin + end
    }
}

/// A view that slides in over the root view.
pub struct StackNavigationView {
    id: LiveId,
    slide: Slide,
    title: Label,
}

/// A stack view as plain values.
pub struct StackViewModel {
    pub id: LiveId,
    pub slide: Slide,
    pub title: Seq<char>,
}

impl View for StackNavigationView {
    type V = StackViewModel;

    closed spec fn view(&self) -> StackViewModel {
        StackViewModel { id: self.id, slide: self.slide, title: self.title@ }
    }
}

/// What an event did to a view.
pub struct ViewOutcome {
    /// Whether the view has to be drawn again.
    pub redraw: bool,
    /// What the view tells its surroundings, in order.
    pub actions: Vec<StackNavigationTransitionAction>,
}

impl StackNavigationView {
    /// A hidden view named `id` with the title `title`.
    pub fn new(id: LiveId, title: &str) -> (view: StackNavigationView)
        ensures
            view@ == (StackViewModel { id, slide: Slide::initial(), title: title@ }),
    {
        StackNavigationView {
            id,
            slide: Slide {
                visible: false,
                offset: 0,
                offset_to_hide: DEFAULT_OFFSET_TO_HIDE,
                state: SlideState::Hide,
                animating: false,
            },
            title: Label::new(title),
        }
    }

    /// The name of the view.
    pub fn id(&self) -> (id: LiveId)
        ensures
            id == self@.id,
    {
        self.id
    }

    /// Where the view is and what its animation does.
    pub fn slide(&self) -> (slide: Slide)
        ensures
            slide == self@.slide,
    {
        self.slide
    }

    /// The title in the header of the view.
    pub fn title(&self) -> (title: &str)
        ensures
            title@ == self@.title,
    {
        self.title.text()
    }

    /// Begins to slide the view out and says so.
    pub fn hide_stack_view(&mut self) -> (told: StackNavigationTransitionAction)
        ensures
            told == StackNavigationTransitionAction::HideBegin,
            final(self)@ == (StackViewModel {
                slide: Slide { state: SlideState::Hide, animating: true, ..old(self)@.slide },
                ..old(self)@
            }),
    {
        self.slide.state = SlideState::Hide;
        self.slide.animating = true;
        StackNavigationTransitionAction::HideBegin
    }

    /// Takes an event: the animation moves the view, the left button of the
    /// header and the back button of the mouse send it away, and a view that
    /// has slid out past its hiding offset is put away.
    pub fn handle_event(&mut self, event: ViewEvent) -> (outcome: ViewOutcome)
        ensures
            final(self)@ == (StackViewModel { slide: old(self)@.slide.after(event), ..old(self)@ }),
            outcome.actions@ == old(self)@.slide.tells(event),
            outcome.redraw == (event is Animate),
    {
        let mut actions: Vec<StackNavigationTransitionAction> = Vec::new();
        let mut redraw = false;
        match event {
            ViewEvent::Animate { offset, done } => {
                self.slide.offset = offset;
                self.slide.animating = !done;
                redraw = true;
            },
            _ => {},
        }
        let back_mouse_button_released = match event {
            ViewEvent::MouseUp { button } => button == BACK_MOUSE_BUTTON,
            _ => false,
        };
        let left_button_clicked = match event {
            ViewEvent::LeftButtonClicked => true,
            _ => false,
        };
        if left_button_clicked || back_mouse_button_released {
            let told = self.hide_stack_view();
            actions.push(told);
        }
        if self.slide.state == SlideState::Hide {
            if self.slide.offset > self.slide.offset_to_hide {
                self.slide.visible = false;
                actions.push(StackNavigationTransitionAction::HideEnd);
                self.slide.animating = false;
            }
        }
        proof {
            assert(actions@ =~= old(self)@.slide.tells(event));
        }
        ViewOutcome { redraw, actions }
    }

    /// Begins to slide the view in from the right edge of the root view.
    pub fn show(&mut self, root_width: i64)
        ensures
            final(self)@ == (StackViewModel {
                slide: old(self)@.slide.shown(root_width),
                ..old(self)@
            }),
    {
        self.slide = Slide {
            visible: true,
            offset: root_width,
            offset_to_hide: root_width,
            state: SlideState::Show,
            animating: true,
        };
    }

    /// Whether the view is shown or on its way in or out.
    pub fn is_showing(&self) -> (showing: bool)
        ensures
            showing == self@.slide.is_showing(),
    {
        self.slide.state == SlideState::Show || self.slide.animating
    }

    /// Whether the view is sliding.
    pub fn is_animating(&self) -> (animating: bool)
        ensures
            animating == self@.slide.animating,
    {
        self.slide.animating
    }

    /// Sets the offset past which the view counts as out of sight.
    pub fn set_offset_to_hide(&mut self, offset_to_hide: i64)
        ensures
            final(self)@ == (StackViewModel {
                slide: Slide { offset_to_hide, ..old(self)@.slide },
                ..old(self)@
            }),
    {
        self.slide.offset_to_hide = offset_to_hide;
    }

    /// Replaces the title in the header of the view.
    pub fn set_title(&mut self, title: &str)
        ensures
            final(self)@ == (StackViewModel { title: title@, ..old(self)@ }),
    {
        self.title.set_text(title);
    }

    /// Makes the view visible at rest, without an animation.
    pub fn reveal_at_rest(&mut self)
        ensures
            final(self)@ == (StackViewModel {
                slide: Slide { visible: true, offset: 0, ..old(self)@.slide },
                ..old(self)@
            }),
    {
        self.slide.visible = true;
        self.slide.offset = 0;
    }
}

/// A handle on a stack view that may be empty.
pub struct StackNavigationViewRef(pub Option<StackNavigationView>);

impl StackNavigationViewRef {
    /// Begins to slide the view in. An empty handle stays empty.
    pub fn show(&mut self, root_width: i64)
        ensures
            match old(self).0 {
                Some(inner) => final(self).0 is Some && final(self).0->0@ == (StackViewModel {
                    slide: inner@.slide.shown(root_width),
                    ..inner@
                }),
                None => final(self).0 is None,
            },
    {
        match &mut self.0 {
            Some(inner) => {
                inner.show(root_width);
            },
            None => {},
        }
    }

    /// Whether the view is shown or on its way in or out. An empty handle
    /// shows nothing.
    pub fn is_showing(&self) -> (showing: bool)
        ensures
            showing == match self.0 {
                Some(inner) => inner@.slide.is_showing(),
                None => false,
            },
    {
        match &self.0 {
            Some(inner) => inner.is_showing(),
            None => false,
        }
    }

    /// Whether the view is sliding. An empty handle does not slide.
    pub fn is_animating(&self) -> (animating: bool)
        ensures
            animating == match self.0 {
                Some(inner) => inner@.slide.animating,
                None => false,
            },
    {
        match &self.0 {
            Some(inner) => inner.is_animating(),
            None => false,
        }
    }

    /// Sets the offset past which the view counts as out of sight. An empty
    /// handle stays empty.
    pub fn set_offset_to_hide(&mut self, offset_to_hide: i64)
        ensures
            match old(self).0 {
                Some(inner) => final(self).0 is Some && final(self).0->0@ == (StackViewModel {
                    slide: Slide { offset_to_hide, ..inner@.slide },
                    ..inner@
                }),
                None => final(self).0 is None,
            },
    {
        match &mut self.0 {
            Some(inner) => {
                inner.set_offset_to_hide(offset_to_hide);
            },
            None => {},
        }
    }
}


/// Which stack view is active, if any.
#[derive(Clone, Copy, Debug, PartialEq, Eq, Structural)]
pub enum ActiveStackView {
    Inactive,
    Active(LiveId),
}

/// A view that takes events and is drawn.
#[derive(Clone, Copy, Debug, PartialEq, Eq, Structural)]
pub enum ActiveView {
    Root,
    Stack(LiveId),
}

/// What reaches the navigation.
#[derive(Clone, Copy, Debug, PartialEq, Eq, Structural)]
pub enum NavigationEvent {
    /// The window has a new inner width.
    WindowGeomChange { inner_width: i64 },
    /// An event for the views.
    View(ViewEvent),
}

/// The navigation as plain values.
#[verifier::ext_equal]
pub struct NavigationModel {
    pub views: Seq<StackViewModel>,
    pub screen_width: i64,
    pub active: ActiveStackView,
}

/// Index of the first view at or behind `from` that is named `id`, or the
/// number of views if there is none.
pub open spec fn find_from(views: Seq<StackViewModel>, id: LiveId, from: int) -> int
    decreases views.len() - from,
{
    if from < 0 || from >= views.len() {
        views.len() as int
    } else if views[from].id == id {
        from
    } else {
        find_from(views, id, from + 1)
    }
}

impl NavigationModel {
    /// Index of the view named `id`, or the number of views if there is none.
    pub open spec fn position(self, id: LiveId) -> int {
        find_from(self.views, id, 0)
    }

    /// Whether a view is named `id`.
    pub open spec fn has(self, id: LiveId) -> bool {
        self.position(id) < self.views.len()
    }

    /// The navigation with the slide of the view named `id` replaced, if
    /// there is such a view.
    pub open spec fn with_slide(self, id: LiveId, slide: Slide) -> NavigationModel {
        if self.has(id) {
            let k = self.position(id);
            NavigationModel {
                views: self.views.update(k, StackViewModel { slide, ..self.views[k] }),
                ..self
            }
        } else {
            self
        }
    }

    /// The slide of the view named `id`; the slide of a view never shown if
    /// there is no such view.
    pub open spec fn slide_of(self, id: LiveId) -> Slide {
        if self.has(id) {
            self.views[self.position(id)].slide
        } else {
            Slide::initial()
        }
    }

    /// The navigation after it was asked to show the view named `id`. While
    /// a stack view is active nothing happens. Else the view slides in from
    /// the right edge of the screen and is active.
    pub open spec fn navigated(self, id: LiveId) -> NavigationModel {
        match self.active {
            ActiveStackView::Inactive => NavigationModel {
                active: ActiveStackView::Active(id),
                ..self.with_slide(id, self.slide_of(id).shown(self.screen_width))
            },
            ActiveStackView::Active(_) => self,
        }
    }

    /// The views that take events and are drawn, in drawing order: the root
    /// view alone while no stack view is showing, the root view below the
    /// stack view while that one slides, and the stack view alone when it has
    /// come to rest.
    pub open spec fn active_views(self) -> Seq<ActiveView> {
        match self.active {
            ActiveStackView::Inactive => seq![ActiveView::Root],
            ActiveStackView::Active(id) => if self.has(id) && self.slide_of(id).is_showing() {
                if self.slide_of(id).animating {
                    seq![ActiveView::Root, ActiveView::Stack(id)]
                } else {
                    seq![ActiveView::Stack(id)]
                }
            } else {
                seq![ActiveView::Root]
            },
        }
    }

    /// The navigation after it has looked for its active views: a stack view
    /// that is active but no longer showing is active no more.
    pub open spec fn settled(self) -> NavigationModel {
        match self.active {
            ActiveStackView::Inactive => self,
            ActiveStackView::Active(id) => if self.has(id) && self.slide_of(id).is_showing() {
                self
            } else {
                NavigationModel { active: ActiveStackView::Inactive, ..self }
            },
        }
    }

    /// The navigation after the window took a new inner width: the active
    /// view hides past that width.
    pub open spec fn resized(self, inner_width: i64) -> NavigationModel {
        let wide = NavigationModel { screen_width: inner_width, ..self };
        match self.active {
            ActiveStackView::Inactive => wide,
            ActiveStackView::Active(id) => wide.with_slide(
                id,
                Slide { offset_to_hide: inner_width, ..self.slide_of(id) },
            ),
        }
    }

    /// The navigation after its definition was applied again. A navigation
    /// that is new has no active view. Else the active view is made visible
    /// at rest.
    pub open spec fn reapplied(self, is_new: bool) -> NavigationModel {
        if is_new {
            NavigationModel { active: ActiveStackView::Inactive, ..self }
        } else {
            match self.active {
                ActiveStackView::Inactive => self,
                ActiveStackView::Active(id) => self.with_slide(
                    id,
                    Slide { visible: true, offset: 0, ..self.slide_of(id) },
                ),
            }
        }
    }

    /// The stack view that takes the events for the views, if any.
    pub open spec fn receiver(self) -> Option<LiveId> {
        match self.active {
            ActiveStackView::Inactive => None,
            ActiveStackView::Active(id) => if self.has(id) && self.slide_of(id).is_showing() {
                Some(id)
            } else {
                None
            },
        }
    }

    /// The navigation after an event: a new window width is taken, a stack
    /// view that no longer shows is active no more, and the stack view that
    /// is active takes an event for the views.
    pub open spec fn after(self, event: NavigationEvent) -> NavigationModel {
        match event {
            NavigationEvent::WindowGeomChange { inner_width } => self.resized(inner_width).settled(),
            NavigationEvent::View(e) => match self.receiver() {
                Some(id) => self.with_slide(id, self.slide_of(id).after(e)),
                None => self.settled(),
            },
        }
    }

    /// What the active stack view tells on an event.
    pub open spec fn tells(self, event: NavigationEvent) -> Seq<StackNavigationTransitionAction> {
        match event {
            NavigationEvent::WindowGeomChange { .. } => Seq::empty(),
            NavigationEvent::View(e) => match self.receiver() {
                Some(id) => self.slide_of(id).tells(e),
                None => Seq::empty(),
            },
        }
    }

    /// The first view that a list of actions asks to navigate to, looking
    /// from `from` on.
    pub open spec fn first_target(actions: Seq<StackNavigationAction>, from: int) -> Option<LiveId>
        decreases actions.len() - from,
    {
        if from < 0 || from >= actions.len() {
            None
        } else {
            match actions[from] {
                StackNavigationAction::NavigateTo(id) => Some(id),
                StackNavigationAction::Nothing => Self::first_target(actions, from + 1),
            }
        }
    }

    /// The navigation with the title of the view named `id` replaced, if
    /// there is such a view.
    pub open spec fn retitled(self, id: LiveId, title: Seq<char>) -> NavigationModel {
        if self.has(id) {
            let k = self.position(id);
            NavigationModel {
                views: self.views.update(k, StackViewModel { title, ..self.views[k] }),
                ..self
            }
        } else {
            self
        }
    }
}

/// A root view with stack views that slide in over it.
pub struct StackNavigation {
    views: Vec<StackNavigationView>,
    screen_width: i64,
    active_stack_view: ActiveStackView,
}

impl View for StackNavigation {
    type V = NavigationModel;

    closed spec fn view(&self) -> NavigationModel {
        NavigationModel {
            views: self.views@.map_values(|v: StackNavigationView| v@),
            screen_width: self.screen_width,
            active: self.active_stack_view,
        }
    }
}

impl StackNavigation {
    /// A navigation over the given stack views, none of them active.
    pub fn new(views: Vec<StackNavigationView>) -> (navigation: StackNavigation)
        ensures
            navigation@ == (NavigationModel {
                views: views@.map_values(|v: StackNavigationView| v@),
                screen_width: 0,
                active: ActiveStackView::Inactive,
            }),
    {
        StackNavigation { views, screen_width: 0, active_stack_view: ActiveStackView::Inactive }
    }

    /// Index of the view named `id`, or the number of views.
    fn position(&self, id: LiveId) -> (k: usize)
        ensures
            k == self@.position(id),
            k <= self@.views.len(),
            k < self@.views.len() ==> self@.views[k as int].id == id,
    {
        let ghost views = self@.views;
        let mut k: usize = 0;
        while k < self.views.len()
            invariant
                views == self@.views,
                k <= views.len(),
                find_from(views, id, 0) == find_from(views, id, k as int),
            decreases views.len() - k,
        {
            proof {
                assert(views[k as int] == self.views@[k as int]@);
            }
            if self.views[k].id() == id {
                return k;
            }
            k = k + 1;
        }
        k
    }

    /// The stack view that is active, if any.
    pub fn active_stack_view(&self) -> (active: ActiveStackView)
        ensures
            active == self@.active,
    {
        self.active_stack_view
    }

    /// The width of the screen as the navigation knows it.
    pub fn screen_width(&self) -> (width: i64)
        ensures
            width == self@.screen_width,
    {
        self.screen_width
    }

    /// The view named `id`, if there is one.
    pub fn stack_navigation_view(&self, id: LiveId) -> (view: Option<&StackNavigationView>)
        ensures
            view is Some <==> self@.has(id),
            view matches Some(found) ==> found@ == self@.views[self@.position(id)],
    {
        let k = self.position(id);
        if k < self.views.len() {
            proof {
                assert(self@.views[k as int] == self.views@[k as int]@);
            }
            Some(&self.views[k])
        } else {
            None
        }
    }

    /// Shows the view named `id` unless a stack view is active already.
    /// Returns the view that is to be told `Show`, if the navigation took
    /// place.
    pub fn show_stack_view_by_id(&mut self, stack_view_id: LiveId) -> (told: Option<LiveId>)
        ensures
            final(self)@ == old(self)@.navigated(stack_view_id),
            told == match old(self)@.active {
                ActiveStackView::Inactive => Some(stack_view_id),
                ActiveStackView::Active(_) => None,
            },
    {
        match self.active_stack_view {
            ActiveStackView::Inactive => {
                let k = self.position(stack_view_id);
                let ghost before = self@;
                if k < self.views.len() {
                    proof {
                        assert(before.views[k as int] == self.views@[k as int]@);
                    }
                    self.views[k].show(self.screen_width);
                }
                self.active_stack_view = ActiveStackView::Active(stack_view_id);
                proof {
                    assert(self@.views =~= before.navigated(stack_view_id).views);
                }
                Some(stack_view_id)
            },
            ActiveStackView::Active(_) => None,
        }
    }

    /// The views that take events and are drawn. A stack view that is
    /// active but no longer showing is active no more.
    pub fn get_active_views(&mut self) -> (views: Vec<ActiveView>)
        ensures
            views@ == old(self)@.active_views(),
            final(self)@ == old(self)@.settled(),
    {
        let mut views: Vec<ActiveView> = Vec::new();
        match self.active_stack_view {
            ActiveStackView::Inactive => {
                views.push(ActiveView::Root);
            },
            ActiveStackView::Active(stack_view_id) => {
                let k = self.position(stack_view_id);
                proof {
                    if k < self.views.len() {
                        assert(self@.views[k as int] == self.views@[k as int]@);
                    }
                }
                if k < self.views.len() && self.views[k].is_showing() {
                    if self.views[k].is_animating() {
                        views.push(ActiveView::Root);
                    }
                    views.push(ActiveView::Stack(stack_view_id));
                } else {
                    self.active_stack_view = ActiveStackView::Inactive;
                    views.push(ActiveView::Root);
                }
            },
        }
        proof {
            assert(views@ =~= old(self)@.active_views());
        }
        views
    }

    /// Takes the new inner width of the window.
    pub fn handle_actions(&mut self, inner_width: i64)
        ensures
            final(self)@ == old(self)@.resized(inner_width),
    {
        let ghost before = self@;
        self.screen_width = inner_width;
        match self.active_stack_view {
            ActiveStackView::Active(stack_view_id) => {
                let k = self.position(stack_view_id);
                if k < self.views.len() {
                    proof {
                        assert(before.views[k as int] == self.views@[k as int]@);
                    }
                    self.views[k].set_offset_to_hide(inner_width);
                }
            },
            ActiveStackView::Inactive => {},
        }
        proof {
            assert(self@.views =~= before.resized(inner_width).views);
        }
    }

    /// Replaces the title of the view named `id`, if there is such a view.
    pub fn set_title(&mut self, stack_view_id: LiveId, title: &str)
        ensures
            final(self)@ == old(self)@.retitled(stack_view_id, title@),
    {
        let ghost before = self@;
        let k = self.position(stack_view_id);
        if k < self.views.len() {
            proof {
                assert(before.views[k as int] == self.views@[k as int]@);
            }
            self.views[k].set_title(title);
        }
        proof {
            assert(self@.views =~= before.retitled(stack_view_id, title@).views);
        }
    }
}


impl StackNavigation {
    /// Takes an event. Returns what the active stack view tells about it,
    /// in order.
    pub fn handle_event(&mut self, event: NavigationEvent) -> (told: Vec<StackNavigationTransitionAction>)
        ensures
            final(self)@ == old(self)@.after(event),
            told@ == old(self)@.tells(event),
    {
        let ghost before = self@;
        match event {
            NavigationEvent::WindowGeomChange { inner_width } => {
                self.handle_actions(inner_width);
                let _ = self.get_active_views();
                Vec::new()
            },
            NavigationEvent::View(e) => {
                let views = self.get_active_views();
                match self.active_stack_view {
                    ActiveStackView::Active(stack_view_id) => {
                        let k = self.position(stack_view_id);
                        proof {
                            assert(before.receiver() == Some(stack_view_id));
                            assert(before.views[k as int] == self.views@[k as int]@);
                        }
                        let outcome = self.views[k].handle_event(e);
                        proof {
                            assert(self@.views =~= before.after(event).views);
                        }
                        outcome.actions
                    },
                    ActiveStackView::Inactive => {
                        proof {
                            assert(before.receiver() is None);
                        }
                        Vec::new()
                    },
                }
            },
        }
    }

    /// Applies the definition of the navigation again, as after a reload.
    pub fn after_apply_from(&mut self, is_new_from_doc: bool)
        ensures
            final(self)@ == old(self)@.reapplied(is_new_from_doc),
    {
        let ghost before = self@;
        if is_new_from_doc {
            self.active_stack_view = ActiveStackView::Inactive;
        } else {
            match self.active_stack_view {
                ActiveStackView::Active(stack_view_id) => {
                    let k = self.position(stack_view_id);
                    if k < self.views.len() {
                        proof {
                            assert(before.views[k as int] == self.views@[k as int]@);
                        }
                        self.views[k].reveal_at_rest();
                    }
                },
                ActiveStackView::Inactive => {},
            }
        }
        proof {
            assert(self@.views =~= before.reapplied(is_new_from_doc).views);
        }
    }
}

/// A handle on a navigation that may be empty.
pub struct StackNavigationRef(pub Option<StackNavigation>);

impl StackNavigationRef {
    /// Shows the view named `id` unless a stack view is active already.
    /// Returns the view that is to be told `Show`, if the navigation took
    /// place. An empty handle stays empty.
    pub fn show_stack_view_by_id(&mut self, stack_view_id: LiveId) -> (told: Option<LiveId>)
        ensures
            match old(self).0 {
                Some(inner) => {
                    &&& final(self).0 is Some
                    &&& final(self).0->0@ == inner@.navigated(stack_view_id)
                    &&& told == match inner@.active {
                        ActiveStackView::Inactive => Some(stack_view_id),
                        ActiveStackView::Active(_) => None,
                    }
                },
                None => final(self).0 is None && told is None,
            },
    {
        match &mut self.0 {
            Some(inner) => inner.show_stack_view_by_id(stack_view_id),
            None => None,
        }
    }

    /// Follows the first action of the list that asks to navigate; the
    /// actions behind it are not looked at.
    pub fn handle_stack_view_actions(&mut self, actions: &Vec<StackNavigationAction>) -> (told: Option<
        LiveId,
    >)
        ensures
            match (old(self).0, NavigationModel::first_target(actions@, 0)) {
                (Some(inner), Some(id)) => {
                    &&& final(self).0 is Some
                    &&& final(self).0->0@ == inner@.navigated(id)
                    &&& told == match inner@.active {
                        ActiveStackView::Inactive => Some(id),
                        ActiveStackView::Active(_) => None,
                    }
                },
                (Some(inner), None) => final(self).0 is Some && final(self).0->0@ == inner@ && told is None,
                (None, _) => final(self).0 is None && told is None,
            },
    {
        let ghost start = self.0;
        let mut k: usize = 0;
        while k < actions.len()
            invariant
                self.0 == start,
                start == old(self).0,
                k <= actions@.len(),
                NavigationModel::first_target(actions@, 0) == NavigationModel::first_target(actions@, k as int),
            decreases actions@.len() - k,
        {
            match actions[k] {
                StackNavigationAction::NavigateTo(stack_view_id) => {
                    return self.show_stack_view_by_id(stack_view_id);
                },
                StackNavigationAction::Nothing => {},
            }
            k = k + 1;
        }
        None
    }

    /// Replaces the title of the view named `id`, if there is such a view.
    /// An empty handle stays empty.
    pub fn set_title(&mut self, stack_view_id: LiveId, title: &str)
        ensures
            match old(self).0 {
                Some(inner) => final(self).0 is Some && final(self).0->0@ == inner@.retitled(
                    stack_view_id,
                    title@,
                ),
                None => final(self).0 is None,
            },
    {
        match &mut self.0 {
            Some(inner) => {
                inner.set_title(stack_view_id, title);
            },
            None => {},
        }
    }
}

} // verus!
