//! The controller: pointer input, the zoom animation and the steps of a tick.
//!
//! The controller is idle or zooming, in or out. A tick is carried out step by
//! step. The controller says what comes next; its surroundings do it, since
//! they own the channel to the workers and the geometry of the view, and
//! come back for the step after.

use vstd::prelude::*;
use crate::bail::BailWindow;
use crate::cache::{CacheView, TileCache, ZoomLevel};
use crate::grid::GridWindow;
use crate::tile::{tiles_view, Tile};
use crate::worker::{ToUI, ToUIView};

verus! {

/// Number of messages of workers that one tick takes at most.
pub const MAX_MESSAGES_PER_TICK: usize = 10;

/// A factor or a bound of the zoom, as an exact fraction.
#[derive(Clone, Copy, Debug, PartialEq, Eq, Structural)]
pub struct Ratio {
    pub num: u64,
    pub den: u64,
}

/// Smallest zoom, numerator and denominator: 5e-14.
pub const ZOOM_MIN_NUM: u64 = 5;

pub const ZOOM_MIN_DEN: u64 = 100_000_000_000_000;

/// Largest zoom, numerator and denominator: 2.
pub const ZOOM_MAX_NUM: u64 = 2;

pub const ZOOM_MAX_DEN: u64 = 1;

/// A pending layer is finer than a pass asks for when its tiles are smaller
/// than this fraction of the zoom of the pass: four fifths.
pub const FINER_BELOW_NUM: u64 = 4;

pub const FINER_BELOW_DEN: u64 = 5;

/// The way the view zooms.
#[derive(Clone, Copy, Debug, PartialEq, Eq, Structural)]
pub enum ZoomDirection {
    In,
    Out,
}

/// What the controller is doing.
#[derive(Clone, Copy, Debug, PartialEq, Eq, Structural)]
pub enum Mode {
    Idle,
    Zooming(ZoomDirection),
}

/// What the pointer does. `touch` says whether a finger or a mouse acts, and
/// `digit` which finger or button it is, counted from zero.
#[derive(Clone, Copy, Debug, PartialEq, Eq, Structural)]
pub enum PointerEvent {
    Press { touch: bool, digit: usize },
    Move { touch: bool, digit: usize },
    Release { touch: bool, digit: usize },
}

/// What a pointer event asks of the surroundings.
#[derive(Clone, Copy, Debug, PartialEq, Eq, Structural)]
pub struct PointerOutcome {
    /// Whether the position of the event becomes the point to zoom around.
    pub track_position: bool,
    /// Whether the view has to be drawn again.
    pub redraw: bool,
}

/// The point that a generation pass is centred on.
#[derive(Clone, Copy, Debug, PartialEq, Eq, Structural)]
pub enum Anchor {
    Pointer,
    ViewCenter,
}

/// A generation pass to start: at the zoom of the view times `factor`,
/// around `anchor`.
#[derive(Clone, Copy, Debug, PartialEq, Eq, Structural)]
pub struct GenerateOrder {
    pub factor: Ratio,
    pub anchor: Anchor,
}

/// What comes next in a tick.
#[derive(Clone, Copy, Debug, PartialEq, Eq, Structural)]
pub enum TickStep {
    /// Take one message from the workers, if one waits, and hand it over.
    Receive,
    /// Start a generation pass.
    Generate(GenerateOrder),
    /// Multiply the zoom of the view by the ratio, around the pointer.
    ZoomStep(Ratio),
    /// The tick is over.
    Finish,
}

/// How far a tick has come.
#[derive(Clone, Copy, Debug, PartialEq, Eq, Structural)]
pub enum Phase {
    /// Messages of workers are taken.
    Drain,
    /// The view has moved on since the last pass: a pass may catch up.
    CatchUp,
    /// No layer is drawn yet: a first pass may start.
    Initial,
    /// The zoom animation may advance.
    Zoom,
    /// The animation has advanced: a pass at the target zoom may start.
    Kick,
    /// Nothing is left to do.
    Done,
}

impl Mode {
    /// Whether passes and workers treat the view as zooming in. An idle view
    /// counts as zooming in.
    pub open spec fn is_zoom_in(self) -> bool {
        self != Mode::Zooming(ZoomDirection::Out)
    }

    /// The mode after a pointer event. A press starts zooming: in with the
    /// first digit, out with any other. Lifting the second finger turns a
    /// zoom back inwards. Any other release ends the zoom.
    pub open spec fn after(self, event: PointerEvent) -> Mode {
        match event {
            PointerEvent::Press { touch, digit } => if digit == 0 {
                Mode::Zooming(ZoomDirection::In)
            } else {
                Mode::Zooming(ZoomDirection::Out)
            },
            PointerEvent::Move { .. } => self,
            PointerEvent::Release { touch, digit } => if touch && digit == 1 {
                match self {
                    Mode::Idle => Mode::Idle,
                    Mode::Zooming(_) => Mode::Zooming(ZoomDirection::In),
                }
            } else {
                Mode::Idle
            },
        }
    }

    /// The factor of one step of the zoom animation.
    pub open spec fn animation_step(direction: ZoomDirection) -> Ratio {
        match direction {
            ZoomDirection::In => Ratio { num: 98, den: 100 },
            ZoomDirection::Out => Ratio { num: 102, den: 100 },
        }
    }

    /// The factor between the zoom of the view and the zoom of a pass that
    /// follows it.
    pub open spec fn generation_factor(self) -> Ratio {
        match self {
            Mode::Idle => Ratio { num: 1, den: 1 },
            Mode::Zooming(ZoomDirection::In) => Ratio { num: 8, den: 10 },
            Mode::Zooming(ZoomDirection::Out) => Ratio { num: 2, den: 1 },
        }
    }
}

/// What a pointer event asks of the surroundings: the position is followed
/// on a press and on a move, for the mouse and for the first finger, and a
/// press has the view drawn again.
pub open spec fn pointer_outcome(event: PointerEvent) -> PointerOutcome {
    match event {
        PointerEvent::Press { touch, digit } => PointerOutcome {
            track_position: !touch || digit == 0,
            redraw: true,
        },
        PointerEvent::Move { touch, digit } => PointerOutcome {
            track_position: !touch || digit == 0,
            redraw: false,
        },
        PointerEvent::Release { .. } => PointerOutcome { track_position: false, redraw: false },
    }
}

/// The controller as plain values.
#[verifier::ext_equal]
pub struct ControllerModel {
    pub cache: CacheView,
    pub mode: Mode,
    pub phase: Phase,
    /// Messages taken in this tick.
    pub received: nat,
}

impl ControllerModel {
    pub open spec fn wf(self) -> bool {
        self.cache.wf() && self.received <= MAX_MESSAGES_PER_TICK
    }

    /// Whether no tile is out with a worker.
    pub open spec fn idle(self) -> bool {
        self.cache.in_flight == 0
    }

    /// The end of a tick, in phase `Kick`: a pass at the target zoom if the
    /// view zooms and no pass is under way.
    pub open spec fn plan_kick(self) -> (Phase, TickStep) {
        if self.mode is Zooming && self.idle() {
            (
                Phase::Done,
                TickStep::Generate(
                    GenerateOrder { factor: self.mode.generation_factor(), anchor: Anchor::Pointer },
                ),
            )
        } else {
            (Phase::Done, TickStep::Finish)
        }
    }

    /// From phase `Zoom` on: one step of the animation if the view zooms.
    pub open spec fn plan_zoom(self) -> (Phase, TickStep) {
        match self.mode {
            Mode::Zooming(direction) => (Phase::Kick, TickStep::ZoomStep(Mode::animation_step(direction))),
            Mode::Idle => (Phase::Done, TickStep::Finish),
        }
    }

    /// From phase `Initial` on: a first pass at the zoom of the view, around
    /// its centre, if no layer is drawn yet and no pass is under way.
    pub open spec fn plan_initial(self) -> (Phase, TickStep) {
        if self.idle() && self.cache.current.len() == 0 {
            (
                Phase::Zoom,
                TickStep::Generate(
                    GenerateOrder { factor: Ratio { num: 1, den: 1 }, anchor: Anchor::ViewCenter },
                ),
            )
        } else {
            self.plan_zoom()
        }
    }

    /// From phase `CatchUp` on: a pass around the pointer if no pass is under
    /// way and the last pass was made for another zoom than `desired`.
    pub open spec fn plan_catch_up(self, desired: ZoomLevel) -> (Phase, TickStep) {
        if self.idle() && self.cache.next_zoom != desired {
            (
                Phase::Initial,
                TickStep::Generate(
                    GenerateOrder { factor: self.mode.generation_factor(), anchor: Anchor::Pointer },
                ),
            )
        } else {
            self.plan_initial()
        }
    }

    /// The next step of the tick and the phase that it leaves the tick in,
    /// where `desired` is the zoom of the view.
    pub open spec fn plan(self, desired: ZoomLevel) -> (Phase, TickStep) {
        match self.phase {
            Phase::Drain => if self.received < MAX_MESSAGES_PER_TICK {
                (Phase::Drain, TickStep::Receive)
            } else {
                self.plan_catch_up(desired)
            },
            Phase::CatchUp => self.plan_catch_up(desired),
            Phase::Initial => self.plan_initial(),
            Phase::Zoom => self.plan_zoom(),
            Phase::Kick => self.plan_kick(),
            Phase::Done => (Phase::Done, TickStep::Finish),
        }
    }

    /// An upper bound on the steps that are left in the tick.
    pub open spec fn steps_left(self) -> nat {
        match self.phase {
            Phase::Drain => (5 + MAX_MESSAGES_PER_TICK - self.received) as nat,
            Phase::CatchUp => 4,
            Phase::Initial => 3,
            Phase::Zoom => 2,
            Phase::Kick => 1,
            Phase::Done => 0,
        }
    }

    /// Whether the cache can take the message: its tile is one that the
    /// cache has handed out, and a rendered tile lies in the window of the
    /// pass.
    pub open spec fn accepts(self, message: ToUIView) -> bool {
        match message {
            ToUIView::TileDone { tile } => self.cache.awaits(tile) && self.cache.next_window.covers(
                tile.at.0,
                tile.at.1,
            ),
            ToUIView::TileBailed { tile } => self.cache.awaits(tile),
        }
    }

    /// The cache after it took the message: a rendered tile joins the
    /// pending layer with its pixels shown, and an abandoned tile goes back
    /// to the empty pool as it is.
    pub open spec fn ingested(self, message: ToUIView) -> CacheView {
        match message {
            ToUIView::TileDone { tile } => self.cache.completed(tile),
            ToUIView::TileBailed { tile } => self.cache.bailed(tile),
        }
    }

    /// The controller after it was handed what the channel gave: a message
    /// is taken and counted, and an empty channel ends the draining.
    pub open spec fn after_receive(self, message: Option<ToUIView>) -> ControllerModel {
        match message {
            Some(m) => ControllerModel {
                cache: self.ingested(m),
                received: if self.received < MAX_MESSAGES_PER_TICK {
                    self.received + 1
                } else {
                    self.received
                },
                ..self
            },
            None => ControllerModel {
                phase: if self.phase == Phase::Drain {
                    Phase::CatchUp
                } else {
                    self.phase
                },
                ..self
            },
        }
    }
}

/// The controller with its tile cache.
pub struct Controller {
    cache: TileCache,
    mode: Mode,
    phase: Phase,
    received: usize,
}

impl View for Controller {
    type V = ControllerModel;

    closed spec fn view(&self) -> ControllerModel {
        ControllerModel {
            cache: self.cache@,
            mode: self.mode,
            phase: self.phase,
            received: self.received as nat,
        }
    }
}

impl Controller {
    /// An idle controller with a full empty pool, between two ticks.
    pub fn new() -> (controller: Controller)
        ensures
            controller@.wf(),
            controller@.mode == Mode::Idle,
            controller@.phase == Phase::Done,
            controller@.received == 0,
            controller@.cache.current.len() == 0,
            controller@.cache.next.len() == 0,
            controller@.cache.empty.len() == crate::cache::TILE_CACHE_SIZE,
            controller@.cache.in_flight == 0,
            controller@.cache.current_zoom == ZoomLevel(0),
            controller@.cache.next_zoom == ZoomLevel(0),
    {
        Controller { cache: TileCache::new(), mode: Mode::Idle, phase: Phase::Done, received: 0 }
    }

    /// The tile cache.
    pub fn cache(&self) -> (cache: &TileCache)
        ensures
            cache@ == self@.cache,
    {
        &self.cache
    }

    /// What the controller is doing.
    pub fn mode(&self) -> (mode: Mode)
        ensures
            mode == self@.mode,
    {
        self.mode
    }

    /// Whether passes and workers treat the view as zooming in.
    pub fn is_zoom_in(&self) -> (zoom_in: bool)
        ensures
            zoom_in == self@.mode.is_zoom_in(),
    {
        match self.mode {
            Mode::Zooming(ZoomDirection::Out) => false,
            _ => true,
        }
    }

    /// Takes a pointer event.
    pub fn handle_pointer_event(&mut self, event: PointerEvent) -> (outcome: PointerOutcome)
        ensures
            final(self)@ == (ControllerModel { mode: old(self)@.mode.after(event), ..old(self)@ }),
            outcome == pointer_outcome(event),
    {
        match event {
            PointerEvent::Press { touch, digit } => {
                self.mode = if digit == 0 {
                    Mode::Zooming(ZoomDirection::In)
                } else {
                    Mode::Zooming(ZoomDirection::Out)
                };
                PointerOutcome { track_position: !touch || digit == 0, redraw: true }
            },
            PointerEvent::Move { touch, digit } => PointerOutcome {
                track_position: !touch || digit == 0,
                redraw: false,
            },
            PointerEvent::Release { touch, digit } => {
                if touch && digit == 1 {
                    match self.mode {
                        Mode::Idle => {},
                        Mode::Zooming(_) => {
                            self.mode = Mode::Zooming(ZoomDirection::In);
                        },
                    }
                } else {
                    self.mode = Mode::Idle;
                }
                PointerOutcome { track_position: false, redraw: false }
            },
        }
    }

    /// Begins a tick.
    pub fn handle_tick(&mut self)
        ensures
            final(self)@ == (ControllerModel { phase: Phase::Drain, received: 0, ..old(self)@ }),
    {
        self.phase = Phase::Drain;
        self.received = 0;
    }

    /// Says what comes next in the tick, where `desired` is the zoom of the
    /// view. A pass is only ever ordered while no pass is under way, and the
    /// tick comes to its end: every step but `Receive` brings it closer.
    pub fn next_step(&mut self, desired: ZoomLevel) -> (step: TickStep)
        requires
            old(self)@.wf(),
        ensures
            final(self)@ == (ControllerModel { phase: old(self)@.plan(desired).0, ..old(self)@ }),
            step == old(self)@.plan(desired).1,
            step is Generate ==> final(self)@.idle(),
            step is Finish ==> final(self)@.phase == Phase::Done,
            !(step is Receive) && !(step is Finish) ==> final(self)@.steps_left() < old(self)@.steps_left(),
    {
        let idle = self.cache.generate_completed();
        let mut phase = self.phase;
        if phase == Phase::Drain {
            if self.received < MAX_MESSAGES_PER_TICK {
                return TickStep::Receive;
            }
            phase = Phase::CatchUp;
        }
        if phase == Phase::CatchUp {
            if idle && self.cache.next_zoom() != desired {
                self.phase = Phase::Initial;
                return TickStep::Generate(
                    GenerateOrder { factor: generation_factor(self.mode), anchor: Anchor::Pointer },
                );
            }
            phase = Phase::Initial;
        }
        if phase == Phase::Initial {
            if idle && self.cache.current_is_empty() {
                self.phase = Phase::Zoom;
                return TickStep::Generate(
                    GenerateOrder { factor: Ratio { num: 1, den: 1 }, anchor: Anchor::ViewCenter },
                );
            }
            phase = Phase::Zoom;
        }
        if phase == Phase::Zoom {
            match self.mode {
                Mode::Zooming(direction) => {
                    self.phase = Phase::Kick;
                    return TickStep::ZoomStep(animation_step(direction));
                },
                Mode::Idle => {
                    self.phase = Phase::Done;
                    return TickStep::Finish;
                },
            }
        }
        if phase == Phase::Kick {
            self.phase = Phase::Done;
            match self.mode {
                Mode::Zooming(_) => {
                    if idle {
                        return TickStep::Generate(
                            GenerateOrder { factor: generation_factor(self.mode), anchor: Anchor::Pointer },
                        );
                    }
                },
                Mode::Idle => {},
            }
            return TickStep::Finish;
        }
        self.phase = Phase::Done;
        TickStep::Finish
    }

    /// Whether the cache can take the message.
    pub fn accepts(&self, message: &ToUI) -> (ok: bool)
        requires
            self@.wf(),
        ensures
            ok == self@.accepts(message@),
    {
        match message {
            ToUI::TileDone { tile } => self.cache.awaits(tile) && self.cache.next_window().contains(tile.at),
            ToUI::TileBailed { tile } => self.cache.awaits(tile),
        }
    }

    /// Takes what the channel gave in answer to `Receive`: a message of a
    /// worker, or nothing if none waits, which ends the draining.
    pub fn receive(&mut self, message: Option<ToUI>)
        requires
            old(self)@.wf(),
            message matches Some(m) ==> old(self)@.accepts(m@),
        ensures
            final(self)@.wf(),
            final(self)@ == old(self)@.after_receive(
                match message {
                    Some(m) => Some(m@),
                    None => None,
                },
            ),
            old(self)@.phase == Phase::Drain && old(self)@.received < MAX_MESSAGES_PER_TICK
                ==> final(self)@.steps_left() < old(self)@.steps_left(),
    {
        match message {
            Some(ToUI::TileDone { tile }) => {
                self.cache.tile_completed(tile);
                if self.received < MAX_MESSAGES_PER_TICK {
                    self.received = self.received + 1;
                }
            },
            Some(ToUI::TileBailed { tile }) => {
                self.cache.tile_bailed(tile);
                if self.received < MAX_MESSAGES_PER_TICK {
                    self.received = self.received + 1;
                }
            },
            None => {
                if self.phase == Phase::Drain {
                    self.phase = Phase::CatchUp;
                }
            },
        }
    }

    /// Starts the generation pass that `next_step` has ordered and returns
    /// its tasks in the order in which they go to the workers: nearest
    /// first while the view zooms in, farthest first while it zooms out.
    pub fn generate_tiles(&mut self, zoom: ZoomLevel, view: GridWindow, next_is_finer: bool) -> (tasks: Vec<
        Tile,
    >)
        requires
            old(self)@.wf(),
            old(self)@.idle(),
        ensures
            final(self)@.wf(),
            final(self)@ == (ControllerModel { cache: final(self)@.cache, ..old(self)@ }),
            old(self)@.cache.generates(
                final(self)@.cache,
                if old(self)@.mode.is_zoom_in() {
                    tiles_view(tasks@)
                } else {
                    tiles_view(tasks@).reverse()
                },
                zoom,
                view,
                old(self)@.mode.is_zoom_in(),
                next_is_finer,
            ),
    {
        let is_zoom_in = self.is_zoom_in();
        let mut tasks = self.cache.generate_tasks_and_flip_layers(zoom, view, is_zoom_in, next_is_finer);
        if is_zoom_in {
            tasks
        } else {
            let ghost planned = tiles_view(tasks@);
            let mut reversed: Vec<Tile> = Vec::new();
            while tasks.len() > 0
                invariant
                    tasks@.len() <= planned.len(),
                    tiles_view(tasks@) == planned.take(tasks@.len() as int),
                    reversed@.len() == planned.len() - tasks@.len(),
                    forall|k: int|
                        0 <= k < reversed@.len() ==> (#[trigger] reversed@[k])@ == planned[planned.len() - 1 - k],
                decreases tasks@.len(),
            {
                let ghost left = tiles_view(tasks@);
                let ghost turned = reversed@;
                let tile = tasks.pop().unwrap();
                proof {
                    assert(tile@ == left.last());
                    assert(tiles_view(tasks@) =~= left.drop_last());
                }
                reversed.push(tile);
                proof {
                    assert forall|k: int| 0 <= k < reversed@.len() implies (#[trigger] reversed@[k])@
                        == planned[planned.len() - 1 - k] by {
                        if k < turned.len() {
                            assert(reversed@[k] == turned[k]);
                        }
                    }
                }
            }
            proof {
                assert(tiles_view(reversed@).reverse() =~= planned);
            }
            reversed
        }
    }

    /// The window that workers consult from now on: `view` holds the tiles
    /// of the pass under way that touch the viewport, and
    /// `tiles_imperceptible` says whether a tile of that pass is too small
    /// to be seen.
    pub fn bail_window(&self, view: GridWindow, tiles_imperceptible: bool) -> (window: BailWindow)
        ensures
            window == (BailWindow { view, is_zoom_in: self@.mode.is_zoom_in(), tiles_imperceptible }),
    {
        BailWindow { view, is_zoom_in: self.is_zoom_in(), tiles_imperceptible }
    }
}

/// The factor of one step of the zoom animation.
pub fn animation_step(direction: ZoomDirection) -> (factor: Ratio)
    ensures
        factor == Mode::animation_step(direction),
{
    match direction {
        ZoomDirection::In => Ratio { num: 98, den: 100 },
        ZoomDirection::Out => Ratio { num: 102, den: 100 },
    }
}

/// The factor between the zoom of the view and the zoom of a pass that
/// follows it.
pub fn generation_factor(mode: Mode) -> (factor: Ratio)
    ensures
        factor == mode.generation_factor(),
{
    match mode {
        Mode::Idle => Ratio { num: 1, den: 1 },
        Mode::Zooming(ZoomDirection::In) => Ratio { num: 8, den: 10 },
        Mode::Zooming(ZoomDirection::Out) => Ratio { num: 2, den: 1 },
    }
}

} // verus!
