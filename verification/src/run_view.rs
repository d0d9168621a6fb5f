//! The view that shows the picture of a running application.
//!
//! The application draws into a texture that it shares with the view. The
//! view counts the frames of its timer, follows the size it is given on the
//! screen, and asks for the texture to be resized when that size changes.

use vstd::prelude::*;

verus! {

/// Name of a texture.
#[derive(Clone, Copy, Debug, PartialEq, Eq, Hash, Structural)]
pub struct TextureId(pub u64);

/// The quad that shows the picture of the application.
#[derive(Clone, Copy, Debug, PartialEq, Eq, Structural)]
pub struct DrawApp {
    /// The texture that the quad samples, once one is bound.
    pub texture: Option<TextureId>,
}

/// What the view keeps from the beginning of a drawing pass to its end.
#[derive(Clone, Copy, Debug, PartialEq, Eq, Structural)]
pub enum DrawState {
    Draw,
}

/// What a step of drawing the view asks of its surroundings.
#[derive(Clone, Copy, Debug, PartialEq, Eq, Structural)]
pub enum WidgetDraw {
    /// The surroundings draw the picture now, then come back.
    HookAbove,
    /// The view is drawn.
    Done,
}

/// What reaches the view.
#[derive(Clone, Copy, Debug, PartialEq, Eq, Structural)]
pub enum RunViewEvent {
    /// The timer named by the number has fired.
    Timer(u64),
    FingerDown,
    FingerUp,
    FingerMove,
    Other,
}

/// What the running application tells its host.
#[derive(Clone, Copy, Debug, PartialEq, Eq, Structural)]
pub enum StdinToHost {
    ReadyToStart,
    DrawComplete,
}

/// A request to give a texture a new size.
#[derive(Clone, Copy, Debug, PartialEq, Eq, Structural)]
pub struct Resize {
    pub texture: TextureId,
    pub width: usize,
    pub height: usize,
}

/// The view as plain values.
pub struct RunViewModel {
    pub draw_bg: DrawApp,
    pub draw_state: Option<DrawState>,
    pub redraw_id: u64,
    pub last_size: (usize, usize),
    pub tick: u64,
    pub frame: u64,
}

impl RunViewModel {
    /// The frame count after one more frame. The count starts over when it
    /// has run through all of `u64`.
    pub open spec fn next_frame(self) -> u64 {
        if self.frame == u64::MAX {
            0
        } else {
            (self.frame + 1) as u64
        }
    }

    /// The view after an event: its own timer advances the frame count, and
    /// nothing else changes anything.
    pub open spec fn after(self, event: RunViewEvent) -> RunViewModel {
        if event == RunViewEvent::Timer(self.tick) {
            RunViewModel { frame: self.next_frame(), ..self }
        } else {
            self
        }
    }

    /// The view after it drew at `new_size`, given for each client of the
    /// build the texture of its first process. Without a texture nothing
    /// changes. Else the view remembers the size and shows the texture of
    /// the last client.
    pub open spec fn drawn(self, new_size: (usize, usize), textures: Seq<TextureId>) -> RunViewModel {
        if textures.len() == 0 {
            self
        } else {
            RunViewModel {
                last_size: new_size,
                draw_bg: DrawApp { texture: Some(textures.last()) },
                ..self
            }
        }
    }

    /// The resize that drawing at `new_size` asks for: the texture of the
    /// first client takes the new size when that differs from the size the
    /// view drew at last.
    pub open spec fn resize_for(self, new_size: (usize, usize), textures: Seq<TextureId>) -> Option<
        Resize,
    > {
        if textures.len() > 0 && new_size != self.last_size {
            Some(Resize { texture: textures[0], width: new_size.0, height: new_size.1 })
        } else {
            None
        }
    }
}

/// The view that shows the picture of a running application.
pub struct RunView {
    draw_bg: DrawApp,
    draw_state: Option<DrawState>,
    redraw_id: u64,
    last_size: (usize, usize),
    tick: u64,
    frame: u64,
}

impl View for RunView {
    type V = RunViewModel;

    closed spec fn view(&self) -> RunViewModel {
        RunViewModel {
            draw_bg: self.draw_bg,
            draw_state: self.draw_state,
            redraw_id: self.redraw_id,
            last_size: self.last_size,
            tick: self.tick,
            frame: self.frame,
        }
    }
}

impl RunView {
    /// A view whose frames the timer `tick` counts.
    pub fn new(tick: u64) -> (view: RunView)
        ensures
            view@ == (RunViewModel {
                draw_bg: DrawApp { texture: None },
                draw_state: None,
                redraw_id: 0,
                last_size: (0, 0),
                tick,
                frame: 0,
            }),
    {
        RunView {
            draw_bg: DrawApp { texture: None },
            draw_state: None,
            redraw_id: 0,
            last_size: (0, 0),
            tick,
            frame: 0,
        }
    }

    /// Number of frames that the timer has counted.
    pub fn frame(&self) -> (frame: u64)
        ensures
            frame == self@.frame,
    {
        self.frame
    }

    /// The size that the view drew at last.
    pub fn last_size(&self) -> (size: (usize, usize))
        ensures
            size == self@.last_size,
    {
        self.last_size
    }

    /// The quad that shows the picture.
    pub fn draw_bg(&self) -> (quad: DrawApp)
        ensures
            quad == self@.draw_bg,
    {
        self.draw_bg
    }

    /// Takes an event.
    pub fn handle_event(&mut self, event: RunViewEvent)
        ensures
            final(self)@ == old(self)@.after(event),
    {
        match event {
            RunViewEvent::Timer(id) => {
                if id == self.tick {
                    self.frame = if self.frame == u64::MAX {
                        0
                    } else {
                        self.frame + 1
                    };
                }
            },
            _ => {},
        }
    }

    /// Takes a message of the application. When the application is ready to
    /// start, the view forgets the size it drew at, so that the next drawing
    /// sets the size of the texture again. After either message the view is
    /// to be drawn again.
    pub fn handle_stdin_to_host(&mut self, msg: StdinToHost)
        ensures
            final(self)@ == match msg {
                StdinToHost::ReadyToStart => RunViewModel { last_size: (0, 0), ..old(self)@ },
                StdinToHost::DrawComplete => old(self)@,
            },
    {
        match msg {
            StdinToHost::ReadyToStart => {
                self.last_size = (0, 0);
            },
            StdinToHost::DrawComplete => {},
        }
    }

    /// Begins or ends a step of drawing in the pass `redraw_id`. The first
    /// step of a pass hands over to the surroundings, which draw the picture;
    /// every further step of that pass finds the view drawn.
    pub fn draw_walk_widget(&mut self, redraw_id: u64) -> (step: WidgetDraw)
        ensures
            step == if redraw_id != old(self)@.redraw_id {
                WidgetDraw::HookAbove
            } else {
                WidgetDraw::Done
            },
            final(self)@ == if redraw_id != old(self)@.redraw_id {
                RunViewModel { redraw_id, draw_state: Some(DrawState::Draw), ..old(self)@ }
            } else {
                old(self)@
            },
    {
        if redraw_id != self.redraw_id {
            self.redraw_id = redraw_id;
            self.draw_state = Some(DrawState::Draw);
            WidgetDraw::HookAbove
        } else {
            WidgetDraw::Done
        }
    }

    /// Draws the picture at `new_size`, the size of the view in pixels.
    /// `textures` holds, for each client of the build, the texture of its
    /// first process. Returns the resize to carry out, if any.
    pub fn draw(&mut self, new_size: (usize, usize), textures: &Vec<TextureId>) -> (resize: Option<Resize>)
        requires
            old(self)@.draw_state is Some,
        ensures
            final(self)@ == old(self)@.drawn(new_size, textures@),
            resize == old(self)@.resize_for(new_size, textures@),
    {
        let mut resize: Option<Resize> = None;
        let mut k: usize = 0;
        while k < textures.len()
            invariant
                k <= textures@.len(),
                self@ == old(self)@.drawn(new_size, textures@.take(k as int)),
                resize == old(self)@.resize_for(new_size, textures@.take(k as int)),
            decreases textures@.len() - k,
        {
            let texture = textures[k];
            if new_size.0 != self.last_size.0 || new_size.1 != self.last_size.1 {
                self.last_size = new_size;
                resize = Some(Resize { texture, width: new_size.0, height: new_size.1 });
            }
            self.draw_bg = DrawApp { texture: Some(texture) };
            k = k + 1;
            proof {
                assert(textures@.take(k as int).last() == texture);
                if k > 1 {
                    assert(textures@.take(k as int)[0] == textures@.take(k - 1)[0]);
                }
            }
        }
        proof {
            assert(textures@.take(k as int) =~= textures@);
        }
        resize
    }
}

/// A handle on a run view that may be empty.
pub struct RunViewRef(pub Option<RunView>);

impl RunViewRef {
    /// Takes an event. An empty handle stays empty.
    pub fn handle_event(&mut self, event: RunViewEvent)
        ensures
            match old(self).0 {
                Some(inner) => final(self).0 is Some && final(self).0->0@ == inner@.after(event),
                None => final(self).0 is None,
            },
    {
        match &mut self.0 {
            Some(inner) => {
                inner.handle_event(event);
            },
            None => {},
        }
    }

    /// Draws the picture at `new_size`. Returns the resize to carry out, if
    /// any. An empty handle draws nothing.
    pub fn draw(&mut self, new_size: (usize, usize), textures: &Vec<TextureId>) -> (resize: Option<Resize>)
        requires
            old(self).0 matches Some(inner) ==> inner@.draw_state is Some,
        ensures
            match old(self).0 {
                Some(inner) => {
                    &&& final(self).0 is Some
                    &&& final(self).0->0@ == inner@.drawn(new_size, textures@)
                    &&& resize == inner@.resize_for(new_size, textures@)
                },
                None => final(self).0 is None && resize is None,
            },
    {
        match &mut self.0 {
            Some(inner) => inner.draw(new_size, textures),
            None => None,
        }
    }
}

} // verus!
