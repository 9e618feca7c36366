//! The state of a train on its way across the viewport.
//!
//! The train starts just right of the viewport and moves one cell to the
//! left with every tick, while its animations play. A flying train also
//! climbs, one cell for every `FLYING_RATE` cells that it moves left.
//! Once its last cell has left the viewport on the left it is complete.

use vstd::prelude::*;
use crate::animation::{
    Animation, AnimationView, animation_of, lemma_animation_of_valid,
    lemma_bounding_box_is_maximum, lemma_step_keeps_valid, lemma_widest_is_maximum, widest,
};
use crate::error::Error;
use crate::render::{
    Draw, DrawView, draw_lines, draw_views, lemma_lines_out_of_sight, push_lines,
};
use crate::trains::{TrainDefinition, TrainDefinitionView};

verus! {

/// The number of ticks between two steps upwards of a flying train.
/// Terminal cells are taller than wide, so a flying train climbs more
/// slowly than it moves left.
pub const FLYING_RATE: i32 = 10;

/// The smoke above a train.
#[derive(Debug)]
pub struct SmokeState {
    animation: Animation,
    offset: usize,
}

/// The smoke as a mathematical value.
pub struct SmokeView {
    /// The animation of the smoke.
    pub animation: AnimationView,
    /// How far to the right of the train's left end the smoke is drawn.
    pub offset: nat,
}

impl View for SmokeState {
    type V = SmokeView;

    closed spec fn view(&self) -> SmokeView {
        SmokeView { animation: self.animation@, offset: self.offset as nat }
    }
}

/// A train, its smoke and where they are.
#[derive(Debug)]
pub struct TrainState {
    viewport: Option<(usize, usize)>,
    x: i32,
    y: i32,
    train_animation: Animation,
    smoke: Option<SmokeState>,
    flying: bool,
}

/// The state of a train as a mathematical value.
pub struct TrainStateView {
    /// The animation of the train itself.
    pub body: AnimationView,
    /// The smoke, where the train has any.
    pub smoke: Option<SmokeView>,
    /// The horizontal position: 0 at the start, one less with every tick.
    pub x: int,
    /// The vertical position, counted downwards.
    pub y: int,
    /// Whether the train climbs while it moves.
    pub flying: bool,
    /// Width and height of the viewport, once they are known.
    pub viewport: Option<(nat, nat)>,
}

impl TrainStateView {
    /// The animations of the train and of its smoke are valid.
    pub open spec fn valid(self) -> bool {
        &&& self.body.valid()
        &&& self.smoke matches Some(smoke) ==> smoke.animation.valid()
    }

    /// The width of the smoke's bounding box, 0 without smoke.
    pub open spec fn smoke_width(self) -> nat {
        match self.smoke {
            Some(smoke) => smoke.animation.width(),
            None => 0,
        }
    }

    /// The height of the smoke's bounding box, 0 without smoke.
    pub open spec fn smoke_height(self) -> nat {
        match self.smoke {
            Some(smoke) => smoke.animation.height(),
            None => 0,
        }
    }

    /// The larger of the widths of train and smoke.
    pub open spec fn extent(self) -> nat {
        if self.body.width() >= self.smoke_width() {
            self.body.width()
        } else {
            self.smoke_width()
        }
    }

    /// The number of ticks since the train set out.
    pub open spec fn ticks(self) -> int {
        -self.x
    }

    /// The state after the viewport's size was announced. The first
    /// announcement puts a flying train at the bottom of the viewport,
    /// raised by the heights of train and smoke so that all of it is in
    /// sight; a later one changes the size and nothing else.
    pub open spec fn with_viewport(self, width: nat, height: nat) -> TrainStateView {
        TrainStateView {
            viewport: Some((width, height)),
            y: if self.flying && self.viewport is None {
                height - (self.body.height() + self.smoke_height())
            } else {
                self.y
            },
            ..self
        }
    }

    /// The state one tick later: one cell further left, both animations
    /// advanced, and, for a flying train on every `FLYING_RATE`th tick,
    /// one cell further up.
    pub open spec fn step(self) -> TrainStateView {
        let moved = TrainStateView { x: self.x - 1, ..self };
        TrainStateView {
            x: moved.x,
            y: if self.flying && moved.ticks() % (FLYING_RATE as int) == 0 {
                self.y - 1
            } else {
                self.y
            },
            body: self.body.step(),
            smoke: match self.smoke {
                Some(smoke) => Some(SmokeView { animation: smoke.animation.step(), ..smoke }),
                None => None,
            },
            ..self
        }
    }

    /// The state `n` ticks later.
    pub open spec fn steps(self, n: nat) -> TrainStateView
        decreases n,
    {
        if n == 0 {
            self
        } else {
            self.steps((n - 1) as nat).step()
        }
    }

    /// Whether the train has left the viewport for good: even its
    /// rightmost cell is left of the viewport's left edge.
    pub open spec fn complete(self) -> bool
        recommends
            self.viewport is Some,
    {
        self.x < -(self.viewport.unwrap().0 + self.extent())
    }

    /// The column of the train's left end: at the start the column just
    /// right of the viewport, then one less with every tick.
    pub open spec fn origin_column(self) -> int
        recommends
            self.viewport is Some,
    {
        self.viewport.unwrap().0 + self.x
    }

    /// The row of the train's top line: the frame shown now is centred
    /// in the viewport and then moved down by `y`.
    pub open spec fn origin_row(self) -> int
        recommends
            self.viewport is Some,
    {
        self.viewport.unwrap().1 / 2 - self.body.current().len() / 2 + self.y
    }

    /// What is to be drawn: first the smoke, which starts `offset` cells
    /// right of the train's left end and whose bounding box ends just
    /// above the train, then the train itself; each from top to bottom.
    pub open spec fn draws(self) -> Seq<DrawView>
        recommends
            self.viewport is Some,
    {
        let smoke = match self.smoke {
            Some(smoke) => draw_lines(
                smoke.animation.current(),
                self.origin_column() + smoke.offset,
                self.origin_row() - smoke.animation.height(),
            ),
            None => Seq::empty(),
        };
        smoke + draw_lines(self.body.current(), self.origin_column(), self.origin_row())
    }
}

/// What `TrainState::new` makes of a definition: the train at its start,
/// or the first error met, the train's own before the smoke's.
pub open spec fn train_state_of(definition: TrainDefinitionView, flying: bool) -> Result<
    TrainStateView,
    Error,
> {
    match animation_of(definition.train_animation_speed, definition.train) {
        Err(error) => Err(error),
        Ok(body) => {
            let start = TrainStateView { body, smoke: None, x: 0, y: 0, flying, viewport: None };
            match definition.smoke {
                None => Ok(start),
                Some(text) => match animation_of(
                    definition.smoke_animation_speed.unwrap_or(1),
                    text,
                ) {
                    Err(error) => Err(error),
                    Ok(animation) => Ok(
                        TrainStateView {
                            smoke: Some(
                                SmokeView {
                                    animation,
                                    offset: definition.smoke_offset.unwrap_or(0) as nat,
                                },
                            ),
                            ..start
                        },
                    ),
                },
            }
        },
    }
}

impl View for TrainState {
    type V = TrainStateView;

    closed spec fn view(&self) -> TrainStateView {
        TrainStateView {
            body: self.train_animation@,
            smoke: match self.smoke {
                Some(smoke) => Some(smoke@),
                None => None,
            },
            x: self.x as int,
            y: self.y as int,
            flying: self.flying,
            viewport: match self.viewport {
                Some((width, height)) => Some((width as nat, height as nat)),
                None => None,
            },
        }
    }
}

impl TrainState {
    /// Makes the state of a train that is about to set out. This is
    /// where a definition is checked: each of its texts has to be a
    /// proper animation.
    pub fn new(definition: &TrainDefinition, flying: bool) -> (res: Result<TrainState, Error>)
        ensures
            res matches Ok(state) ==> state@.valid(),
            match res {
                Ok(state) => train_state_of(definition@, flying) == Ok::<TrainStateView, Error>(
                    state@,
                ),
                Err(error) => train_state_of(definition@, flying) == Err::<TrainStateView, Error>(
                    error,
                ),
            },
    {
        let train_animation = match Animation::new(
            definition.train_animation_speed,
            definition.train.as_str(),
        ) {
            Ok(animation) => animation,
            Err(error) => {
                return Err(error);
            },
        };
        let smoke = match &definition.smoke {
            Some(text) => {
                let speed = match definition.smoke_animation_speed {
                    Some(speed) => speed,
                    None => 1,
                };
                let offset = match definition.smoke_offset {
                    Some(offset) => offset,
                    None => 0,
                };
                match Animation::new(speed, text.as_str()) {
                    Ok(animation) => Some(SmokeState { animation, offset }),
                    Err(error) => {
                        return Err(error);
                    },
                }
            },
            None => None,
        };
        Ok(TrainState { viewport: None, x: 0, y: 0, flying, train_animation, smoke })
    }

    /// The horizontal position.
    pub fn x(&self) -> (x: i32)
        ensures
            x == self@.x,
    {
        self.x
    }

    /// The vertical position.
    pub fn y(&self) -> (y: i32)
        ensures
            y == self@.y,
    {
        self.y
    }

    /// Whether the train climbs while it moves.
    pub fn flying(&self) -> (flying: bool)
        ensures
            flying == self@.flying,
    {
        self.flying
    }

    /// Width and height of the viewport, once they are known.
    pub fn viewport(&self) -> (size: Option<(usize, usize)>)
        ensures
            match size {
                Some((width, height)) => self@.viewport == Some((width as nat, height as nat)),
                None => self@.viewport is None,
            },
    {
        self.viewport
    }

    /// Whether `set_viewport` may be called with this height: always,
    /// but for a flying train at the first call, whose starting height
    /// has to be a position that `i32` can hold.
    pub fn can_set_viewport(&self, height: usize) -> (ok: bool)
        ensures
            ok == (self@.flying && self@.viewport is None ==> i32::MIN <= height - (
            self@.body.height() + self@.smoke_height()) <= i32::MAX),
    {
        if self.flying && self.viewport.is_none() {
            let body_height = self.train_animation.height();
            let smoke_height = match &self.smoke {
                Some(smoke) => smoke.animation.height(),
                None => 0,
            };
            let raised: i128 = height as i128 - (body_height as i128 + smoke_height as i128);
            i32::MIN as i128 <= raised && raised <= i32::MAX as i128
        } else {
            true
        }
    }

    /// Whether `step` may be called: whether the positions after the
    /// tick are ones that `i32` can hold.
    pub fn can_step(&self) -> (ok: bool)
        ensures
            ok == (self@.step().x >= i32::MIN && self@.step().y >= i32::MIN),
    {
        if self.x == i32::MIN {
            return false;
        }
        let ticks: i64 = -(self.x as i64 - 1);
        let climbs = self.flying && ticks % (FLYING_RATE as i64) == 0;
        !(climbs && self.y == i32::MIN)
    }

    /// Takes note of the viewport's size. To be called when the size
    /// becomes known and whenever it changes. The first call also puts
    /// a flying train at its starting height, which has to be a
    /// position that `i32` can hold.
    pub fn set_viewport(&mut self, width: usize, height: usize)
        requires
            old(self)@.flying && old(self)@.viewport is None ==> i32::MIN <= height - (old(
                self,
            )@.body.height() + old(self)@.smoke_height()) <= i32::MAX,
        ensures
            final(self)@ == old(self)@.with_viewport(width as nat, height as nat),
    {
        if self.flying && self.viewport.is_none() {
            let body_height = self.train_animation.height();
            let smoke_height = match &self.smoke {
                Some(smoke) => smoke.animation.height(),
                None => 0,
            };
            let raised: i128 = height as i128 - (body_height as i128 + smoke_height as i128);
            self.y = raised as i32;
        }
        self.viewport = Some((width, height));
    }

    /// Moves the train on by one tick. The positions after the tick
    /// have to be ones that `i32` can hold.
    pub fn step(&mut self)
        requires
            old(self)@.step().x >= i32::MIN,
            old(self)@.step().y >= i32::MIN,
        ensures
            final(self)@ == old(self)@.step(),
    {
        self.x = self.x - 1;
        self.train_animation.step();
        let ticks: i64 = -(self.x as i64);
        if self.flying && ticks % (FLYING_RATE as i64) == 0 {
            self.y = self.y - 1;
        }
        match &mut self.smoke {
            Some(smoke) => {
                smoke.animation.step();
            },
            None => {},
        }
    }

    /// Whether the train has crossed the viewport and left it. The
    /// viewport's size has to be known.
    pub fn complete(&self) -> (done: bool)
        requires
            self@.viewport is Some,
        ensures
            done == self@.complete(),
    {
        let body_width = self.train_animation.width();
        let smoke_width = match &self.smoke {
            Some(smoke) => smoke.animation.width(),
            None => 0,
        };
        let extent = if body_width >= smoke_width {
            body_width
        } else {
            smoke_width
        };
        let view_width = match self.viewport {
            Some((width, _)) => width,
            None => 0,
        };
        (self.x as i128) < -(view_width as i128 + extent as i128)
    }
    /// Lists what is to be drawn of the train and its smoke, clipped at
    /// the left edge of the viewport. The viewport's size has to be
    /// known.
    pub fn render(&self) -> (draws: Vec<Draw>)
        requires
            self@.viewport is Some,
        ensures
            draw_views(draws@) == self@.draws(),
    {
        let (view_width, view_height) = match self.viewport {
            Some(size) => size,
            None => (0, 0),
        };
        let body = self.train_animation.current_frame();
        let column: i128 = view_width as i128 + self.x as i128;
        let row: i128 = (view_height / 2) as i128 - (body.height() / 2) as i128 + self.y as i128;
        let mut draws: Vec<Draw> = Vec::new();
        match &self.smoke {
            Some(smoke) => {
                push_lines(
                    &mut draws,
                    &smoke.animation.current_frame().text,
                    column + smoke.offset as i128,
                    row - smoke.animation.height() as i128,
                );
            },
            None => {},
        }
        push_lines(&mut draws, &body.text, column, row);
        draws
    }
}

/// A train that could be made is valid, stands at the origin and does
/// not know its viewport yet.
pub proof fn lemma_train_state_of_valid(definition: TrainDefinitionView, flying: bool)
    ensures
        train_state_of(definition, flying) matches Ok(state) ==> {
            &&& state.valid()
            &&& state.x == 0
            &&& state.y == 0
            &&& state.flying == flying
            &&& state.viewport is None
        },
{
    lemma_animation_of_valid(definition.train_animation_speed, definition.train);
    if definition.smoke is Some {
        lemma_animation_of_valid(
            definition.smoke_animation_speed.unwrap_or(1),
            definition.smoke.unwrap(),
        );
    }
}

/// A tick moves a valid train one cell to the left. It keeps the train
/// valid and changes neither the viewport nor the widths and heights
/// of train and smoke.
pub proof fn lemma_step_moves_left(s: TrainStateView)
    requires
        s.valid(),
    ensures
        s.step().valid(),
        s.step().x == s.x - 1,
        s.step().viewport == s.viewport,
        s.step().flying == s.flying,
        s.step().extent() == s.extent(),
        s.step().body.height() == s.body.height(),
        s.step().smoke_height() == s.smoke_height(),
{
    lemma_step_keeps_valid(s.body);
    if s.smoke is Some {
        lemma_step_keeps_valid(s.smoke.unwrap().animation);
    }
}

/// `n` ticks move a valid train `n` cells to the left. They keep the
/// train valid and change neither the viewport nor the widths and
/// heights of train and smoke.
pub proof fn lemma_steps_move_left(s: TrainStateView, n: nat)
    requires
        s.valid(),
    ensures
        s.steps(n).valid(),
        s.steps(n).x == s.x - n,
        s.steps(n).viewport == s.viewport,
        s.steps(n).flying == s.flying,
        s.steps(n).extent() == s.extent(),
        s.steps(n).body.height() == s.body.height(),
        s.steps(n).smoke_height() == s.smoke_height(),
    decreases n,
{
    if n > 0 {
        lemma_steps_move_left(s, (n - 1) as nat);
        lemma_step_moves_left(s.steps((n - 1) as nat));
    }
}

/// After `n` ticks a train is complete if and only if its position
/// then, plus the larger of the widths of train and smoke, is left of
/// the viewport by more than the viewport's width.
pub proof fn lemma_complete_after_steps(s: TrainStateView, n: nat)
    requires
        s.valid(),
        s.viewport is Some,
    ensures
        s.steps(n).complete() <==> (s.x - n) + s.extent() < -(s.viewport.unwrap().0 as int),
{
    lemma_steps_move_left(s, n);
}

/// A train that is not complete stays so for as many ticks as it has
/// cells to go, and is complete from the very next tick on: there is
/// one first tick at which it is complete.
pub proof fn lemma_first_complete_tick(s: TrainStateView)
    requires
        s.valid(),
        s.viewport is Some,
        !s.complete(),
    ensures
        ({
            let to_go = s.x + s.viewport.unwrap().0 + s.extent();
            &&& to_go >= 0
            &&& forall|n: nat| n <= to_go ==> !(#[trigger] s.steps(n)).complete()
            &&& forall|n: nat| n > to_go ==> (#[trigger] s.steps(n)).complete()
        }),
{
    assert forall|n: nat| true implies ((#[trigger] s.steps(n)).complete() <==> (s.x - n)
        + s.extent() < -(s.viewport.unwrap().0 as int)) by {
        lemma_complete_after_steps(s, n);
    }
}

/// Learning the viewport's size keeps a valid train valid and does not
/// move it sideways.
pub proof fn lemma_with_viewport_keeps_valid(s: TrainStateView, width: nat, height: nat)
    requires
        s.valid(),
    ensures
        s.with_viewport(width, height).valid(),
        s.with_viewport(width, height).x == s.x,
        s.with_viewport(width, height).extent() == s.extent(),
{
}

/// A flying train climbs by one cell whenever the number of its ticks
/// reaches a multiple of `FLYING_RATE`; a train that does not fly keeps
/// its height.
pub proof fn lemma_steps_climb(s: TrainStateView, n: nat)
    requires
        s.valid(),
    ensures
        s.steps(n).y == if s.flying {
            s.y - ((s.ticks() + n) / (FLYING_RATE as int) - s.ticks() / (FLYING_RATE as int))
        } else {
            s.y
        },
    decreases n,
{
    if n > 0 {
        let before = (n - 1) as nat;
        lemma_steps_climb(s, before);
        lemma_steps_move_left(s, before);
    }
}

/// Of a train that is complete nothing is left to draw, and neither of
/// its smoke where that rises right from the train's left end. (Smoke
/// that is drawn further right leaves the viewport that much later.)
pub proof fn lemma_complete_train_is_out_of_sight(s: TrainStateView)
    requires
        s.valid(),
        s.viewport is Some,
        s.complete(),
    ensures
        draw_lines(s.body.current(), s.origin_column(), s.origin_row()) == Seq::<DrawView>::empty(),
        s.smoke is None ==> s.draws() == Seq::<DrawView>::empty(),
        s.smoke matches Some(smoke) ==> smoke.offset == 0 ==> s.draws() == Seq::<DrawView>::empty(),
{
    let body = s.body.current();
    lemma_bounding_box_is_maximum(s.body);
    lemma_widest_is_maximum(body);
    lemma_lines_out_of_sight(body, s.origin_column(), s.origin_row());
    if s.smoke is Some {
        let smoke = s.smoke.unwrap();
        if smoke.offset == 0 {
            let puff = smoke.animation.current();
            lemma_bounding_box_is_maximum(smoke.animation);
            lemma_widest_is_maximum(puff);
            lemma_lines_out_of_sight(
                puff,
                s.origin_column() + smoke.offset,
                s.origin_row() - smoke.animation.height(),
            );
        }
    }
}

} // verus!
