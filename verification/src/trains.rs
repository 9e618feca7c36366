//! Train definitions: what a train looks like and how fast it moves.
//!
//! A definition is taken as it comes, from the built-in trains or from a
//! user's file. Nothing in it is checked until a `TrainState` is made of
//! it.
//!
//! The built-in trains are:
//!
//! - a simple, standard train
//! - a LOGO train
//! - a C51 engine
//!
//! and the standard train after an accident.

use vstd::prelude::*;
use vstd::string::StringExecFns;
use crate::animation::{frame_break, line_break, lines_of};
use crate::art::{
    C51_TRAIN_TOP, C51_TRAIN_WHEELS, DEFAULT_SMOKE, DEFAULT_TRAIN_CAR, DEFAULT_TRAIN_TOP,
    DEFAULT_TRAIN_WHEELS, LOGO_CARS, LOGO_TRAIN_TOP, LOGO_TRAIN_WHEELS,
};
use crate::text::{
    join, join_text, slice_views, split_text, to_strings, views, zip_concat, zip_lines,
};

verus! {

/// The definition of a train.
#[derive(Debug, PartialEq, Eq)]
pub struct TrainDefinition {
    /// The frames of the train itself, as the text of an animation.
    pub train: String,
    /// The speed of the train's animation.
    pub train_animation_speed: usize,
    /// The frames of the smoke, as the text of an animation.
    pub smoke: Option<String>,
    /// How far to the right of the train's left end the smoke is drawn.
    pub smoke_offset: Option<usize>,
    /// The speed of the smoke's animation.
    pub smoke_animation_speed: Option<usize>,
}

/// A train definition as a mathematical value.
pub struct TrainDefinitionView {
    pub train: Seq<char>,
    pub train_animation_speed: usize,
    pub smoke: Option<Seq<char>>,
    pub smoke_offset: Option<usize>,
    pub smoke_animation_speed: Option<usize>,
}

impl View for TrainDefinition {
    type V = TrainDefinitionView;

    open spec fn view(&self) -> TrainDefinitionView {
        TrainDefinitionView {
            train: self.train@,
            train_animation_speed: self.train_animation_speed,
            smoke: match self.smoke {
                Some(text) => Some(text@),
                None => None,
            },
            smoke_offset: self.smoke_offset,
            smoke_animation_speed: self.smoke_animation_speed,
        }
    }
}

impl TrainDefinition {
    /// The definition of a train that was read from a user's file: the
    /// contents are the train's frames, shown at speed 1, and there is no
    /// smoke.
    pub fn from_contents(contents: String) -> (definition: TrainDefinition)
        ensures
            definition@ == (TrainDefinitionView {
                train: contents@,
                train_animation_speed: 1,
                smoke: None,
                smoke_offset: None,
                smoke_animation_speed: None,
            }),
    {
        TrainDefinition {
            train: contents,
            train_animation_speed: 1,
            smoke: None,
            smoke_offset: None,
            smoke_animation_speed: None,
        }
    }
}

/// How far right of the default train's left end its smoke rises.
pub const DEFAULT_TRAIN_SMOKESTACK_OFFSET: usize = 5;

/// The speed of the default train's animation.
pub const DEFAULT_TRAIN_ANIMATION_SPEED: usize = 1;

/// The speed of the smoke's animation, for every built-in train.
pub const DEFAULT_TRAIN_SMOKE_SPEED: usize = 5;

/// How far right of the LOGO train's left end its smoke rises.
pub const LOGO_TRAIN_SMOKESTACK_OFFSET: usize = 3;

/// The speed of the LOGO train's animation.
pub const LOGO_TRAIN_ANIMATION_SPEED: usize = 1;

/// How far right of the C51 engine's left end its smoke rises.
pub const C51_TRAIN_SMOKESTACK_OFFSET: usize = 7;

/// The speed of the C51 engine's animation.
pub const C51_TRAIN_ANIMATION_SPEED: usize = 1;

/// An engine with its car behind it: line by line, the car's line is
/// appended to the engine's. Lines that only one of them has are left
/// out.
pub open spec fn coupled(engine: Seq<char>, car: Seq<char>) -> Seq<char> {
    join(zip_concat(lines_of(engine), lines_of(car)), line_break())
}

/// The frames of a composite train: one for each position of the
/// wheels, made of the engine's top, the wheels below it and the car
/// behind both.
pub open spec fn composite_frames(
    engine_top: Seq<char>,
    engine_wheels: Seq<Seq<char>>,
    car: Seq<char>,
) -> Seq<Seq<char>> {
    engine_wheels.map_values(|wheels: Seq<char>| coupled(engine_top + wheels, car))
}

/// The definition of a composite train: its frames and the frames of
/// its smoke, each list joined into the text of an animation.
pub open spec fn composite_train(
    engine_top: Seq<char>,
    engine_wheels: Seq<Seq<char>>,
    car: Seq<char>,
    smoke: Seq<Seq<char>>,
    train_animation_speed: usize,
    smoke_animation_speed: usize,
    smoke_offset: usize,
) -> TrainDefinitionView {
    TrainDefinitionView {
        train: join(composite_frames(engine_top, engine_wheels, car), frame_break()),
        train_animation_speed,
        smoke: Some(join(smoke, frame_break())),
        smoke_offset: Some(smoke_offset),
        smoke_animation_speed: Some(smoke_animation_speed),
    }
}

/// The simple, default train.
pub open spec fn default_train_view() -> TrainDefinitionView {
    composite_train(
        DEFAULT_TRAIN_TOP@,
        slice_views(DEFAULT_TRAIN_WHEELS@),
        DEFAULT_TRAIN_CAR@,
        slice_views(DEFAULT_SMOKE@),
        DEFAULT_TRAIN_ANIMATION_SPEED,
        DEFAULT_TRAIN_SMOKE_SPEED,
        DEFAULT_TRAIN_SMOKESTACK_OFFSET,
    )
}

/// The LOGO train.
pub open spec fn logo_train_view() -> TrainDefinitionView {
    composite_train(
        LOGO_TRAIN_TOP@,
        slice_views(LOGO_TRAIN_WHEELS@),
        LOGO_CARS@,
        slice_views(DEFAULT_SMOKE@),
        LOGO_TRAIN_ANIMATION_SPEED,
        DEFAULT_TRAIN_SMOKE_SPEED,
        LOGO_TRAIN_SMOKESTACK_OFFSET,
    )
}

/// The C51 engine. It is one line taller than the default engine, so
/// the default car behind it starts one line further down.
pub open spec fn c51_train_view() -> TrainDefinitionView {
    composite_train(
        C51_TRAIN_TOP@,
        slice_views(C51_TRAIN_WHEELS@),
        line_break() + DEFAULT_TRAIN_CAR@,
        slice_views(DEFAULT_SMOKE@),
        C51_TRAIN_ANIMATION_SPEED,
        DEFAULT_TRAIN_SMOKE_SPEED,
        C51_TRAIN_SMOKESTACK_OFFSET,
    )
}

/// The views of a list of train definitions.
pub open spec fn definition_views(definitions: Seq<TrainDefinition>) -> Seq<TrainDefinitionView> {
    definitions.map_values(|definition: TrainDefinition| definition@)
}

/// Puts a train together from the parts of its picture.
///
/// * `engine_top` - the engine above its wheels; ends with a newline
/// * `engine_wheels` - the wheels, once for each frame
/// * `car` - what the engine pulls, drawn to the right of it
/// * `smoke` - the frames of the smoke
pub fn build_composite_train(
    engine_top: &str,
    engine_wheels: &[&str],
    car: &str,
    smoke: &[&str],
    train_animation_speed: usize,
    smoke_animation_speed: usize,
    smoke_offset: usize,
) -> (definition: TrainDefinition)
    ensures
        definition@ == composite_train(
            engine_top@,
            slice_views(engine_wheels@),
            car@,
            slice_views(smoke@),
            train_animation_speed,
            smoke_animation_speed,
            smoke_offset,
        ),
{
    proof {
        reveal_strlit("\n");
        reveal_strlit("\n\n\n");
        assert("\n"@ =~= line_break());
        assert("\n\n\n"@ =~= frame_break());
    }
    let car_lines = split_text(car, "\n");
    let mut frames: Vec<String> = Vec::new();
    let mut i: usize = 0;
    while i < engine_wheels.len()
        invariant
            i <= engine_wheels.len(),
            "\n"@ == line_break(),
            views(car_lines@) == lines_of(car@),
            frames@.len() == i,
            forall|k: int|
                0 <= k < i ==> (#[trigger] frames@[k])@ == coupled(
                    engine_top@ + engine_wheels@[k]@,
                    car@,
                ),
        decreases engine_wheels.len() - i,
    {
        // Attach the wheels to the engine, then the car to both.
        let mut engine = String::from_str(engine_top);
        engine.append(engine_wheels[i]);
        let engine_lines = split_text(engine.as_str(), "\n");
        let rows = zip_lines(&engine_lines, &car_lines);
        frames.push(join_text(&rows, "\n"));
        i += 1;
    }
    assert(views(frames@) =~= composite_frames(engine_top@, slice_views(engine_wheels@), car@));
    let train = join_text(&frames, "\n\n\n");
    let smoke_frames = to_strings(smoke);
    let smoke_text = join_text(&smoke_frames, "\n\n\n");
    TrainDefinition {
        train,
        train_animation_speed,
        smoke: Some(smoke_text),
        smoke_offset: Some(smoke_offset),
        smoke_animation_speed: Some(smoke_animation_speed),
    }
}

/// A definition for a simple, default train.
pub fn default_train() -> (definition: TrainDefinition)
    ensures
        definition@ == default_train_view(),
{
    build_composite_train(
        DEFAULT_TRAIN_TOP,
        &DEFAULT_TRAIN_WHEELS,
        DEFAULT_TRAIN_CAR,
        &DEFAULT_SMOKE,
        DEFAULT_TRAIN_ANIMATION_SPEED,
        DEFAULT_TRAIN_SMOKE_SPEED,
        DEFAULT_TRAIN_SMOKESTACK_OFFSET,
    )
}

/// A definition for a LOGO train.
pub fn logo_train() -> (definition: TrainDefinition)
    ensures
        definition@ == logo_train_view(),
{
    build_composite_train(
        LOGO_TRAIN_TOP,
        &LOGO_TRAIN_WHEELS,
        LOGO_CARS,
        &DEFAULT_SMOKE,
        LOGO_TRAIN_ANIMATION_SPEED,
        DEFAULT_TRAIN_SMOKE_SPEED,
        LOGO_TRAIN_SMOKESTACK_OFFSET,
    )
}

/// A definition for a C51 train engine.
pub fn c51_train() -> (definition: TrainDefinition)
    ensures
        definition@ == c51_train_view(),
{
    proof {
        reveal_strlit("\n");
        assert("\n"@ =~= line_break());
    }
    // The C51 engine is one line taller than the default engine, so the
    // car needs an extra newline.
    let mut c51_train_car = String::from_str("\n");
    c51_train_car.append(DEFAULT_TRAIN_CAR);
    build_composite_train(
        C51_TRAIN_TOP,
        &C51_TRAIN_WHEELS,
        c51_train_car.as_str(),
        &DEFAULT_SMOKE,
        C51_TRAIN_ANIMATION_SPEED,
        DEFAULT_TRAIN_SMOKE_SPEED,
        C51_TRAIN_SMOKESTACK_OFFSET,
    )
}

/// A definition for a train having an accident: the default train with
/// its smoke, but with `wreck` as the frames of the train itself.
pub fn accident_train(wreck: &str) -> (definition: TrainDefinition)
    ensures
        definition@ == (TrainDefinitionView { train: wreck@, ..default_train_view() }),
{
    let mut def = default_train();
    def.train = String::from_str(wreck);
    def
}

/// All built-in trains, in the order of their numbers. The train
/// having an accident is none of them.
pub fn builtin_trains() -> (trains: Vec<TrainDefinition>)
    ensures
        definition_views(trains@) == seq![
            default_train_view(),
            logo_train_view(),
            c51_train_view(),
        ],
{
    let mut trains: Vec<TrainDefinition> = Vec::new();
    trains.push(default_train());
    trains.push(logo_train());
    trains.push(c51_train());
    trains
}

} // verus!
