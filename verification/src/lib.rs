//! An ASCII-art train that steams across a terminal viewport.
//!
//! The crate holds the animation engine, the train's motion, the
//! clipping renderer and the built-in trains. Its functions carry
//! contracts that Verus proves. The one thing taken on trust is the
//! random number generator, of which the contracts say no more than
//! that a number drawn lies in the range asked for. Drawing itself is
//! left to the caller, who receives plain draw instructions.
//!
//! - `text`: splitting and joining of text
//! - `animation`: frames and animations
//! - `state`: the train on its way
//! - `render`: clipping at the left edge
//! - `trains`, `art`: train definitions and the built-in trains
//! - `select`: choosing a train
//! - `error`: what can go wrong

pub mod animation;
pub mod art;
pub mod error;
pub mod render;
pub mod select;
pub mod state;
pub mod text;
pub mod trains;
