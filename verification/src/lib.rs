use vstd::prelude::*;

pub mod app;
pub mod audio;
pub mod input;
pub mod pacman;
pub mod pong;
pub mod scores;
pub mod screens;
pub mod text;

verus! {

} // verus!
