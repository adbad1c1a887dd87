pub mod ghost;
pub mod maze;
pub mod player;
