//! Time-pure simulation core of a batting mini-game: Bézier paths, the
//! pitching, batting and hit-ball state machines, over exact fixed-point
//! integers.
pub mod fixed;
pub mod bezier;
pub mod pitching;
pub mod frame;
pub mod hit_ball;
pub mod batting;
pub mod game_state;
pub mod scenes;
