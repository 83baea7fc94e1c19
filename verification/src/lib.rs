//! Decision core for a turn-based multi-bot combat game on a bounded field.
//!
//! Each turn an agent receives the perception events its team observed and
//! answers with one action per living bot it controls. This crate holds the
//! verified core: the geometry of lawful move targets, the action algebra,
//! the agent contract, two concrete strategies, and the factory that selects
//! a strategy by name. Randomness comes from the `rand` crate through a few
//! trusted wrappers; everything decided from the drawn values is verified.

pub mod ai;
pub mod game;
pub mod geometry;
pub mod laws;
mod rng;

pub use ai::Ai;
pub use ai::AiError;
pub use ai::AnyAi;
pub use ai::ScoutAi;
pub use ai::from_name;
pub use ai::RandomAi;
pub use ai::State;
pub use game::Action;
pub use game::Bot;
pub use game::CannonAction;
pub use game::Event;
pub use game::GameConfig;
pub use game::MoveAction;
pub use game::RadarAction;
pub use game::RadarEchoEvent;
pub use game::Team;
pub use game::TeamNoPosNoHp;
pub use geometry::Position;
