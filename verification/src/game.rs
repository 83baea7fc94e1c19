//! The data the host exchanges with an agent: match configuration, rosters,
//! perception events, and the action algebra.

use vstd::prelude::*;
use crate::geometry::Position;

verus! {

/// Match-wide constants the decision core consumes: the movement radius per
/// turn and the inclusive coordinate bound of the field.
#[derive(Clone, Copy, PartialEq, Eq, Structural, Debug)]
pub struct GameConfig {
    pub move_: i32,
    pub field_radius: i32,
}

/// One controllable unit. The core reads only the id, the position and the
/// liveness flag.
#[derive(Clone, Copy, PartialEq, Eq, Structural, Debug)]
pub struct Bot {
    pub bot_id: u32,
    pub pos: Position,
    pub alive: bool,
}

/// The owning team: its identity and its bot roster.
#[derive(Debug)]
pub struct Team {
    pub team_id: u32,
    pub bots: Vec<Bot>,
}

/// An opposing team as the agent sees it: identity only, no positions, no
/// hit points.
#[derive(Clone, Copy, PartialEq, Eq, Structural, Debug)]
pub struct TeamNoPosNoHp {
    pub team_id: u32,
}

/// A radar ping return revealing a position.
#[derive(Clone, Copy, PartialEq, Eq, Structural, Debug)]
pub struct RadarEchoEvent {
    pub pos: Position,
}

/// One observation delivered to the agent. The decision core reacts to
/// `RadarEchoEvent` and ignores every other variant.
#[derive(Clone, Copy, PartialEq, Eq, Structural, Debug)]
pub enum Event {
    RadarEchoEvent(RadarEchoEvent),
    HitEvent { source: u32, bot_id: u32 },
    DieEvent { bot_id: u32 },
    SeeEvent { source: u32, bot_id: u32, pos: Position },
    DetectedEvent { bot_id: u32 },
    DamagedEvent { bot_id: u32, damage: u32 },
    MoveEvent { bot_id: u32, pos: Position },
    NoActionEvent { bot_id: u32 },
    EndEvent,
}

/// Relocate a bot to a target within its movement radius.
#[derive(Clone, Copy, PartialEq, Eq, Structural, Debug)]
pub struct MoveAction {
    pub bot_id: u32,
    pub pos: Position,
}

/// Scan for opponents around a target position.
#[derive(Clone, Copy, PartialEq, Eq, Structural, Debug)]
pub struct RadarAction {
    pub bot_id: u32,
    pub pos: Position,
}

/// Fire at a target position.
#[derive(Clone, Copy, PartialEq, Eq, Structural, Debug)]
pub struct CannonAction {
    pub bot_id: u32,
    pub pos: Position,
}

/// One order for one bot, emitted by an agent for the current turn.
#[derive(Clone, Copy, PartialEq, Eq, Structural, Debug)]
pub enum Action {
    CannonAction(CannonAction),
    MoveAction(MoveAction),
    RadarAction(RadarAction),
}

/// The id of the bot an action is issued for, whatever its kind.
pub open spec fn action_bot_id(a: Action) -> u32 {
    match a {
        Action::CannonAction(c) => c.bot_id,
        Action::MoveAction(m) => m.bot_id,
        Action::RadarAction(r) => r.bot_id,
    }
}

} // verus!
