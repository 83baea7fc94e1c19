//! The agent contract and the concrete strategies.
//!
//! An agent is installed once with the match configuration and the rosters,
//! then answers every turn's events with one action per living owned bot.

use vstd::prelude::*;
use vstd::string::StrSliceExecFns;
use crate::game::{Action, Bot, CannonAction, Event, GameConfig, MoveAction, RadarAction, Team, TeamNoPosNoHp};
use crate::geometry::{in_field, within_move, Position};
use crate::rng::{choose_position, gen_range_inclusive};

verus! {

/// The position of the last radar echo in `events`, scanning in delivery
/// order; `None` when no echo was delivered.
pub open spec fn last_echo(events: Seq<Event>) -> Option<Position>
    decreases events.len(),
{
    if events.len() == 0 {
        None
    } else {
        match events.last() {
            Event::RadarEchoEvent(e) => Some(e.pos),
            _ => last_echo(events.drop_last()),
        }
    }
}

/// The remembered target after one turn: the turn's last echo if there was
/// one, otherwise the target remembered before.
pub open spec fn updated_target(target: Option<Position>, events: Seq<Event>) -> Option<Position> {
    match last_echo(events) {
        Some(p) => Some(p),
        None => target,
    }
}

/// The living bots of a roster, in roster order.
pub open spec fn living(bots: Seq<Bot>) -> Seq<Bot>
    decreases bots.len(),
{
    if bots.len() == 0 {
        Seq::empty()
    } else {
        let pre = living(bots.drop_last());
        if bots.last().alive {
            pre.push(bots.last())
        } else {
            pre
        }
    }
}

/// What the random strategy owes one living bot: a cannon shot at the
/// remembered target when there is one, otherwise a radar scan somewhere on
/// the field.
pub open spec fn action_matches(a: Action, b: Bot, target: Option<Position>, field_radius: int) -> bool {
    match target {
        Some(p) => a == Action::CannonAction(CannonAction { bot_id: b.bot_id, pos: p }),
        None => match a {
            Action::RadarAction(ra) => ra.bot_id == b.bot_id && in_field(ra.pos, field_radius),
            _ => false,
        },
    }
}

/// The configuration bounds an agent needs to act without overflowing:
/// non-negative radii whose sum stays representable.
pub open spec fn config_wf(c: GameConfig) -> bool {
    &&& 0 <= c.move_
    &&& 0 <= c.field_radius
    &&& c.field_radius + c.move_ <= i32::MAX
}

/// Every bot of the roster stands on the field.
pub open spec fn team_in_field(c: GameConfig, t: Team) -> bool {
    forall|i: int| 0 <= i < t.bots@.len() ==> in_field(#[trigger] t.bots@[i].pos, c.field_radius as int)
}

/// What a host must hand to `set_state`: a non-negative movement radius, a
/// positive field radius small enough for the arithmetic, and a roster that
/// stands on the field.
pub open spec fn valid_install(config: GameConfig, you: Team) -> bool {
    &&& 0 <= config.move_
    &&& 1 <= config.field_radius
    &&& config.field_radius + config.move_ <= i32::MAX
    &&& team_in_field(config, you)
}

/// The contract every strategy implements: install the match view once, then
/// answer each turn's events with the turn's actions. Each implementation
/// pins down its own behavior through `respond_ens` and `set_state_ens`.
pub trait Ai: Sized {
    /// The state an agent keeps well-formed between calls.
    spec fn wf(&self) -> bool;

    /// How one `respond` call relates the agent before (`self`) and after
    /// (`post`) to the delivered events and the returned actions.
    spec fn respond_ens(&self, post: Self, events: Seq<Event>, actions: Seq<Action>) -> bool;

    /// How one `set_state` call relates the agent before (`self`) and after
    /// (`post`) to the installed snapshot.
    spec fn set_state_ens(&self, post: Self, config: GameConfig, you: Team, others: Seq<TeamNoPosNoHp>) -> bool;

    /// Consume the turn's events and return one action per living owned bot.
    fn respond(&mut self, events: Vec<Event>) -> (actions: Vec<Action>)
        requires
            old(self).wf(),
        ensures
            final(self).wf(),
            old(self).respond_ens(*final(self), events@, actions@),
    ;

    /// Replace the agent's view of the match.
    fn set_state(&mut self, config: GameConfig, you: Team, other_teams: Vec<TeamNoPosNoHp>)
        requires
            valid_install(config, you),
        ensures
            final(self).wf(),
            old(self).set_state_ens(*final(self), config, you, other_teams@),
    ;
}

/// The random strategy's one-slot memory: the most recent known echo.
#[derive(Debug)]
pub struct State {
    pub last_target: Option<Position>,
}

/// The opportunistic strategy: remember the last radar echo and have every
/// living bot shoot at it; with nothing remembered, scan at random.
#[derive(Debug)]
pub struct RandomAi {
    pub config: GameConfig,
    pub you: Team,
    pub other_teams: Vec<TeamNoPosNoHp>,
    pub current_state: State,
}

impl RandomAi {
    /// A freshly constructed agent: empty snapshot, nothing remembered.
    pub open spec fn is_fresh(&self) -> bool {
        &&& self.config == (GameConfig { move_: 0, field_radius: 0 })
        &&& self.you.bots@.len() == 0
        &&& self.other_teams@.len() == 0
        &&& self.current_state.last_target is None
    }
}

impl Default for RandomAi {
    /// A fresh agent; `respond` before `set_state` finds an empty roster and
    /// returns no actions.
    fn default() -> (r: Self)
        ensures
            r.is_fresh(),
            r.wf(),
            r.you.team_id == 0,
    {
        RandomAi {
            config: GameConfig { move_: 0, field_radius: 0 },
            you: Team { team_id: 0, bots: Vec::new() },
            other_teams: Vec::new(),
            current_state: State { last_target: None },
        }
    }
}

impl Ai for RandomAi {
    open spec fn wf(&self) -> bool {
        &&& config_wf(self.config)
        &&& team_in_field(self.config, self.you)
    }

    open spec fn respond_ens(&self, post: Self, events: Seq<Event>, actions: Seq<Action>) -> bool {
        let target = updated_target(self.current_state.last_target, events);
        &&& post.config == self.config
        &&& post.you == self.you
        &&& post.other_teams == self.other_teams
        &&& post.current_state.last_target == target
        &&& actions.len() == living(self.you.bots@).len()
        &&& forall|t: int| 0 <= t < actions.len() ==> action_matches(
                #[trigger] actions[t],
                living(self.you.bots@)[t],
                target,
                self.config.field_radius as int,
            )
    }

    open spec fn set_state_ens(&self, post: Self, config: GameConfig, you: Team, others: Seq<TeamNoPosNoHp>) -> bool {
        &&& post.config == config
        &&& post.you == you
        &&& post.other_teams@ == others
        &&& post.current_state.last_target == self.current_state.last_target
    }

    fn respond(&mut self, events: Vec<Event>) -> (actions: Vec<Action>) {
        let ghost pre = *self;
        let ghost evs = events@;

        let mut new_target: Option<Position> = None;
        let n: usize = events.len();
        let mut idx: usize = 0;
        while idx < n
            invariant
                n == evs.len(),
                events@ == evs,
                0 <= idx <= n,
                new_target == last_echo(evs.take(idx as int)),
            decreases n - idx,
        {
            match events[idx] {
                Event::RadarEchoEvent(e) => {
                    new_target = Some(e.pos);
                },
                _ => {},
            }
            proof {
                let q = evs.take(idx as int + 1);
                assert(q =~= evs.take(idx as int).push(evs[idx as int]));
                assert(q.drop_last() =~= evs.take(idx as int));
            }
            idx = idx + 1;
        }
        proof {
            assert(evs.take(n as int) =~= evs);
        }

        self.current_state.last_target = match new_target {
            Some(pos) => Some(pos),
            None => self.current_state.last_target,
        };
        let ghost target = self.current_state.last_target;
        let ghost mid = *self;

        let mut actions: Vec<Action> = Vec::new();
        let ghost bots = self.you.bots@;
        let mut bi: usize = 0;
        while bi < self.you.bots.len()
            invariant
                *self == mid,
                mid.config == pre.config,
                mid.you == pre.you,
                mid.other_teams == pre.other_teams,
                bots == mid.you.bots@,
                config_wf(mid.config),
                team_in_field(mid.config, mid.you),
                target == mid.current_state.last_target,
                0 <= bi <= bots.len(),
                actions@.len() == living(bots.take(bi as int)).len(),
                forall|t: int| 0 <= t < actions@.len() ==> action_matches(
                    #[trigger] actions@[t],
                    living(bots.take(bi as int))[t],
                    target,
                    mid.config.field_radius as int,
                ),
            decreases bots.len() - bi,
        {
            let bot = self.you.bots[bi];
            if bot.alive {
                let allowed_positions = bot.pos.positions_within(self.config.move_);
                // Drawn and deliberately ignored: the strategy samples the
                // movement neighborhood without acting on the draw.
                let _chosen = choose_position(&allowed_positions);

                let act = match self.current_state.last_target {
                    Some(pos) => Action::CannonAction(CannonAction { bot_id: bot.bot_id, pos }),
                    None => {
                        let fr: i32 = self.config.field_radius;
                        let x: i32 = gen_range_inclusive(-fr, fr);
                        let y: i32 = gen_range_inclusive(-fr, fr);
                        Action::RadarAction(RadarAction { bot_id: bot.bot_id, pos: Position { x, y } })
                    },
                };
                actions.push(act);
            }
            proof {
                let q = bots.take(bi as int + 1);
                assert(q =~= bots.take(bi as int).push(bots[bi as int]));
                assert(q.drop_last() =~= bots.take(bi as int));
            }
            bi = bi + 1;
        }
        proof {
            assert(bots.take(bots.len() as int) =~= bots);
        }
        actions
    }

    fn set_state(&mut self, config: GameConfig, you: Team, other_teams: Vec<TeamNoPosNoHp>) {
        self.config = config;
        self.you = you;
        self.other_teams = other_teams;
    }
}

/// The baseline strategy: wander the first bot of the roster, whatever its
/// state, and ignore every event.
#[derive(Debug)]
pub struct ScoutAi {
    pub config: GameConfig,
    pub you: Team,
    pub other_teams: Vec<TeamNoPosNoHp>,
}

impl ScoutAi {
    /// A freshly constructed agent: empty snapshot.
    pub open spec fn is_fresh(&self) -> bool {
        &&& self.config == (GameConfig { move_: 0, field_radius: 0 })
        &&& self.you.bots@.len() == 0
        &&& self.other_teams@.len() == 0
    }
}

impl Default for ScoutAi {
    /// A fresh agent; `respond` before `set_state` finds an empty roster and
    /// returns no actions.
    fn default() -> (r: Self)
        ensures
            r.is_fresh(),
            r.wf(),
            r.you.team_id == 0,
    {
        ScoutAi {
            config: GameConfig { move_: 0, field_radius: 0 },
            you: Team { team_id: 0, bots: Vec::new() },
            other_teams: Vec::new(),
        }
    }
}

impl Ai for ScoutAi {
    open spec fn wf(&self) -> bool {
        &&& config_wf(self.config)
        &&& team_in_field(self.config, self.you)
    }

    open spec fn respond_ens(&self, post: Self, events: Seq<Event>, actions: Seq<Action>) -> bool {
        &&& post.config == self.config
        &&& post.you == self.you
        &&& post.other_teams == self.other_teams
        &&& if self.you.bots@.len() == 0 {
                actions.len() == 0
            } else {
                &&& actions.len() == 1
                &&& match actions[0] {
                    Action::MoveAction(ma) => ma.bot_id == self.you.bots@[0].bot_id
                        && within_move(self.you.bots@[0].pos, self.config.move_ as int, ma.pos),
                    _ => false,
                }
            }
    }

    open spec fn set_state_ens(&self, post: Self, config: GameConfig, you: Team, others: Seq<TeamNoPosNoHp>) -> bool {
        &&& post.config == config
        &&& post.you == you
        &&& post.other_teams@ == others
    }

    fn respond(&mut self, events: Vec<Event>) -> (actions: Vec<Action>) {
        let mut actions: Vec<Action> = Vec::new();
        if self.you.bots.len() > 0 {
            // The first roster entry is targeted whether or not it is alive.
            let scout = self.you.bots[0];
            let allowed_positions = scout.pos.positions_within(self.config.move_);
            let chosen = choose_position(&allowed_positions);
            match chosen {
                Some(p) => {
                    proof {
                        let k = choose|k: int| 0 <= k < allowed_positions@.len() && allowed_positions@[k] == p;
                        assert(within_move(scout.pos, self.config.move_ as int, allowed_positions@[k]));
                    }
                    actions.push(Action::MoveAction(MoveAction { bot_id: scout.bot_id, pos: p }));
                },
                None => {
                    // The neighborhood is never empty, so nothing is owed here.
                },
            }
        }
        actions
    }

    fn set_state(&mut self, config: GameConfig, you: Team, other_teams: Vec<TeamNoPosNoHp>) {
        self.config = config;
        self.you = you;
        self.other_teams = other_teams;
    }
}

/// A strategy selected at run time: the closed set the factory chooses from.
#[derive(Debug)]
pub enum AnyAi {
    Random(RandomAi),
    Scout(ScoutAi),
}

impl Ai for AnyAi {
    open spec fn wf(&self) -> bool {
        match *self {
            AnyAi::Random(a) => a.wf(),
            AnyAi::Scout(a) => a.wf(),
        }
    }

    open spec fn respond_ens(&self, post: Self, events: Seq<Event>, actions: Seq<Action>) -> bool {
        match (*self, post) {
            (AnyAi::Random(a), AnyAi::Random(b)) => a.respond_ens(b, events, actions),
            (AnyAi::Scout(a), AnyAi::Scout(b)) => a.respond_ens(b, events, actions),
            _ => false,
        }
    }

    open spec fn set_state_ens(&self, post: Self, config: GameConfig, you: Team, others: Seq<TeamNoPosNoHp>) -> bool {
        match (*self, post) {
            (AnyAi::Random(a), AnyAi::Random(b)) => a.set_state_ens(b, config, you, others),
            (AnyAi::Scout(a), AnyAi::Scout(b)) => a.set_state_ens(b, config, you, others),
            _ => false,
        }
    }

    fn respond(&mut self, events: Vec<Event>) -> (actions: Vec<Action>) {
        match self {
            AnyAi::Random(a) => a.respond(events),
            AnyAi::Scout(a) => a.respond(events),
        }
    }

    fn set_state(&mut self, config: GameConfig, you: Team, other_teams: Vec<TeamNoPosNoHp>) {
        match self {
            AnyAi::Random(a) => a.set_state(config, you, other_teams),
            AnyAi::Scout(a) => a.set_state(config, you, other_teams),
        }
    }
}

/// The factory's failure: no strategy carries the requested name.
#[derive(Clone, Copy, PartialEq, Eq, Structural, Debug)]
pub enum AiError {
    UnknownStrategy,
}

/// Character-wise equality of two string slices.
fn str_eq(a: &str, b: &str) -> (r: bool)
    ensures
        r == (a@ == b@),
{
    let alen: usize = a.unicode_len();
    let blen: usize = b.unicode_len();
    if alen != blen {
        return false;
    }
    let mut i: usize = 0;
    while i < alen
        invariant
            alen == a@.len(),
            alen == b@.len(),
            0 <= i <= alen,
            forall|j: int| 0 <= j < i ==> a@[j] == b@[j],
        decreases alen - i,
    {
        let ca = a.get_char(i);
        let cb = b.get_char(i);
        if ca != cb {
            return false;
        }
        i = i + 1;
    }
    proof {
        assert(a@ =~= b@);
    }
    true
}

/// Select a freshly constructed strategy by name: `"random"` or `"scout"`;
/// any other name is refused with `UnknownStrategy`.
pub fn from_name(name: String) -> (r: Result<AnyAi, AiError>)
    ensures
        name@ == "random"@ ==> (r matches Ok(AnyAi::Random(a)) && a.is_fresh()),
        name@ == "scout"@ ==> (r matches Ok(AnyAi::Scout(a)) && a.is_fresh()),
        r is Ok <==> (name@ == "random"@ || name@ == "scout"@),
        r is Err ==> r == Result::<AnyAi, AiError>::Err(AiError::UnknownStrategy),
        r matches Ok(a) ==> a.wf(),
{
    proof {
        reveal_strlit("random");
        reveal_strlit("scout");
        assert("random"@.len() == 6);
        assert("scout"@.len() == 5);
        assert("random"@ != "scout"@);
    }
    if str_eq(name.as_str(), "random") {
        Ok(AnyAi::Random(RandomAi::default()))
    } else if str_eq(name.as_str(), "scout") {
        Ok(AnyAi::Scout(ScoutAi::default()))
    } else {
        Err(AiError::UnknownStrategy)
    }
}

} // verus!
