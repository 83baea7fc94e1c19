//! The invariants the strategies obey, proved once and for all over the spec
//! functions that the agents' contracts use.

use vstd::prelude::*;
use crate::ai::{action_matches, last_echo, living, updated_target};
use crate::game::{action_bot_id, Action, Bot, Event, RadarEchoEvent};
use crate::geometry::{in_field, Position};

verus! {

/// No radar echo occurs anywhere in `events`.
pub open spec fn no_echo(events: Seq<Event>) -> bool {
    forall|i: int| 0 <= i < events.len() ==> !(#[trigger] events[i] is RadarEchoEvent)
}

/// Every radar echo in `events` reports a position on the field.
pub open spec fn echoes_in_field(events: Seq<Event>, radius: int) -> bool {
    forall|i: int| 0 <= i < events.len() ==> match #[trigger] events[i] {
        Event::RadarEchoEvent(e) => in_field(e.pos, radius),
        _ => true,
    }
}

/// No two bots of the roster share an id.
pub open spec fn distinct_ids(bots: Seq<Bot>) -> bool {
    forall|i: int, j: int| 0 <= i < j < bots.len() ==> (#[trigger] bots[i]).bot_id != (#[trigger] bots[j]).bot_id
}

/// A turn scans for an echo exactly when one was delivered: the scan comes
/// up empty if and only if no event of the turn is a radar echo.
pub proof fn lemma_last_echo_none(events: Seq<Event>)
    ensures
        last_echo(events) is None <==> no_echo(events),
    decreases events.len(),
{
    if events.len() == 0 {
    } else {
        let pre = events.drop_last();
        lemma_last_echo_none(pre);
        match events.last() {
            Event::RadarEchoEvent(e) => {
                assert(events[events.len() - 1] is RadarEchoEvent);
            },
            _ => {
                if no_echo(pre) {
                    assert forall|i: int| 0 <= i < events.len() implies !(#[trigger] events[i] is RadarEchoEvent) by {
                        if i < events.len() - 1 {
                            assert(events[i] == pre[i]);
                        }
                    }
                } else {
                    let i = choose|i: int| 0 <= i < pre.len() && pre[i] is RadarEchoEvent;
                    assert(events[i] is RadarEchoEvent);
                }
            },
        }
    }
}

/// Memory is monotone upward: once a target is remembered, a turn can only
/// replace it, never erase it.
pub proof fn lemma_memory_persists(p: Position, events: Seq<Event>)
    ensures
        updated_target(Some(p), events) is Some,
{
}

/// Memory stays empty exactly as long as no echo has been observed: a turn
/// leaves an empty memory empty if and only if it delivered no echo.
pub proof fn lemma_memory_none_until_echo(events: Seq<Event>)
    ensures
        updated_target(None, events) is None <==> no_echo(events),
{
    lemma_last_echo_none(events);
}

/// The target remembered after a whole sequence of turns, each turn updating
/// the memory from its own events as `respond` does.
pub open spec fn target_after_turns(target: Option<Position>, turns: Seq<Seq<Event>>) -> Option<Position>
    decreases turns.len(),
{
    if turns.len() == 0 {
        target
    } else {
        updated_target(target_after_turns(target, turns.drop_last()), turns.last())
    }
}

/// Memory monotonicity, upward, across turns: once a target is remembered it
/// stays remembered through any sequence of turns.
pub proof fn lemma_memory_persists_over_turns(p: Position, turns: Seq<Seq<Event>>)
    ensures
        target_after_turns(Some(p), turns) is Some,
    decreases turns.len(),
{
    if turns.len() > 0 {
        lemma_memory_persists_over_turns(p, turns.drop_last());
    }
}

/// Memory monotonicity, downward, across turns: starting empty, the memory
/// is still empty after a sequence of turns if and only if no turn delivered
/// a radar echo.
pub proof fn lemma_memory_empty_over_turns(turns: Seq<Seq<Event>>)
    ensures
        target_after_turns(None, turns) is None <==> (forall|i: int| 0 <= i < turns.len()
            ==> no_echo(#[trigger] turns[i])),
    decreases turns.len(),
{
    if turns.len() == 0 {
    } else {
        let pre = turns.drop_last();
        lemma_memory_empty_over_turns(pre);
        lemma_last_echo_none(turns.last());
        if target_after_turns(None, turns) is None {
            assert forall|i: int| 0 <= i < turns.len() implies no_echo(#[trigger] turns[i]) by {
                if i < turns.len() - 1 {
                    assert(turns[i] == pre[i]);
                }
            }
        } else {
            if target_after_turns(None, pre) is Some {
                let i = choose|i: int| 0 <= i < pre.len() && !no_echo(pre[i]);
                assert(turns[i] == pre[i]);
            } else {
                assert(!no_echo(turns.last()));
                assert(turns[turns.len() - 1] == turns.last());
            }
        }
    }
}

proof fn lemma_last_echo_at(events: Seq<Event>, k: int, p: Position)
    requires
        0 <= k < events.len(),
        events[k] == Event::RadarEchoEvent(RadarEchoEvent { pos: p }),
        forall|j: int| k < j < events.len() ==> !(#[trigger] events[j] is RadarEchoEvent),
    ensures
        last_echo(events) == Some(p),
    decreases events.len(),
{
    if k == events.len() - 1 {
    } else {
        let pre = events.drop_last();
        assert(pre[k] == events[k]);
        assert forall|j: int| k < j < pre.len() implies !(#[trigger] pre[j] is RadarEchoEvent) by {
            assert(pre[j] == events[j]);
        }
        lemma_last_echo_at(pre, k, p);
        assert(!(events[events.len() - 1] is RadarEchoEvent));
    }
}

/// The last echo wins: if the turn's events hold a radar echo at position
/// `p` and none after it, the remembered target after the turn is `p`,
/// whatever was remembered before.
pub proof fn lemma_last_echo_wins(target: Option<Position>, events: Seq<Event>, k: int, p: Position)
    requires
        0 <= k < events.len(),
        events[k] == Event::RadarEchoEvent(RadarEchoEvent { pos: p }),
        forall|j: int| k < j < events.len() ==> !(#[trigger] events[j] is RadarEchoEvent),
    ensures
        updated_target(target, events) == Some(p),
{
    lemma_last_echo_at(events, k, p);
}

proof fn lemma_living_props(bots: Seq<Bot>)
    ensures
        forall|t: int| 0 <= t < living(bots).len() ==> (#[trigger] living(bots)[t]).alive
            && bots.contains(living(bots)[t]),
    decreases bots.len(),
{
    if bots.len() == 0 {
    } else {
        let pre = bots.drop_last();
        lemma_living_props(pre);
        let l = living(bots);
        assert forall|t: int| 0 <= t < l.len() implies (#[trigger] l[t]).alive && bots.contains(l[t]) by {
            if t < living(pre).len() {
                assert(l[t] == living(pre)[t]);
                let k = choose|k: int| 0 <= k < pre.len() && pre[k] == living(pre)[t];
                assert(bots[k] == l[t]);
                assert(bots.contains(l[t]));
            } else {
                assert(l[t] == bots.last());
                assert(bots[bots.len() - 1] == l[t]);
                assert(bots.contains(l[t]));
            }
        }
    }
}

/// Every living bot of the roster stands somewhere in the living
/// subsequence.
proof fn lemma_living_complete(bots: Seq<Bot>)
    ensures
        forall|k: int| 0 <= k < bots.len() && (#[trigger] bots[k]).alive ==> living(bots).contains(bots[k]),
    decreases bots.len(),
{
    if bots.len() == 0 {
    } else {
        let pre = bots.drop_last();
        lemma_living_complete(pre);
        let l = living(bots);
        assert forall|k: int| 0 <= k < bots.len() && (#[trigger] bots[k]).alive implies l.contains(bots[k]) by {
            if k < bots.len() - 1 {
                assert(pre[k] == bots[k]);
                assert(living(pre).contains(pre[k]));
                let t = choose|t: int| 0 <= t < living(pre).len() && living(pre)[t] == pre[k];
                assert(l[t] == bots[k]);
                assert(l.contains(bots[k]));
            } else {
                assert(l[l.len() - 1] == bots[k]);
                assert(l.contains(bots[k]));
            }
        }
    }
}

proof fn lemma_living_distinct(bots: Seq<Bot>)
    requires
        distinct_ids(bots),
    ensures
        distinct_ids(living(bots)),
    decreases bots.len(),
{
    if bots.len() == 0 {
    } else {
        let pre = bots.drop_last();
        assert forall|i: int, j: int| 0 <= i < j < pre.len() implies (#[trigger] pre[i]).bot_id != (#[trigger] pre[j]).bot_id by {
            assert(pre[i] == bots[i]);
            assert(pre[j] == bots[j]);
        }
        lemma_living_distinct(pre);
        lemma_living_props(pre);
        let l = living(bots);
        if bots.last().alive {
            assert(l == living(pre).push(bots.last()));
            assert forall|i: int, j: int| 0 <= i < j < l.len() implies (#[trigger] l[i]).bot_id != (#[trigger] l[j]).bot_id by {
                if j < living(pre).len() {
                    assert(l[i] == living(pre)[i]);
                    assert(l[j] == living(pre)[j]);
                } else {
                    assert(l[j] == bots.last());
                    assert(l[i] == living(pre)[i]);
                    let k = choose|k: int| 0 <= k < pre.len() && pre[k] == living(pre)[i];
                    assert(bots[k] == l[i]);
                    assert(bots[k].bot_id != bots[bots.len() - 1].bot_id);
                }
            }
        }
    }
}

/// `a` is issued for a bot of the roster that is alive.
pub open spec fn serves_living_bot(bots: Seq<Bot>, a: Action) -> bool {
    exists|k: int| 0 <= k < bots.len() && (#[trigger] bots[k]).alive
        && bots[k].bot_id == action_bot_id(a)
}

/// Some action of the list is issued for the bot with id `id`.
pub open spec fn id_served(actions: Seq<Action>, id: u32) -> bool {
    exists|t: int| 0 <= t < actions.len() && action_bot_id(#[trigger] actions[t]) == id
}

/// Bot coverage: when the roster's ids are distinct and the actions obey the
/// random strategy's per-bot contract, each action carries the id of a
/// living owned bot, no id is used twice, and every living bot is served.
pub proof fn lemma_bot_coverage(bots: Seq<Bot>, target: Option<Position>, radius: int, actions: Seq<Action>)
    requires
        distinct_ids(bots),
        actions.len() == living(bots).len(),
        forall|t: int| 0 <= t < actions.len() ==> action_matches(
            #[trigger] actions[t],
            living(bots)[t],
            target,
            radius,
        ),
    ensures
        forall|t: int| 0 <= t < actions.len() ==> serves_living_bot(bots, #[trigger] actions[t]),
        forall|i: int, j: int| 0 <= i < j < actions.len()
            ==> action_bot_id(#[trigger] actions[i]) != action_bot_id(#[trigger] actions[j]),
        forall|k: int| 0 <= k < bots.len() && (#[trigger] bots[k]).alive
            ==> id_served(actions, bots[k].bot_id),
{
    lemma_living_props(bots);
    lemma_living_distinct(bots);
    lemma_living_complete(bots);
    let l = living(bots);
    assert forall|t: int| 0 <= t < actions.len() implies action_bot_id(#[trigger] actions[t]) == l[t].bot_id by {
        assert(action_matches(actions[t], l[t], target, radius));
    }
    assert forall|t: int| 0 <= t < actions.len() implies serves_living_bot(bots, #[trigger] actions[t]) by {
        assert(bots.contains(l[t]));
        let k = choose|k: int| 0 <= k < bots.len() && bots[k] == l[t];
        assert(bots[k].alive && bots[k].bot_id == action_bot_id(actions[t]));
    }
    assert forall|k: int| 0 <= k < bots.len() && (#[trigger] bots[k]).alive implies id_served(
        actions,
        bots[k].bot_id,
    ) by {
        assert(l.contains(bots[k]));
        let t = choose|t: int| 0 <= t < l.len() && l[t] == bots[k];
        assert(action_bot_id(actions[t]) == bots[k].bot_id);
    }
}

proof fn lemma_last_echo_in_field(events: Seq<Event>, radius: int)
    requires
        echoes_in_field(events, radius),
    ensures
        last_echo(events) matches Some(p) ==> in_field(p, radius),
    decreases events.len(),
{
    if events.len() == 0 {
    } else {
        let pre = events.drop_last();
        assert forall|i: int| 0 <= i < pre.len() implies match #[trigger] pre[i] {
            Event::RadarEchoEvent(e) => in_field(e.pos, radius),
            _ => true,
        } by {
            assert(pre[i] == events[i]);
        }
        lemma_last_echo_in_field(pre, radius);
        assert(events[events.len() - 1] == events.last());
    }
}

/// Target bounds for the remembered position: when the remembered target
/// (if any) lies on the field and every echo of the turn does too, the
/// target remembered after the turn also lies on the field.
pub proof fn lemma_target_in_field(target: Option<Position>, events: Seq<Event>, radius: int)
    requires
        target matches Some(p) ==> in_field(p, radius),
        echoes_in_field(events, radius),
    ensures
        updated_target(target, events) matches Some(p) ==> in_field(p, radius),
{
    lemma_last_echo_in_field(events, radius);
}

/// Target bounds for a whole turn of the random strategy: under the same
/// premises, every cannon and radar action it emits aims at the field.
pub proof fn lemma_action_target_bounds(
    bots: Seq<Bot>,
    target: Option<Position>,
    events: Seq<Event>,
    radius: int,
    actions: Seq<Action>,
)
    requires
        target matches Some(p) ==> in_field(p, radius),
        echoes_in_field(events, radius),
        actions.len() == living(bots).len(),
        forall|t: int| 0 <= t < actions.len() ==> action_matches(
            #[trigger] actions[t],
            living(bots)[t],
            updated_target(target, events),
            radius,
        ),
    ensures
        forall|t: int| 0 <= t < actions.len() ==> match #[trigger] actions[t] {
            Action::CannonAction(c) => in_field(c.pos, radius),
            Action::RadarAction(ra) => in_field(ra.pos, radius),
            Action::MoveAction(_) => true,
        },
{
    lemma_target_in_field(target, events, radius);
    assert forall|t: int| 0 <= t < actions.len() implies match #[trigger] actions[t] {
        Action::CannonAction(c) => in_field(c.pos, radius),
        Action::RadarAction(ra) => in_field(ra.pos, radius),
        Action::MoveAction(_) => true,
    } by {
        assert(action_matches(actions[t], living(bots)[t], updated_target(target, events), radius));
    }
}

} // verus!
