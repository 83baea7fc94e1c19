use tyckiting_ai::{
    from_name, Action, Ai, AiError, AnyAi, Bot, Event, GameConfig, Position, RadarEchoEvent,
    RandomAi, ScoutAi, Team, TeamNoPosNoHp,
};

fn bot(bot_id: u32, x: i32, y: i32, alive: bool) -> Bot {
    Bot {
        bot_id,
        pos: Position { x, y },
        alive,
    }
}

fn team(bots: Vec<Bot>) -> Team {
    Team { team_id: 1, bots }
}

fn config(move_: i32, field_radius: i32) -> GameConfig {
    GameConfig {
        move_,
        field_radius,
    }
}

fn echo(x: i32, y: i32) -> Event {
    Event::RadarEchoEvent(RadarEchoEvent {
        pos: Position { x, y },
    })
}

#[test]
fn test_from_name() {
    assert!(from_name("random".to_string()).is_ok());
}

#[test]
fn test_from_name_nonsense() {
    match from_name("not an actual ai".to_string()) {
        Err(e) => assert_eq!(e, AiError::UnknownStrategy),
        Ok(_) => panic!("expected an unknown-strategy error"),
    }
}

#[test]
fn test_from_name_scout() {
    match from_name("scout".to_string()) {
        Ok(AnyAi::Scout(_)) => {}
        other => panic!("expected a scout agent, got {:?}", other),
    }
}

#[test]
fn test_from_name_agent_is_usable() {
    let mut agent = from_name("random".to_string()).unwrap();
    agent.set_state(config(1, 14), team(vec![bot(3, 0, 0, true)]), Vec::new());
    let actions = agent.respond(vec![]);
    assert_eq!(actions.len(), 1);
}

#[test]
fn test_radar_when_no_memory() {
    let mut agent = RandomAi::default();
    agent.set_state(config(1, 14), team(vec![bot(5, 0, 0, true)]), Vec::new());
    let actions = agent.respond(vec![]);
    assert_eq!(actions.len(), 1);
    match actions[0] {
        Action::RadarAction(ref r) => {
            assert_eq!(r.bot_id, 5);
            assert!(-14 <= r.pos.x && r.pos.x <= 14);
            assert!(-14 <= r.pos.y && r.pos.y <= 14);
        }
        ref other => panic!("expected a radar action, got {:?}", other),
    }
}

#[test]
fn test_cannon_after_echo() {
    let mut agent = RandomAi::default();
    agent.set_state(config(1, 14), team(vec![bot(5, 0, 0, true)]), Vec::new());
    let actions = agent.respond(vec![echo(3, -2)]);
    assert_eq!(actions.len(), 1);
    match actions[0] {
        Action::CannonAction(ref c) => {
            assert_eq!(c.bot_id, 5);
            assert_eq!(c.pos, Position { x: 3, y: -2 });
        }
        ref other => panic!("expected a cannon action, got {:?}", other),
    }
}

#[test]
fn test_memory_persists_across_turns() {
    let mut agent = RandomAi::default();
    agent.set_state(
        config(1, 14),
        team(vec![bot(1, 0, 0, true), bot(2, 4, 4, true)]),
        Vec::new(),
    );
    agent.respond(vec![echo(3, -2)]);
    let actions = agent.respond(vec![]);
    assert_eq!(actions.len(), 2);
    let mut ids = Vec::new();
    for action in &actions {
        match action {
            Action::CannonAction(c) => {
                assert_eq!(c.pos, Position { x: 3, y: -2 });
                ids.push(c.bot_id);
            }
            other => panic!("expected a cannon action, got {:?}", other),
        }
    }
    ids.sort();
    assert_eq!(ids, vec![1, 2]);
    assert_eq!(agent.current_state.last_target, Some(Position { x: 3, y: -2 }));
}

#[test]
fn test_last_echo_wins() {
    let mut agent = RandomAi::default();
    agent.set_state(config(1, 14), team(vec![bot(9, 0, 0, true)]), Vec::new());
    let actions = agent.respond(vec![echo(1, 1), echo(2, 2), echo(3, 3)]);
    assert_eq!(actions.len(), 1);
    match actions[0] {
        Action::CannonAction(ref c) => assert_eq!(c.pos, Position { x: 3, y: 3 }),
        ref other => panic!("expected a cannon action, got {:?}", other),
    }
    assert_eq!(agent.current_state.last_target, Some(Position { x: 3, y: 3 }));
}

#[test]
fn test_non_echo_events_leave_memory_empty() {
    let mut agent = RandomAi::default();
    agent.set_state(config(1, 14), team(vec![bot(5, 0, 0, true)]), Vec::new());
    let actions = agent.respond(vec![
        Event::HitEvent { source: 1, bot_id: 2 },
        Event::DieEvent { bot_id: 2 },
    ]);
    assert_eq!(agent.current_state.last_target, None);
    assert!(matches!(actions[0], Action::RadarAction(_)));
}

#[test]
fn test_echo_followed_by_noise_still_remembered() {
    let mut agent = RandomAi::default();
    agent.set_state(config(1, 14), team(vec![bot(5, 0, 0, true)]), Vec::new());
    let actions = agent.respond(vec![echo(2, 2), Event::DieEvent { bot_id: 8 }]);
    assert_eq!(agent.current_state.last_target, Some(Position { x: 2, y: 2 }));
    match actions[0] {
        Action::CannonAction(ref c) => assert_eq!(c.pos, Position { x: 2, y: 2 }),
        ref other => panic!("expected a cannon action, got {:?}", other),
    }
}

#[test]
fn test_dead_bots_get_no_action() {
    let mut agent = RandomAi::default();
    agent.set_state(
        config(1, 14),
        team(vec![bot(1, 0, 0, false), bot(2, 3, 3, true)]),
        Vec::new(),
    );
    let actions = agent.respond(vec![echo(1, 0)]);
    assert_eq!(actions.len(), 1);
    match actions[0] {
        Action::CannonAction(ref c) => assert_eq!(c.bot_id, 2),
        ref other => panic!("expected a cannon action, got {:?}", other),
    }
}

#[test]
fn test_empty_roster_no_actions() {
    let mut agent = RandomAi::default();
    agent.set_state(config(1, 14), team(vec![]), Vec::new());
    assert_eq!(agent.respond(vec![echo(1, 1)]).len(), 0);
}

#[test]
fn test_respond_before_set_state_is_empty() {
    let mut agent = RandomAi::default();
    assert_eq!(agent.respond(vec![]).len(), 0);
}

#[test]
fn test_radar_coordinates_vary() {
    // The radar target is drawn afresh per bot; with 29 possible values per
    // coordinate, 200 identical draws would be beyond astronomical.
    let mut agent = RandomAi::default();
    agent.set_state(config(1, 14), team(vec![bot(5, 0, 0, true)]), Vec::new());
    let mut seen = Vec::new();
    for _ in 0..200 {
        match agent.respond(vec![])[0] {
            Action::RadarAction(ref r) => {
                if !seen.contains(&(r.pos.x, r.pos.y)) {
                    seen.push((r.pos.x, r.pos.y));
                }
            }
            ref other => panic!("expected a radar action, got {:?}", other),
        }
    }
    assert!(seen.len() >= 2);
}

#[test]
fn test_scout_moves_first_bot() {
    let mut agent = ScoutAi::default();
    agent.set_state(
        config(2, 14),
        team(vec![bot(10, 0, 0, true), bot(11, 5, 5, true)]),
        Vec::new(),
    );
    let actions = agent.respond(vec![]);
    assert_eq!(actions.len(), 1);
    match actions[0] {
        Action::MoveAction(ref m) => {
            assert_eq!(m.bot_id, 10);
            assert!(-2 <= m.pos.x && m.pos.x <= 2);
            assert!(-2 <= m.pos.y && m.pos.y <= 2);
        }
        ref other => panic!("expected a move action, got {:?}", other),
    }
}

#[test]
fn test_scout_empty_roster() {
    let mut agent = ScoutAi::default();
    agent.set_state(config(2, 14), team(vec![]), Vec::new());
    assert_eq!(agent.respond(vec![]).len(), 0);
}

#[test]
fn test_scout_targets_first_bot_even_if_dead() {
    let mut agent = ScoutAi::default();
    agent.set_state(
        config(1, 14),
        team(vec![bot(20, 3, 3, false), bot(21, 0, 0, true)]),
        Vec::new(),
    );
    let actions = agent.respond(vec![]);
    assert_eq!(actions.len(), 1);
    match actions[0] {
        Action::MoveAction(ref m) => {
            assert_eq!(m.bot_id, 20);
            assert!(2 <= m.pos.x && m.pos.x <= 4);
            assert!(2 <= m.pos.y && m.pos.y <= 4);
        }
        ref other => panic!("expected a move action, got {:?}", other),
    }
}

#[test]
fn test_scout_move_targets_vary() {
    // The move target is drawn from the nine-cell neighborhood; 200 equal
    // draws would be beyond astronomical.
    let mut agent = ScoutAi::default();
    agent.set_state(config(1, 14), team(vec![bot(10, 0, 0, true)]), Vec::new());
    let mut seen = Vec::new();
    for _ in 0..200 {
        match agent.respond(vec![])[0] {
            Action::MoveAction(ref m) => {
                if !seen.contains(&(m.pos.x, m.pos.y)) {
                    seen.push((m.pos.x, m.pos.y));
                }
            }
            ref other => panic!("expected a move action, got {:?}", other),
        }
    }
    assert!(seen.len() >= 2);
}

#[test]
fn test_set_state_keeps_memory() {
    let mut agent = RandomAi::default();
    agent.set_state(config(1, 14), team(vec![bot(5, 0, 0, true)]), Vec::new());
    agent.respond(vec![echo(4, 4)]);
    agent.set_state(
        config(1, 10),
        team(vec![bot(6, 1, 1, true)]),
        vec![TeamNoPosNoHp { team_id: 2 }],
    );
    assert_eq!(agent.current_state.last_target, Some(Position { x: 4, y: 4 }));
}
