use tyckiting_ai::Position;

#[test]
fn test_positions_within_zero() {
    let origin = Position { x: 3, y: -4 };
    let positions = origin.positions_within(0);
    assert_eq!(positions.len(), 1);
    assert_eq!(positions[0], origin);
}

#[test]
fn test_positions_within_one() {
    let origin = Position { x: 0, y: 0 };
    let positions = origin.positions_within(1);
    assert_eq!(positions.len(), 9);
    assert!(positions.contains(&origin));
    for p in &positions {
        assert!(-1 <= p.x && p.x <= 1);
        assert!(-1 <= p.y && p.y <= 1);
    }
    for x in -1..=1 {
        for y in -1..=1 {
            assert!(positions.contains(&Position { x, y }));
        }
    }
}

#[test]
fn test_positions_within_offset_origin() {
    let origin = Position { x: 5, y: 7 };
    let positions = origin.positions_within(2);
    assert_eq!(positions.len(), 25);
    assert!(positions.contains(&origin));
    for p in &positions {
        assert!(3 <= p.x && p.x <= 7);
        assert!(5 <= p.y && p.y <= 9);
    }
}
