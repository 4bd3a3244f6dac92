use cellworld::{Cell, Ruleset};

#[test]
fn swap_flips_both_states() {
    assert_eq!(Cell::Alive.swap(), Cell::Dead);
    assert_eq!(Cell::Dead.swap(), Cell::Alive);
}

#[test]
fn conway_table_exact() {
    let alive_next = [
        Cell::Dead,
        Cell::Dead,
        Cell::Alive,
        Cell::Alive,
        Cell::Dead,
        Cell::Dead,
        Cell::Dead,
        Cell::Dead,
        Cell::Dead,
    ];
    let dead_next = [
        Cell::Dead,
        Cell::Dead,
        Cell::Dead,
        Cell::Alive,
        Cell::Dead,
        Cell::Dead,
        Cell::Dead,
        Cell::Dead,
        Cell::Dead,
    ];
    for n in 0..=8usize {
        assert_eq!(Cell::Alive.conway(n), alive_next[n]);
        assert_eq!(Cell::Dead.conway(n), dead_next[n]);
    }
}

#[test]
fn caves_table_exact() {
    for n in 0..=8usize {
        let expect_alive = if (3..=8).contains(&n) { Cell::Alive } else { Cell::Dead };
        let expect_dead = if (6..=8).contains(&n) { Cell::Alive } else { Cell::Dead };
        assert_eq!(Cell::Alive.caves(n), expect_alive);
        assert_eq!(Cell::Dead.caves(n), expect_dead);
    }
}

#[test]
fn smooth_caves_table_exact() {
    for n in 0..=8usize {
        let expect_alive = if (4..=8).contains(&n) { Cell::Alive } else { Cell::Dead };
        let expect_dead = if (5..=8).contains(&n) { Cell::Alive } else { Cell::Dead };
        assert_eq!(Cell::Alive.smooth_caves(n), expect_alive);
        assert_eq!(Cell::Dead.smooth_caves(n), expect_dead);
    }
}

#[test]
fn smooth_table_exact() {
    for n in 0..=8usize {
        let expect = if (5..=8).contains(&n) { Cell::Alive } else { Cell::Dead };
        assert_eq!(Cell::Alive.smooth(n), expect);
        assert_eq!(Cell::Dead.smooth(n), expect);
    }
}

#[test]
fn lines_table_exact() {
    for n in 0..=8usize {
        let expect_alive = if (5..=8).contains(&n) { Cell::Alive } else { Cell::Dead };
        let expect_dead = if (4..=8).contains(&n) { Cell::Alive } else { Cell::Dead };
        assert_eq!(Cell::Alive.lines(n), expect_alive);
        assert_eq!(Cell::Dead.lines(n), expect_dead);
    }
}

#[test]
fn transition_dispatches_to_each_rule_set() {
    assert_eq!(Cell::Alive.transition(Ruleset::Conway, 2), Cell::Alive);
    assert_eq!(Cell::Dead.transition(Ruleset::Caves, 6), Cell::Alive);
    assert_eq!(Cell::Dead.transition(Ruleset::SmoothCaves, 5), Cell::Alive);
    assert_eq!(Cell::Dead.transition(Ruleset::Smooth, 5), Cell::Alive);
    assert_eq!(Cell::Dead.transition(Ruleset::Lines, 4), Cell::Alive);
    assert_eq!(Cell::Alive.transition(Ruleset::Unknown, 3), Cell::Dead);
    assert_eq!(Cell::Dead.transition(Ruleset::Unknown, 3), Cell::Dead);
}

#[test]
fn from_name_recognizes_each_rule_set() {
    assert_eq!(Ruleset::from_name("conway"), Ruleset::Conway);
    assert_eq!(Ruleset::from_name("caves"), Ruleset::Caves);
    assert_eq!(Ruleset::from_name("smooth caves"), Ruleset::SmoothCaves);
    assert_eq!(Ruleset::from_name("smooth"), Ruleset::Smooth);
    assert_eq!(Ruleset::from_name("lines"), Ruleset::Lines);
}

#[test]
fn from_name_falls_back_to_unknown() {
    assert_eq!(Ruleset::from_name("bogus"), Ruleset::Unknown);
    assert_eq!(Ruleset::from_name(""), Ruleset::Unknown);
    assert_eq!(Ruleset::from_name("Conway"), Ruleset::Unknown);
    assert_eq!(Ruleset::from_name("smoothcaves"), Ruleset::Unknown);
}
