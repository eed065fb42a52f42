use elemental_snakes::{Cell, Color, Grid, ParseColorError, Player, RuleViolation};

const COLORS: [Color; 4] = [Color::Red, Color::Green, Color::Yellow, Color::Blue];

/// Validates a move, requires it to be legal and not winning, and plays it.
fn play(g: &mut Grid, p: Player, c: Color, x: usize, y: usize) {
    assert_eq!(g.is_valid_move(&p, &c, x, y), Ok(false), "move at ({}, {})", x, y);
    g.play_move(&p, &c, x, y);
}

#[test]
fn beats_follows_the_cycle() {
    for i in 0..4 {
        for j in 0..4 {
            let expected = j == (i + 1) % 4;
            assert_eq!(COLORS[i].beats(&COLORS[j]), expected, "{:?} vs {:?}", COLORS[i], COLORS[j]);
        }
    }
    assert!(Color::Blue.beats(&Color::Red));
    assert!(!Color::Red.beats(&Color::Blue));
    assert!(!Color::Yellow.beats(&Color::Red));
}

#[test]
fn colors_parse_from_their_letters() {
    assert_eq!(Color::try_from('r'), Ok(Color::Red));
    assert_eq!(Color::try_from('g'), Ok(Color::Green));
    assert_eq!(Color::try_from('y'), Ok(Color::Yellow));
    assert_eq!(Color::try_from('b'), Ok(Color::Blue));
    assert_eq!(Color::try_from('x'), Err(ParseColorError));
    assert_eq!(Color::try_from('R'), Err(ParseColorError));
}

#[test]
fn turns_alternate() {
    assert_eq!(Player::Top.next(), Player::Bottom);
    assert_eq!(Player::Bottom.next(), Player::Top);
}

#[test]
fn new_board_holds_the_two_markers() {
    let g = Grid::default();
    for y in 0..7 {
        for x in 0..5 {
            let expected = if x == 2 && y == 0 {
                Cell::Player(Player::Top)
            } else if x == 2 && y == 6 {
                Cell::Player(Player::Bottom)
            } else {
                Cell::Uncolored
            };
            assert_eq!(g.cell(x, y), expected);
        }
    }
}

#[test]
fn starting_a_snake_on_the_invocation_row() {
    let mut g = Grid::default();
    assert_eq!(g.is_valid_move(&Player::Bottom, &Color::Red, 1, 6), Ok(false));
    g.play_move(&Player::Bottom, &Color::Red, 1, 6);
    assert_eq!(g.cell(1, 6), Cell::Colored(Player::Bottom, Color::Red));
    assert_eq!(g.is_valid_move(&Player::Top, &Color::Blue, 4, 0), Ok(false));
}

#[test]
fn own_marker_cannot_be_targeted() {
    let g = Grid::default();
    assert_eq!(
        g.is_valid_move(&Player::Bottom, &Color::Red, 2, 6),
        Err(RuleViolation::OwnInvocatorTargeted)
    );
    assert_eq!(
        g.is_valid_move(&Player::Top, &Color::Green, 2, 0),
        Err(RuleViolation::OwnInvocatorTargeted)
    );
}

#[test]
fn starting_off_the_invocation_line_fails() {
    let g = Grid::default();
    assert_eq!(
        g.is_valid_move(&Player::Bottom, &Color::Red, 1, 5),
        Err(RuleViolation::MustStartOnInvocationLine)
    );
    assert_eq!(
        g.is_valid_move(&Player::Top, &Color::Red, 0, 6),
        Err(RuleViolation::MustStartOnInvocationLine)
    );
}

#[test]
fn growth_stays_within_one_column() {
    let mut g = Grid::default();
    play(&mut g, Player::Bottom, Color::Red, 3, 6);
    for x in [2, 3, 4] {
        assert_eq!(g.is_valid_move(&Player::Bottom, &Color::Red, x, 5), Ok(false));
    }
    for x in [0, 1] {
        assert_eq!(
            g.is_valid_move(&Player::Bottom, &Color::Red, x, 5),
            Err(RuleViolation::DoesNotGrowSnake)
        );
    }
    // Growing backwards or sideways is not growth either.
    assert_eq!(
        g.is_valid_move(&Player::Bottom, &Color::Red, 4, 6),
        Err(RuleViolation::DoesNotGrowSnake)
    );
    // Another color starts its own snake.
    assert_eq!(
        g.is_valid_move(&Player::Bottom, &Color::Blue, 2, 5),
        Err(RuleViolation::MustStartOnInvocationLine)
    );
    play(&mut g, Player::Bottom, Color::Red, 4, 5);
    assert_eq!(g.is_valid_move(&Player::Bottom, &Color::Red, 3, 4), Ok(false));
    assert_eq!(
        g.is_valid_move(&Player::Bottom, &Color::Red, 2, 4),
        Err(RuleViolation::DoesNotGrowSnake)
    );
}

#[test]
fn leftmost_branch_is_followed() {
    let mut g = Grid::default();
    play(&mut g, Player::Top, Color::Green, 1, 0);
    play(&mut g, Player::Top, Color::Green, 2, 1);
    // A second segment beside the first one's successor: the leftmost wins.
    g.play_move(&Player::Top, &Color::Green, 0, 1);
    assert_eq!(g.is_valid_move(&Player::Top, &Color::Green, 0, 2), Ok(false));
    assert_eq!(
        g.is_valid_move(&Player::Top, &Color::Green, 3, 2),
        Err(RuleViolation::DoesNotGrowSnake)
    );
}

#[test]
fn capture_clears_the_snake_from_the_point_of_impact() {
    let mut g = Grid::default();
    play(&mut g, Player::Top, Color::Green, 0, 0);
    play(&mut g, Player::Top, Color::Green, 0, 1);
    play(&mut g, Player::Top, Color::Green, 1, 2);
    play(&mut g, Player::Top, Color::Green, 1, 3);
    play(&mut g, Player::Bottom, Color::Red, 0, 6);
    play(&mut g, Player::Bottom, Color::Red, 0, 5);
    play(&mut g, Player::Bottom, Color::Red, 0, 4);
    play(&mut g, Player::Bottom, Color::Red, 0, 3);
    assert_eq!(g.is_valid_move(&Player::Bottom, &Color::Red, 1, 2), Ok(false));
    g.play_move(&Player::Bottom, &Color::Red, 1, 2);
    assert_eq!(g.cell(1, 2), Cell::Colored(Player::Bottom, Color::Red));
    assert_eq!(g.cell(1, 3), Cell::Uncolored);
    // The tail behind the point of impact stays.
    assert_eq!(g.cell(0, 0), Cell::Colored(Player::Top, Color::Green));
    assert_eq!(g.cell(0, 1), Cell::Colored(Player::Top, Color::Green));
    assert_eq!(g.cell(0, 3), Cell::Colored(Player::Bottom, Color::Red));
    // What is left of the eaten snake has its head at (0, 1).
    assert_eq!(g.is_valid_move(&Player::Top, &Color::Green, 0, 2), Ok(false));
}

#[test]
fn capture_of_a_head_next_to_a_marker() {
    let mut g = Grid::default();
    play(&mut g, Player::Top, Color::Green, 1, 0);
    play(&mut g, Player::Top, Color::Green, 2, 1);
    play(&mut g, Player::Bottom, Color::Red, 1, 6);
    play(&mut g, Player::Bottom, Color::Red, 1, 5);
    play(&mut g, Player::Bottom, Color::Red, 1, 4);
    play(&mut g, Player::Bottom, Color::Red, 2, 3);
    play(&mut g, Player::Bottom, Color::Red, 2, 2);
    assert_eq!(g.is_valid_move(&Player::Bottom, &Color::Red, 2, 1), Ok(false));
    g.play_move(&Player::Bottom, &Color::Red, 2, 1);
    assert_eq!(g.cell(2, 1), Cell::Colored(Player::Bottom, Color::Red));
    assert_eq!(g.cell(1, 0), Cell::Colored(Player::Top, Color::Green));
    assert_eq!(g.cell(2, 0), Cell::Player(Player::Top));
    assert_eq!(g.cell(2, 2), Cell::Colored(Player::Bottom, Color::Red));
}

#[test]
fn capture_along_the_first_column() {
    let mut g = Grid::default();
    for y in 0..4 {
        play(&mut g, Player::Top, Color::Green, 0, y);
    }
    for y in [6, 5, 4, 3] {
        play(&mut g, Player::Bottom, Color::Red, 1, y);
    }
    assert_eq!(g.is_valid_move(&Player::Bottom, &Color::Red, 0, 2), Ok(false));
    g.play_move(&Player::Bottom, &Color::Red, 0, 2);
    assert_eq!(g.cell(0, 2), Cell::Colored(Player::Bottom, Color::Red));
    assert_eq!(g.cell(0, 3), Cell::Uncolored);
    assert_eq!(g.cell(0, 1), Cell::Colored(Player::Top, Color::Green));
    assert_eq!(g.cell(1, 3), Cell::Colored(Player::Bottom, Color::Red));
}

#[test]
fn capture_along_the_last_column() {
    let mut g = Grid::default();
    for y in 0..5 {
        play(&mut g, Player::Top, Color::Green, 4, y);
    }
    for y in [6, 5, 4, 3] {
        play(&mut g, Player::Bottom, Color::Red, 3, y);
    }
    assert_eq!(g.is_valid_move(&Player::Bottom, &Color::Red, 4, 2), Ok(false));
    g.play_move(&Player::Bottom, &Color::Red, 4, 2);
    assert_eq!(g.cell(4, 2), Cell::Colored(Player::Bottom, Color::Red));
    assert_eq!(g.cell(4, 3), Cell::Uncolored);
    assert_eq!(g.cell(4, 4), Cell::Uncolored);
    assert_eq!(g.cell(4, 1), Cell::Colored(Player::Top, Color::Green));
    assert_eq!(g.cell(3, 3), Cell::Colored(Player::Bottom, Color::Red));
    assert_eq!(g.is_valid_move(&Player::Top, &Color::Green, 3, 2), Ok(false));
}

#[test]
fn weak_color_is_rejected() {
    let mut g = Grid::default();
    for y in 0..5 {
        play(&mut g, Player::Top, Color::Red, 3, y);
    }
    play(&mut g, Player::Bottom, Color::Yellow, 4, 6);
    play(&mut g, Player::Bottom, Color::Yellow, 4, 5);
    assert_eq!(
        g.is_valid_move(&Player::Bottom, &Color::Yellow, 3, 4),
        Err(RuleViolation::ColorTooWeak)
    );
    assert_eq!(g.cell(3, 4), Cell::Colored(Player::Top, Color::Red));
    assert_eq!(g.cell(4, 5), Cell::Colored(Player::Bottom, Color::Yellow));
}

#[test]
fn own_segment_of_another_color_is_a_target_too() {
    let mut g = Grid::default();
    play(&mut g, Player::Bottom, Color::Red, 0, 6);
    play(&mut g, Player::Bottom, Color::Red, 0, 5);
    play(&mut g, Player::Bottom, Color::Blue, 1, 6);
    assert_eq!(g.is_valid_move(&Player::Bottom, &Color::Blue, 0, 5), Ok(false));
    g.play_move(&Player::Bottom, &Color::Blue, 0, 5);
    assert_eq!(g.cell(0, 5), Cell::Colored(Player::Bottom, Color::Blue));
    assert_eq!(g.cell(0, 6), Cell::Colored(Player::Bottom, Color::Red));
}

#[test]
fn reaching_the_opponent_marker_wins() {
    let mut g = Grid::default();
    for y in 0..6 {
        play(&mut g, Player::Top, Color::Blue, 1, y);
    }
    assert_eq!(g.is_valid_move(&Player::Top, &Color::Blue, 2, 6), Ok(true));
    g.play_move(&Player::Top, &Color::Blue, 2, 6);
    assert_eq!(g.cell(2, 6), Cell::Colored(Player::Top, Color::Blue));
}

#[test]
fn marker_out_of_reach_is_no_win() {
    let mut g = Grid::default();
    for y in 0..5 {
        play(&mut g, Player::Top, Color::Blue, 1, y);
    }
    assert_eq!(
        g.is_valid_move(&Player::Top, &Color::Blue, 2, 6),
        Err(RuleViolation::DoesNotGrowSnake)
    );
    assert_eq!(
        g.is_valid_move(&Player::Top, &Color::Red, 2, 6),
        Err(RuleViolation::MustStartOnInvocationLine)
    );
}

#[test]
fn validation_is_repeatable() {
    let mut g = Grid::default();
    play(&mut g, Player::Bottom, Color::Green, 3, 6);
    let moves = [
        (Player::Bottom, Color::Green, 2, 5),
        (Player::Bottom, Color::Green, 0, 5),
        (Player::Top, Color::Green, 2, 0),
        (Player::Top, Color::Yellow, 1, 1),
    ];
    for (p, c, x, y) in moves {
        let first = g.is_valid_move(&p, &c, x, y);
        for _ in 0..3 {
            assert_eq!(g.is_valid_move(&p, &c, x, y), first);
        }
    }
    assert_eq!(g.cell(3, 6), Cell::Colored(Player::Bottom, Color::Green));
}

#[test]
fn violations_have_messages() {
    assert_eq!(
        RuleViolation::OwnInvocatorTargeted.message(),
        "You can't place a color on your own invocator"
    );
    assert_eq!(
        RuleViolation::DoesNotGrowSnake.message(),
        "The cell you picked does not grow your existing snake"
    );
    assert_eq!(
        RuleViolation::MustStartOnInvocationLine.message(),
        "You must invoke your snake on your invocation line"
    );
    assert_eq!(
        RuleViolation::ColorTooWeak.message(),
        "This snake is not strong enough to beat the targeted snake"
    );
}
