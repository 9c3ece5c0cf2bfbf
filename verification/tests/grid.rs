use snake::{Arena, Config, Direction, Game, Position};

fn at(x: i32, y: i32) -> Position {
    Position { x, y }
}

#[test]
fn stepping_up_and_right_adds_one_and_down_and_left_subtracts_one() {
    assert_eq!(at(3, 3).stepped(Direction::Up), at(3, 4));
    assert_eq!(at(3, 3).stepped(Direction::Down), at(3, 2));
    assert_eq!(at(3, 3).stepped(Direction::Right), at(4, 3));
    assert_eq!(at(3, 3).stepped(Direction::Left), at(2, 3));
}

#[test]
fn stepping_may_leave_the_positive_quadrant() {
    assert_eq!(at(0, 0).stepped(Direction::Left), at(-1, 0));
    assert_eq!(at(0, 0).stepped(Direction::Down), at(0, -1));
}

#[test]
fn checked_step_agrees_with_step_inside_the_range() {
    assert_eq!(at(3, 3).checked_stepped(Direction::Up), Some(at(3, 4)));
    assert_eq!(at(3, 3).checked_stepped(Direction::Down), Some(at(3, 2)));
    assert_eq!(at(3, 3).checked_stepped(Direction::Right), Some(at(4, 3)));
    assert_eq!(at(3, 3).checked_stepped(Direction::Left), Some(at(2, 3)));
    assert_eq!(at(i32::MAX - 1, 0).checked_stepped(Direction::Right), Some(at(i32::MAX, 0)));
    assert_eq!(at(0, i32::MIN + 1).checked_stepped(Direction::Down), Some(at(0, i32::MIN)));
}

#[test]
fn checked_step_refuses_to_leave_the_integer_range() {
    assert_eq!(at(0, i32::MAX).checked_stepped(Direction::Up), None);
    assert_eq!(at(0, i32::MIN).checked_stepped(Direction::Down), None);
    assert_eq!(at(i32::MAX, 0).checked_stepped(Direction::Right), None);
    assert_eq!(at(i32::MIN, 0).checked_stepped(Direction::Left), None);
    // The other axis is not touched.
    assert_eq!(at(i32::MAX, 0).checked_stepped(Direction::Up), Some(at(i32::MAX, 1)));
    assert_eq!(at(0, i32::MIN).checked_stepped(Direction::Left), Some(at(-1, i32::MIN)));
}

#[test]
fn arena_new_accepts_positive_sides() {
    assert_eq!(Arena::new(10, 10), Some(Arena { width: 10, height: 10 }));
    assert_eq!(Arena::new(1, 1), Some(Arena { width: 1, height: 1 }));
    assert_eq!(Arena::new(3, 7), Some(Arena { width: 3, height: 7 }));
    assert_eq!(
        Arena::new(0x7fff_ffff, 0x7fff_ffff),
        Some(Arena { width: 0x7fff_ffff, height: 0x7fff_ffff })
    );
}

#[test]
fn arena_new_refuses_an_empty_side() {
    assert_eq!(Arena::new(0, 10), None);
    assert_eq!(Arena::new(10, 0), None);
    assert_eq!(Arena::new(0, 0), None);
}

#[test]
fn arena_new_refuses_a_side_beyond_the_position_range() {
    assert_eq!(Arena::new(0x8000_0000, 10), None);
    assert_eq!(Arena::new(10, 0x8000_0000), None);
    assert_eq!(Arena::new(u32::MAX, u32::MAX), None);
}

#[test]
fn arena_contains_its_corners() {
    let arena = Arena { width: 10, height: 10 };
    assert!(arena.contains(at(0, 0)));
    assert!(arena.contains(at(9, 0)));
    assert!(arena.contains(at(0, 9)));
    assert!(arena.contains(at(9, 9)));
    assert!(arena.contains(at(3, 4)));
}

#[test]
fn arena_does_not_contain_what_lies_one_step_outside() {
    let arena = Arena { width: 10, height: 10 };
    assert!(!arena.contains(at(-1, 0)));
    assert!(!arena.contains(at(0, -1)));
    assert!(!arena.contains(at(10, 0)));
    assert!(!arena.contains(at(0, 10)));
    assert!(!arena.contains(at(10, 10)));
    assert!(!arena.contains(at(-1, -1)));
    assert!(!arena.contains(at(i32::MIN, 5)));
    assert!(!arena.contains(at(5, i32::MAX)));
}

#[test]
fn arena_sides_are_independent() {
    let arena = Arena { width: 3, height: 7 };
    assert!(arena.contains(at(2, 6)));
    assert!(!arena.contains(at(3, 6)));
    assert!(!arena.contains(at(2, 7)));
    assert!(!arena.contains(at(6, 2)));
}

#[test]
fn position_at_scales_each_draw_to_its_axis() {
    let arena = Arena { width: 10, height: 10 };
    assert_eq!(arena.position_at(0, 0), at(0, 0));
    assert_eq!(arena.position_at(u32::MAX, u32::MAX), at(9, 9));
    // Half of the range of draws selects the middle.
    assert_eq!(arena.position_at(0x8000_0000, 0x7fff_ffff), at(5, 4));
    // A tenth of the range is 429496729.6: the cell changes between the two
    // neighbouring draws.
    assert_eq!(arena.position_at(429_496_729, 429_496_730), at(0, 1));
    // 0.35 and 0.99 of the range.
    assert_eq!(arena.position_at(1_503_238_553, 4_252_017_623), at(3, 9));
}

#[test]
fn position_at_uses_the_width_for_x_and_the_height_for_y() {
    let arena = Arena { width: 4, height: 100 };
    assert_eq!(arena.position_at(0xc000_0000, 0xc000_0000), at(3, 75));
    assert_eq!(arena.position_at(0x3fff_ffff, 0x4000_0000), at(0, 25));
    let single = Arena { width: 1, height: 1 };
    assert_eq!(single.position_at(u32::MAX, 12345), at(0, 0));
}

#[test]
fn position_at_stays_inside_the_largest_arena() {
    let arena = Arena { width: 0x7fff_ffff, height: 0x7fff_ffff };
    assert_eq!(arena.position_at(u32::MAX, 0), at(0x7fff_fffe, 0));
    assert!(arena.contains(arena.position_at(u32::MAX, u32::MAX)));
}

#[test]
fn position_at_covers_every_cell_and_no_other() {
    let arena = Arena { width: 10, height: 6 };
    let mut seen = [[false; 6]; 10];
    let mut draw: u64 = 0;
    while draw < 0x1_0000_0000 {
        let x_draw = draw as u32;
        let mut other: u64 = 0;
        while other < 0x1_0000_0000 {
            let position = arena.position_at(x_draw, other as u32);
            assert!(arena.contains(position));
            seen[position.x as usize][position.y as usize] = true;
            other += 0x0800_0001;
        }
        draw += 0x0800_0001;
    }
    for column in seen {
        for cell in column {
            assert!(cell);
        }
    }
}

#[test]
fn default_configuration_is_the_classic_setup() {
    let config = Config::default();
    assert_eq!(config.arena_width, 10);
    assert_eq!(config.arena_height, 10);
    assert_eq!(config.start, at(3, 3));
    assert_eq!(config.tick_millis, 90);
}

#[test]
fn new_game_is_empty() {
    let game = Game::new(Config::default()).unwrap();
    assert_eq!(game.arena, Arena { width: 10, height: 10 });
    assert_eq!(game.start, at(3, 3));
    assert_eq!(game.head, None);
    assert!(game.segments.is_empty());
    assert!(game.food.is_empty());
    assert_eq!(game.last_tail_position, None);
    assert!(game.events.is_empty());
    assert!(game.is_well_formed());
}

#[test]
fn new_game_needs_a_usable_arena() {
    let mut config = Config::default();
    config.arena_width = 0;
    assert_eq!(Game::new(config), None);
    config.arena_width = 0x8000_0000;
    assert_eq!(Game::new(config), None);
    config.arena_width = 10;
    config.arena_height = 0;
    assert_eq!(Game::new(config), None);
}

#[test]
fn new_game_needs_room_for_the_snake() {
    let mut config = Config::default();
    // The head would be outside.
    config.start = at(10, 3);
    assert_eq!(Game::new(config), None);
    config.start = at(-1, 3);
    assert_eq!(Game::new(config), None);
    config.start = at(3, 10);
    assert_eq!(Game::new(config), None);
    // The segment behind the head would be outside.
    config.start = at(3, 0);
    assert_eq!(Game::new(config), None);
    // The lowest and the highest start that leave room.
    config.start = at(0, 1);
    assert!(Game::new(config).is_some());
    config.start = at(9, 9);
    assert!(Game::new(config).is_some());
}
