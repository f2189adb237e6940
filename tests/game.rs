use std::collections::VecDeque;

use snake::{Board, Direction, Game, GameError, Point};

fn p(x: i16, y: i16) -> Point {
    Point::new(x, y)
}

#[test]
fn check_create_table() {
    let odd_n_odd_len = Game::create_snake(7, 3);
    assert_eq!(odd_n_odd_len, VecDeque::from([p(3, 4), p(3, 3), p(3, 2)]));

    let even_n_odd_len = Game::create_snake(8, 3);
    assert_eq!(even_n_odd_len, VecDeque::from([p(3, 4), p(3, 3), p(3, 2)]));

    let odd_n_even_len = Game::create_snake(7, 4);
    assert_eq!(
        odd_n_even_len,
        VecDeque::from([p(3, 4), p(3, 3), p(3, 2), p(3, 1)])
    );

    let even_n_even_len = Game::create_snake(8, 4);
    assert_eq!(
        even_n_even_len,
        VecDeque::from([p(3, 4), p(3, 3), p(3, 2), p(3, 1)])
    );
}

#[test]
fn walk() {
    let board = Board::new("test".to_string(), 5, Vec::new());
    let mut game = Game::new(&board, 3).unwrap();
    assert!(game.set_food(p(0, 0)));

    assert_eq!(game.get_body(), vec![p(2, 3), p(2, 2), p(2, 1)]);
    assert!(game.walk());
    assert_eq!(game.get_body(), vec![p(2, 4), p(2, 3), p(2, 2)]);
    game.rotation(Direction::Down);

    assert!(game.walk());
    assert_eq!(game.get_body(), vec![p(3, 4), p(2, 4), p(2, 3)]);

    game.rotation(Direction::Left);

    assert!(game.walk());
    assert_eq!(game.get_body(), vec![p(3, 3), p(3, 4), p(2, 4)]);

    game.rotation(Direction::Up);

    assert!(game.walk());
    assert_eq!(game.get_body(), vec![p(2, 3), p(3, 3), p(3, 4)]);

    let board = Board::new("test".to_string(), 7, Vec::new());
    let game = Game::new(&board, 5).unwrap();
    assert_eq!(game.get_body().len(), 5);
    let mut game = Game::from_parts(
        &board,
        vec![p(1, 1), p(2, 1), p(2, 0), p(1, 0), p(0, 0)],
        Direction::Left,
        p(6, 6),
    )
    .unwrap();

    assert!(!game.walk());
}

#[test]
fn walk_system_test() {
    let board = Board::new("test".to_string(), 7, Vec::new());
    let mut game = Game::new(&board, 3).unwrap();

    assert_eq!(game.get_body(), vec![p(3, 4), p(3, 3), p(3, 2)]);

    assert!(game.set_food(p(4, 5)));

    assert!(game.walk());

    assert_eq!(game.get_body(), vec![p(3, 5), p(3, 4), p(3, 3)]);

    game.rotation(Direction::Down);

    assert_eq!(game.get_heading(), Direction::Down);

    assert!(game.walk());
    assert_eq!(game.get_body(), vec![p(4, 5), p(3, 5), p(3, 4), p(3, 3)]);

    let food = game.get_food().unwrap();
    assert!(![p(4, 5), p(3, 5), p(3, 4), p(3, 3)].contains(&food));

    assert!(game.set_food(p(0, 0)));

    assert!(game.walk());
    assert_eq!(game.get_body(), vec![p(5, 5), p(4, 5), p(3, 5), p(3, 4)]);

    assert!(game.walk());
}

#[test]
fn start_is_centred_on_odd_and_even_boards() {
    let game = Game::new(&Board::new("b".to_string(), 7, Vec::new()), 3).unwrap();
    assert_eq!(game.get_body(), vec![p(3, 4), p(3, 3), p(3, 2)]);
    assert_eq!(game.get_heading(), Direction::Right);
    assert_eq!(game.get_score(), 0);
    assert!(!game.is_over());
    let game = Game::new(&Board::new("b".to_string(), 8, Vec::new()), 3).unwrap();
    assert_eq!(game.get_body(), vec![p(3, 4), p(3, 3), p(3, 2)]);
}

#[test]
fn new_refuses_a_snake_that_does_not_fit() {
    let board = Board::new("b".to_string(), 5, Vec::new());
    assert_eq!(Game::new(&board, 0).err(), Some(GameError::InvalidSize));
    assert_eq!(Game::new(&board, 4).err(), Some(GameError::InvalidSize));
    assert!(Game::new(&board, 3).is_ok());
    let empty = Board::new("e".to_string(), 0, Vec::new());
    assert_eq!(Game::new(&empty, 1).err(), Some(GameError::InvalidSize));
}

#[test]
fn new_refuses_a_board_with_no_room_for_food() {
    let mut walls = Vec::new();
    for x in 0..3 {
        for y in 0..3 {
            if (x, y) != (1, 1) {
                walls.push(p(x, y));
            }
        }
    }
    let board = Board::new("full".to_string(), 3, walls);
    assert_eq!(Game::new(&board, 1).err(), Some(GameError::NoFreeCell));
}

#[test]
fn food_starts_on_a_free_cell() {
    let board = Board::new("b".to_string(), 6, vec![p(0, 0), p(5, 5), p(2, 2)]);
    for _ in 0..50 {
        let game = Game::new(&board, 2).unwrap();
        let food = game.get_food().unwrap();
        assert!((0..6).contains(&food.x) && (0..6).contains(&food.y));
        assert!(!board.is_wall(&food));
        assert!(!game.get_body().contains(&food));
    }
}

#[test]
fn eating_grows_by_one_and_scores_one() {
    let board = Board::new("b".to_string(), 7, Vec::new());
    let mut game = Game::new(&board, 3).unwrap();
    assert!(game.set_food(p(3, 5)));
    assert!(game.walk());
    assert_eq!(game.get_body().len(), 4);
    assert_eq!(game.get_score(), 1);
    let food = game.get_food().unwrap();
    assert!(!game.get_body().contains(&food));
    // A step that does not eat keeps the length and the score.
    let next = p(3, 6);
    if food != next {
        assert!(game.walk());
        assert_eq!(game.get_body().len(), 4);
        assert_eq!(game.get_score(), 1);
    }
}

#[test]
fn ended_game_stays_ended() {
    let board = Board::new("b".to_string(), 7, Vec::new());
    let mut game = Game::from_parts(
        &board,
        vec![p(1, 1), p(2, 1), p(2, 0), p(1, 0), p(0, 0)],
        Direction::Left,
        p(6, 6),
    )
    .unwrap();
    assert!(!game.walk());
    assert!(game.is_over());
    let body = game.get_body();
    assert_eq!(body, vec![p(1, 1), p(2, 1), p(2, 0), p(1, 0)]);
    assert!(!game.walk());
    assert_eq!(game.get_body(), body);
}

#[test]
fn wall_ends_the_game() {
    let board = Board::new("b".to_string(), 7, vec![p(3, 5)]);
    let mut game = Game::new(&board, 3).unwrap();
    assert!(!game.walk());
    assert!(game.is_over());
    assert_eq!(game.get_body(), vec![p(3, 4), p(3, 3)]);
}

#[test]
fn head_may_follow_the_tail() {
    // A square loop of four cells: the head moves into the cell the tail leaves.
    let board = Board::new("b".to_string(), 5, Vec::new());
    let mut game = Game::from_parts(
        &board,
        vec![p(1, 1), p(1, 2), p(2, 2), p(2, 1)],
        Direction::Down,
        p(4, 4),
    )
    .unwrap();
    assert!(game.walk());
    assert_eq!(game.get_body(), vec![p(2, 1), p(1, 1), p(1, 2), p(2, 2)]);
}

#[test]
fn snake_wraps_round_the_edge() {
    let board = Board::new("b".to_string(), 5, Vec::new());
    let mut game = Game::from_parts(&board, vec![p(2, 4), p(2, 3)], Direction::Right, p(0, 0)).unwrap();
    assert!(game.walk());
    assert_eq!(game.get_body(), vec![p(2, 0), p(2, 4)]);
}

#[test]
fn reversal_is_ignored() {
    let board = Board::new("b".to_string(), 7, Vec::new());
    let mut game = Game::new(&board, 3).unwrap();
    game.rotation(Direction::Left);
    assert_eq!(game.get_heading(), Direction::Right);
    game.rotation(Direction::Absent);
    assert_eq!(game.get_heading(), Direction::Right);
    game.rotation(Direction::Up);
    assert_eq!(game.get_heading(), Direction::Up);
    game.rotation(Direction::Down);
    assert_eq!(game.get_heading(), Direction::Up);
    game.rotation(Direction::Left);
    assert_eq!(game.get_heading(), Direction::Left);
}

#[test]
fn from_parts_checks_the_snake_and_food() {
    let board = Board::new("b".to_string(), 5, vec![p(4, 4)]);
    assert!(Game::from_parts(&board, vec![p(1, 1), p(1, 3)], Direction::Right, p(0, 0)).is_none());
    assert!(Game::from_parts(&board, vec![p(1, 1), p(1, 0), p(1, 1)], Direction::Right, p(0, 0)).is_none());
    assert!(Game::from_parts(&board, vec![p(1, 1), p(1, 0)], Direction::Right, p(4, 4)).is_none());
    assert!(Game::from_parts(&board, vec![p(1, 1), p(1, 0)], Direction::Right, p(1, 0)).is_none());
    assert!(Game::from_parts(&board, vec![p(1, 1), p(1, 0)], Direction::Absent, p(0, 0)).is_none());
    assert!(Game::from_parts(&board, vec![], Direction::Right, p(0, 0)).is_none());
    assert!(Game::from_parts(&board, vec![p(1, 5)], Direction::Right, p(0, 0)).is_none());
    assert!(Game::from_parts(&board, vec![p(1, 1), p(1, 0)], Direction::Right, p(0, 0)).is_some());
}

#[test]
fn set_food_refuses_taken_cells() {
    let board = Board::new("b".to_string(), 5, vec![p(0, 0)]);
    let mut game = Game::from_parts(&board, vec![p(2, 2), p(2, 1)], Direction::Right, p(4, 4)).unwrap();
    assert!(!game.set_food(p(0, 0)));
    assert!(!game.set_food(p(2, 1)));
    assert!(!game.set_food(p(5, 0)));
    assert_eq!(game.get_food(), Some(p(4, 4)));
    assert!(game.set_food(p(3, 3)));
    assert_eq!(game.get_food(), Some(p(3, 3)));
}

#[test]
fn lone_segment_drawing() {
    let board = Board::new("b".to_string(), 3, Vec::new());
    let game = Game::from_parts(&board, vec![p(0, 0)], Direction::Right, p(2, 1)).unwrap();
    let table = game.get_table();
    assert_eq!(table.len(), 5);
    assert_eq!(table[0], vec!["┌", "─", "─", "─", "┐"]);
    assert_eq!(table[4], vec!["└", "─", "─", "─", "┘"]);
    for row in &table[1..4] {
        assert_eq!(row[0], "│");
        assert_eq!(row[4], "│");
    }
    assert_eq!(table[1][1], "──");
    assert_eq!(table[3][2], " ●");
    let foods = table.iter().flatten().filter(|g| g.as_str() == " ●").count();
    assert_eq!(foods, 1);
}

#[test]
fn snake_drawing_turns() {
    let board = Board::new("b".to_string(), 4, Vec::new());
    let game = Game::from_parts(
        &board,
        vec![p(0, 1), p(1, 1), p(1, 2), p(2, 2), p(2, 1)],
        Direction::Up,
        p(3, 3),
    )
    .unwrap();
    let table = game.get_table();
    assert_eq!(table[1][2], " │");
    assert_eq!(table[2][2], " └");
    assert_eq!(table[2][3], "─┐");
    assert_eq!(table[3][3], "─┘");
    assert_eq!(table[3][2], "──");
    assert_eq!(table[4][4], " ●");
    assert_eq!(table[1][1], " ");
}

#[test]
fn eating_the_last_free_cell_ends_the_game_after_the_step() {
    let board = Board::new("b".to_string(), 2, vec![p(0, 1), p(1, 1)]);
    let mut game = Game::from_parts(&board, vec![p(0, 0)], Direction::Down, p(1, 0)).unwrap();
    assert!(game.walk());
    assert_eq!(game.get_score(), 1);
    assert_eq!(game.get_body(), vec![p(1, 0), p(0, 0)]);
    assert!(game.is_over());
    assert_eq!(game.get_food(), None);
    assert!(!game.walk());
    assert_eq!(game.get_score(), 1);
    assert_eq!(game.get_body(), vec![p(1, 0), p(0, 0)]);
}

#[test]
fn food_lands_on_one_of_few_free_cells() {
    let mut walls = Vec::new();
    for x in 0..5 {
        for y in 0..5 {
            if x != 2 && (x, y) != (0, 0) && (x, y) != (4, 4) {
                walls.push(p(x, y));
            }
        }
    }
    let board = Board::new("b".to_string(), 5, walls);
    for _ in 0..50 {
        let game = Game::new(&board, 3).unwrap();
        let food = game.get_food().unwrap();
        assert!([p(0, 0), p(4, 4), p(2, 0), p(2, 4)].contains(&food));
    }
}
