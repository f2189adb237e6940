use snake::{Board, Boards, Wall};

#[test]
fn is_wall() {
    let board = Board::new(
        "test".to_string(),
        10,
        Vec::from([Wall::new(5, 6), Wall::new(3, 4)]),
    );

    assert!(board.is_wall(&Wall::new(5, 6)));
    assert!(board.is_wall(&Wall::new(3, 4)));

    assert!(!board.is_wall(&Wall::new(5, 4)));
}

#[test]
fn check_create() {
    let board = Board::new(
        "test".to_string(),
        4,
        Vec::from([Wall::new(-5, 7), Wall::new(3, 4)]),
    );

    assert_eq!(board.get_walls(), &Vec::from([Wall::new(3, 3), Wall::new(3, 0)]));
}

#[test]
fn add_wall_out_of_range_is_refused() {
    let mut board = Board::new("b".to_string(), 4, Vec::new());
    assert_eq!(board.add_wall(Wall::new(4, 0)), Err("the point out of range".to_string()));
    assert_eq!(board.add_wall(Wall::new(0, -1)), Err("the point out of range".to_string()));
    assert!(board.get_walls().is_empty());
}

#[test]
fn add_wall_twice_keeps_one() {
    let mut board = Board::new("b".to_string(), 4, Vec::new());
    assert_eq!(board.add_wall(Wall::new(1, 2)), Ok(()));
    assert_eq!(board.add_wall(Wall::new(1, 2)), Ok(()));
    assert_eq!(board.get_walls(), &vec![Wall::new(1, 2)]);
    assert!(board.is_wall(&Wall::new(1, 2)));
}

#[test]
fn remove_wall_removes_only_that_point() {
    let mut board = Board::new("b".to_string(), 4, vec![Wall::new(1, 1), Wall::new(2, 2), Wall::new(1, 1)]);
    board.remove_wall(&Wall::new(1, 1));
    assert!(!board.is_wall(&Wall::new(1, 1)));
    assert!(board.is_wall(&Wall::new(2, 2)));
    board.remove_wall(&Wall::new(3, 3));
    assert_eq!(board.get_walls(), &vec![Wall::new(2, 2)]);
}

#[test]
fn board_drawing_has_frame_and_walls() {
    let board = Board::new("b".to_string(), 2, vec![Wall::new(0, 1)]);
    let table = board.get_table();
    let expected: Vec<Vec<&str>> = vec![
        vec!["┌", "─", "─", "┐"],
        vec!["│", " ", "█", "│"],
        vec!["│", " ", " ", "│"],
        vec!["└", "─", "─", "┘"],
    ];
    assert_eq!(table, expected);
}

#[test]
fn default_and_copy() {
    let board = Board::default();
    assert_eq!(board.get_name(), "test board");
    assert_eq!(board.get_size(), 10);
    assert!(board.is_wall(&Wall::new(5, 5)));
    let copy = board.copy_with_new_name("other".to_string());
    assert_eq!(copy.get_name(), "other");
    assert_eq!(copy.get_size(), 10);
    assert_eq!(copy.get_walls(), board.get_walls());
}

#[test]
fn boards_refuse_a_name_in_use() {
    let mut boards = Boards::from_boards(vec![Board::default()]);
    assert_eq!(
        boards.add("test board".to_string(), Board::default()),
        Err("Board 'test board' already exists".to_string())
    );
    assert_eq!(boards.len(), 1);
    let other = Board::default().copy_with_new_name("second".to_string());
    assert_eq!(boards.add("second".to_string(), other), Ok(()));
    assert_eq!(boards.get_names(), vec!["test board".to_string(), "second".to_string()]);
    assert_eq!(boards.get(1).map(|b| b.get_name()), Some("second"));
    assert!(boards.get(2).is_none());
}
