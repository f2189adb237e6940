use snake::{
    App, Board, Boards, CreateBoardTui, Direction, Game, GameOverTui, GameTui, Key, Point, Scoreboard,
    SelectBoardTuiResult, Stage, State,
};

#[test]
fn scoreboard_lists_highest_first() {
    let mut scoreboard = Scoreboard::empty();
    assert_eq!(scoreboard.get("a"), None);
    scoreboard.add("a".to_string(), 3);
    scoreboard.add("b".to_string(), 9);
    scoreboard.add("a".to_string(), 7);
    scoreboard.add("a".to_string(), 1);
    scoreboard.add("a".to_string(), 7);
    assert_eq!(scoreboard.get("a"), Some(vec![7, 7, 3, 1]));
    assert_eq!(scoreboard.get("b"), Some(vec![9]));
    assert_eq!(scoreboard.get("c"), None);
    assert_eq!(scoreboard.get_names(), vec!["a".to_string(), "b".to_string()]);
}

#[test]
fn game_over_records_and_finds_the_best() {
    let mut scoreboard = Scoreboard::empty();
    scoreboard.add("x".to_string(), 12);
    let screen = GameOverTui::new("x".to_string(), 5, scoreboard);
    assert_eq!(screen.best_record(), 12);
    assert_eq!(screen.get_score(), 5);
    assert_eq!(screen.get_board_name(), "x");
    let scoreboard = screen.into_scoreboard();
    assert_eq!(scoreboard.get("x"), Some(vec![12, 5]));
    let screen = GameOverTui::new("y".to_string(), 4, scoreboard);
    assert_eq!(screen.best_record(), 4);
}

fn press(editor: &mut CreateBoardTui, keys: &[Key]) {
    for key in keys {
        editor.handle_key(*key);
    }
}

#[test]
fn editor_makes_and_stores_a_board() {
    let mut editor = CreateBoardTui::new(Boards::from_boards(vec![Board::default()]));
    assert_eq!(editor.get_stage(), Stage::Size);
    press(&mut editor, &[Key::Char('1'), Key::Char('2'), Key::Backspace, Key::Char('x'), Key::Char('4')]);
    assert_eq!(editor.get_size(), 14);
    press(&mut editor, &[Key::Enter]);
    assert_eq!(editor.get_stage(), Stage::Wall);
    assert_eq!(editor.get_board().get_size(), 14);
    press(&mut editor, &[Key::Down, Key::Char('l'), Key::Char(' ')]);
    assert_eq!(editor.get_wall(), Point::new(1, 1));
    assert!(editor.get_board().is_wall(&Point::new(1, 1)));
    press(&mut editor, &[Key::Up, Key::Up, Key::Char(' ')]);
    assert_eq!(editor.get_wall(), Point::new(13, 1));
    assert!(editor.get_board().is_wall(&Point::new(13, 1)));
    press(&mut editor, &[Key::Char(' ')]);
    assert!(!editor.get_board().is_wall(&Point::new(13, 1)));
    press(&mut editor, &[Key::Enter]);
    assert_eq!(editor.get_stage(), Stage::Name);
    press(&mut editor, &[Key::Char('t'), Key::Char('e'), Key::Char('s'), Key::Char('t'), Key::Char(' ')]);
    press(&mut editor, &[Key::Char('b'), Key::Char('o'), Key::Char('a'), Key::Char('r'), Key::Char('d')]);
    press(&mut editor, &[Key::Enter]);
    assert_eq!(editor.get_error(), "Board 'test board' already exists");
    assert!(!editor.is_done());
    press(&mut editor, &[Key::Backspace, Key::Backspace, Key::Backspace, Key::Backspace, Key::Backspace]);
    press(&mut editor, &[Key::Char('x')]);
    assert_eq!(editor.get_name(), "test x");
    press(&mut editor, &[Key::Enter]);
    assert!(editor.is_done());
    let boards = editor.into_boards();
    assert_eq!(boards.get_names(), vec!["test board".to_string(), "test x".to_string()]);
    let stored = boards.get(1).unwrap();
    assert_eq!(stored.get_size(), 14);
    assert_eq!(stored.get_walls(), &vec![Point::new(1, 1)]);
}

#[test]
fn editor_size_stays_addressable() {
    let mut editor = CreateBoardTui::new(Boards::from_boards(Vec::new()));
    press(&mut editor, &[Key::Enter]);
    assert_eq!(editor.get_stage(), Stage::Size);
    for _ in 0..6 {
        press(&mut editor, &[Key::Char('9')]);
    }
    assert_eq!(editor.get_size(), 9999);
    press(&mut editor, &[Key::Char('q')]);
    assert!(editor.is_done());
}

#[test]
fn play_screen_pauses_and_turns() {
    let board = Board::new("b".to_string(), 7, Vec::new());
    let mut screen = GameTui::new(Game::new(&board, 3).unwrap());
    screen.handle_key(Key::Char('k'));
    assert_eq!(screen.get_game().get_heading(), Direction::Up);
    screen.handle_key(Key::Esc);
    assert!(screen.is_stopped());
    screen.handle_key(Key::Left);
    assert_eq!(screen.get_game().get_heading(), Direction::Up);
    screen.handle_key(Key::Esc);
    assert!(!screen.is_stopped());
    screen.handle_key(Key::Down);
    assert_eq!(screen.get_game().get_heading(), Direction::Up);
    screen.tick();
    assert!(!screen.is_exit());
    screen.handle_key(Key::Left);
    assert_eq!(screen.get_game().get_heading(), Direction::Left);
    screen.handle_key(Key::Char('Q'));
    assert!(screen.is_exit());
}

#[test]
fn screens_follow_each_other() {
    let mut app = App::new();
    assert!(matches!(app.state, State::SelectBoard));
    app.after_select(SelectBoardTuiResult::CreateBoard);
    assert!(matches!(app.state, State::CreateBoard));
    app.back_to_select();
    app.after_select(SelectBoardTuiResult::Board("b".to_string(), Board::default()));
    assert!(matches!(app.state, State::PlayGame(_)));
    assert_eq!(app.board_name, "b");
    app.after_game(4);
    assert!(matches!(app.state, State::GameOver(4)));
    app.back_to_select();
    app.after_select(SelectBoardTuiResult::ScoreBoards);
    assert!(matches!(app.state, State::Scoreboard));
    app.back_to_select();
    app.after_select(SelectBoardTuiResult::Exit);
    assert!(app.exit);
}
