use crossterm::style::Color;
use minesweeper::gameloop::{
    acts_on_cell, key_request, place_mine, Direction, Game, GameState, Key, KeyPress, KeyRequest, MouseAction,
    MouseButton, MouseInput, REDRAW_LIMIT,
};
use minesweeper::mineboard::config::BoardConfig;
use minesweeper::mineboard::field::BoardError;
use minesweeper::utils::Coordinates;

fn at(x: usize, y: usize) -> Coordinates {
    Coordinates::new(x, y)
}

fn press(key: Key) -> KeyPress {
    KeyPress { key, modified: false }
}

fn mouse(column: u16, row: u16, action: MouseAction) -> MouseInput {
    MouseInput { column, row, action }
}

fn game(width: usize, height: usize, mines: &[Coordinates]) -> Game {
    Game::with_mines(BoardConfig::unicode(width, height, Color::Reset), mines).unwrap()
}

fn lines(text: &str) -> Vec<String> {
    let mut all: Vec<String> = text.split("\n\r").map(|l| l.to_string()).collect();
    all.pop();
    all
}

#[test]
fn keys_and_what_they_ask_for() {
    let cases = [
        (Key::Char('W'), KeyRequest::Move(Direction::Up)),
        (Key::Char('w'), KeyRequest::Move(Direction::Up)),
        (Key::Up, KeyRequest::Move(Direction::Up)),
        (Key::Char('S'), KeyRequest::Move(Direction::Down)),
        (Key::Char('s'), KeyRequest::Move(Direction::Down)),
        (Key::Down, KeyRequest::Move(Direction::Down)),
        (Key::Char('D'), KeyRequest::Move(Direction::Right)),
        (Key::Char('d'), KeyRequest::Move(Direction::Right)),
        (Key::Right, KeyRequest::Move(Direction::Right)),
        (Key::Char('A'), KeyRequest::Move(Direction::Left)),
        (Key::Char('a'), KeyRequest::Move(Direction::Left)),
        (Key::Left, KeyRequest::Move(Direction::Left)),
        (Key::Char('Q'), KeyRequest::Quit),
        (Key::Char('q'), KeyRequest::Quit),
        (Key::Enter, KeyRequest::Open),
        (Key::Char(' '), KeyRequest::Open),
        (Key::Char('F'), KeyRequest::Flag),
        (Key::Char('f'), KeyRequest::Flag),
        (Key::Char('x'), KeyRequest::Nothing),
        (Key::Other, KeyRequest::Nothing),
    ];
    for (key, request) in cases {
        assert_eq!(key_request(&press(key)), request);
        assert_eq!(key_request(&KeyPress { key, modified: true }), KeyRequest::Nothing);
    }
}

#[test]
fn requests_that_act_on_a_cell() {
    assert!(acts_on_cell(&KeyRequest::Open));
    assert!(acts_on_cell(&KeyRequest::Flag));
    assert!(!acts_on_cell(&KeyRequest::Quit));
    assert!(!acts_on_cell(&KeyRequest::Nothing));
    assert!(!acts_on_cell(&KeyRequest::Move(Direction::Up)));
}

#[test]
fn play_ends_on_quit_and_on_a_mine() {
    let mut game = game(2, 1, &[at(1, 0)]);
    assert!(!game.is_over());
    game.process_key(&press(Key::Enter), 2, 1);
    assert!(!game.is_over());
    game.process_key(&press(Key::Enter), 4, 1);
    assert!(game.is_over());
    let mut game = self::game(2, 1, &[]);
    game.process_key(&press(Key::Char('q')), 2, 1);
    assert!(game.is_over());
}

#[test]
fn a_candidate_is_taken_once() {
    let mut mines = vec![at(1, 1)];
    assert!(place_mine(&mut mines, at(0, 1)));
    assert_eq!(mines, vec![at(1, 1), at(0, 1)]);
    assert!(!place_mine(&mut mines, at(1, 1)));
    assert!(!place_mine(&mut mines, at(0, 1)));
    assert_eq!(mines, vec![at(1, 1), at(0, 1)]);
    assert!(place_mine(&mut mines, at(1, 0)));
    assert_eq!(mines.len(), 3);
}

#[test]
fn generated_mines_are_different_cells_of_the_grid() {
    let config = BoardConfig::unicode(6, 4, Color::Reset);
    for count in [0usize, 1, 5, 23, 24] {
        let mines = Game::gen_landmine(count, &config);
        assert_eq!(mines.len(), count);
        for (i, mine) in mines.iter().enumerate() {
            assert!(mine.x < 6 && mine.y < 4);
            assert!(!mines[..i].contains(mine));
        }
    }
}

#[test]
fn a_full_grid_is_all_mines() {
    assert!(REDRAW_LIMIT > 0);
    let config = BoardConfig::unicode(3, 3, Color::Reset);
    let mut mines = Game::gen_landmine(9, &config);
    mines.sort_by_key(|p| (p.y, p.x));
    let all: Vec<Coordinates> = (0..3).flat_map(|y| (0..3).map(move |x| at(x, y))).collect();
    assert_eq!(mines, all);
}

#[test]
fn a_new_game_is_on_with_the_border_drawn() {
    let mut game = Game::new(BoardConfig::unicode(4, 3, Color::Reset), 5).unwrap();
    assert_eq!(game.get_state(), &GameState::Playing);
    assert_eq!(*game.landmine_count(), 5);
    let text = game.render();
    assert_eq!(
        lines(&text),
        vec![
            "┌──────────┐",
            "│ ████████ │",
            "│ ████████ │",
            "│ ████████ │",
            "└──────────┘",
        ]
    );
}

#[test]
fn room_for_mines() {
    let config = BoardConfig::unicode(4, 3, Color::Reset);
    assert!(Game::has_room(&config, 0));
    assert!(Game::has_room(&config, 12));
    assert!(!Game::has_room(&config, 13));
    assert!(!Game::has_room(&BoardConfig::unicode(usize::MAX, 2, Color::Reset), 1));
    assert!(Game::has_room(&BoardConfig::unicode(0, 0, Color::Reset), 0));
    assert!(!Game::has_room(&BoardConfig::unicode(0, 5, Color::Reset), 1));
}

#[test]
fn a_game_with_given_mines() {
    let game = game(3, 3, &[at(1, 1), at(0, 2)]);
    assert_eq!(*game.landmine_count(), 2);
    assert_eq!(game.get_state(), &GameState::Playing);
    let r = Game::with_mines(BoardConfig::unicode(3, 3, Color::Reset), &[at(3, 3)]);
    assert!(matches!(r, Err(BoardError::CoordinatesOutOffRange)));
}

#[test]
fn terminal_positions_and_cells() {
    let game = game(3, 2, &[]);
    assert_eq!(game.terminal_pos_to_coordinates(0, 0), None);
    assert_eq!(game.terminal_pos_to_coordinates(1, 1), None);
    assert_eq!(game.terminal_pos_to_coordinates(2, 0), None);
    assert_eq!(game.terminal_pos_to_coordinates(2, 1), Some(at(0, 0)));
    assert_eq!(game.terminal_pos_to_coordinates(3, 1), Some(at(0, 0)));
    assert_eq!(game.terminal_pos_to_coordinates(4, 1), Some(at(1, 0)));
    assert_eq!(game.terminal_pos_to_coordinates(7, 2), Some(at(2, 1)));
    assert_eq!(game.terminal_pos_to_coordinates(8, 2), None);
    assert_eq!(game.terminal_pos_to_coordinates(7, 3), None);
    assert_eq!(game.terminal_pos_to_coordinates(u16::MAX, u16::MAX), None);
    assert_eq!(
        game.get_coordinates_from_mouse(&mouse(6, 1, MouseAction::Other)),
        Some(at(2, 0))
    );
    assert_eq!(game.get_coordinates_from_mouse(&mouse(1, 6, MouseAction::Other)), None);
}

#[test]
fn cells_of_another_width() {
    let wide = BoardConfig::new(2, 2, 3, "+", "+", "+", "+", "-", "-", "|", "|", Color::Reset);
    let game = Game::with_mines(wide, &[]).unwrap();
    assert_eq!(game.terminal_pos_to_coordinates(2, 1), None);
    assert_eq!(game.terminal_pos_to_coordinates(3, 1), Some(at(0, 0)));
    assert_eq!(game.terminal_pos_to_coordinates(5, 2), Some(at(0, 1)));
    assert_eq!(game.terminal_pos_to_coordinates(8, 2), Some(at(1, 1)));
    assert_eq!(game.terminal_pos_to_coordinates(9, 2), None);
    assert_eq!(game.mouse_target(&mouse(8, 2, MouseAction::Other)), (6, 2));
    assert_eq!(game.cursor_step(&Direction::Left), 3);
    let none = BoardConfig::new(2, 2, 0, "+", "+", "+", "+", "-", "-", "|", "|", Color::Reset);
    let game = Game::with_mines(none, &[]).unwrap();
    assert_eq!(game.terminal_pos_to_coordinates(3, 1), None);
    assert_eq!(game.mouse_target(&mouse(5, 2, MouseAction::Other)), (5, 2));
    assert_eq!(game.cursor_step(&Direction::Right), 0);
}

#[test]
fn the_cursor_goes_to_the_start_of_a_cell() {
    let game = game(3, 2, &[]);
    assert_eq!(game.mouse_target(&mouse(0, 0, MouseAction::Other)), (0, 0));
    assert_eq!(game.mouse_target(&mouse(5, 2, MouseAction::Other)), (4, 2));
    assert_eq!(game.mouse_target(&mouse(4, 7, MouseAction::Down(MouseButton::Left))), (4, 7));
    assert_eq!(game.mouse_target(&mouse(u16::MAX, 1, MouseAction::Other)), (u16::MAX - 1, 1));
}

#[test]
fn cursor_steps() {
    let game = game(3, 2, &[]);
    assert_eq!(game.cursor_step(&Direction::Up), 1);
    assert_eq!(game.cursor_step(&Direction::Down), 1);
    assert_eq!(game.cursor_step(&Direction::Left), 2);
    assert_eq!(game.cursor_step(&Direction::Right), 2);
    let huge = BoardConfig::new(1, 1, 65_539, "", "", "", "", "", "", "", "", Color::Reset);
    let game = Game::with_mines(huge, &[]).unwrap();
    assert_eq!(game.cursor_step(&Direction::Left), 3);
}

#[test]
fn positions_in_range() {
    let game = game(3, 2, &[]);
    assert!(game.pos_in_range(0, 0));
    assert!(game.pos_in_range(2, 1));
    assert!(!game.pos_in_range(3, 1));
    assert!(!game.pos_in_range(2, 2));
    assert!(!game.pos_in_range(u32::MAX, 0));
}

#[test]
fn movement_keys_hand_back_a_step() {
    let mut game = game(3, 3, &[at(0, 0)]);
    assert_eq!(game.process_key(&press(Key::Up), 2, 1), Some(Direction::Up));
    assert_eq!(game.process_key(&press(Key::Char('s')), 2, 1), Some(Direction::Down));
    assert_eq!(game.process_key(&press(Key::Char('A')), 2, 1), Some(Direction::Left));
    assert_eq!(game.process_key(&press(Key::Right), 2, 1), Some(Direction::Right));
    assert_eq!(game.get_state(), &GameState::Playing);
    let text = game.render();
    assert_eq!(lines(&text)[1], "│ ██████ │");
}

#[test]
fn modified_and_unknown_keys_do_nothing() {
    let mut game = game(3, 3, &[at(0, 0)]);
    assert_eq!(game.process_key(&KeyPress { key: Key::Enter, modified: true }, 2, 1), None);
    assert_eq!(game.process_key(&KeyPress { key: Key::Char('q'), modified: true }, 2, 1), None);
    assert_eq!(game.process_key(&KeyPress { key: Key::Up, modified: true }, 2, 1), None);
    assert_eq!(game.process_key(&press(Key::Char('x')), 2, 1), None);
    assert_eq!(game.process_key(&press(Key::Other), 2, 1), None);
    assert_eq!(game.get_state(), &GameState::Playing);
    let text = game.render();
    assert_eq!(lines(&text)[1], "│ ██████ │");
}

#[test]
fn q_quits() {
    let mut game = game(3, 3, &[]);
    assert_eq!(game.process_key(&press(Key::Char('q')), 0, 0), None);
    assert_eq!(game.get_state(), &GameState::Quit);
    let mut game = self::game(3, 3, &[]);
    assert_eq!(game.process_key(&press(Key::Char('Q')), 2, 1), None);
    assert_eq!(game.get_state(), &GameState::Quit);
}

#[test]
fn enter_opens_the_cell_under_the_cursor() {
    let mut game = game(5, 5, &[at(2, 2)]);
    assert_eq!(game.process_key(&press(Key::Enter), 2, 1), None);
    assert_eq!(game.get_state(), &GameState::Playing);
    let text = game.render();
    assert_eq!(lines(&text)[1], "│   ████████ │");
    assert_eq!(game.process_key(&press(Key::Char(' ')), 4, 2), None);
    assert_eq!(game.get_state(), &GameState::Playing);
    let text = game.render();
    assert_eq!(lines(&text)[2], "│ ██1 ██████ │");
    assert_eq!(game.process_key(&press(Key::Enter), 6, 3), None);
    assert_eq!(game.get_state(), &GameState::HitMine);
    let text = game.render();
    assert_eq!(lines(&text)[3], "│ ████💣████ │");
}

#[test]
fn f_plants_and_takes_a_flag() {
    let mut game = game(3, 2, &[at(0, 0)]);
    assert_eq!(game.process_key(&press(Key::Char('f')), 3, 1), None);
    let text = game.render();
    assert_eq!(lines(&text)[1], "│ 🚩████ │");
    assert_eq!(game.get_state(), &GameState::Playing);
    assert_eq!(game.process_key(&press(Key::Char('F')), 2, 1), None);
    let text = game.render();
    assert_eq!(lines(&text)[1], "│ ██████ │");
    assert_eq!(game.get_state(), &GameState::Playing);
}

#[test]
fn keys_off_the_grid_do_nothing() {
    let mut game = game(3, 2, &[at(0, 0)]);
    assert_eq!(game.process_key(&press(Key::Enter), 0, 0), None);
    assert_eq!(game.process_key(&press(Key::Enter), 8, 1), None);
    assert_eq!(game.process_key(&press(Key::Char('f')), 2, 3), None);
    assert_eq!(game.get_state(), &GameState::Playing);
    let text = game.render();
    assert_eq!(lines(&text), vec!["┌────────┐", "│ ██████ │", "│ ██████ │", "└────────┘"]);
}

#[test]
fn mouse_buttons() {
    let mut game = game(3, 2, &[at(2, 1)]);
    game.process_mouse(&mouse(2, 1, MouseAction::Down(MouseButton::Left)), 2, 1);
    game.process_mouse(&mouse(4, 1, MouseAction::Down(MouseButton::Right)), 4, 1);
    game.process_mouse(&mouse(6, 1, MouseAction::Down(MouseButton::Middle)), 6, 1);
    game.process_mouse(&mouse(2, 2, MouseAction::Other), 2, 2);
    assert_eq!(game.get_state(), &GameState::Playing);
    let text = game.render();
    assert_eq!(lines(&text), vec!["┌────────┐", "│   🚩██ │", "│ ██████ │", "└────────┘"]);
    game.process_mouse(&mouse(4, 1, MouseAction::Down(MouseButton::Right)), 4, 1);
    game.process_mouse(&mouse(0, 0, MouseAction::Down(MouseButton::Left)), 0, 0);
    game.process_mouse(&mouse(8, 1, MouseAction::Down(MouseButton::Left)), 8, 1);
    assert_eq!(game.get_state(), &GameState::Playing);
    let text = game.render();
    assert_eq!(lines(&text), vec!["┌────────┐", "│   ████ │", "│ ██████ │", "└────────┘"]);
    game.process_mouse(&mouse(6, 2, MouseAction::Down(MouseButton::Left)), 6, 2);
    assert_eq!(game.get_state(), &GameState::HitMine);
    let text = game.render();
    assert_eq!(lines(&text)[2], "│ ████💣 │");
}

#[test]
fn the_mouse_acts_where_the_cursor_stands() {
    let mut game = game(3, 2, &[]);
    game.process_mouse(&mouse(60, 20, MouseAction::Down(MouseButton::Left)), 4, 2);
    let text = game.render();
    assert_eq!(lines(&text), vec!["┌────────┐", "│ ██████ │", "│ ██  ██ │", "└────────┘"]);
}

#[test]
fn a_game_on_five_by_five() {
    let mut game = game(5, 5, &[at(2, 2)]);
    game.process_mouse(&mouse(2, 1, MouseAction::Down(MouseButton::Left)), 2, 1);
    assert_eq!(game.get_state(), &GameState::Playing);
    let text = game.render();
    assert_eq!(text.matches("  ").count(), 1);
    assert_eq!(*game.landmine_count(), 1);
    game.process_mouse(&mouse(6, 3, MouseAction::Down(MouseButton::Left)), 6, 3);
    assert_eq!(game.get_state(), &GameState::HitMine);
}

#[test]
fn a_flagged_mine_still_goes_off() {
    let mut game = game(2, 1, &[at(1, 0)]);
    game.process_key(&press(Key::Char('f')), 4, 1);
    game.process_key(&press(Key::Enter), 4, 1);
    assert_eq!(game.get_state(), &GameState::HitMine);
    let text = game.render();
    assert_eq!(lines(&text)[1], "│ ██🚩 │");
    let copy = game.clone();
    assert_eq!(copy.get_state(), &GameState::HitMine);
}
