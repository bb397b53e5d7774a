use crossterm::style::Color;
use minesweeper::mineboard::board::{Board, ItemType};
use minesweeper::mineboard::config::{
    BoardConfig, CLOSED_SYMBOL, FLAG_SYMBOL, LANDMINE_SYMBOL, LINE_BREAK, NUMBER_SYMBOL,
    OPEN_SYMBOL,
};
use minesweeper::mineboard::field::BoardError;
use minesweeper::utils::Coordinates;

fn at(x: usize, y: usize) -> Coordinates {
    Coordinates::new(x, y)
}

fn plain(width: usize, height: usize) -> BoardConfig {
    BoardConfig::new(height, width, 1, "B", "A", "D", "C", "-", "_", ">", "<", Color::Reset)
}

fn lines(text: &str) -> Vec<String> {
    assert!(text.ends_with(LINE_BREAK));
    let mut all: Vec<String> = text.split(LINE_BREAK).map(|l| l.to_string()).collect();
    all.pop();
    all
}

#[test]
fn config_keeps_what_it_is_given() {
    let config = BoardConfig::new(4, 7, 3, "tr", "tl", "br", "bl", "t", "b", "r", "l", Color::Blue);
    assert_eq!(config.height, 4);
    assert_eq!(config.width, 7);
    assert_eq!(config.char_width, 3);
    assert_eq!(config.border_top_right_symbol, "tr");
    assert_eq!(config.border_top_left_symbol, "tl");
    assert_eq!(config.border_bottom_right_symbol, "br");
    assert_eq!(config.border_bottom_left_symbol, "bl");
    assert_eq!(config.border_top, "t");
    assert_eq!(config.border_bottom, "b");
    assert_eq!(config.border_right, "r");
    assert_eq!(config.border_left, "l");
    assert_eq!(config.board_background_colour, Color::Blue);
    let copy = config.clone();
    assert_eq!(copy.width, 7);
    assert_eq!(copy.border_left, "l");
    assert_eq!(copy.board_background_colour, Color::Blue);
}

#[test]
fn unicode_preset() {
    let config = BoardConfig::unicode(10, 20, Color::Reset);
    assert_eq!(config.width, 10);
    assert_eq!(config.height, 20);
    assert_eq!(config.char_width, 2);
    assert_eq!(config.border_top_right_symbol, "─┐");
    assert_eq!(config.border_top_left_symbol, "┌─");
    assert_eq!(config.border_bottom_right_symbol, "─┘");
    assert_eq!(config.border_bottom_left_symbol, "└─");
    assert_eq!(config.border_top, "──");
    assert_eq!(config.border_bottom, "──");
    assert_eq!(config.border_right, " │");
    assert_eq!(config.border_left, "│ ");
    assert_eq!(config.board_background_colour, Color::Reset);
}

#[test]
fn sizes_that_fit() {
    assert!(plain(3, 2).check_fits());
    assert!(plain(0, 0).check_fits());
    assert!(plain(usize::MAX - 2, 1).check_fits());
    assert!(!plain(usize::MAX - 1, 1).check_fits());
    assert!(!plain(1, usize::MAX).check_fits());
    assert!(!plain(usize::MAX / 2, 3).check_fits());
}

#[test]
fn symbols() {
    assert_eq!(LANDMINE_SYMBOL, "💣");
    assert_eq!(FLAG_SYMBOL, "🚩");
    assert_eq!(OPEN_SYMBOL, "  ");
    assert_eq!(CLOSED_SYMBOL, "██");
    assert_eq!(NUMBER_SYMBOL, " ");
    assert_eq!(LINE_BREAK, "\n\r");
}

#[test]
fn new_board_is_blank() {
    let board = Board::new(plain(3, 2), &[at(1, 1), at(2, 0)]).unwrap();
    assert_eq!(*board.landmine_count(), 2);
    assert_eq!(*board.flag_count(), 0);
    assert_eq!(*board.opened_count(), 0);
    assert_eq!(board.get_config().width, 3);
    assert_eq!(board.get_config().height, 2);
    assert_eq!(board.to_string(), "\n\r\n\r\n\r\n\r");
}

#[test]
fn board_refuses_mines_off_the_grid() {
    assert!(matches!(
        Board::new(plain(3, 2), &[at(3, 0)]),
        Err(BoardError::CoordinatesOutOffRange)
    ));
    assert!(matches!(
        Board::new(plain(3, 2), &[at(0, 0), at(0, 2)]),
        Err(BoardError::CoordinatesOutOffRange)
    ));
}

#[test]
fn border_alone() {
    let mut board = Board::new(plain(3, 2), &[]).unwrap();
    board.draw_border();
    assert_eq!(board.to_string(), "A---B\n\r<>\n\r<>\n\rC___D\n\r");
    board.draw_border();
    assert_eq!(board.to_string(), "A---B\n\r<>\n\r<>\n\rC___D\n\r");
}

#[test]
fn border_of_an_empty_grid() {
    let mut board = Board::new(plain(0, 0), &[]).unwrap();
    board.draw_border();
    assert_eq!(board.to_string(), "AB\n\rCD\n\r");
    assert_eq!(board.draw_field(), Ok(()));
    assert_eq!(board.to_string(), "AB\n\rCD\n\r");
}

#[test]
fn field_without_border() {
    let mut board = Board::new(plain(2, 1), &[]).unwrap();
    assert_eq!(board.draw_field(), Ok(()));
    assert_eq!(board.to_string(), "\n\r████\n\r\n\r");
}

#[test]
fn fresh_board_shows_closed_cells() {
    let mut board = Board::new(BoardConfig::unicode(3, 3, Color::Reset), &[]).unwrap();
    board.draw_border();
    board.draw_field().unwrap();
    let text = board.to_string();
    assert_eq!(
        lines(&text),
        vec![
            "┌────────┐",
            "│ ██████ │",
            "│ ██████ │",
            "│ ██████ │",
            "└────────┘",
        ]
    );
    board.click(&at(1, 1)).unwrap();
    let text = board.render();
    assert_eq!(
        lines(&text),
        vec![
            "┌────────┐",
            "│ ██████ │",
            "│ ██  ██ │",
            "│ ██████ │",
            "└────────┘",
        ]
    );
}

#[test]
fn frame_is_stale_until_drawn() {
    let mut board = Board::new(plain(2, 1), &[]).unwrap();
    board.draw_border();
    board.draw_field().unwrap();
    let before = board.to_string();
    board.click(&at(0, 0)).unwrap();
    board.add_flag(&at(1, 0)).unwrap();
    assert_eq!(board.to_string(), before);
    assert_eq!(board.render(), "A--B\n\r<  🚩>\n\rC__D\n\r");
    assert_eq!(board.to_string(), "A--B\n\r<  🚩>\n\rC__D\n\r");
}

#[test]
fn symbols_by_precedence() {
    let mut board = Board::new(plain(3, 3), &[at(0, 0), at(2, 2), at(2, 1)]).unwrap();
    board.draw_border();
    // opened mine, opened number, opened blank, flagged closed, flagged opened mine
    board.click(&at(0, 0)).unwrap();
    board.click(&at(1, 1)).unwrap();
    board.click(&at(0, 2)).unwrap();
    board.add_flag(&at(1, 0)).unwrap();
    board.click(&at(2, 2)).unwrap();
    board.add_flag(&at(2, 2)).unwrap();
    let text = board.render();
    assert_eq!(
        lines(&text),
        vec!["A---B", "<💣🚩██>", "<██3 ██>", "<  ██🚩>", "C___D"]
    );
    board.remove_flag(&at(2, 2)).unwrap();
    board.remove_flag(&at(1, 0)).unwrap();
    board.unclick(&at(0, 0)).unwrap();
    board.click(&at(1, 0)).unwrap();
    board.click(&at(1, 2)).unwrap();
    let text = board.render();
    assert_eq!(
        lines(&text),
        vec!["A---B", "<██2 ██>", "<██3 ██>", "<  2 💣>", "C___D"]
    );
}

#[test]
fn every_number_has_its_digit() {
    let ring = [at(0, 0), at(1, 0), at(2, 0), at(0, 1), at(2, 1), at(0, 2), at(1, 2), at(2, 2)];
    for mines in 1..=8usize {
        let mut board = Board::new(plain(3, 3), &ring[..mines]).unwrap();
        board.click(&at(1, 1)).unwrap();
        board.draw_field().unwrap();
        let text = board.to_string();
        let row = &lines(&text)[2];
        assert_eq!(row, &format!("██{} ██", mines));
        assert_eq!(board.get(&at(1, 1)), Ok(ItemType::Number(mines as i32)));
    }
}

#[test]
fn classification_ignores_flags_and_opened() {
    let mut board = Board::new(plain(3, 3), &[at(0, 0)]).unwrap();
    assert_eq!(board.get(&at(0, 0)), Ok(ItemType::Landmine));
    assert_eq!(board.get(&at(1, 0)), Ok(ItemType::Number(1)));
    assert_eq!(board.get(&at(1, 1)), Ok(ItemType::Number(1)));
    assert_eq!(board.get(&at(2, 2)), Ok(ItemType::Nothing));
    board.add_flag(&at(0, 0)).unwrap();
    board.add_flag(&at(1, 0)).unwrap();
    board.click(&at(0, 0)).unwrap();
    board.click(&at(1, 1)).unwrap();
    board.click(&at(2, 2)).unwrap();
    assert_eq!(board.get(&at(0, 0)), Ok(ItemType::Landmine));
    assert_eq!(board.get(&at(1, 0)), Ok(ItemType::Number(1)));
    assert_eq!(board.get(&at(1, 1)), Ok(ItemType::Number(1)));
    assert_eq!(board.get(&at(2, 2)), Ok(ItemType::Nothing));
    board.unclick(&at(0, 0)).unwrap();
    board.remove_flag(&at(0, 0)).unwrap();
    assert_eq!(board.get(&at(0, 0)), Ok(ItemType::Landmine));
    assert_eq!(board.get(&at(3, 0)), Err(BoardError::CoordinatesOutOffRange));
    assert_eq!(board.get(&at(0, 3)), Err(BoardError::CoordinatesOutOffRange));
}

#[test]
fn a_mine_among_mines_is_a_landmine() {
    let board = Board::new(plain(2, 1), &[at(0, 0), at(1, 0)]).unwrap();
    assert_eq!(board.get(&at(0, 0)), Ok(ItemType::Landmine));
    assert_eq!(board.get(&at(1, 0)), Ok(ItemType::Landmine));
    assert_eq!(*board.landmine_count(), 2);
}

#[test]
fn flags_and_clicks_are_bounds_checked() {
    let mut board = Board::new(plain(3, 2), &[at(1, 1)]).unwrap();
    board.draw_border();
    board.draw_field().unwrap();
    let before = board.to_string();
    assert_eq!(board.add_flag(&at(3, 0)), Err(BoardError::CoordinatesOutOffRange));
    assert_eq!(board.add_flag(&at(0, 2)), Err(BoardError::CoordinatesOutOffRange));
    assert_eq!(board.remove_flag(&at(3, 0)), Err(BoardError::CoordinatesOutOffRange));
    assert_eq!(board.click(&at(3, 1)), Err(BoardError::CoordinatesOutOffRange));
    assert_eq!(board.click(&at(2, 2)), Err(BoardError::CoordinatesOutOffRange));
    assert_eq!(board.unclick(&at(0, 2)), Err(BoardError::CoordinatesOutOffRange));
    assert_eq!(board.have_flag(&at(3, 0)), Err(BoardError::CoordinatesOutOffRange));
    assert_eq!(*board.flag_count(), 0);
    assert_eq!(*board.opened_count(), 0);
    assert_eq!(board.render(), before);
}

#[test]
fn flags_come_and_go() {
    let mut board = Board::new(plain(2, 2), &[]).unwrap();
    assert_eq!(board.have_flag(&at(1, 0)), Ok(false));
    board.add_flag(&at(1, 0)).unwrap();
    assert_eq!(board.have_flag(&at(1, 0)), Ok(true));
    assert_eq!(board.have_flag(&at(0, 0)), Ok(false));
    board.add_flag(&at(1, 0)).unwrap();
    assert_eq!(*board.flag_count(), 1);
    board.remove_flag(&at(1, 0)).unwrap();
    assert_eq!(board.have_flag(&at(1, 0)), Ok(false));
    assert_eq!(*board.flag_count(), 0);
    assert_eq!(*board.opened_count(), 0);
}

#[test]
fn click_opens_one_cell_only() {
    let mut board = Board::new(plain(3, 3), &[]).unwrap();
    board.click(&at(1, 1)).unwrap();
    assert_eq!(*board.opened_count(), 1);
    board.click(&at(1, 1)).unwrap();
    assert_eq!(*board.opened_count(), 1);
    let text = board.render();
    assert_eq!(lines(&text), vec!["", "██████", "██  ██", "██████", ""]);
    board.unclick(&at(1, 1)).unwrap();
    assert_eq!(*board.opened_count(), 0);
    let text = board.render();
    assert_eq!(lines(&text), vec!["", "██████", "██████", "██████", ""]);
}

#[test]
fn five_by_five_with_a_mine_in_the_middle() {
    let mut board = Board::new(BoardConfig::unicode(5, 5, Color::Reset), &[at(2, 2)]).unwrap();
    assert_eq!(board.get(&at(0, 0)), Ok(ItemType::Nothing));
    assert_eq!(board.click(&at(0, 0)), Ok(()));
    assert_eq!(*board.opened_count(), 1);
    assert_eq!(board.get(&at(2, 2)), Ok(ItemType::Landmine));
    assert_eq!(board.click(&at(2, 2)), Ok(()));
    assert_eq!(*board.opened_count(), 2);
    assert_eq!(*board.landmine_count(), 1);
}

#[test]
fn a_copy_is_a_board_of_its_own() {
    let mut board = Board::new(plain(2, 1), &[at(0, 0)]).unwrap();
    board.draw_border();
    let mut copy = board.clone();
    copy.click(&at(1, 0)).unwrap();
    assert_eq!(copy.render(), "A--B\n\r<██1 >\n\rC__D\n\r");
    assert_eq!(board.render(), "A--B\n\r<████>\n\rC__D\n\r");
    assert_eq!(*copy.landmine_count(), 1);
}
