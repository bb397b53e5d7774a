//! The game around a board: where the mines are put, what the keys and the
//! mouse ask for, and what a click or a flag does to the state of play.
//! Reading input and moving the cursor are left to the caller; every
//! decision is made here.

use crate::mineboard::board::{blank_frame, border_drawn, Board, ItemType};
use crate::mineboard::cells::{all_cells, in_bounds, lemma_all_cells, read_before};
use crate::mineboard::config::BoardConfig;
use crate::mineboard::field::BoardError;
use crate::random::draw_below;
use crate::utils::Coordinates;
use vstd::prelude::*;
use vstd::set_lib::lemma_len_subset;

verus! {

/// How many times a mine is drawn anew when it lands on a taken cell, before
/// it is put on the first free cell instead.
pub const REDRAW_LIMIT: usize = 1000;

/// Where a game stands. Play goes on until the player quits or opens a
/// mine; no move made here leads to `Win`.
#[derive(Clone, Copy, Debug, PartialEq, Eq, Structural)]
pub enum GameState {
    Playing,
    Win,
    HitMine,
    Quit,
}

/// A way to move the cursor.
#[derive(Clone, Copy, Debug, PartialEq, Eq, Structural)]
pub enum Direction {
    Up,
    Down,
    Left,
    Right,
}

/// A key, as far as the game tells keys apart.
#[derive(Clone, Copy, Debug, PartialEq, Eq, Structural)]
pub enum Key {
    Char(char),
    Up,
    Down,
    Left,
    Right,
    Enter,
    Other,
}

/// A key press: the key, and whether a modifier was held with it.
#[derive(Clone, Copy, Debug, PartialEq, Eq, Structural)]
pub struct KeyPress {
    pub key: Key,
    pub modified: bool,
}

/// A button of the mouse.
#[derive(Clone, Copy, Debug, PartialEq, Eq, Structural)]
pub enum MouseButton {
    Left,
    Right,
    Middle,
}

/// What the mouse did: a button went down, or anything else.
#[derive(Clone, Copy, Debug, PartialEq, Eq, Structural)]
pub enum MouseAction {
    Down(MouseButton),
    Other,
}

/// A mouse event: where on the terminal, and what happened there.
#[derive(Clone, Copy, Debug, PartialEq, Eq, Structural)]
pub struct MouseInput {
    pub column: u16,
    pub row: u16,
    pub action: MouseAction,
}

/// What a key press asks the game to do.
#[derive(Clone, Copy, Debug, PartialEq, Eq, Structural)]
pub enum KeyRequest {
    Nothing,
    Move(Direction),
    Quit,
    Open,
    Flag,
}

/// What `press` asks for. A press with a modifier asks for nothing. W, S, A
/// and D and the arrows move the cursor, Q quits, Enter and the space bar
/// open the cell under the cursor, F plants or takes its flag.
pub open spec fn request_of(press: KeyPress) -> KeyRequest {
    if press.modified {
        KeyRequest::Nothing
    } else {
        match press.key {
            Key::Up => KeyRequest::Move(Direction::Up),
            Key::Down => KeyRequest::Move(Direction::Down),
            Key::Right => KeyRequest::Move(Direction::Right),
            Key::Left => KeyRequest::Move(Direction::Left),
            Key::Enter => KeyRequest::Open,
            Key::Other => KeyRequest::Nothing,
            Key::Char(c) => if c == 'W' || c == 'w' {
                KeyRequest::Move(Direction::Up)
            } else if c == 'S' || c == 's' {
                KeyRequest::Move(Direction::Down)
            } else if c == 'D' || c == 'd' {
                KeyRequest::Move(Direction::Right)
            } else if c == 'A' || c == 'a' {
                KeyRequest::Move(Direction::Left)
            } else if c == 'Q' || c == 'q' {
                KeyRequest::Quit
            } else if c == ' ' {
                KeyRequest::Open
            } else if c == 'F' || c == 'f' {
                KeyRequest::Flag
            } else {
                KeyRequest::Nothing
            },
        }
    }
}

/// Tells what `press` asks for.
pub fn key_request(press: &KeyPress) -> (request: KeyRequest)
    ensures
        request == request_of(*press),
{
    if press.modified {
        return KeyRequest::Nothing;
    }
    match press.key {
        Key::Char('W') | Key::Char('w') | Key::Up => KeyRequest::Move(Direction::Up),
        Key::Char('S') | Key::Char('s') | Key::Down => KeyRequest::Move(Direction::Down),
        Key::Char('D') | Key::Char('d') | Key::Right => KeyRequest::Move(Direction::Right),
        Key::Char('A') | Key::Char('a') | Key::Left => KeyRequest::Move(Direction::Left),
        Key::Char('Q') | Key::Char('q') => KeyRequest::Quit,
        Key::Enter | Key::Char(' ') => KeyRequest::Open,
        Key::Char('F') | Key::Char('f') => KeyRequest::Flag,
        _ => KeyRequest::Nothing,
    }
}

/// Tells whether `request` acts on the cell under the cursor, so that the
/// caller has to find out where the cursor stands.
pub fn acts_on_cell(request: &KeyRequest) -> (acts: bool)
    ensures
        acts == (*request == KeyRequest::Open || *request == KeyRequest::Flag),
{
    match request {
        KeyRequest::Open | KeyRequest::Flag => true,
        _ => false,
    }
}

/// The grid cell shown at column `x` of row `y` of the terminal, when the
/// frame of a board drawn with `config` starts at the top left corner: the
/// border takes the first row and the first `char_width` columns, and every
/// cell is `char_width` columns wide. `None` off the grid.
pub open spec fn cell_under(config: BoardConfig, x: u16, y: u16) -> Option<Coordinates> {
    if config.char_width == 0 || x < config.char_width || y < 1 {
        None
    } else if (x as int) / (config.char_width as int) - 1 >= config.width || y - 1
        >= config.height {
        None
    } else {
        Some(
            Coordinates {
                x: ((x as int) / (config.char_width as int) - 1) as usize,
                y: (y - 1) as usize,
            },
        )
    }
}

/// The column at which the cell begins that covers `column`, for cells
/// `char_width` columns wide.
pub open spec fn cell_start(char_width: u32, column: u16) -> u16 {
    if char_width == 0 {
        column
    } else {
        ((column as int) - (column as int) % (char_width as int)) as u16
    }
}

/// Whether `mines` names cells of a `width` by `height` grid and names none twice.
pub open spec fn distinct_cells(mines: Seq<Coordinates>, width: nat, height: nat) -> bool {
    &&& mines.no_duplicates()
    &&& forall|i: int| 0 <= i < mines.len() ==> in_bounds(#[trigger] mines[i], width, height)
}

/// Whether `pos` is among `mines`.
fn is_chosen(mines: &Vec<Coordinates>, pos: Coordinates) -> (chosen: bool)
    ensures
        chosen == mines@.contains(pos),
{
    let mut i: usize = 0;
    while i < mines.len()
        invariant
            i <= mines.len(),
            forall|k: int| 0 <= k < i ==> mines@[k] != pos,
        decreases mines.len() - i,
    {
        if mines[i] == pos {
            return true;
        }
        i += 1;
    }
    false
}

/// Takes `candidate` into `mines` unless it is there already, and tells
/// whether it was taken.
pub fn place_mine(mines: &mut Vec<Coordinates>, candidate: Coordinates) -> (placed: bool)
    ensures
        placed == !old(mines)@.contains(candidate),
        final(mines)@ == (if placed {
            old(mines)@.push(candidate)
        } else {
            old(mines)@
        }),
{
    if is_chosen(mines, candidate) {
        false
    } else {
        mines.push(candidate);
        true
    }
}

/// The first cell, reading row by row, that is not among `mines`.
fn first_free_cell(mines: &Vec<Coordinates>, width: usize, height: usize) -> (pos: Coordinates)
    requires
        distinct_cells(mines@, width as nat, height as nat),
        mines.len() < width * height <= usize::MAX,
    ensures
        in_bounds(pos, width as nat, height as nat),
        !mines@.contains(pos),
{
    let mut y: usize = 0;
    while y < height
        invariant
            y <= height,
            forall|p: Coordinates|
                in_bounds(p, width as nat, height as nat) && read_before(p, 0, y as nat)
                    ==> mines@.contains(p),
        decreases height - y,
    {
        let mut x: usize = 0;
        while x < width
            invariant
                y < height,
                x <= width,
                forall|p: Coordinates|
                    in_bounds(p, width as nat, height as nat) && read_before(p, x as nat, y as nat)
                        ==> mines@.contains(p),
            decreases width - x,
        {
            let pos = Coordinates::new(x, y);
            if !is_chosen(mines, pos) {
                return pos;
            }
            x += 1;
        }
        y += 1;
    }
    proof {
        let taken = mines@.to_set();
        let cells = all_cells(width as nat, height as nat);
        mines@.unique_seq_to_set();
        lemma_all_cells(width as nat, height as nat);
        assert(cells.subset_of(taken));
        lemma_len_subset(cells, taken);
        assert(false);
    }
    Coordinates::new(0, 0)
}

/// A game: a board and where play stands.
#[derive(Debug)]
pub struct Game {
    board: Board,
    state: GameState,
}

impl Clone for Game {
    /// A copy in the same state of play, on a board in the same state.
    fn clone(&self) -> (copy: Self)
        ensures
            copy.state() == self.state(),
            self.wf() ==> {
                &&& copy.wf()
                &&& copy.board().same_but_frame(&self.board())
                &&& copy.board().frame() == self.board().frame()
            },
    {
        Self { board: self.board.clone(), state: self.state }
    }
}

impl Game {
    /// The board of the game.
    pub closed spec fn board(&self) -> Board {
        self.board
    }

    /// Where play stands.
    pub closed spec fn state(&self) -> GameState {
        self.state
    }

    /// The board of the game is well formed.
    pub open spec fn wf(&self) -> bool {
        self.board().wf()
    }

    /// Whether this game is `before` with the cell at `pos` opened: play has
    /// hit a mine if one lies there, and stands as it stood if none does.
    pub open spec fn opened_at(&self, before: &Game, pos: Coordinates) -> bool {
        &&& self.board().same_but_opened(&before.board())
        &&& self.board().opened() == before.board().opened().insert(pos)
        &&& self.state() == (if before.board().mines().contains(pos) {
            GameState::HitMine
        } else {
            before.state()
        })
    }

    /// Whether this game is `before` with the flag at `pos` planted if none
    /// stood there, and taken away if one did.
    pub open spec fn flag_toggled_at(&self, before: &Game, pos: Coordinates) -> bool {
        &&& self.board().same_but_flags(&before.board())
        &&& self.board().flags() == (if before.board().flags().contains(pos) {
            before.board().flags().remove(pos)
        } else {
            before.board().flags().insert(pos)
        })
        &&& self.state() == before.state()
    }

    /// Whether this game has just been set up on `config`: play is on, no
    /// cell is flagged or opened, and the frame shows the border around cells
    /// not yet drawn.
    pub open spec fn fresh(&self, config: BoardConfig) -> bool {
        &&& self.wf()
        &&& self.state() == GameState::Playing
        &&& self.board().configuration() == config
        &&& self.board().flags() == Set::<Coordinates>::empty()
        &&& self.board().opened() == Set::<Coordinates>::empty()
        &&& border_drawn(
            self.board().frame(),
            blank_frame((config.width + 2) as nat, (config.height + 2) as nat),
            config,
        )
    }

    /// Tests whether a board of the size that `config` gives can be
    /// addressed on this machine and has a cell for each of `landmine_count` mines.
    pub fn has_room(config: &BoardConfig, landmine_count: usize) -> (room: bool)
        ensures
            room == (config.fits() && landmine_count <= config.width * config.height),
    {
        config.check_fits() && landmine_count <= config.width * config.height
    }

    /// A game on a board of the size that `config` gives, with
    /// `landmine_count` mines on cells picked at random.
    pub fn new(config: BoardConfig, landmine_count: usize) -> (r: Result<Self, BoardError>)
        requires
            config.fits(),
            landmine_count <= config.width * config.height,
        ensures
            r matches Ok(game) && game.fresh(config) && game.board().mines().len()
                == landmine_count,
    {
        let mines = Self::gen_landmine(landmine_count, &config);
        proof {
            mines@.unique_seq_to_set();
        }
        Self::with_mines(config, mines.as_slice())
    }

    /// A game on a board of the size that `config` gives, with a mine at
    /// each of `mines`. Fails when one of them is off the grid.
    pub fn with_mines(config: BoardConfig, mines: &[Coordinates]) -> (r: Result<Self, BoardError>)
        requires
            config.fits(),
        ensures
            r is Ok <==> forall|i: int|
                0 <= i < mines@.len() ==> in_bounds(
                    #[trigger] mines@[i],
                    config.width as nat,
                    config.height as nat,
                ),
            r matches Ok(game) ==> game.fresh(config) && game.board().mines() == mines@.to_set(),
    {
        let mut board: Board = Board::new(config, mines)?;
        board.draw_border();
        Ok(Self { board, state: GameState::Playing })
    }

    /// Picks `landmine_count` different cells of the grid of `config` at
    /// random. Each is drawn until it lands on a cell not yet picked; one that
    /// has been drawn `REDRAW_LIMIT` times in vain goes to the first free cell.
    pub fn gen_landmine(landmine_count: usize, config: &BoardConfig) -> (mines: Vec<Coordinates>)
        requires
            config.fits(),
            landmine_count <= config.width * config.height,
        ensures
            mines.len() == landmine_count,
            distinct_cells(mines@, config.width as nat, config.height as nat),
    {
        let mut rng = rand::thread_rng();
        let mut mines: Vec<Coordinates> = Vec::new();
        let height = config.height;
        let width = config.width;
        let mut k: usize = 0;
        while k < landmine_count
            invariant
                k <= landmine_count <= width * height <= usize::MAX,
                mines.len() == k,
                distinct_cells(mines@, width as nat, height as nat),
            decreases landmine_count - k,
        {
            proof {
                assert(width > 0 && height > 0) by (nonlinear_arith)
                    requires
                        width * height > 0,
                        width >= 0,
                        height >= 0,
                ;
            }
            let mut tries: usize = 0;
            let mut placed = false;
            while !placed && tries < REDRAW_LIMIT
                invariant
                    width > 0,
                    height > 0,
                    tries <= REDRAW_LIMIT,
                    mines.len() == (if placed {
                        k + 1
                    } else {
                        k as int
                    }),
                    k < usize::MAX,
                    distinct_cells(mines@, width as nat, height as nat),
                decreases REDRAW_LIMIT - tries,
            {
                let x = draw_below(&mut rng, width);
                let y = draw_below(&mut rng, height);
                placed = place_mine(&mut mines, Coordinates::new(x, y));
                tries += 1;
            }
            if !placed {
                let pos = first_free_cell(&mines, width, height);
                mines.push(pos);
            }
            k += 1;
        }
        mines
    }

    /// The frame of the board as text, with the grid drawn afresh.
    pub fn render(&mut self) -> (text: String)
        requires
            old(self).wf(),
        ensures
            final(self).wf(),
            final(self).state() == old(self).state(),
            final(self).board().same_but_frame(&old(self).board()),
            old(self).board().field_drawn(final(self).board().frame(), old(self).board().frame()),
            text@ == crate::mineboard::board::frame_text(final(self).board().frame()),
    {
        self.board.render()
    }

    /// The number of mines on the board.
    pub fn landmine_count(&self) -> (count: &usize)
        requires
            self.wf(),
        ensures
            *count == self.board().mines().len(),
    {
        self.board.landmine_count()
    }

    /// Where play stands.
    pub fn get_state(&self) -> (state: &GameState)
        ensures
            *state == self.state(),
    {
        &self.state
    }

    /// Whether play has ended: the player has quit, opened a mine, or won.
    pub fn is_over(&self) -> (over: bool)
        ensures
            over == (self.state() != GameState::Playing),
    {
        match self.state {
            GameState::Quit | GameState::HitMine | GameState::Win => true,
            GameState::Playing => false,
        }
    }

    /// What a key press does to the game, with the cursor at column
    /// `cursor_x` of row `cursor_y`. A request to move the cursor is handed
    /// back for the caller to carry out and changes nothing; a request to quit
    /// ends play; a request to open or flag acts on the cell under the cursor,
    /// if there is one.
    pub fn process_key(&mut self, key_event: &KeyPress, cursor_x: u16, cursor_y: u16) -> (step: Option<
        Direction,
    >)
        requires
            old(self).wf(),
        ensures
            final(self).wf(),
            match request_of(*key_event) {
                KeyRequest::Move(dir) => step == Some(dir) && *final(self) == *old(self),
                KeyRequest::Quit => step is None && final(self).board() == old(self).board()
                    && final(self).state() == GameState::Quit,
                KeyRequest::Open => step is None && (match cell_under(
                    old(self).board().configuration(),
                    cursor_x,
                    cursor_y,
                ) {
                    Some(pos) => final(self).opened_at(old(self), pos),
                    None => *final(self) == *old(self),
                }),
                KeyRequest::Flag => step is None && (match cell_under(
                    old(self).board().configuration(),
                    cursor_x,
                    cursor_y,
                ) {
                    Some(pos) => final(self).flag_toggled_at(old(self), pos),
                    None => *final(self) == *old(self),
                }),
                KeyRequest::Nothing => step is None && *final(self) == *old(self),
            },
    {
        match key_request(key_event) {
            KeyRequest::Nothing => None,
            KeyRequest::Move(dir) => Some(dir),
            KeyRequest::Quit => {
                self.state = GameState::Quit;
                None
            },
            KeyRequest::Open => {
                match self.terminal_pos_to_coordinates(cursor_x, cursor_y) {
                    Some(pos) => self.click(&pos),
                    None => {},
                }
                None
            },
            KeyRequest::Flag => {
                match self.terminal_pos_to_coordinates(cursor_x, cursor_y) {
                    Some(pos) => self.click_flag(&pos),
                    None => {},
                }
                None
            },
        }
    }

    /// Where the cursor goes for a mouse event: to the start of the cell
    /// that the mouse is over, in the row that it is in.
    pub fn mouse_target(&self, mouse_event: &MouseInput) -> (target: (u16, u16))
        ensures
            target.0 == cell_start(self.board().configuration().char_width, mouse_event.column),
            target.1 == mouse_event.row,
    {
        let char_width = self.board.get_config().char_width;
        let x = mouse_event.column;
        if char_width == 0 {
            (x, mouse_event.row)
        } else {
            let over = (x as u32) % char_width;
            assert(over <= x) by (nonlinear_arith)
                requires
                    over == (x as int) % (char_width as int),
                    char_width > 0,
            ;
            (x - (over as u16), mouse_event.row)
        }
    }

    /// What a mouse event does to the game, once the cursor stands at
    /// column `cursor_x` of row `cursor_y`: a press of the left button opens
    /// the cell under the cursor, a press of the right button plants or takes
    /// its flag, and anything else, or a cursor off the grid, changes nothing.
    pub fn process_mouse(&mut self, mouse_event: &MouseInput, cursor_x: u16, cursor_y: u16)
        requires
            old(self).wf(),
        ensures
            final(self).wf(),
            match cell_under(old(self).board().configuration(), cursor_x, cursor_y) {
                Some(pos) => match mouse_event.action {
                    MouseAction::Down(MouseButton::Left) => final(self).opened_at(old(self), pos),
                    MouseAction::Down(MouseButton::Right) => final(self).flag_toggled_at(
                        old(self),
                        pos,
                    ),
                    _ => *final(self) == *old(self),
                },
                None => *final(self) == *old(self),
            },
    {
        let pos = match self.terminal_pos_to_coordinates(cursor_x, cursor_y) {
            Some(pos) => pos,
            None => return ,
        };
        let button_pressed = match mouse_event.action {
            MouseAction::Down(b) => b,
            _ => return ,
        };
        match button_pressed {
            MouseButton::Left => self.click(&pos),
            MouseButton::Right => self.click_flag(&pos),
            _ => return ,
        }
    }

    /// Plants a flag at `pos` if none stands there, and takes it away if one does.
    fn click_flag(&mut self, pos: &Coordinates)
        requires
            old(self).wf(),
            in_bounds(*pos, old(self).board().width(), old(self).board().height()),
        ensures
            final(self).wf(),
            final(self).flag_toggled_at(old(self), *pos),
    {
        let flagged = match self.board.have_flag(pos) {
            Ok(flagged) => flagged,
            Err(_) => false,
        };
        if flagged {
            let _ = self.board.remove_flag(pos);
        } else {
            let _ = self.board.add_flag(pos);
        }
    }

    /// Opens the cell at `pos`. Play has hit a mine if one lies there.
    fn click(&mut self, pos: &Coordinates)
        requires
            old(self).wf(),
            in_bounds(*pos, old(self).board().width(), old(self).board().height()),
        ensures
            final(self).wf(),
            final(self).opened_at(old(self), *pos),
    {
        match self.board.get(pos) {
            Ok(ItemType::Landmine) => {
                self.state = GameState::HitMine;
            },
            _ => {},
        }
        let _ = self.board.click(pos);
    }

    /// How many columns or rows the cursor moves for one step in `dir`: one
    /// row up or down, one cell left or right.
    pub fn cursor_step(&self, dir: &Direction) -> (step: u16)
        ensures
            step == (match *dir {
                Direction::Up | Direction::Down => 1u16,
                Direction::Left | Direction::Right => self.board().configuration().char_width as u16,
            }),
    {
        let size = #[verifier::truncate] (self.board.get_config().char_width as u16);
        match dir {
            Direction::Up => 1,
            Direction::Down => 1,
            Direction::Left => size,
            Direction::Right => size,
        }
    }

    /// Whether column `x` of row `y` is a cell of the grid.
    pub fn pos_in_range(&self, x: u32, y: u32) -> (r: bool)
        ensures
            r == (x < self.board().width() && y < self.board().height()),
    {
        let config = self.board.get_config();
        (x as usize) < config.width && (y as usize) < config.height
    }

    /// The grid cell shown at column `x` of row `y` of the terminal, if any.
    pub fn terminal_pos_to_coordinates(&self, x: u16, y: u16) -> (r: Option<Coordinates>)
        ensures
            r == cell_under(self.board().configuration(), x, y),
            r matches Some(pos) ==> in_bounds(pos, self.board().width(), self.board().height()),
    {
        let config = self.board.get_config();
        let char_width = config.char_width;
        if char_width == 0 || (x as u32) < char_width || y < 1 {
            None
        } else {
            assert((x as int) / (char_width as int) >= 1) by (nonlinear_arith)
                requires
                    0 < char_width <= x,
            ;
            let x = ((x as u32) / char_width - 1) as usize;
            let y = (y - 1) as usize;
            if x >= config.width || y >= config.height {
                None
            } else {
                Some(Coordinates { x, y })
            }
        }
    }

    /// The grid cell that a mouse event points at, if any.
    pub fn get_coordinates_from_mouse(&self, mouse_event: &MouseInput) -> (r: Option<Coordinates>)
        ensures
            r == cell_under(self.board().configuration(), mouse_event.column, mouse_event.row),
    {
        self.terminal_pos_to_coordinates(mouse_event.column, mouse_event.row)
    }
}

} // verus!
