//! Cursor and screen commands of the terminal.
use vstd::prelude::*;
use vstd::string::*;
use vstd::utf8::*;
use crossterm::Command;
use crate::text;
use crate::text::append_text;

verus! {

/// The part of the screen that is cleared.
#[derive(Debug, Clone, Copy, PartialEq, Eq, Structural)]
pub enum ClearArea {
    Screen,
    CurrentLine,
}

/// `ESC [`, a number and a letter.
pub open spec fn numbered_command(n: nat, letter: Seq<char>) -> Seq<char> {
    "\x1b["@ + text::decimal(n) + letter
}

/// Columns and rows are counted from one in the command, from zero here.
pub open spec fn move_to_text(col: u16, row: u16) -> Seq<char> {
    "\x1b["@ + text::decimal((row + 1) as nat) + ";"@ + text::decimal((col + 1) as nat) + "H"@
}

pub open spec fn move_to_column_text(col: u16) -> Seq<char> {
    numbered_command((col + 1) as nat, "G"@)
}

pub open spec fn clear_text(area: ClearArea) -> Seq<char> {
    match area {
        ClearArea::Screen => "\x1b[2J"@,
        ClearArea::CurrentLine => "\x1b[2K"@,
    }
}

/// `crossterm::cursor::MoveUp::write_ansi`: the row count and `A`.
#[verifier::external_body]
pub(crate) fn move_up_ansi(rows: u16) -> (ansi: String)
    ensures
        ansi@ == numbered_command(rows as nat, "A"@),
{
    let mut ansi = String::new();
    let _ = crossterm::cursor::MoveUp(rows).write_ansi(&mut ansi);
    ansi
}

/// `crossterm::cursor::MoveDown::write_ansi`: the row count and `B`.
#[verifier::external_body]
pub(crate) fn move_down_ansi(rows: u16) -> (ansi: String)
    ensures
        ansi@ == numbered_command(rows as nat, "B"@),
{
    let mut ansi = String::new();
    let _ = crossterm::cursor::MoveDown(rows).write_ansi(&mut ansi);
    ansi
}

/// `crossterm::cursor::MoveToColumn::write_ansi`: the column counted from one,
/// and `G`. The count overflows on the last `u16`.
#[verifier::external_body]
pub(crate) fn move_to_column_ansi(col: u16) -> (ansi: String)
    requires
        col < u16::MAX,
    ensures
        ansi@ == move_to_column_text(col),
{
    let mut ansi = String::new();
    let _ = crossterm::cursor::MoveToColumn(col).write_ansi(&mut ansi);
    ansi
}

/// `crossterm::cursor::MoveTo::write_ansi`: row and column counted from one,
/// and `H`. The counts overflow on the last `u16`.
#[verifier::external_body]
pub(crate) fn move_to_ansi(col: u16, row: u16) -> (ansi: String)
    requires
        col < u16::MAX,
        row < u16::MAX,
    ensures
        ansi@ == move_to_text(col, row),
{
    let mut ansi = String::new();
    let _ = crossterm::cursor::MoveTo(col, row).write_ansi(&mut ansi);
    ansi
}

/// `crossterm::cursor::Hide::write_ansi`: a fixed text.
#[verifier::external_body]
pub(crate) fn hide_ansi() -> (ansi: String)
    ensures
        ansi@ == "\x1b[?25l"@,
{
    let mut ansi = String::new();
    let _ = crossterm::cursor::Hide.write_ansi(&mut ansi);
    ansi
}

/// `crossterm::cursor::Show::write_ansi`: a fixed text.
#[verifier::external_body]
pub(crate) fn show_ansi() -> (ansi: String)
    ensures
        ansi@ == "\x1b[?25h"@,
{
    let mut ansi = String::new();
    let _ = crossterm::cursor::Show.write_ansi(&mut ansi);
    ansi
}

/// `crossterm::terminal::Clear::write_ansi`, for the whole screen and for the
/// current line: a fixed text each.
#[verifier::external_body]
pub(crate) fn clear_ansi(area: ClearArea) -> (ansi: String)
    ensures
        ansi@ == clear_text(area),
{
    let mut ansi = String::new();
    let kind = match area {
        ClearArea::Screen => crossterm::terminal::ClearType::All,
        ClearArea::CurrentLine => crossterm::terminal::ClearType::CurrentLine,
    };
    let _ = crossterm::terminal::Clear(kind).write_ansi(&mut ansi);
    ansi
}

/// `crossterm::terminal::EnterAlternateScreen::write_ansi`: a fixed text.
#[verifier::external_body]
pub(crate) fn enter_alternate_screen_ansi() -> (ansi: String)
    ensures
        ansi@ == "\x1b[?1049h"@,
{
    let mut ansi = String::new();
    let _ = crossterm::terminal::EnterAlternateScreen.write_ansi(&mut ansi);
    ansi
}

/// `crossterm::terminal::LeaveAlternateScreen::write_ansi`: a fixed text.
#[verifier::external_body]
pub(crate) fn leave_alternate_screen_ansi() -> (ansi: String)
    ensures
        ansi@ == "\x1b[?1049l"@,
{
    let mut ansi = String::new();
    let _ = crossterm::terminal::LeaveAlternateScreen.write_ansi(&mut ansi);
    ansi
}

/// `crossterm::style::Print::write_ansi`: the text itself.
#[verifier::external_body]
pub(crate) fn print_ansi(text: &str) -> (ansi: String)
    ensures
        ansi@ == text@,
{
    let mut ansi = String::new();
    let _ = crossterm::style::Print(text).write_ansi(&mut ansi);
    ansi
}

/// Appends what moves the cursor up and to the first column.
pub fn move_up_robust(writer: &mut Vec<u8>, rows: u16)
    ensures
        final(writer)@ == old(writer)@ + encode_utf8(numbered_command(rows as nat, "A"@))
            + encode_utf8(move_to_column_text(0)),
{
    append_text(writer, move_up_ansi(rows).as_str());
    append_text(writer, move_to_column_ansi(0).as_str());
}

/// Appends what moves the cursor down and to the first column.
pub fn move_down_robust(writer: &mut Vec<u8>, rows: u16)
    ensures
        final(writer)@ == old(writer)@ + encode_utf8(numbered_command(rows as nat, "B"@))
            + encode_utf8(move_to_column_text(0)),
{
    append_text(writer, move_down_ansi(rows).as_str());
    append_text(writer, move_to_column_ansi(0).as_str());
}

/// Appends what moves the cursor to a cell.
pub fn move_cursor(writer: &mut Vec<u8>, col: u16, row: u16)
    requires
        col < u16::MAX,
        row < u16::MAX,
    ensures
        final(writer)@ == old(writer)@ + encode_utf8(move_to_text(col, row)),
{
    append_text(writer, move_to_ansi(col, row).as_str());
}

/// An empty screen with the cursor in its corner.
pub open spec fn blank_screen_text() -> Seq<char> {
    clear_text(ClearArea::Screen) + move_to_text(0, 0)
}

/// Appends what empties the screen and puts the cursor in its corner.
pub fn clear_screen(writer: &mut Vec<u8>)
    ensures
        final(writer)@ == old(writer)@ + encode_utf8(blank_screen_text()),
{
    append_text(writer, clear_ansi(ClearArea::Screen).as_str());
    append_text(writer, move_to_ansi(0, 0).as_str());
    proof {
        text::encode_utf8_concat(clear_text(ClearArea::Screen), move_to_text(0, 0));
    }
    assert(writer@ =~= old(writer)@ + encode_utf8(blank_screen_text()));
}

/// Appends what opens the video screen: the alternate screen, empty and without
/// a cursor.
pub fn enter_video_screen(writer: &mut Vec<u8>)
    ensures
        final(writer)@ == old(writer)@ + encode_utf8("\x1b[?1049h"@) + encode_utf8("\x1b[?25l"@)
            + encode_utf8(blank_screen_text()),
        final(writer)@ == old(writer)@ + encode_utf8(entered_screen_text()),
{
    append_text(writer, enter_alternate_screen_ansi().as_str());
    append_text(writer, hide_ansi().as_str());
    clear_screen(writer);
    proof {
        text::encode_utf8_concat("\x1b[?1049h"@, "\x1b[?25l"@);
        text::encode_utf8_concat("\x1b[?1049h"@ + "\x1b[?25l"@, blank_screen_text());
    }
    assert(writer@ =~= old(writer)@ + encode_utf8(entered_screen_text()));
}

/// Appends what closes the video screen: the cursor comes back, the screen is
/// emptied, and the terminal returns to the screen that it showed before.
pub fn leave_video_screen(writer: &mut Vec<u8>)
    ensures
        final(writer)@ == old(writer)@ + encode_utf8("\x1b[?25h"@) + encode_utf8(
            clear_text(ClearArea::Screen),
        ) + encode_utf8("\x1b[?1049l"@) + encode_utf8(move_to_text(0, 0)),
        final(writer)@ == old(writer)@ + encode_utf8(left_screen_text()),
{
    append_text(writer, show_ansi().as_str());
    append_text(writer, clear_ansi(ClearArea::Screen).as_str());
    append_text(writer, leave_alternate_screen_ansi().as_str());
    append_text(writer, move_to_ansi(0, 0).as_str());
    proof {
        let cleared = "\x1b[?25h"@ + clear_text(ClearArea::Screen);
        text::encode_utf8_concat("\x1b[?25h"@, clear_text(ClearArea::Screen));
        text::encode_utf8_concat(cleared, "\x1b[?1049l"@);
        text::encode_utf8_concat(cleared + "\x1b[?1049l"@, move_to_text(0, 0));
    }
    assert(writer@ =~= old(writer)@ + encode_utf8(left_screen_text()));
}

/// What a terminal reads at once: a character, a command with its parameters and
/// its letter, a short escape sequence, or a cell of an image, which is a placeholder
/// with the marks of its row and its column.
pub enum Token {
    Letter(char),
    Command { params: Seq<char>, letter: char },
    Escape(char),
    ImageCell { row_mark: char, col_mark: char },
}

/// The parameters of a command up to its letter, the letter, and what follows.
pub open spec fn read_params(s: Seq<char>) -> Option<(Seq<char>, char, Seq<char>)>
    decreases s.len(),
{
    if s.len() == 0 {
        None
    } else if '@' <= s[0] <= '~' {
        Some((seq![], s[0], s.skip(1)))
    } else {
        match read_params(s.skip(1)) {
            Some((params, letter, rest)) => Some((seq![s[0]] + params, letter, rest)),
            None => None,
        }
    }
}

/// The first thing that a terminal reads of a text, and what follows it.
pub open spec fn read_token(s: Seq<char>) -> Option<(Token, Seq<char>)> {
    if s.len() == 0 {
        None
    } else if s[0] == '\u{10EEEE}' {
        if s.len() >= 3 {
            Some((Token::ImageCell { row_mark: s[1], col_mark: s[2] }, s.skip(3)))
        } else {
            None
        }
    } else if s[0] != '\x1b' {
        Some((Token::Letter(s[0]), s.skip(1)))
    } else if s.len() < 2 {
        None
    } else if s[1] == '[' {
        match read_params(s.skip(2)) {
            Some((params, letter, rest)) => Some((Token::Command { params, letter }, rest)),
            None => None,
        }
    } else {
        Some((Token::Escape(s[1]), s.skip(2)))
    }
}

/// What stands in a cell: a character, or a part of the image whose id the color
/// spells in red, green and blue.
pub enum CellContent {
    Letter(char),
    Image { color: Option<(nat, nat, nat)>, row_mark: char, col_mark: char },
}

/// A terminal: the cursor, rows and columns being counted from zero, the position
/// that it keeps for later, the text color, and what stands in its cells.
pub struct Screen {
    pub row: int,
    pub col: int,
    pub saved: (int, int),
    pub color: Option<(nat, nat, nat)>,
    pub cells: Map<(int, int), CellContent>,
    pub alternate: bool,
    pub cursor_shown: bool,
}

/// The number that a parameter stands for; without one it is one.
pub open spec fn param_number(param: Seq<char>) -> nat {
    if param.len() > 0 && text::all_digits(param) {
        text::decimal_value(param)
    } else {
        1
    }
}

impl Screen {
    /// What stands in a cell; `None` where it is empty.
    pub open spec fn at(self, row: int, col: int) -> Option<CellContent> {
        if self.cells.dom().contains((row, col)) {
            Some(self.cells[(row, col)])
        } else {
            None
        }
    }

    /// The terminal with something in the cell under the cursor, which goes on by
    /// one column.
    pub open spec fn put(self, content: CellContent) -> Screen {
        Screen {
            cells: self.cells.insert((self.row, self.col), content),
            col: self.col + 1,
            ..self
        }
    }

    /// The terminal with some of its cells emptied.
    pub open spec fn without(self, emptied: spec_fn((int, int)) -> bool) -> Screen {
        Screen {
            cells: Map::new(
                |at: (int, int)| self.cells.dom().contains(at) && !emptied(at),
                |at: (int, int)| self.cells[at],
            ),
            ..self
        }
    }

    /// The terminal after a command.
    #[verifier::opaque]
    pub open spec fn obey(self, params: Seq<char>, letter: char) -> Screen {
        let n = param_number(params);
        if letter == 'A' {
            Screen { row: self.row - n, ..self }
        } else if letter == 'B' {
            Screen { row: self.row + n, ..self }
        } else if letter == 'C' {
            Screen { col: self.col + n, ..self }
        } else if letter == 'G' {
            Screen { col: n - 1, ..self }
        } else if letter == 'H' {
            let parts = text::split(params, ';');
            if parts.len() == 2 {
                Screen { row: param_number(parts[0]) - 1, col: param_number(parts[1]) - 1, ..self }
            } else {
                Screen { row: 0, col: 0, ..self }
            }
        } else if letter == 'J' && params == seq!['2'] {
            self.without(|at: (int, int)| true)
        } else if letter == 'K' && params == seq!['2'] {
            self.without(|at: (int, int)| at.0 == self.row)
        } else if letter == 'm' {
            let parts = text::split(params, ':');
            if parts.len() == 5 && parts[0] == seq!['3', '8'] && parts[1] == seq!['2'] {
                Screen {
                    color: Some(
                        (param_number(parts[2]), param_number(parts[3]), param_number(parts[4])),
                    ),
                    ..self
                }
            } else if params == seq!['3', '9'] {
                Screen { color: None, ..self }
            } else {
                self
            }
        } else if params == seq!['?', '2', '5'] {
            Screen { cursor_shown: letter == 'h', ..self }
        } else if params == seq!['?', '1', '0', '4', '9'] {
            Screen { alternate: letter == 'h', ..self }
        } else {
            self
        }
    }

    /// The terminal after something that it read.
    pub open spec fn after(self, token: Token) -> Screen {
        match token {
            Token::Letter(c) => if c == '\r' {
                Screen { col: 0, ..self }
            } else if c == '\n' {
                Screen { row: self.row + 1, ..self }
            } else {
                self.put(CellContent::Letter(c))
            },
            Token::Command { params, letter } => self.obey(params, letter),
            Token::Escape(c) => if c == '7' {
                Screen { saved: (self.row, self.col), ..self }
            } else if c == '8' {
                Screen { row: self.saved.0, col: self.saved.1, ..self }
            } else {
                self
            },
            Token::ImageCell { row_mark, col_mark } => self.put(
                CellContent::Image { color: self.color, row_mark, col_mark },
            ),
        }
    }

    /// The terminal after a whole text.
    #[verifier::opaque]
    pub open spec fn shown(self, s: Seq<char>) -> Screen
        decreases s.len(),
    {
        match read_token(s) {
            Some((token, rest)) => if rest.len() < s.len() {
                self.after(token).shown(rest)
            } else {
                self
            },
            None => self,
        }
    }
}

/// Characters of which parameters are made.
pub open spec fn are_params(s: Seq<char>) -> bool {
    forall|i: int| 0 <= i < s.len() ==> ' ' <= #[trigger] s[i] <= '?'
}

proof fn params_are_read(params: Seq<char>, letter: char, rest: Seq<char>)
    requires
        are_params(params),
        '@' <= letter <= '~',
    ensures
        read_params(params + seq![letter] + rest) == Some((params, letter, rest)),
    decreases params.len(),
{
    let s = params + seq![letter] + rest;
    if params.len() == 0 {
        assert(params =~= seq![]);
        assert(s.skip(1) =~= rest);
    } else {
        assert(' ' <= params[0] <= '?');
        assert forall|i: int| 0 <= i < params.skip(1).len() implies ' ' <= #[trigger] params.skip(
            1,
        )[i] <= '?' by {
            assert(' ' <= params[i + 1] <= '?');
        }
        params_are_read(params.skip(1), letter, rest);
        assert(s.skip(1) =~= params.skip(1) + seq![letter] + rest);
        assert(seq![params[0]] + params.skip(1) =~= params);
    }
}

/// A terminal obeys a command, and then reads on.
pub proof fn command_is_obeyed(screen: Screen, params: Seq<char>, letter: char, rest: Seq<char>)
    requires
        are_params(params),
        '@' <= letter <= '~',
    ensures
        screen.shown(seq!['\x1b', '['] + params + seq![letter] + rest) == screen.obey(
            params,
            letter,
        ).shown(rest),
{
    reveal(Screen::shown);
    let s = seq!['\x1b', '['] + params + seq![letter] + rest;
    params_are_read(params, letter, rest);
    assert(s.skip(2) =~= params + seq![letter] + rest);
    assert(read_token(s) == Some((Token::Command { params, letter }, rest)));
}

/// A terminal takes up a plain character, and then reads on.
pub proof fn letter_is_taken_up(screen: Screen, c: char, rest: Seq<char>)
    requires
        c != '\x1b',
        c != '\u{10EEEE}',
    ensures
        screen.shown(seq![c] + rest) == screen.after(Token::Letter(c)).shown(rest),
{
    reveal(Screen::shown);
    assert((seq![c] + rest).skip(1) =~= rest);
}

/// A terminal takes up a short escape sequence, and then reads on.
pub proof fn escape_is_taken_up(screen: Screen, c: char, rest: Seq<char>)
    requires
        c != '[',
    ensures
        screen.shown(seq!['\x1b', c] + rest) == screen.after(Token::Escape(c)).shown(rest),
{
    reveal(Screen::shown);
    assert((seq!['\x1b', c] + rest).skip(2) =~= rest);
}

/// A terminal takes up a cell of an image, and then reads on.
pub proof fn image_cell_is_taken_up(
    screen: Screen,
    row_mark: char,
    col_mark: char,
    rest: Seq<char>,
)
    ensures
        screen.shown(seq!['\u{10EEEE}', row_mark, col_mark] + rest) == screen.after(
            Token::ImageCell { row_mark, col_mark },
        ).shown(rest),
{
    reveal(Screen::shown);
    assert((seq!['\u{10EEEE}', row_mark, col_mark] + rest).skip(3) =~= rest);
}

/// Where nothing follows, a terminal stays as it is.
pub proof fn nothing_is_shown(screen: Screen)
    ensures
        screen.shown(seq![]) == screen,
{
    reveal(Screen::shown);
}

proof fn number_is_a_param(n: nat)
    ensures
        are_params(text::decimal(n)),
        param_number(text::decimal(n)) == n,
        text::is_whole(text::decimal(n), ';'),
        text::is_whole(text::decimal(n), ':'),
{
    text::decimal_reads_back(n);
    text::decimal_is_shortest(n);
    assert forall|i: int| 0 <= i < text::decimal(n).len() implies ' ' <= #[trigger] text::decimal(
        n,
    )[i] <= '?' by {
        assert(text::is_digit(text::decimal(n)[i]));
    }
}

/// The commands that move the cursor up, down, to the right and within its row do
/// so by the number they carry.
pub proof fn numbered_commands_move_the_cursor(screen: Screen, n: nat, rest: Seq<char>)
    ensures
        screen.shown(numbered_command(n, "A"@) + rest) == (Screen {
            row: screen.row - n,
            ..screen
        }).shown(rest),
        screen.shown(numbered_command(n, "B"@) + rest) == (Screen {
            row: screen.row + n,
            ..screen
        }).shown(rest),
        screen.shown(numbered_command(n, "C"@) + rest) == (Screen {
            col: screen.col + n,
            ..screen
        }).shown(rest),
        screen.shown(numbered_command(n, "G"@) + rest) == (Screen {
            col: n - 1,
            ..screen
        }).shown(rest),
{
    reveal(Screen::obey);
    reveal_strlit("\x1b[");
    reveal_strlit("A");
    reveal_strlit("B");
    reveal_strlit("C");
    reveal_strlit("G");
    number_is_a_param(n);
    let number = text::decimal(n);
    assert(numbered_command(n, "A"@) + rest =~= seq!['\x1b', '['] + number + seq!['A'] + rest);
    assert(numbered_command(n, "B"@) + rest =~= seq!['\x1b', '['] + number + seq!['B'] + rest);
    assert(numbered_command(n, "C"@) + rest =~= seq!['\x1b', '['] + number + seq!['C'] + rest);
    assert(numbered_command(n, "G"@) + rest =~= seq!['\x1b', '['] + number + seq!['G'] + rest);
    command_is_obeyed(screen, number, 'A', rest);
    command_is_obeyed(screen, number, 'B', rest);
    command_is_obeyed(screen, number, 'C', rest);
    command_is_obeyed(screen, number, 'G', rest);
}

/// The cursor goes to the column that is named.
pub proof fn cursor_goes_to_the_column(screen: Screen, col: u16, rest: Seq<char>)
    ensures
        screen.shown(move_to_column_text(col) + rest) == (Screen {
            col: col as int,
            ..screen
        }).shown(rest),
{
    numbered_commands_move_the_cursor(screen, (col + 1) as nat, rest);
}

/// The cursor goes to the cell that is named, column and row being told apart.
pub proof fn cursor_goes_to_the_cell(screen: Screen, col: u16, row: u16, rest: Seq<char>)
    ensures
        screen.shown(move_to_text(col, row) + rest) == (Screen {
            row: row as int,
            col: col as int,
            ..screen
        }).shown(rest),
{
    reveal(Screen::obey);
    reveal_strlit("\x1b[");
    reveal_strlit(";");
    reveal_strlit("H");
    let first = text::decimal((row + 1) as nat);
    let second = text::decimal((col + 1) as nat);
    number_is_a_param((row + 1) as nat);
    number_is_a_param((col + 1) as nat);
    let params = first + seq![';'] + second;
    text::split_single(first, ';');
    text::split_added(first, ';', second);
    assert(text::split(params, ';') =~= seq![first, second]);
    assert(are_params(params)) by {
        assert forall|i: int| 0 <= i < params.len() implies ' ' <= #[trigger] params[i] <= '?' by {
            if i > first.len() {
                assert(' ' <= second[i - first.len() - 1] <= '?');
            }
        }
    }
    assert(move_to_text(col, row) + rest =~= seq!['\x1b', '['] + params + seq!['H'] + rest);
    command_is_obeyed(screen, params, 'H', rest);
}

/// Clearing the screen empties every cell, clearing the line those of the row of
/// the cursor; the cursor stays.
pub proof fn clearing_empties_cells(
    screen: Screen,
    area: ClearArea,
    rest: Seq<char>,
    row: int,
    col: int,
)
    ensures
        ({
            let cleared = match area {
                ClearArea::Screen => screen.without(|at: (int, int)| true),
                ClearArea::CurrentLine => screen.without(|at: (int, int)| at.0 == screen.row),
            };
            &&& screen.shown(clear_text(area) + rest) == cleared.shown(rest)
            &&& cleared == (Screen { cells: cleared.cells, ..screen })
            &&& area is Screen || row == screen.row ==> cleared.at(row, col) is None
            &&& area is CurrentLine && row != screen.row ==> cleared.at(row, col) == screen.at(
                row,
                col,
            )
        }),
{
    reveal(Screen::obey);
    reveal_strlit("\x1b[2J");
    reveal_strlit("\x1b[2K");
    let params = seq!['2'];
    match area {
        ClearArea::Screen => {
            assert("\x1b[2J"@ + rest =~= seq!['\x1b', '['] + params + seq!['J'] + rest);
            command_is_obeyed(screen, params, 'J', rest);
        },
        ClearArea::CurrentLine => {
            assert("\x1b[2K"@ + rest =~= seq!['\x1b', '['] + params + seq!['K'] + rest);
            command_is_obeyed(screen, params, 'K', rest);
        },
    }
}

/// The text color that spells three numbers is taken up, and so is its end.
pub proof fn color_is_taken_up(screen: Screen, red: nat, green: nat, blue: nat, rest: Seq<char>)
    ensures
        ({
            let params = seq!['3', '8', ':', '2', ':'] + text::decimal(red) + seq![':']
                + text::decimal(green) + seq![':'] + text::decimal(blue);
            screen.shown(seq!['\x1b', '['] + params + seq!['m'] + rest) == (Screen {
                color: Some((red, green, blue)),
                ..screen
            }).shown(rest)
        }),
        screen.shown(seq!['\x1b', '[', '3', '9', 'm'] + rest) == (Screen {
            color: None,
            ..screen
        }).shown(rest),
{
    reveal(Screen::obey);
    let params = seq!['3', '8', ':', '2', ':'] + text::decimal(red) + seq![':'] + text::decimal(
        green,
    ) + seq![':'] + text::decimal(blue);
    number_is_a_param(red);
    number_is_a_param(green);
    number_is_a_param(blue);
    let colon = seq![':'];
    let kind = seq!['3', '8'];
    let form = seq!['2'];
    let t1 = kind + colon + form;
    let t2 = t1 + colon + text::decimal(red);
    let t3 = t2 + colon + text::decimal(green);
    text::split_single(kind, ':');
    text::split_added(kind, ':', form);
    text::split_added(t1, ':', text::decimal(red));
    text::split_added(t2, ':', text::decimal(green));
    text::split_added(t3, ':', text::decimal(blue));
    assert(seq!['3', '8', ':', '2', ':'] =~= t1 + colon);
    assert(params =~= t3 + colon + text::decimal(blue));
    assert(text::split(params, ':') =~= seq![
        kind,
        form,
        text::decimal(red),
        text::decimal(green),
        text::decimal(blue),
    ]);
    params_concat(t1, colon);
    params_concat(t1 + colon, text::decimal(red));
    params_concat(t2, colon);
    params_concat(t2 + colon, text::decimal(green));
    params_concat(t3, colon);
    params_concat(t3 + colon, text::decimal(blue));
    command_is_obeyed(screen, params, 'm', rest);
    let reset = seq!['3', '9'];
    text::split_single(reset, ':');
    assert(seq!['\x1b', '[', '3', '9', 'm'] + rest =~= seq!['\x1b', '['] + reset + seq!['m']
        + rest);
    command_is_obeyed(screen, reset, 'm', rest);
}

proof fn params_concat(a: Seq<char>, b: Seq<char>)
    requires
        are_params(a),
        are_params(b),
    ensures
        are_params(a + b),
{
}

/// A text without commands: every character of it takes up one cell.
pub open spec fn is_plain(s: Seq<char>) -> bool {
    forall|i: int|
        0 <= i < s.len() ==> ' ' <= #[trigger] s[i] && s[i] != '\u{10EEEE}'
}

/// The terminal after a plain text.
pub open spec fn printed(screen: Screen, s: Seq<char>) -> Screen
    decreases s.len(),
{
    if s.len() == 0 {
        screen
    } else {
        printed(screen, s.drop_last()).put(CellContent::Letter(s.last()))
    }
}

/// A plain text stands in the row of the cursor, from the cursor on, character by
/// character, and everything else stays.
pub proof fn plain_text_is_printed(screen: Screen, s: Seq<char>, row: int, col: int)
    requires
        is_plain(s),
    ensures
        screen.shown(s) == printed(screen, s),
        printed(screen, s) == (Screen {
            col: screen.col + s.len(),
            cells: printed(screen, s).cells,
            ..screen
        }),
        row == screen.row && screen.col <= col < screen.col + s.len() ==> printed(
            screen,
            s,
        ).at(row, col) == Some(CellContent::Letter(s[col - screen.col])),
        row != screen.row || col < screen.col || col >= screen.col + s.len() ==> printed(
            screen,
            s,
        ).at(row, col) == screen.at(row, col),
    decreases s.len(),
{
    text_is_printed_from(screen, s, seq![]);
    nothing_is_shown(printed(screen, s));
    assert(s + Seq::<char>::empty() =~= s);
    printed_cells(screen, s, row, col);
}

proof fn text_is_printed_from(screen: Screen, s: Seq<char>, rest: Seq<char>)
    requires
        is_plain(s),
    ensures
        screen.shown(s + rest) == printed(screen, s).shown(rest),
    decreases s.len(),
{
    if s.len() == 0 {
        assert(s + rest =~= rest);
    } else {
        assert(' ' <= s[s.len() - 1] && s[s.len() - 1] != '\u{10EEEE}');
        let shorter = s.drop_last();
        assert forall|i: int| 0 <= i < shorter.len() implies ' ' <= #[trigger] shorter[i]
            && shorter[i] != '\u{10EEEE}' by {
            assert(' ' <= s[i]);
        }
        text_is_printed_from(screen, shorter, seq![s.last()] + rest);
        assert(s + rest =~= shorter + (seq![s.last()] + rest));
        letter_is_taken_up(printed(screen, shorter), s.last(), rest);
    }
}

proof fn printed_cells(screen: Screen, s: Seq<char>, row: int, col: int)
    ensures
        printed(screen, s) == (Screen {
            col: screen.col + s.len(),
            cells: printed(screen, s).cells,
            ..screen
        }),
        row == screen.row && screen.col <= col < screen.col + s.len() ==> printed(
            screen,
            s,
        ).at(row, col) == Some(CellContent::Letter(s[col - screen.col])),
        row != screen.row || col < screen.col || col >= screen.col + s.len() ==> printed(
            screen,
            s,
        ).at(row, col) == screen.at(row, col),
    decreases s.len(),
{
    if s.len() > 0 {
        let before = printed(screen, s.drop_last());
        printed_cells(screen, s.drop_last(), row, col);
        put_fills_one_cell(before, CellContent::Letter(s.last()), row, col);
    }
}

/// Only the cell under the cursor is filled.
pub proof fn put_fills_one_cell(screen: Screen, content: CellContent, row: int, col: int)
    ensures
        screen.put(content).at(row, col) == (if row == screen.row && col == screen.col {
            Some(content)
        } else {
            screen.at(row, col)
        }),
{
    let here = (screen.row, screen.col);
    let there = (row, col);
    assert(here == there <==> row == screen.row && col == screen.col);
    assert(screen.put(content).cells == screen.cells.insert(here, content));
}

/// What opens the video screen.
pub open spec fn entered_screen_text() -> Seq<char> {
    "\x1b[?1049h"@ + "\x1b[?25l"@ + blank_screen_text()
}

/// What closes the video screen.
pub open spec fn left_screen_text() -> Seq<char> {
    "\x1b[?25h"@ + clear_text(ClearArea::Screen) + "\x1b[?1049l"@ + move_to_text(0, 0)
}

/// The cursor is hidden and shown, and the other screen shown and left, by the
/// commands for it.
proof fn modes_are_set(screen: Screen, rest: Seq<char>)
    ensures
        screen.shown("\x1b[?25l"@ + rest) == (Screen { cursor_shown: false, ..screen }).shown(rest),
        screen.shown("\x1b[?25h"@ + rest) == (Screen { cursor_shown: true, ..screen }).shown(rest),
        screen.shown("\x1b[?1049h"@ + rest) == (Screen { alternate: true, ..screen }).shown(rest),
        screen.shown("\x1b[?1049l"@ + rest) == (Screen { alternate: false, ..screen }).shown(rest),
{
    reveal(Screen::obey);
    reveal_strlit("\x1b[?25l");
    reveal_strlit("\x1b[?25h");
    reveal_strlit("\x1b[?1049h");
    reveal_strlit("\x1b[?1049l");
    let cursor = seq!['?', '2', '5'];
    let other = seq!['?', '1', '0', '4', '9'];
    assert("\x1b[?25l"@ + rest =~= seq!['\x1b', '['] + cursor + seq!['l'] + rest);
    assert("\x1b[?25h"@ + rest =~= seq!['\x1b', '['] + cursor + seq!['h'] + rest);
    assert("\x1b[?1049h"@ + rest =~= seq!['\x1b', '['] + other + seq!['h'] + rest);
    assert("\x1b[?1049l"@ + rest =~= seq!['\x1b', '['] + other + seq!['l'] + rest);
    assert(cursor.len() != other.len());
    command_is_obeyed(screen, cursor, 'l', rest);
    command_is_obeyed(screen, cursor, 'h', rest);
    command_is_obeyed(screen, other, 'h', rest);
    command_is_obeyed(screen, other, 'l', rest);
}

/// A blank screen has empty cells, and the cursor in its corner.
pub proof fn blank_screen_is_empty(screen: Screen, rest: Seq<char>, row: int, col: int)
    ensures
        ({
            let blank = Screen {
                row: 0,
                col: 0,
                ..screen.without(|at: (int, int)| true)
            };
            &&& screen.shown(blank_screen_text() + rest) == blank.shown(rest)
            &&& blank.at(row, col) is None
        }),
{
    clearing_empties_cells(screen, ClearArea::Screen, move_to_text(0, 0) + rest, row, col);
    assert(blank_screen_text() + rest =~= clear_text(ClearArea::Screen) + (move_to_text(0, 0)
        + rest));
    cursor_goes_to_the_cell(screen.without(|at: (int, int)| true), 0, 0, rest);
}

/// A video is shown on a screen of its own, empty and without a cursor.
pub proof fn video_screen_is_entered(screen: Screen, row: int, col: int)
    ensures
        ({
            let entered = screen.shown(entered_screen_text());
            &&& entered.alternate
            &&& !entered.cursor_shown
            &&& entered.row == 0 && entered.col == 0
            &&& entered.at(row, col) is None
            &&& entered.color == screen.color
        }),
{
    let none = Seq::<char>::empty();
    let s1 = Screen { alternate: true, ..screen };
    let s2 = Screen { cursor_shown: false, ..s1 };
    let blank = Screen { row: 0, col: 0, ..s2.without(|at: (int, int)| true) };
    modes_are_set(screen, "\x1b[?25l"@ + blank_screen_text());
    modes_are_set(s1, blank_screen_text());
    blank_screen_is_empty(s2, none, row, col);
    assert(entered_screen_text() =~= "\x1b[?1049h"@ + ("\x1b[?25l"@ + blank_screen_text()));
    assert(blank_screen_text() + none =~= blank_screen_text());
    nothing_is_shown(blank);
}

/// Leaving the video screen brings back the screen before it, with the cursor.
pub proof fn video_screen_is_left(screen: Screen, row: int, col: int)
    ensures
        ({
            let left = screen.shown(left_screen_text());
            &&& !left.alternate
            &&& left.cursor_shown
            &&& left.row == 0 && left.col == 0
            &&& left.at(row, col) is None
            &&& left.color == screen.color
        }),
{
    let none = Seq::<char>::empty();
    let l1 = Screen { cursor_shown: true, ..screen };
    let l2 = l1.without(|at: (int, int)| true);
    let l3 = Screen { alternate: false, ..l2 };
    let end = move_to_text(0, 0);
    modes_are_set(screen, clear_text(ClearArea::Screen) + ("\x1b[?1049l"@ + end));
    clearing_empties_cells(l1, ClearArea::Screen, "\x1b[?1049l"@ + end, row, col);
    modes_are_set(l2, end);
    cursor_goes_to_the_cell(l3, 0, 0, none);
    assert(end + none =~= end);
    nothing_is_shown(Screen { row: 0, col: 0, ..l3 });
    assert(left_screen_text() =~= "\x1b[?25h"@ + (clear_text(ClearArea::Screen) + ("\x1b[?1049l"@
        + end)));
}

} // verus!
