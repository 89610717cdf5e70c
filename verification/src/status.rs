//! The status row below a video.
use vstd::prelude::*;
use vstd::string::*;
use vstd::utf8::*;
use crate::ansi;
use crate::ansi::{clear_ansi, move_to_ansi, print_ansi, CellContent, ClearArea, Screen};
use crate::text;
use crate::text::{append_text, push_decimal};
use crate::timestamp;
use crate::timestamp::{chars_of, format_time_ms};
use crate::video_layout::VideoTerminalLayout;

verus! {

pub const STATUS_SHORTCUTS: &'static str =
    "f +10s b -10s Left -5s Right +5s Up/Down vol g goto q quit";

/// What the status row tells: the position, the length where it is known, the
/// volume, the last message, and the timestamp that is being entered.
#[derive(Debug, Clone)]
pub struct StatusState {
    pub current_ms: u64,
    pub duration_ms: Option<u64>,
    pub volume_percent: u32,
    pub message: String,
    pub input_buffer: Option<String>,
}

/// The contents of a [`StatusState`].
pub struct Status {
    pub current_ms: u64,
    pub duration_ms: Option<u64>,
    pub volume_percent: u32,
    pub message: Seq<char>,
    pub input: Option<Seq<char>>,
}

/// The view of an optional text.
pub open spec fn optional_text(text: Option<String>) -> Option<Seq<char>> {
    match text {
        Some(text) => Some(text@),
        None => None,
    }
}

impl View for StatusState {
    type V = Status;

    open spec fn view(&self) -> Status {
        Status {
            current_ms: self.current_ms,
            duration_ms: self.duration_ms,
            volume_percent: self.volume_percent,
            message: self.message@,
            input: optional_text(self.input_buffer),
        }
    }
}

impl Default for StatusState {
    fn default() -> (status: Self)
        ensures
            status@ == (Status {
                current_ms: 0,
                duration_ms: None,
                volume_percent: 100,
                message: seq![],
                input: None,
            }),
    {
        StatusState {
            current_ms: 0,
            duration_ms: None,
            volume_percent: 100,
            message: String::new(),
            input_buffer: None,
        }
    }
}

impl Status {
    /// The length of the video, or dashes.
    pub open spec fn duration_text(self) -> Seq<char> {
        match self.duration_ms {
            Some(ms) => timestamp::time_text(ms as nat),
            None => "--:--"@,
        }
    }

    /// The entry with its keys, if there is one, and the message.
    pub open spec fn middle_text(self) -> Seq<char> {
        match self.input {
            Some(input) => if self.message.len() == 0 {
                "Goto> "@ + input + "  Enter seek Esc cancel"@
            } else {
                "Goto> "@ + input + " | "@ + self.message + " | Enter seek Esc cancel"@
            },
            None => self.message,
        }
    }

    /// The status row, as long as it may be.
    pub open spec fn text(self) -> Seq<char> {
        timestamp::time_text(self.current_ms as nat) + " / "@ + self.duration_text() + " | Vol "@
            + text::decimal(self.volume_percent as nat) + "% | "@ + (
        if self.middle_text().len() == 0 {
            seq![]
        } else {
            self.middle_text() + " | "@
        }) + STATUS_SHORTCUTS@
    }
}

fn middle_text(status: &StatusState) -> (middle: String)
    ensures
        middle@ == status@.middle_text(),
{
    match &status.input_buffer {
        Some(input) => {
            let mut middle: String = String::new();
            middle.append("Goto> ");
            middle.append(input.as_str());
            if status.message.as_str().is_empty() {
                middle.append("  Enter seek Esc cancel");
            } else {
                middle.append(" | ");
                middle.append(status.message.as_str());
                middle.append(" | Enter seek Esc cancel");
            }
            assert(middle@ =~= status@.middle_text());
            middle
        },
        None => status.message.clone(),
    }
}

/// The status row, as long as it may be.
pub fn status_text(status: &StatusState) -> (row: String)
    ensures
        row@ == status@.text(),
{
    let duration: String = match status.duration_ms {
        Some(ms) => format_time_ms(ms),
        None => "--:--".to_owned(),
    };
    let middle: String = middle_text(status);
    let mut row: String = format_time_ms(status.current_ms);
    row.append(" / ");
    row.append(duration.as_str());
    row.append(" | Vol ");
    push_decimal(&mut row, status.volume_percent as u64);
    row.append("% | ");
    if !middle.as_str().is_empty() {
        row.append(middle.as_str());
        row.append(" | ");
    }
    row.append(STATUS_SHORTCUTS);
    assert(row@ =~= status@.text());
    row
}

/// The first `cols` characters of a text, or all of it where it is shorter.
pub open spec fn first_cols(text: Seq<char>, cols: int) -> Seq<char> {
    if text.len() <= cols {
        text
    } else {
        text.take(cols)
    }
}

/// Cuts a text off at a number of characters.
pub fn truncate_to_cols(text: &str, cols: u16) -> (row: String)
    ensures
        row@ == first_cols(text@, cols as int),
{
    let chars: Vec<char> = chars_of(text);
    let mut row: String = String::new();
    let mut taken: usize = 0;
    assert(chars@.take(0) =~= Seq::<char>::empty());
    while taken < cols as usize && taken < chars.len()
        invariant
            taken <= cols,
            taken <= chars.len(),
            row@ == chars@.take(taken as int),
        decreases chars.len() - taken,
    {
        row.push(chars[taken]);
        taken = taken + 1;
        assert(row@ =~= chars@.take(taken as int));
    }
    assert(row@ =~= first_cols(text@, cols as int));
    row
}

/// What draws the status row: cursor movement, an emptied line, and the text cut
/// off at the width of the terminal. A terminal without a status row gets
/// nothing.
pub open spec fn status_row_bytes(layout: VideoTerminalLayout, status: Status) -> Seq<u8> {
    match layout.status_row {
        Some(row) => encode_utf8(ansi::move_to_text(0, row)) + encode_utf8(
            ansi::clear_text(ClearArea::CurrentLine),
        ) + encode_utf8(first_cols(status.text(), layout.cols as int)),
        None => seq![],
    }
}

/// Appends what draws the status row.
pub fn draw_status_row(writer: &mut Vec<u8>, layout: VideoTerminalLayout, status: &StatusState)
    requires
        layout.status_row matches Some(row) ==> row < u16::MAX,
    ensures
        final(writer)@ == old(writer)@ + status_row_bytes(layout, status@),
{
    match layout.status_row {
        Some(row) => {
            let shown: String = truncate_to_cols(status_text(status).as_str(), layout.cols);
            append_text(writer, move_to_ansi(0, row).as_str());
            append_text(writer, clear_ansi(ClearArea::CurrentLine).as_str());
            append_text(writer, print_ansi(shown.as_str()).as_str());
            assert(writer@ =~= old(writer)@ + status_row_bytes(layout, status@));
        },
        None => {
            assert(writer@ =~= old(writer)@ + status_row_bytes(layout, status@));
        },
    }
}

/// The status row never runs over the width of the terminal.
pub proof fn status_row_fits(layout: VideoTerminalLayout, status: Status)
    ensures
        first_cols(status.text(), layout.cols as int).len() <= layout.cols,
        status.text().len() <= layout.cols ==> first_cols(status.text(), layout.cols as int)
            == status.text(),
{
}

/// While a timestamp is being entered, the row shows it.
pub proof fn entry_is_shown(status: Status)
    requires
        status.input is Some,
    ensures
        status.middle_text().len() > status.input->0.len(),
        status.middle_text().subrange(6, 6 + status.input->0.len() as int) == status.input->0,
{
    reveal_strlit("Goto> ");
    assert(status.middle_text().subrange(6, 6 + status.input->0.len() as int)
        =~= status.input->0);
}

/// A status row reads as a position, a length, a volume, and the rest.
pub open spec fn row_reads_as(
    row: Seq<char>,
    position: Seq<char>,
    length: Seq<char>,
    volume: Seq<char>,
    rest: Seq<char>,
) -> bool {
    row == position + seq![' ', '/', ' '] + length + seq![' ', '|', ' ', 'V', 'o', 'l', ' ']
        + volume + seq!['%', ' ', '|', ' '] + rest
}

/// The status row starts with the position and the length, both to the second, and
/// the volume in percent; a length that is not known is dashed. Then come the entry,
/// where there is one, and the message, where there is one. The keys end it.
pub proof fn status_row_tells_everything(status: Status)
    ensures
        exists|position: Seq<char>, length: Seq<char>, volume: Seq<char>, rest: Seq<char>|
            {
                let keys = "f +10s b -10s Left -5s Right +5s Up/Down vol g goto q quit"@;
                &&& #[trigger] row_reads_as(status.text(), position, length, volume, rest)
                &&& timestamp::timestamp_ms(position) == Some(
                    (status.current_ms / 1000 * 1000) as nat,
                )
                &&& status.duration_ms matches Some(ms) ==> timestamp::timestamp_ms(length) == Some(
                    (ms / 1000 * 1000) as nat,
                )
                &&& status.duration_ms is None ==> length == seq!['-', '-', ':', '-', '-']
                &&& volume.len() > 0 && text::all_digits(volume)
                &&& text::decimal_value(volume) == status.volume_percent
                &&& rest.len() >= keys.len()
                &&& rest.skip(rest.len() - keys.len()) == keys
                &&& status.input is None && status.message.len() == 0 ==> rest == keys
                &&& status.input is None && status.message.len() > 0 ==> rest == status.message
                    + seq![' ', '|', ' '] + keys
                &&& status.input matches Some(input) ==> {
                    let opened = seq!['G', 'o', 't', 'o', '>', ' '] + input;
                    let told = opened + seq![' ', '|', ' '] + status.message;
                    &&& rest.len() >= opened.len()
                    &&& rest.take(opened.len() as int) == opened
                    &&& status.message.len() > 0 ==> rest.len() >= told.len() && rest.take(
                        told.len() as int,
                    ) == told
                }
            },
{
    reveal_strlit(" / ");
    reveal_strlit(" | Vol ");
    reveal_strlit("% | ");
    reveal_strlit(" | ");
    reveal_strlit("Goto> ");
    reveal_strlit("--:--");
    let keys = "f +10s b -10s Left -5s Right +5s Up/Down vol g goto q quit"@;
    let position = timestamp::time_text(status.current_ms as nat);
    let length = status.duration_text();
    let volume = text::decimal(status.volume_percent as nat);
    let middle = status.middle_text();
    let lead = if middle.len() == 0 {
        seq![]
    } else {
        middle + " | "@
    };
    let rest = lead + keys;
    timestamp::shown_time_reads_back(status.current_ms as nat);
    match status.duration_ms {
        Some(ms) => {
            timestamp::shown_time_reads_back(ms as nat);
        },
        None => {
            assert(length =~= seq!['-', '-', ':', '-', '-']);
        },
    }
    text::decimal_reads_back(status.volume_percent as nat);
    assert(status.text() =~= position + seq![' ', '/', ' '] + length + seq![
        ' ',
        '|',
        ' ',
        'V',
        'o',
        'l',
        ' ',
    ] + volume + seq!['%', ' ', '|', ' '] + rest);
    assert(row_reads_as(status.text(), position, length, volume, rest));
    assert(rest.skip(rest.len() - keys.len()) =~= keys);
    match status.input {
        Some(input) => {
            let opened = seq!['G', 'o', 't', 'o', '>', ' '] + input;
            let told = opened + seq![' ', '|', ' '] + status.message;
            assert(rest.take(opened.len() as int) =~= opened);
            if status.message.len() > 0 {
                assert(rest.take(told.len() as int) =~= told);
            }
        },
        None => {
            if status.message.len() == 0 {
                assert(rest =~= keys);
            } else {
                assert(rest =~= status.message + seq![' ', '|', ' '] + keys);
            }
        },
    }
}

/// The status row stands in its own row of the terminal, from the first column on and
/// as far as there are columns; the rest of that row is empty, and every other row
/// stays. A terminal without a status row gets nothing.
pub proof fn status_row_is_drawn_in_its_row(
    layout: VideoTerminalLayout,
    status: Status,
    screen: Screen,
    row: int,
    col: int,
)
    requires
        ansi::is_plain(status.text()),
    ensures
        ({
            let sent = status_row_bytes(layout, status);
            let after = screen.shown(decode_utf8(sent));
            &&& layout.status_row is None ==> sent.len() == 0
            &&& layout.status_row matches Some(own) ==> {
                &&& row == own && 0 <= col < status.text().len() && col < layout.cols ==> after.at(
                    row,
                    col,
                ) == Some(CellContent::Letter(status.text()[col]))
                &&& row == own && (col < 0 || col >= status.text().len() || col >= layout.cols)
                    ==> after.at(row, col) is None
                &&& row != own ==> after.at(row, col) == screen.at(row, col)
                &&& after.color == screen.color
            }
        }),
{
    match layout.status_row {
        Some(own) => {
            let go = ansi::move_to_text(0, own);
            let clear = ansi::clear_text(ClearArea::CurrentLine);
            let shown = first_cols(status.text(), layout.cols as int);
            let whole = go + clear + shown;
            text::encode_utf8_concat(go, clear);
            text::encode_utf8_concat(go + clear, shown);
            assert(status_row_bytes(layout, status) == encode_utf8(whole));
            encode_utf8_decode_utf8(whole);
            let there = Screen { row: own as int, col: 0, ..screen };
            let cleared = there.without(|at: (int, int)| at.0 == there.row);
            ansi::cursor_goes_to_the_cell(screen, 0, own, clear + shown);
            ansi::clearing_empties_cells(there, ClearArea::CurrentLine, shown, row, col);
            assert(whole =~= go + (clear + shown));
            assert(ansi::is_plain(shown));
            ansi::plain_text_is_printed(cleared, shown, row, col);
            assert(there.at(row, col) == screen.at(row, col));
        },
        None => {},
    }
}

} // verus!
