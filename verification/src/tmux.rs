//! Graphics packets inside tmux: passthrough wrapping, and the grid of
//! placeholder characters that tmux lays out in place of the image.
use vstd::prelude::*;
use vstd::string::*;
use vstd::utf8::*;
use crate::ansi;
use crate::ansi::{CellContent, Screen};
use crate::diacritics;
use crate::diacritics::{diacritic_for, DIACRITIC_COUNT};
use crate::text;
use crate::text::{append_text, push_decimal};

verus! {

/// The byte that starts every escape sequence.
pub const ESC: u8 = 0x1b;

/// `ESC P tmux ;`
pub const TMUX_PASSTHROUGH_PREFIX: [u8; 7] = [0x1b, 0x50, 0x74, 0x6d, 0x75, 0x78, 0x3b];

/// `ESC \`
pub const TMUX_PASSTHROUGH_SUFFIX: [u8; 2] = [0x1b, 0x5c];

/// The character that stands for one cell of an image.
pub const KITTY_PLACEHOLDER: char = '\u{10EEEE}';

/// Whether packets have to be passed through tmux.
pub open spec fn needs_passthrough(tmux_env: Option<Seq<u8>>) -> bool {
    tmux_env matches Some(value) && value.len() > 0
}

/// Whether packets have to be passed through tmux: the variable that tmux sets
/// in its panes is there and is not empty.
pub fn tmux_passthrough_needed(tmux_env: Option<&[u8]>) -> (needed: bool)
    ensures
        needed == (tmux_env matches Some(value) && value@.len() > 0),
        needed == needs_passthrough(
            match tmux_env {
                Some(value) => Some(value@),
                None => None,
            },
        ),
{
    match tmux_env {
        Some(value) => value.len() > 0,
        None => false,
    }
}

/// A packet with every escape byte written twice.
pub open spec fn escapes_doubled(packet: Seq<u8>) -> Seq<u8>
    decreases packet.len(),
{
    if packet.len() == 0 {
        seq![]
    } else if packet.last() == ESC {
        escapes_doubled(packet.drop_last()) + seq![ESC, ESC]
    } else {
        escapes_doubled(packet.drop_last()).push(packet.last())
    }
}

/// A packet as tmux passes it through to the terminal.
pub open spec fn tmux_wrapped(packet: Seq<u8>) -> Seq<u8> {
    TMUX_PASSTHROUGH_PREFIX@ + escapes_doubled(packet) + TMUX_PASSTHROUGH_SUFFIX@
}

/// Appends a packet in its passthrough form.
pub fn append_tmux_wrapped_packet(buf: &mut Vec<u8>, packet: &[u8])
    ensures
        final(buf)@ == old(buf)@ + tmux_wrapped(packet@),
{
    buf.extend_from_slice(&TMUX_PASSTHROUGH_PREFIX);
    let mut i: usize = 0;
    while i < packet.len()
        invariant
            i <= packet.len(),
            buf@ == old(buf)@ + TMUX_PASSTHROUGH_PREFIX@ + escapes_doubled(packet@.take(i as int)),
        decreases packet.len() - i,
    {
        let byte: u8 = packet[i];
        assert(packet@.take(i + 1).drop_last() =~= packet@.take(i as int));
        if byte == ESC {
            buf.push(ESC);
        }
        buf.push(byte);
        assert(buf@ =~= old(buf)@ + TMUX_PASSTHROUGH_PREFIX@ + escapes_doubled(
            packet@.take(i + 1),
        ));
        i = i + 1;
    }
    assert(packet@.take(i as int) =~= packet@);
    buf.extend_from_slice(&TMUX_PASSTHROUGH_SUFFIX);
    assert(buf@ =~= old(buf)@ + tmux_wrapped(packet@));
}

/// A packet as it is sent: wrapped for tmux, or as it is.
pub open spec fn sent_packet(packet: Seq<u8>, tmux_passthrough: bool) -> Seq<u8> {
    if tmux_passthrough {
        tmux_wrapped(packet)
    } else {
        packet
    }
}

/// Appends a packet as it is sent.
pub fn write_kitty_packet(writer: &mut Vec<u8>, packet: &[u8], tmux_passthrough: bool)
    ensures
        final(writer)@ == old(writer)@ + sent_packet(packet@, tmux_passthrough),
{
    if !tmux_passthrough {
        writer.extend_from_slice(packet);
    } else {
        append_tmux_wrapped_packet(writer, packet);
    }
}

/// The packet that makes the terminal forget an image.
pub open spec fn delete_packet(image_id: u32) -> Seq<char> {
    "\x1b_Ga=d,d=I,i="@ + text::decimal(image_id as nat) + ",q=2\x1b\\"@
}

/// Appends the packet that deletes an image, passed through tmux.
pub fn write_tmux_delete_image(writer: &mut Vec<u8>, image_id: u32)
    ensures
        final(writer)@ == old(writer)@ + tmux_wrapped(encode_utf8(delete_packet(image_id))),
{
    let mut packet: String = String::new();
    packet.append("\x1b_Ga=d,d=I,i=");
    push_decimal(&mut packet, image_id as u64);
    packet.append(",q=2\x1b\\");
    assert(packet@ =~= delete_packet(image_id));
    write_kitty_packet(writer, packet.as_str().as_bytes(), true);
}

/// What tmux hands to the terminal: the passthrough data up to its end, with
/// doubled escape bytes read as one, and what follows it. `None` if the data
/// does not end, or if an escape byte is followed by anything else.
pub open spec fn read_passthrough(s: Seq<u8>) -> Option<(Seq<u8>, Seq<u8>)>
    decreases s.len(),
{
    if s.len() == 0 {
        None
    } else if s[0] != ESC {
        match read_passthrough(s.skip(1)) {
            Some((data, rest)) => Some((seq![s[0]] + data, rest)),
            None => None,
        }
    } else if s.len() >= 2 && s[1] == ESC {
        match read_passthrough(s.skip(2)) {
            Some((data, rest)) => Some((seq![ESC] + data, rest)),
            None => None,
        }
    } else if s.len() >= 2 && s[1] == 0x5c {
        Some((seq![], s.skip(2)))
    } else {
        None
    }
}

/// Doubling works from the front as it does from the back.
proof fn escapes_doubled_front(packet: Seq<u8>)
    requires
        packet.len() > 0,
    ensures
        escapes_doubled(packet) == (if packet[0] == ESC {
            seq![ESC, ESC]
        } else {
            seq![packet[0]]
        }) + escapes_doubled(packet.skip(1)),
    decreases packet.len(),
{
    if packet.len() == 1 {
        assert(packet.drop_last() =~= seq![]);
        assert(packet.skip(1) =~= seq![]);
        assert(escapes_doubled(seq![]) =~= seq![]);
        assert(escapes_doubled(packet) =~= (if packet[0] == ESC {
            seq![ESC, ESC]
        } else {
            seq![packet[0]]
        }) + escapes_doubled(packet.skip(1)));
    } else {
        escapes_doubled_front(packet.drop_last());
        assert(packet.drop_last().skip(1) =~= packet.skip(1).drop_last());
        assert(escapes_doubled(packet) =~= (if packet[0] == ESC {
            seq![ESC, ESC]
        } else {
            seq![packet[0]]
        }) + escapes_doubled(packet.skip(1)));
    }
}

proof fn doubled_packet_is_read(packet: Seq<u8>, rest: Seq<u8>)
    ensures
        read_passthrough(escapes_doubled(packet) + TMUX_PASSTHROUGH_SUFFIX@ + rest) == Some(
            (packet, rest),
        ),
    decreases packet.len(),
{
    let s = escapes_doubled(packet) + TMUX_PASSTHROUGH_SUFFIX@ + rest;
    if packet.len() == 0 {
        assert(s.skip(2) =~= rest);
        assert(packet =~= seq![]);
    } else {
        escapes_doubled_front(packet);
        doubled_packet_is_read(packet.skip(1), rest);
        let tail = escapes_doubled(packet.skip(1)) + TMUX_PASSTHROUGH_SUFFIX@ + rest;
        if packet[0] == ESC {
            assert(s[0] == ESC && s[1] == ESC);
            assert(s.skip(2) =~= tail);
        } else {
            assert(s[0] == packet[0]);
            assert(s.skip(1) =~= tail);
        }
        assert(seq![packet[0]] + packet.skip(1) =~= packet);
    }
}

/// Whatever a packet holds, the terminal gets it back unchanged out of its
/// passthrough form, and what is sent after it is left alone.
pub proof fn passthrough_reads_back(packet: Seq<u8>, rest: Seq<u8>)
    ensures
        (tmux_wrapped(packet) + rest).take(7) == TMUX_PASSTHROUGH_PREFIX@,
        read_passthrough((tmux_wrapped(packet) + rest).skip(7)) == Some((packet, rest)),
{
    let s = tmux_wrapped(packet) + rest;
    assert(s.take(7) =~= TMUX_PASSTHROUGH_PREFIX@);
    assert(s.skip(7) =~= escapes_doubled(packet) + TMUX_PASSTHROUGH_SUFFIX@ + rest);
    doubled_packet_is_read(packet, rest);
}

/// Rows and columns beyond the available combining characters are cut off, and
/// an image takes up at least one cell.
pub open spec fn placeholder_extent(cells: int) -> int {
    if cells < 1 {
        1
    } else if cells > DIACRITIC_COUNT {
        DIACRITIC_COUNT as int
    } else {
        cells
    }
}

/// The columns and rows of a placeholder grid.
pub fn tmux_placeholder_cells(cols: u32, rows: u32) -> (cells: (u32, u32))
    ensures
        cells.0 == placeholder_extent(cols as int),
        cells.1 == placeholder_extent(rows as int),
{
    let max: u32 = DIACRITIC_COUNT;
    let placed_cols: u32 = if cols < 1 {
        1
    } else if cols > max {
        max
    } else {
        cols
    };
    let placed_rows: u32 = if rows < 1 {
        1
    } else if rows > max {
        max
    } else {
        rows
    };
    (placed_cols, placed_rows)
}

/// The combining character of a row or column number, or nothing where there is
/// none.
pub open spec fn diacritic_text(value: int) -> Seq<char> {
    if 0 <= value < DIACRITIC_COUNT {
        seq![diacritics::diacritic(value)]
    } else {
        seq![]
    }
}

/// Appends the combining character of a row or column number.
pub fn append_diacritic(text: &mut String, value: u32)
    ensures
        final(text)@ == old(text)@ + diacritic_text(value as int),
{
    if value < DIACRITIC_COUNT {
        text.push(diacritic_for(value));
    }
    assert(final(text)@ =~= old(text)@ + diacritic_text(value as int));
}

/// The text color that carries an image id: eight bits each for red, green and
/// blue.
pub open spec fn color_text(image_id: u32) -> Seq<char> {
    "\x1b[38:2:"@ + text::decimal((image_id / 0x1_0000 % 0x100) as nat) + ":"@ + text::decimal(
        (image_id / 0x100 % 0x100) as nat,
    ) + ":"@ + text::decimal((image_id % 0x100) as nat) + "m"@
}

fn append_color(text: &mut String, image_id: u32)
    ensures
        final(text)@ == old(text)@ + color_text(image_id),
{
    assert((image_id >> 16) & 0xff == image_id / 0x1_0000 % 0x100) by (bit_vector);
    assert((image_id >> 8) & 0xff == image_id / 0x100 % 0x100) by (bit_vector);
    assert(image_id & 0xff == image_id % 0x100) by (bit_vector);
    text.append("\x1b[38:2:");
    push_decimal(text, ((image_id >> 16) & 0xff) as u64);
    text.append(":");
    push_decimal(text, ((image_id >> 8) & 0xff) as u64);
    text.append(":");
    push_decimal(text, (image_id & 0xff) as u64);
    text.append("m");
    assert(final(text)@ =~= old(text)@ + color_text(image_id));
}

/// One cell: the placeholder, and the characters of its row and column.
pub open spec fn cell_text(row: int, col: int) -> Seq<char> {
    seq![KITTY_PLACEHOLDER] + diacritic_text(row) + diacritic_text(col)
}

/// The first `n` cells of a row.
pub open spec fn cells_text(row: int, n: nat) -> Seq<char>
    decreases n,
{
    if n == 0 {
        seq![]
    } else {
        cells_text(row, (n - 1) as nat) + cell_text(row, n - 1)
    }
}

/// The cursor movement that indents a row.
pub open spec fn indent_text(indent_cols: u16) -> Seq<char> {
    if indent_cols > 0 {
        "\x1b["@ + text::decimal(indent_cols as nat) + "C"@
    } else {
        seq![]
    }
}

/// What stands between two rows: the color is reset for the line break.
pub open spec fn row_break_text(image_id: u32) -> Seq<char> {
    "\x1b[39m\n\r"@ + color_text(image_id)
}

/// The first `n` of `rows` rows.
pub open spec fn rows_text(image_id: u32, cols: nat, rows: nat, indent_cols: u16, n: nat) -> Seq<
    char,
>
    decreases n,
{
    if n == 0 {
        seq![]
    } else {
        rows_text(image_id, cols, rows, indent_cols, (n - 1) as nat) + indent_text(indent_cols)
            + cells_text(n - 1, cols) + (if n < rows {
            row_break_text(image_id)
        } else {
            seq![]
        })
    }
}

/// The whole grid of placeholders.
pub open spec fn placeholders_text(
    image_id: u32,
    cols: u32,
    rows: u32,
    indent_cols: u16,
    restore_cursor: bool,
) -> Seq<char> {
    let cols = placeholder_extent(cols as int) as nat;
    let rows = placeholder_extent(rows as int) as nat;
    (if restore_cursor {
        "\x1b7"@
    } else {
        seq![]
    }) + "\r"@ + color_text(image_id) + rows_text(image_id, cols, rows, indent_cols, rows)
        + "\x1b[39m"@ + (if restore_cursor {
        "\x1b8"@
    } else {
        seq![]
    })
}

fn append_cells(text: &mut String, row: u32, cols: u32)
    ensures
        final(text)@ == old(text)@ + cells_text(row as int, cols as nat),
{
    let mut col: u32 = 0;
    assert(text@ =~= old(text)@ + cells_text(row as int, 0));
    while col < cols
        invariant
            col <= cols,
            text@ == old(text)@ + cells_text(row as int, col as nat),
        decreases cols - col,
    {
        let ghost before = text@;
        text.push(KITTY_PLACEHOLDER);
        append_diacritic(text, row);
        append_diacritic(text, col);
        assert(text@ =~= before + cell_text(row as int, col as int));
        assert(text@ =~= old(text)@ + cells_text(row as int, (col + 1) as nat));
        col = col + 1;
    }
}

/// Appends the grid of placeholders for an image.
pub fn append_tmux_placeholders(
    buf: &mut Vec<u8>,
    image_id: u32,
    cols: u32,
    rows: u32,
    indent_cols: u16,
    restore_cursor: bool,
)
    ensures
        final(buf)@ == old(buf)@ + encode_utf8(
            placeholders_text(image_id, cols, rows, indent_cols, restore_cursor),
        ),
{
    let (placed_cols, placed_rows) = tmux_placeholder_cells(cols, rows);
    let mut text: String = String::new();
    if restore_cursor {
        text.append("\x1b7");
    }
    text.append("\r");
    append_color(&mut text, image_id);
    let ghost head = text@;
    let mut row: u32 = 0;
    assert(text@ =~= head + rows_text(
        image_id,
        placed_cols as nat,
        placed_rows as nat,
        indent_cols,
        0,
    ));
    while row < placed_rows
        invariant
            row <= placed_rows,
            text@ == head + rows_text(
                image_id,
                placed_cols as nat,
                placed_rows as nat,
                indent_cols,
                row as nat,
            ),
        decreases placed_rows - row,
    {
        let ghost before = text@;
        if indent_cols > 0 {
            text.append("\x1b[");
            push_decimal(&mut text, indent_cols as u64);
            text.append("C");
        }
        assert(text@ =~= before + indent_text(indent_cols));
        append_cells(&mut text, row, placed_cols);
        if row + 1 < placed_rows {
            text.append("\x1b[39m\n\r");
            append_color(&mut text, image_id);
        }
        assert(text@ =~= head + rows_text(
            image_id,
            placed_cols as nat,
            placed_rows as nat,
            indent_cols,
            (row + 1) as nat,
        ));
        row = row + 1;
    }
    text.append("\x1b[39m");
    if restore_cursor {
        text.append("\x1b8");
    }
    assert(text@ =~= placeholders_text(image_id, cols, rows, indent_cols, restore_cursor));
    append_text(buf, text.as_str());
}

/// The color of a placeholder gives back the image id.
pub proof fn color_carries_image_id(image_id: u32)
    requires
        image_id < crate::image_ids::IMAGE_ID_LIMIT,
    ensures
        (image_id / 0x1_0000 % 0x100) * 0x1_0000 + (image_id / 0x100 % 0x100) * 0x100 + image_id
            % 0x100 == image_id,
{
}

/// In a row of the grid every cell is a placeholder followed by the characters
/// of that row and of its own column.
pub proof fn cells_name_their_place(row: int, n: nat, col: int)
    requires
        0 <= row < DIACRITIC_COUNT,
        0 <= col < n <= DIACRITIC_COUNT,
    ensures
        cells_text(row, n).len() == 3 * n,
        cells_text(row, n)[3 * col] == KITTY_PLACEHOLDER,
        cells_text(row, n)[3 * col + 1] == diacritics::diacritic(row),
        cells_text(row, n)[3 * col + 2] == diacritics::diacritic(col),
    decreases n,
{
    let before = cells_text(row, (n - 1) as nat);
    if n > 1 {
        cells_name_their_place(row, (n - 1) as nat, if col < n - 1 { col } else { 0 });
    } else {
        assert(before =~= seq![]);
    }
    assert(cell_text(row, n - 1) =~= seq![KITTY_PLACEHOLDER, diacritics::diacritic(row), diacritics::diacritic(n - 1)]);
}

/// Two cells look the same only if they are the same cell.
pub proof fn cells_are_distinct(row1: int, col1: int, row2: int, col2: int)
    requires
        0 <= row1 < DIACRITIC_COUNT,
        0 <= col1 < DIACRITIC_COUNT,
        0 <= row2 < DIACRITIC_COUNT,
        0 <= col2 < DIACRITIC_COUNT,
        cell_text(row1, col1) == cell_text(row2, col2),
    ensures
        row1 == row2,
        col1 == col2,
{
    let a = cell_text(row1, col1);
    let b = cell_text(row2, col2);
    assert(a[1] == diacritics::diacritic(row1) && a[2] == diacritics::diacritic(col1));
    assert(b[1] == diacritics::diacritic(row2) && b[2] == diacritics::diacritic(col2));
    diacritics::diacritics_are_distinct(row1, row2);
    diacritics::diacritics_are_distinct(col1, col2);
}

/// Passthrough data starts with `ESC P tmux ;` and ends with `ESC \`.
pub proof fn passthrough_is_framed(packet: Seq<u8>)
    ensures
        ({
            let sent = tmux_wrapped(packet);
            &&& sent.len() >= 9
            &&& sent.take(7) == seq![0x1bu8, 0x50, 0x74, 0x6d, 0x75, 0x78, 0x3b]
            &&& sent.skip(sent.len() - 2) == seq![0x1bu8, 0x5c]
        }),
{
    let sent = tmux_wrapped(packet);
    assert(sent.take(7) =~= seq![0x1bu8, 0x50, 0x74, 0x6d, 0x75, 0x78, 0x3b]);
    assert(sent.skip(sent.len() - 2) =~= seq![0x1bu8, 0x5c]);
}

/// The color that an image id is spelled in.
pub open spec fn id_color(image_id: u32) -> (nat, nat, nat) {
    (
        (image_id / 0x1_0000 % 0x100) as nat,
        (image_id / 0x100 % 0x100) as nat,
        (image_id % 0x100) as nat,
    )
}

proof fn color_is_shown(screen: Screen, image_id: u32, rest: Seq<char>)
    ensures
        screen.shown(color_text(image_id) + rest) == (Screen {
            color: Some(id_color(image_id)),
            ..screen
        }).shown(rest),
{
    reveal_strlit("\x1b[38:2:");
    reveal_strlit(":");
    reveal_strlit("m");
    let (red, green, blue) = id_color(image_id);
    let params = seq!['3', '8', ':', '2', ':'] + text::decimal(red) + seq![':'] + text::decimal(
        green,
    ) + seq![':'] + text::decimal(blue);
    assert(color_text(image_id) + rest =~= seq!['\x1b', '['] + params + seq!['m'] + rest);
    ansi::color_is_taken_up(screen, red, green, blue, rest);
}

/// A terminal with the first `n` cells of a row of the image.
spec fn with_cells(screen: Screen, row: int, n: nat) -> Screen
    decreases n,
{
    if n == 0 {
        screen
    } else {
        with_cells(screen, row, (n - 1) as nat).put(
            CellContent::Image {
                color: screen.color,
                row_mark: diacritics::diacritic(row),
                col_mark: diacritics::diacritic(n - 1),
            },
        )
    }
}

proof fn cells_are_shown(screen: Screen, row: int, n: nat, rest: Seq<char>)
    requires
        0 <= row < DIACRITIC_COUNT,
        n <= DIACRITIC_COUNT,
    ensures
        screen.shown(cells_text(row, n) + rest) == with_cells(screen, row, n).shown(rest),
        with_cells(screen, row, n) == (Screen {
            col: screen.col + n,
            cells: with_cells(screen, row, n).cells,
            ..screen
        }),
    decreases n,
{
    if n == 0 {
        assert(cells_text(row, n) + rest =~= rest);
    } else {
        let row_mark = diacritics::diacritic(row);
        let col_mark = diacritics::diacritic(n - 1);
        let cell = seq!['\u{10EEEE}', row_mark, col_mark];
        assert(cell_text(row, n - 1) =~= cell);
        cells_are_shown(screen, row, (n - 1) as nat, cell + rest);
        assert(cells_text(row, n) + rest =~= cells_text(row, (n - 1) as nat) + (cell + rest));
        ansi::image_cell_is_taken_up(
            with_cells(screen, row, (n - 1) as nat),
            row_mark,
            col_mark,
            rest,
        );
    }
}

proof fn cells_stand_in_their_place(screen: Screen, row: int, n: nat, at_row: int, at_col: int)
    ensures
        with_cells(screen, row, n).row == screen.row,
        with_cells(screen, row, n).col == screen.col + n,
        with_cells(screen, row, n).at(at_row, at_col) == (if at_row == screen.row && screen.col
            <= at_col < screen.col + n {
            Some(
                CellContent::Image {
                    color: screen.color,
                    row_mark: diacritics::diacritic(row),
                    col_mark: diacritics::diacritic(at_col - screen.col),
                },
            )
        } else {
            screen.at(at_row, at_col)
        }),
    decreases n,
{
    if n > 0 {
        cells_stand_in_their_place(screen, row, (n - 1) as nat, at_row, at_col);
        ansi::put_fills_one_cell(
            with_cells(screen, row, (n - 1) as nat),
            CellContent::Image {
                color: screen.color,
                row_mark: diacritics::diacritic(row),
                col_mark: diacritics::diacritic(n - 1),
            },
            at_row,
            at_col,
        );
    }
}

/// A terminal with the first `n` of `rows` rows of the image. Between two rows the
/// cursor goes to the start of the next line.
spec fn with_rows(screen: Screen, cols: nat, rows: nat, indent_cols: u16, n: nat) -> Screen
    decreases n,
{
    if n == 0 {
        screen
    } else {
        let before = with_rows(screen, cols, rows, indent_cols, (n - 1) as nat);
        let row = with_cells(
            Screen { col: before.col + indent_cols, ..before },
            n - 1,
            cols,
        );
        if n < rows {
            Screen { row: row.row + 1, col: 0, ..row }
        } else {
            row
        }
    }
}

proof fn indent_is_shown(screen: Screen, indent_cols: u16, rest: Seq<char>)
    ensures
        screen.shown(indent_text(indent_cols) + rest) == (Screen {
            col: screen.col + indent_cols,
            ..screen
        }).shown(rest),
{
    if indent_cols > 0 {
        ansi::numbered_commands_move_the_cursor(screen, indent_cols as nat, rest);
    } else {
        assert(indent_text(indent_cols) + rest =~= rest);
    }
}

proof fn row_break_is_shown(screen: Screen, image_id: u32, rest: Seq<char>)
    requires
        screen.color == Some(id_color(image_id)),
    ensures
        screen.shown(row_break_text(image_id) + rest) == (Screen {
            row: screen.row + 1,
            col: 0,
            ..screen
        }).shown(rest),
{
    reveal_strlit("\x1b[39m\n\r");
    let color = color_text(image_id) + rest;
    let plain = Screen { color: None, ..screen };
    let below = Screen { row: screen.row + 1, ..plain };
    let start = Screen { col: 0, ..below };
    assert(row_break_text(image_id) + rest =~= seq!['\x1b', '[', '3', '9', 'm'] + (seq!['\n'] + (
    seq!['\r'] + color)));
    ansi::color_is_taken_up(screen, 0, 0, 0, seq!['\n'] + (seq!['\r'] + color));
    ansi::letter_is_taken_up(plain, '\n', seq!['\r'] + color);
    ansi::letter_is_taken_up(below, '\r', color);
    color_is_shown(start, image_id, rest);
}

proof fn rows_are_shown(
    screen: Screen,
    image_id: u32,
    cols: nat,
    rows: nat,
    indent_cols: u16,
    n: nat,
    rest: Seq<char>,
)
    requires
        n <= rows <= DIACRITIC_COUNT,
        cols <= DIACRITIC_COUNT,
        screen.color == Some(id_color(image_id)),
    ensures
        screen.shown(rows_text(image_id, cols, rows, indent_cols, n) + rest) == with_rows(
            screen,
            cols,
            rows,
            indent_cols,
            n,
        ).shown(rest),
        with_rows(screen, cols, rows, indent_cols, n).color == screen.color,
        with_rows(screen, cols, rows, indent_cols, n).saved == screen.saved,
    decreases n,
{
    if n == 0 {
        assert(rows_text(image_id, cols, rows, indent_cols, n) + rest =~= rest);
    } else {
        let m = (n - 1) as nat;
        let earlier = rows_text(image_id, cols, rows, indent_cols, m);
        let indent = indent_text(indent_cols);
        let cells = cells_text(n - 1, cols);
        let ending = if n < rows {
            row_break_text(image_id)
        } else {
            seq![]
        };
        let before = with_rows(screen, cols, rows, indent_cols, m);
        let indented = Screen { col: before.col + indent_cols, ..before };
        let row = with_cells(indented, n - 1, cols);
        rows_are_shown(
            screen,
            image_id,
            cols,
            rows,
            indent_cols,
            m,
            indent + (cells + (ending + rest)),
        );
        assert(rows_text(image_id, cols, rows, indent_cols, n) + rest =~= earlier + (indent + (cells
            + (ending + rest))));
        indent_is_shown(before, indent_cols, cells + (ending + rest));
        cells_are_shown(indented, n - 1, cols, ending + rest);
        if n < rows {
            row_break_is_shown(row, image_id, rest);
        } else {
            assert(ending + rest =~= rest);
        }
    }
}

proof fn rows_stand_in_their_place(
    screen: Screen,
    cols: nat,
    rows: nat,
    indent_cols: u16,
    n: nat,
    at_row: int,
    at_col: int,
)
    requires
        n <= rows,
        screen.col == 0,
    ensures
        ({
            let after = with_rows(screen, cols, rows, indent_cols, n);
            let r = at_row - screen.row;
            let c = at_col - indent_cols;
            &&& after.color == screen.color
            &&& n < rows ==> after.row == screen.row + n && after.col == 0
            &&& n == rows && n > 0 ==> after.row == screen.row + n - 1 && after.col == indent_cols
                + cols
            &&& after.at(at_row, at_col) == (if 0 <= r < n && 0 <= c < cols {
                Some(
                    CellContent::Image {
                        color: screen.color,
                        row_mark: diacritics::diacritic(r),
                        col_mark: diacritics::diacritic(c),
                    },
                )
            } else {
                screen.at(at_row, at_col)
            })
        }),
    decreases n,
{
    if n > 0 {
        let m = (n - 1) as nat;
        rows_stand_in_their_place(screen, cols, rows, indent_cols, m, at_row, at_col);
        let before = with_rows(screen, cols, rows, indent_cols, m);
        let indented = Screen { col: before.col + indent_cols, ..before };
        cells_stand_in_their_place(indented, n - 1, cols, at_row, at_col);
        assert(indented.at(at_row, at_col) == before.at(at_row, at_col));
        let row = with_cells(indented, n - 1, cols);
        assert(with_rows(screen, cols, rows, indent_cols, n).at(at_row, at_col) == row.at(
            at_row,
            at_col,
        ));
        cells_keep_the_color(indented, n - 1, cols);
    }
}

proof fn cells_keep_the_color(screen: Screen, row: int, n: nat)
    ensures
        with_cells(screen, row, n).color == screen.color,
    decreases n,
{
    if n > 0 {
        cells_keep_the_color(screen, row, (n - 1) as nat);
    }
}

/// The placeholders fill a grid of cells, from the row of the cursor on downwards
/// and from the indent on to the right. Every cell carries the image id in its color
/// and the marks of its own row and column. All other cells stay, and so does the
/// cursor where it is to be restored; otherwise it stands behind the last cell. The
/// text color ends with the grid.
pub proof fn placeholders_fill_their_cells(
    screen: Screen,
    image_id: u32,
    cols: u32,
    rows: u32,
    indent_cols: u16,
    restore_cursor: bool,
    at_row: int,
    at_col: int,
)
    requires
        image_id < 0x100_0000,
    ensures
        ({
            let after = screen.shown(
                placeholders_text(image_id, cols, rows, indent_cols, restore_cursor),
            );
            let placed_cols: int = if cols < 1 {
                1
            } else if cols > 297 {
                297
            } else {
                cols as int
            };
            let placed_rows: int = if rows < 1 {
                1
            } else if rows > 297 {
                297
            } else {
                rows as int
            };
            let r = at_row - screen.row;
            let c = at_col - indent_cols;
            &&& 0 <= r < placed_rows && 0 <= c < placed_cols ==> {
                &&& after.at(at_row, at_col) matches Some(
                    CellContent::Image { color, row_mark, col_mark },
                )
                &&& color matches Some((red, green, blue))
                &&& red < 0x100 && green < 0x100 && blue < 0x100
                &&& red * 0x1_0000 + green * 0x100 + blue == image_id
                &&& row_mark == diacritics::diacritic(r)
                &&& col_mark == diacritics::diacritic(c)
            }
            &&& !(0 <= r < placed_rows && 0 <= c < placed_cols) ==> after.at(at_row, at_col)
                == screen.at(at_row, at_col)
            &&& after.color is None
            &&& restore_cursor ==> after.row == screen.row && after.col == screen.col
            &&& !restore_cursor ==> after.row == screen.row + placed_rows - 1 && after.col
                == indent_cols + placed_cols
        }),
{
    reveal_strlit("\x1b7");
    reveal_strlit("\r");
    reveal_strlit("\x1b[39m");
    reveal_strlit("\x1b8");
    let placed_cols = placeholder_extent(cols as int) as nat;
    let placed_rows = placeholder_extent(rows as int) as nat;
    let whole = placeholders_text(image_id, cols, rows, indent_cols, restore_cursor);
    let color = color_text(image_id);
    let grid = rows_text(image_id, placed_cols, placed_rows, indent_cols, placed_rows);
    let ending = if restore_cursor {
        "\x1b8"@
    } else {
        seq![]
    };
    let none = Seq::<char>::empty();
    let reset = seq!['\x1b', '[', '3', '9', 'm'];
    let body = seq!['\r'] + (color + (grid + (reset + ending)));
    let kept = if restore_cursor {
        Screen { saved: (screen.row, screen.col), ..screen }
    } else {
        screen
    };
    if restore_cursor {
        assert(whole =~= seq!['\x1b', '7'] + body);
        ansi::escape_is_taken_up(screen, '7', body);
    } else {
        assert(whole =~= body);
    }
    let start = Screen { col: 0, ..kept };
    let colored = Screen { color: Some(id_color(image_id)), ..start };
    let drawn = with_rows(colored, placed_cols, placed_rows, indent_cols, placed_rows);
    let plain = Screen { color: None, ..drawn };
    ansi::letter_is_taken_up(kept, '\r', color + (grid + (reset + ending)));
    color_is_shown(start, image_id, grid + (reset + ending));
    rows_are_shown(
        colored,
        image_id,
        placed_cols,
        placed_rows,
        indent_cols,
        placed_rows,
        reset + ending,
    );
    ansi::color_is_taken_up(drawn, 0, 0, 0, ending);
    if restore_cursor {
        assert(ending =~= seq!['\x1b', '8'] + none);
        ansi::escape_is_taken_up(plain, '8', none);
        ansi::nothing_is_shown(Screen { row: plain.saved.0, col: plain.saved.1, ..plain });
    } else {
        assert(ending =~= none);
        ansi::nothing_is_shown(plain);
    }
    rows_stand_in_their_place(
        colored,
        placed_cols,
        placed_rows,
        indent_cols,
        placed_rows,
        at_row,
        at_col,
    );
    assert(colored.at(at_row, at_col) == screen.at(at_row, at_col));
    let after = screen.shown(whole);
    assert(after.at(at_row, at_col) == drawn.at(at_row, at_col));
    color_carries_image_id(image_id);
}

/// Packets are passed through exactly inside tmux: where its variable is set to anything
/// at all.
pub proof fn passthrough_is_for_tmux(value: Seq<u8>)
    ensures
        !needs_passthrough(None),
        needs_passthrough(Some(value)) <==> value != Seq::<u8>::empty(),
{
    if value.len() == 0 {
        assert(value =~= Seq::<u8>::empty());
    }
}

} // verus!
