//! What a terminal makes of the packets: it reads back the pixels.
use vstd::prelude::*;
use vstd::string::*;
use vstd::utf8::*;
use crate::base64_text;
use crate::kitty;
use crate::kitty::FrameHeader;
use crate::text;
use crate::tmux;
use crate::tmux::{ESC, TMUX_PASSTHROUGH_PREFIX};

verus! {

/// The bytes up to the end of a graphics command, and what follows it. `None`
/// if the command does not end, or if it holds any other escape sequence.
pub open spec fn read_to_end(s: Seq<u8>) -> Option<(Seq<u8>, Seq<u8>)>
    decreases s.len(),
{
    if s.len() == 0 {
        None
    } else if s[0] == ESC {
        if s.len() >= 2 && s[1] == 0x5c {
            Some((seq![], s.skip(2)))
        } else {
            None
        }
    } else {
        match read_to_end(s.skip(1)) {
            Some((body, rest)) => Some((seq![s[0]] + body, rest)),
            None => None,
        }
    }
}

/// The body of the graphics command that a stream starts with, and what follows
/// it.
pub open spec fn read_command(s: Seq<u8>) -> Option<(Seq<u8>, Seq<u8>)> {
    if s.len() >= 3 && s[0] == ESC && s[1] == 0x5f && s[2] == 0x47 {
        read_to_end(s.skip(3))
    } else {
        None
    }
}

/// The body of the packet that a stream starts with, and what follows it. Under
/// tmux every packet is passed through on its own.
pub open spec fn read_packet(s: Seq<u8>, tmux_passthrough: bool) -> Option<(Seq<u8>, Seq<u8>)> {
    if !tmux_passthrough {
        read_command(s)
    } else if s.len() >= 7 && s.take(7) == TMUX_PASSTHROUGH_PREFIX@ {
        match tmux::read_passthrough(s.skip(7)) {
            Some((data, rest)) => match read_command(data) {
                Some((body, after)) => if after.len() == 0 {
                    Some((body, rest))
                } else {
                    None
                },
                None => None,
            },
            None => None,
        }
    } else {
        None
    }
}

/// The keys and the payload of a body: what stands before and after its first
/// semicolon.
pub open spec fn read_body(body: Seq<u8>) -> Option<(Seq<u8>, Seq<u8>)>
    decreases body.len(),
{
    if body.len() == 0 {
        None
    } else if body[0] == 0x3b {
        Some((seq![], body.skip(1)))
    } else {
        match read_body(body.skip(1)) {
            Some((keys, payload)) => Some((seq![body[0]] + keys, payload)),
            None => None,
        }
    }
}

/// The payload of a transmission, gathered from its packets for as long as the
/// keys announce more of them, and what follows it.
pub open spec fn read_transmission(s: Seq<u8>, tmux_passthrough: bool) -> Option<
    (Seq<u8>, Seq<u8>),
>
    decreases s.len(),
{
    match read_packet(s, tmux_passthrough) {
        Some((body, rest)) => match read_body(body) {
            Some((keys, payload)) => if keys.len() > 0 && keys.last() == 0x31 {
                if rest.len() < s.len() {
                    match read_transmission(rest, tmux_passthrough) {
                        Some((more, after)) => Some((payload + more, after)),
                        None => None,
                    }
                } else {
                    None
                }
            } else {
                Some((payload, rest))
            },
            None => None,
        },
        None => None,
    }
}

/// No byte starts an escape sequence.
pub open spec fn free_of_escapes(s: Seq<u8>) -> bool {
    forall|i: int| 0 <= i < s.len() ==> #[trigger] s[i] != ESC
}

/// Text of keys: ASCII, without escape characters and semicolons.
#[verifier::opaque]
spec fn is_key_text(s: Seq<char>) -> bool {
    forall|i: int|
        0 <= i < s.len() ==> '\0' <= #[trigger] s[i] <= '\u{7f}' && s[i] != '\x1b' && s[i] != ';'
}

proof fn command_is_read(body: Seq<u8>, rest: Seq<u8>)
    requires
        free_of_escapes(body),
    ensures
        read_to_end(body + seq![ESC, 0x5c] + rest) == Some((body, rest)),
    decreases body.len(),
{
    let s = body + seq![ESC, 0x5c] + rest;
    if body.len() == 0 {
        assert(s.skip(2) =~= rest);
        assert(body =~= seq![]);
    } else {
        assert(body[0] != ESC);
        assert forall|i: int| 0 <= i < body.skip(1).len() implies #[trigger] body.skip(1)[i]
            != ESC by {
            assert(body[i + 1] != ESC);
        }
        command_is_read(body.skip(1), rest);
        assert(s.skip(1) =~= body.skip(1) + seq![ESC, 0x5c] + rest);
        assert(seq![body[0]] + body.skip(1) =~= body);
    }
}

proof fn body_is_read(keys: Seq<u8>, payload: Seq<u8>)
    requires
        forall|i: int| 0 <= i < keys.len() ==> #[trigger] keys[i] != 0x3b,
    ensures
        read_body(keys + seq![0x3bu8] + payload) == Some((keys, payload)),
    decreases keys.len(),
{
    let s = keys + seq![0x3bu8] + payload;
    if keys.len() == 0 {
        assert(s.skip(1) =~= payload);
        assert(keys =~= seq![]);
    } else {
        assert(keys[0] != 0x3b);
        assert forall|i: int| 0 <= i < keys.skip(1).len() implies #[trigger] keys.skip(1)[i]
            != 0x3b by {
            assert(keys[i + 1] != 0x3b);
        }
        body_is_read(keys.skip(1), payload);
        assert(s.skip(1) =~= keys.skip(1) + seq![0x3bu8] + payload);
        assert(seq![keys[0]] + keys.skip(1) =~= keys);
    }
}

proof fn decimal_is_key_text(n: nat)
    ensures
        is_key_text(text::decimal(n)),
{
    reveal(is_key_text);
    text::decimal_reads_back(n);
    let s = text::decimal(n);
    assert forall|i: int| 0 <= i < s.len() implies '\0' <= #[trigger] s[i] <= '\u{7f}' && s[i]
        != '\x1b' && s[i] != ';' by {
        assert(text::is_digit(s[i]));
    }
}

proof fn key_text_concat(a: Seq<char>, b: Seq<char>)
    requires
        is_key_text(a),
        is_key_text(b),
    ensures
        is_key_text(a + b),
{
    reveal(is_key_text);
}

proof fn key_words_are_key_text()
    ensures
        is_key_text(",C=1"@),
        is_key_text("a=T,i="@),
        is_key_text(",f=32,s="@),
        is_key_text(",v="@),
        is_key_text(",c="@),
        is_key_text(",r="@),
        is_key_text(",U=1"@),
        is_key_text(",q=2"@),
        is_key_text("a=T,f=32,s="@),
{
    reveal(is_key_text);
    reveal_strlit(",C=1");
    reveal_strlit("a=T,i=");
    reveal_strlit(",f=32,s=");
    reveal_strlit(",v=");
    reveal_strlit(",c=");
    reveal_strlit(",r=");
    reveal_strlit(",U=1");
    reveal_strlit(",q=2");
    reveal_strlit("a=T,f=32,s=");
}

proof fn frame_keys_are_key_text(header: FrameHeader)
    ensures
        is_key_text(kitty::frame_keys(header)),
{
    key_words_are_key_text();
    let id = text::decimal(header.image_id as nat);
    let width = text::decimal(header.width_px as nat);
    let height = text::decimal(header.height_px as nat);
    let cols = text::decimal(tmux::placeholder_extent(header.cols as int) as nat);
    let rows = text::decimal(tmux::placeholder_extent(header.rows as int) as nat);
    let policy = kitty::cursor_policy_text(header.prevent_cursor_move);
    decimal_is_key_text(header.image_id as nat);
    decimal_is_key_text(header.width_px as nat);
    decimal_is_key_text(header.height_px as nat);
    decimal_is_key_text(tmux::placeholder_extent(header.cols as int) as nat);
    decimal_is_key_text(tmux::placeholder_extent(header.rows as int) as nat);
    assert(is_key_text(policy)) by {
        reveal(is_key_text);
    }
    if header.tmux_passthrough {
        key_text_concat("a=T,i="@, id);
        key_text_concat("a=T,i="@ + id, ",f=32,s="@);
        key_text_concat("a=T,i="@ + id + ",f=32,s="@, width);
        let a = "a=T,i="@ + id + ",f=32,s="@ + width;
        key_text_concat(a, ",v="@);
        key_text_concat(a + ",v="@, height);
        key_text_concat(a + ",v="@ + height, ",c="@);
        key_text_concat(a + ",v="@ + height + ",c="@, cols);
        let b = a + ",v="@ + height + ",c="@ + cols;
        key_text_concat(b, ",r="@);
        key_text_concat(b + ",r="@, rows);
        key_text_concat(b + ",r="@ + rows, ",U=1"@);
        key_text_concat(b + ",r="@ + rows + ",U=1"@, policy);
        key_text_concat(b + ",r="@ + rows + ",U=1"@ + policy, ",q=2"@);
    } else {
        key_text_concat("a=T,f=32,s="@, width);
        key_text_concat("a=T,f=32,s="@ + width, ",v="@);
        key_text_concat("a=T,f=32,s="@ + width + ",v="@, height);
        key_text_concat("a=T,f=32,s="@ + width + ",v="@ + height, policy);
        key_text_concat("a=T,f=32,s="@ + width + ",v="@ + height + policy, ",q=2"@);
    }
}

proof fn packet_keys_are_key_text(header: FrameHeader, first: bool, more: bool)
    ensures
        is_key_text(kitty::packet_keys(header, first, more)),
        kitty::packet_keys(header, first, more).len() > 0,
        kitty::packet_keys(header, first, more).last() == (if more {
            '1'
        } else {
            '0'
        }),
{
    reveal(is_key_text);
    frame_keys_are_key_text(header);
    reveal_strlit("q=2");
    reveal_strlit(",m=1");
    reveal_strlit(",m=0");
}

/// A packet of a frame gives back its keys and its part of the payload.
pub proof fn frame_packet_reads_back(
    header: FrameHeader,
    payload: Seq<u8>,
    k: int,
    rest: Seq<u8>,
)
    requires
        free_of_escapes(payload),
        0 <= k < kitty::packet_count(payload.len()),
    ensures
        ({
            let more = k + 1 < kitty::packet_count(payload.len());
            let keys = encode_utf8(kitty::packet_keys(header, k == 0, more));
            let body = kitty::packet_body(header, payload, k);
            &&& read_packet(
                tmux::sent_packet(
                    kitty::frame_packet(header, payload, k),
                    header.tmux_passthrough,
                ) + rest,
                header.tmux_passthrough,
            ) == Some((body, rest))
            &&& read_body(body) == Some((keys, kitty::packet_payload(payload, k)))
            &&& keys.len() > 0
            &&& keys.last() == (if more {
                0x31u8
            } else {
                0x30u8
            })
        }),
{
    reveal(is_key_text);
    let more = k + 1 < kitty::packet_count(payload.len());
    let key_text = kitty::packet_keys(header, k == 0, more);
    let keys = encode_utf8(key_text);
    let part = kitty::packet_payload(payload, k);
    let body = kitty::packet_body(header, payload, k);
    let packet = kitty::frame_packet(header, payload, k);

    packet_keys_are_key_text(header, k == 0, more);
    assert(is_ascii_chars(key_text));
    is_ascii_chars_encode_utf8(key_text);
    reveal_strlit(";");
    is_ascii_chars_encode_utf8(";"@);
    assert(encode_utf8(";"@) =~= seq![0x3bu8]);
    text::encode_utf8_concat(key_text, ";"@);
    assert(body =~= keys + seq![0x3bu8] + part);
    assert forall|i: int| 0 <= i < keys.len() implies #[trigger] keys[i] != 0x3b && keys[i]
        != ESC by {
        assert(keys[i] == key_text[i] as u8);
    }
    body_is_read(keys, part);

    assert forall|i: int| 0 <= i < body.len() implies #[trigger] body[i] != ESC by {
        if i > keys.len() {
            assert(body[i] == payload[4096 * k + i - keys.len() - 1]);
        }
    }
    reveal_strlit("\x1b_G");
    is_ascii_chars_encode_utf8("\x1b_G"@);
    assert(encode_utf8("\x1b_G"@) =~= seq![ESC, 0x5f, 0x47]);
    reveal_strlit("\x1b\\");
    is_ascii_chars_encode_utf8("\x1b\\"@);
    assert(encode_utf8("\x1b\\"@) =~= seq![ESC, 0x5c]);

    if header.tmux_passthrough {
        tmux::passthrough_reads_back(packet, rest);
        let none = Seq::<u8>::empty();
        command_is_read(body, none);
        assert(packet.skip(3) =~= body + seq![ESC, 0x5c] + none);
    } else {
        command_is_read(body, rest);
        assert((packet + rest).skip(3) =~= body + seq![ESC, 0x5c] + rest);
    }
}

proof fn packets_from_read_back(header: FrameHeader, payload: Seq<u8>, k: int, rest: Seq<u8>)
    requires
        free_of_escapes(payload),
        0 <= k < kitty::packet_count(payload.len()),
    ensures
        read_transmission(
            kitty::packets_from(header, payload, k) + rest,
            header.tmux_passthrough,
        ) == Some((payload.skip(4096 * k), rest)),
    decreases kitty::packet_count(payload.len()) - k,
{
    let s = kitty::packets_from(header, payload, k) + rest;
    let sent = tmux::sent_packet(
        kitty::frame_packet(header, payload, k),
        header.tmux_passthrough,
    );
    let after = kitty::packets_from(header, payload, k + 1) + rest;
    assert(s =~= sent + after);
    frame_packet_reads_back(header, payload, k, after);
    let part = kitty::packet_payload(payload, k);
    if k + 1 < kitty::packet_count(payload.len()) {
        packets_from_read_back(header, payload, k + 1, rest);
        assert(sent.len() > 0) by {
            reveal_strlit("\x1b\\");
            is_ascii_chars_encode_utf8("\x1b\\"@);
        }
        assert(part + payload.skip(4096 * (k + 1)) =~= payload.skip(4096 * k));
    } else {
        assert(after =~= rest);
        assert(part =~= payload.skip(4096 * k));
    }
}

/// Out of the packets of a frame a terminal gathers the whole payload, in order,
/// and stops right behind the last packet.
pub proof fn frame_packets_read_back(header: FrameHeader, payload: Seq<u8>, rest: Seq<u8>)
    requires
        free_of_escapes(payload),
        payload.len() > 0,
    ensures
        read_transmission(
            kitty::frame_packets(header, payload) + rest,
            header.tmux_passthrough,
        ) == Some((payload, rest)),
{
    packets_from_read_back(header, payload, 0, rest);
    assert(payload.skip(0) =~= payload);
}

/// Pixels in Base64 start no escape sequence, and make a payload unless there
/// are none.
pub proof fn payload_is_free_of_escapes(pixels: Seq<u8>)
    ensures
        free_of_escapes(encode_utf8(base64_text::base64(pixels))),
        encode_utf8(base64_text::base64(pixels)).len() == base64_text::base64_len(pixels.len()),
{
    let encoded = base64_text::base64(pixels);
    let payload = encode_utf8(encoded);
    assert forall|i: int| 0 <= i < encoded.len() implies '\0' <= #[trigger] encoded[i] <= '\u{7f}'
        && encoded[i] != '\x1b' by {
        base64_text::base64_alphabet(pixels, i);
    }
    is_ascii_chars_encode_utf8(encoded);
    assert forall|i: int| 0 <= i < payload.len() implies #[trigger] payload[i] != ESC by {
        assert(payload[i] == encoded[i] as u8);
        assert(encoded[i] != '\x1b');
    }
}

/// The pixels of a frame are what a terminal decodes from its packets.
pub proof fn frame_gives_back_pixels(header: FrameHeader, pixels: Seq<u8>, rest: Seq<u8>)
    requires
        pixels.len() > 0,
    ensures
        ({
            let sent = kitty::frame_packets(header, encode_utf8(base64_text::base64(pixels)));
            let read = read_transmission(sent + rest, header.tmux_passthrough);
            &&& read matches Some((payload, after))
            &&& base64_text::decoded(decode_utf8(payload)) == pixels
            &&& after == rest
        }),
{
    let encoded = base64_text::base64(pixels);
    let payload = encode_utf8(encoded);
    payload_is_free_of_escapes(pixels);
    frame_packets_read_back(header, payload, rest);
    encode_utf8_decode_utf8(encoded);
    base64_text::base64_reads_back(pixels);
}

/// The body of the packet that makes the terminal forget an image.
pub open spec fn delete_body(image_id: u32) -> Seq<u8> {
    encode_utf8("a=d,d=I,i="@ + text::decimal(image_id as nat) + ",q=2"@)
}

/// The deletion of an image is read as one packet that names the image.
pub proof fn deletion_reads_back(image_id: u32, rest: Seq<u8>)
    ensures
        read_packet(
            tmux::tmux_wrapped(encode_utf8(tmux::delete_packet(image_id))) + rest,
            true,
        ) == Some((delete_body(image_id), rest)),
{
    reveal(is_key_text);
    let number = text::decimal(image_id as nat);
    let keys = "a=d,d=I,i="@ + number + ",q=2"@;
    let body = delete_body(image_id);
    let packet = encode_utf8(tmux::delete_packet(image_id));

    reveal_strlit("a=d,d=I,i=");
    reveal_strlit(",q=2");
    decimal_is_key_text(image_id as nat);
    assert(is_key_text(keys));
    is_ascii_chars_encode_utf8(keys);
    assert forall|i: int| 0 <= i < body.len() implies #[trigger] body[i] != ESC by {
        assert(body[i] == keys[i] as u8);
    }
    reveal_strlit("\x1b_G");
    reveal_strlit("\x1b\\");
    reveal_strlit("\x1b_Ga=d,d=I,i=");
    reveal_strlit(",q=2\x1b\\");
    assert(tmux::delete_packet(image_id) =~= "\x1b_G"@ + keys + "\x1b\\"@);
    text::encode_utf8_concat("\x1b_G"@ + keys, "\x1b\\"@);
    text::encode_utf8_concat("\x1b_G"@, keys);
    is_ascii_chars_encode_utf8("\x1b_G"@);
    assert(encode_utf8("\x1b_G"@) =~= seq![ESC, 0x5f, 0x47]);
    is_ascii_chars_encode_utf8("\x1b\\"@);
    assert(encode_utf8("\x1b\\"@) =~= seq![ESC, 0x5c]);

    tmux::passthrough_reads_back(packet, rest);
    let none = Seq::<u8>::empty();
    command_is_read(body, none);
    assert(packet.skip(3) =~= body + seq![ESC, 0x5c] + none);
}

/// Everything that is sent for a frame reads back: first the deletion of the
/// image that it replaces, where it replaces one, then its pixels, and last the
/// placeholders, of which there are none without tmux.
pub proof fn whole_frame_reads_back(
    header: FrameHeader,
    delete_first: bool,
    pixels: Seq<u8>,
    indent_cols: u16,
)
    requires
        pixels.len() > 0,
        delete_first ==> header.tmux_passthrough,
    ensures
        ({
            let sent = kitty::frame_output(header, delete_first, pixels, indent_cols);
            let placeholders = if header.tmux_passthrough {
                encode_utf8(
                    tmux::placeholders_text(
                        header.image_id,
                        header.cols,
                        header.rows,
                        indent_cols,
                        header.prevent_cursor_move,
                    ),
                )
            } else {
                seq![]
            };
            let transmission = match read_packet(sent, true) {
                Some((_, after)) if delete_first => after,
                _ => sent,
            };
            &&& delete_first ==> read_packet(sent, true) == Some(
                (delete_body(header.image_id), transmission),
            )
            &&& read_transmission(transmission, header.tmux_passthrough) matches Some(
                (payload, after),
            )
            &&& base64_text::decoded(decode_utf8(payload)) == pixels
            &&& after == placeholders
        }),
{
    let sent = kitty::frame_output(header, delete_first, pixels, indent_cols);
    let packets = kitty::frame_packets(header, encode_utf8(base64_text::base64(pixels)));
    let placeholders = if header.tmux_passthrough {
        encode_utf8(
            tmux::placeholders_text(
                header.image_id,
                header.cols,
                header.rows,
                indent_cols,
                header.prevent_cursor_move,
            ),
        )
    } else {
        seq![]
    };
    frame_gives_back_pixels(header, pixels, placeholders);
    if delete_first {
        let deletion = tmux::tmux_wrapped(encode_utf8(tmux::delete_packet(header.image_id)));
        deletion_reads_back(header.image_id, packets + placeholders);
        assert(sent =~= deletion + (packets + placeholders));
    } else {
        assert(sent =~= packets + placeholders);
    }
}

/// No packet carries more than 4096 bytes of payload, and only the last one
/// carries fewer.
pub proof fn packets_are_full_but_the_last(payload: Seq<u8>, k: int)
    requires
        0 <= k < kitty::packet_count(payload.len()),
    ensures
        0 < kitty::packet_payload(payload, k).len() <= 4096,
        k + 1 < kitty::packet_count(payload.len()) ==> kitty::packet_payload(payload, k).len()
            == 4096,
{
}

/// A frame without pixels sends no packet.
pub proof fn empty_frame_sends_nothing(header: FrameHeader)
    ensures
        kitty::frame_packets(header, encode_utf8(base64_text::base64(seq![]))) == Seq::<
            u8,
        >::empty(),
{
    assert(base64_text::base64(seq![]) =~= seq![]);
}

/// The parts of a text between its commas.
pub open spec fn comma_parts(s: Seq<char>) -> Seq<Seq<char>> {
    text::split(s, ',')
}

/// A part gives a key its value: a letter, an equals sign, and the value.
pub open spec fn gives_key(part: Seq<char>, key: char) -> bool {
    part.len() >= 2 && part[0] == key && part[1] == '='
}

/// The value that the last part with a key gives it.
pub open spec fn key_value(parts: Seq<Seq<char>>, key: char) -> Option<Seq<char>>
    decreases parts.len(),
{
    if parts.len() == 0 {
        None
    } else if gives_key(parts.last(), key) {
        Some(parts.last().skip(2))
    } else {
        key_value(parts.drop_last(), key)
    }
}

/// The number that a key has; `None` where it has none, or something else.
pub open spec fn key_number(parts: Seq<Seq<char>>, key: char) -> Option<nat> {
    match key_value(parts, key) {
        Some(value) => if value.len() > 0 && text::all_digits(value) {
            Some(text::decimal_value(value))
        } else {
            None
        },
        None => None,
    }
}

/// Every part gives a key its value, and no key occurs twice.
pub open spec fn keys_are_plain(parts: Seq<Seq<char>>) -> bool {
    &&& forall|i: int|
        0 <= i < parts.len() ==> (#[trigger] parts[i]).len() >= 3 && parts[i][1] == '='
    &&& forall|i: int, j: int|
        0 <= i < j < parts.len() ==> (#[trigger] parts[i])[0] != (#[trigger] parts[j])[0]
}

/// The keys of the packet that a stream starts with.
pub open spec fn read_keys(s: Seq<u8>, tmux_passthrough: bool) -> Option<Seq<Seq<char>>> {
    match read_packet(s, tmux_passthrough) {
        Some((body, _)) => match read_body(body) {
            Some((keys, _)) => Some(comma_parts(decode_utf8(keys))),
            None => None,
        },
        None => None,
    }
}

proof fn key_is_found(parts: Seq<Seq<char>>, key: char, i: int)
    requires
        0 <= i < parts.len(),
        gives_key(parts[i], key),
        forall|j: int| i < j < parts.len() ==> !gives_key(#[trigger] parts[j], key),
    ensures
        key_value(parts, key) == Some(parts[i].skip(2)),
    decreases parts.len(),
{
    if i < parts.len() - 1 {
        let shorter = parts.drop_last();
        assert(parts[parts.len() - 1] == parts.last());
        assert forall|j: int| i < j < shorter.len() implies !gives_key(
            #[trigger] shorter[j],
            key,
        ) by {
            assert(shorter[j] == parts[j]);
        }
        key_is_found(shorter, key, i);
    }
}

proof fn key_is_missing(parts: Seq<Seq<char>>, key: char)
    requires
        forall|j: int| 0 <= j < parts.len() ==> !gives_key(#[trigger] parts[j], key),
    ensures
        key_value(parts, key) is None,
    decreases parts.len(),
{
    if parts.len() > 0 {
        let shorter = parts.drop_last();
        assert(parts[parts.len() - 1] == parts.last());
        assert forall|j: int| 0 <= j < shorter.len() implies !gives_key(
            #[trigger] shorter[j],
            key,
        ) by {
            assert(shorter[j] == parts[j]);
        }
        key_is_missing(shorter, key);
    }
}

/// A key with a number.
spec fn numbered(key: char, n: nat) -> Seq<char> {
    seq![key, '='] + text::decimal(n)
}

proof fn numbered_part(key: char, n: nat)
    requires
        key != ',',
    ensures
        numbered(key, n).len() >= 3,
        numbered(key, n)[0] == key,
        numbered(key, n)[1] == '=',
        numbered(key, n).skip(2) == text::decimal(n),
        text::decimal(n).len() > 0,
        text::all_digits(text::decimal(n)),
        text::decimal_value(text::decimal(n)) == n,
        forall|i: int| 0 <= i < numbered(key, n).len() ==> #[trigger] numbered(key, n)[i] != ',',
{
    text::decimal_reads_back(n);
    let d = text::decimal(n);
    assert(numbered(key, n).skip(2) =~= d);
    assert forall|i: int| 0 <= i < numbered(key, n).len() implies #[trigger] numbered(key, n)[i]
        != ',' by {
        if i >= 2 {
            assert(text::is_digit(d[i - 2]));
        }
    }
}

/// The text of a short number.
proof fn small_numbers()
    ensures
        text::decimal(0) == seq!['0'],
        text::decimal(1) == seq!['1'],
        text::decimal(2) == seq!['2'],
        text::decimal(32) == seq!['3', '2'],
{
    assert(text::decimal(3) =~= seq!['3']);
    assert(text::decimal(32) == text::decimal(32nat / 10).push(text::digit(2)));
    assert(text::decimal(32) =~= seq!['3', '2']);
}

/// The parts of the first packet's keys, as far as they tell the size.
spec fn size_parts(header: FrameHeader) -> Seq<Seq<char>> {
    if header.tmux_passthrough {
        seq![
            seq!['a', '=', 'T'],
            numbered('i', header.image_id as nat),
            numbered('f', 32),
            numbered('s', header.width_px as nat),
            numbered('v', header.height_px as nat),
            numbered('c', tmux::placeholder_extent(header.cols as int) as nat),
            numbered('r', tmux::placeholder_extent(header.rows as int) as nat),
            numbered('U', 1),
        ]
    } else {
        seq![
            seq!['a', '=', 'T'],
            numbered('f', 32),
            numbered('s', header.width_px as nat),
            numbered('v', header.height_px as nat),
        ]
    }
}

spec fn more_number(more: bool) -> nat {
    if more {
        1
    } else {
        0
    }
}

/// The parts of the first packet's keys.
spec fn first_parts(header: FrameHeader, more: bool) -> Seq<Seq<char>> {
    (if header.prevent_cursor_move {
        size_parts(header).push(numbered('C', 1))
    } else {
        size_parts(header)
    }).push(numbered('q', 2)).push(numbered('m', more_number(more)))
}

/// The text of the first packet's keys, as far as they tell the size.
spec fn size_text(header: FrameHeader) -> Seq<char> {
    let comma = seq![','];
    if header.tmux_passthrough {
        seq!['a', '=', 'T'] + comma + numbered('i', header.image_id as nat) + comma + numbered(
            'f',
            32,
        ) + comma + numbered('s', header.width_px as nat) + comma + numbered(
            'v',
            header.height_px as nat,
        ) + comma + numbered('c', tmux::placeholder_extent(header.cols as int) as nat) + comma
            + numbered('r', tmux::placeholder_extent(header.rows as int) as nat) + comma + numbered(
            'U',
            1,
        )
    } else {
        seq!['a', '=', 'T'] + comma + numbered('f', 32) + comma + numbered(
            's',
            header.width_px as nat,
        ) + comma + numbered('v', header.height_px as nat)
    }
}

proof fn size_text_parts(header: FrameHeader)
    ensures
        comma_parts(size_text(header)) == size_parts(header),
{
    let comma = seq![','];
    let start = seq!['a', '=', 'T'];
    text::split_single(start, ',');
    let width = numbered('s', header.width_px as nat);
    let height = numbered('v', header.height_px as nat);
    let depth = numbered('f', 32);
    numbered_part('f', 32);
    numbered_part('s', header.width_px as nat);
    numbered_part('v', header.height_px as nat);
    if header.tmux_passthrough {
        let id = numbered('i', header.image_id as nat);
        let cols = numbered('c', tmux::placeholder_extent(header.cols as int) as nat);
        let rows = numbered('r', tmux::placeholder_extent(header.rows as int) as nat);
        let grid = numbered('U', 1);
        numbered_part('i', header.image_id as nat);
        numbered_part('c', tmux::placeholder_extent(header.cols as int) as nat);
        numbered_part('r', tmux::placeholder_extent(header.rows as int) as nat);
        numbered_part('U', 1);
        let t1 = start + comma + id;
        let t2 = t1 + comma + depth;
        let t3 = t2 + comma + width;
        let t4 = t3 + comma + height;
        let t5 = t4 + comma + cols;
        let t6 = t5 + comma + rows;
        text::split_added(start, ',', id);
        text::split_added(t1, ',', depth);
        text::split_added(t2, ',', width);
        text::split_added(t3, ',', height);
        text::split_added(t4, ',', cols);
        text::split_added(t5, ',', rows);
        text::split_added(t6, ',', grid);
    } else {
        let t1 = start + comma + depth;
        let t2 = t1 + comma + width;
        text::split_added(start, ',', depth);
        text::split_added(t1, ',', width);
        text::split_added(t2, ',', height);
    }
    assert(comma_parts(size_text(header)) =~= size_parts(header));
}

proof fn first_keys_text(header: FrameHeader, more: bool)
    ensures
        kitty::packet_keys(header, true, more) == (size_text(header) + (
        if header.prevent_cursor_move {
            seq![','] + numbered('C', 1)
        } else {
            seq![]
        })) + seq![','] + numbered('q', 2) + seq![','] + numbered('m', more_number(more)),
{
    reveal_strlit(",C=1");
    reveal_strlit("a=T,i=");
    reveal_strlit(",f=32,s=");
    reveal_strlit(",v=");
    reveal_strlit(",c=");
    reveal_strlit(",r=");
    reveal_strlit(",U=1");
    reveal_strlit(",q=2");
    reveal_strlit("a=T,f=32,s=");
    reveal_strlit(",m=1");
    reveal_strlit(",m=0");
    small_numbers();
    let comma = seq![','];
    let start = seq!['a', '=', 'T'];
    let width = text::decimal(header.width_px as nat);
    let height = text::decimal(header.height_px as nat);
    let sized = if header.tmux_passthrough {
        let id = text::decimal(header.image_id as nat);
        let cols = text::decimal(tmux::placeholder_extent(header.cols as int) as nat);
        let rows = text::decimal(tmux::placeholder_extent(header.rows as int) as nat);
        let t1 = start + comma + numbered('i', header.image_id as nat);
        assert("a=T,i="@ + id =~= t1);
        let t3 = t1 + comma + numbered('f', 32) + comma + numbered('s', header.width_px as nat);
        assert(t1 + ",f=32,s="@ + width =~= t3);
        let t4 = t3 + comma + numbered('v', header.height_px as nat);
        assert(t3 + ",v="@ + height =~= t4);
        let t5 = t4 + comma + numbered(
            'c',
            tmux::placeholder_extent(header.cols as int) as nat,
        );
        assert(t4 + ",c="@ + cols =~= t5);
        let t6 = t5 + comma + numbered(
            'r',
            tmux::placeholder_extent(header.rows as int) as nat,
        );
        assert(t5 + ",r="@ + rows =~= t6);
        assert(t6 + ",U=1"@ =~= size_text(header));
        size_text(header)
    } else {
        let t2 = start + comma + numbered('f', 32) + comma + numbered('s', header.width_px as nat);
        assert("a=T,f=32,s="@ + width =~= t2);
        assert(t2 + ",v="@ + height =~= size_text(header));
        size_text(header)
    };
    let policy = if header.prevent_cursor_move {
        seq![','] + numbered('C', 1)
    } else {
        seq![]
    };
    assert(kitty::cursor_policy_text(header.prevent_cursor_move) =~= policy);
    assert(kitty::frame_keys(header) == sized + policy + ",q=2"@);
    let a = sized + policy;
    assert(a + ",q=2"@ =~= a + comma + numbered('q', 2));
    let b = a + comma + numbered('q', 2);
    assert(kitty::more_text(more) =~= comma + numbered('m', more_number(more)));
    assert(b + (comma + numbered('m', more_number(more))) =~= b + comma + numbered(
        'm',
        more_number(more),
    ));
}

proof fn first_keys_parts(header: FrameHeader, more: bool)
    ensures
        comma_parts(kitty::packet_keys(header, true, more)) == first_parts(header, more),
{
    first_keys_text(header, more);
    size_text_parts(header);
    let comma = seq![','];
    let sized = size_text(header);
    numbered_part('C', 1);
    numbered_part('q', 2);
    numbered_part('m', more_number(more));
    let a = if header.prevent_cursor_move {
        text::split_added(sized, ',', numbered('C', 1));
        assert(sized + (comma + numbered('C', 1)) =~= sized + comma + numbered('C', 1));
        sized + comma + numbered('C', 1)
    } else {
        assert(sized + Seq::<char>::empty() =~= sized);
        sized
    };
    text::split_added(a, ',', numbered('q', 2));
    text::split_added(a + comma + numbered('q', 2), ',', numbered('m', more_number(more)));
}

/// The letters of the first packet's keys, in order.
spec fn first_letters(tmux_passthrough: bool, prevent_cursor_move: bool) -> Seq<char> {
    (if tmux_passthrough {
        seq!['a', 'i', 'f', 's', 'v', 'c', 'r', 'U']
    } else {
        seq!['a', 'f', 's', 'v']
    }) + (if prevent_cursor_move {
        seq!['C', 'q', 'm']
    } else {
        seq!['q', 'm']
    })
}

proof fn first_parts_letters(header: FrameHeader, more: bool)
    ensures
        ({
            let parts = first_parts(header, more);
            let letters = first_letters(header.tmux_passthrough, header.prevent_cursor_move);
            &&& parts.len() == letters.len()
            &&& keys_are_plain(parts)
            &&& forall|i: int| 0 <= i < parts.len() ==> (#[trigger] parts[i])[0] == letters[i]
            &&& letters.no_duplicates()
        }),
{
    let parts = first_parts(header, more);
    let letters = first_letters(header.tmux_passthrough, header.prevent_cursor_move);
    numbered_part('i', header.image_id as nat);
    numbered_part('f', 32);
    numbered_part('s', header.width_px as nat);
    numbered_part('v', header.height_px as nat);
    numbered_part('c', tmux::placeholder_extent(header.cols as int) as nat);
    numbered_part('r', tmux::placeholder_extent(header.rows as int) as nat);
    numbered_part('U', 1);
    numbered_part('C', 1);
    numbered_part('q', 2);
    numbered_part('m', more_number(more));
    assert(letters.no_duplicates());
    assert forall|i: int| 0 <= i < parts.len() implies (#[trigger] parts[i])[0] == letters[i]
        && parts[i].len() >= 3 && parts[i][1] == '=' by {
        assert(i == 0 || i == 1 || i == 2 || i == 3 || i == 4 || i == 5 || i == 6 || i == 7 || i
            == 8 || i == 9 || i == 10);
    }
}

/// A part with a letter of its own is the one that gives the key.
proof fn letter_gives_key(parts: Seq<Seq<char>>, key: char, i: int)
    requires
        keys_are_plain(parts),
        0 <= i < parts.len(),
        parts[i][0] == key,
    ensures
        key_value(parts, key) == Some(parts[i].skip(2)),
{
    assert forall|j: int| i < j < parts.len() implies !gives_key(#[trigger] parts[j], key) by {
        assert(parts[i][0] != parts[j][0]);
    }
    key_is_found(parts, key, i);
}

proof fn first_parts_name_the_frame(header: FrameHeader, more: bool)
    ensures
        names_frame(first_parts(header, more), header, more),
{
    let parts = first_parts(header, more);
    first_parts_letters(header, more);
    numbered_part('i', header.image_id as nat);
    numbered_part('f', 32);
    numbered_part('s', header.width_px as nat);
    numbered_part('v', header.height_px as nat);
    numbered_part('c', tmux::placeholder_extent(header.cols as int) as nat);
    numbered_part('r', tmux::placeholder_extent(header.rows as int) as nat);
    numbered_part('U', 1);
    numbered_part('C', 1);
    numbered_part('q', 2);
    numbered_part('m', more_number(more));
    let n = parts.len() as int;
    assert(parts[0].skip(2) =~= seq!['T']);
    letter_gives_key(parts, 'a', 0);
    letter_gives_key(parts, 'q', n - 2);
    letter_gives_key(parts, 'm', n - 1);
    if header.prevent_cursor_move {
        letter_gives_key(parts, 'C', n - 3);
    } else {
        key_is_missing(parts, 'C');
    }
    if header.tmux_passthrough {
        letter_gives_key(parts, 'i', 1);
        letter_gives_key(parts, 'f', 2);
        letter_gives_key(parts, 's', 3);
        letter_gives_key(parts, 'v', 4);
        letter_gives_key(parts, 'c', 5);
        letter_gives_key(parts, 'r', 6);
        letter_gives_key(parts, 'U', 7);
    } else {
        letter_gives_key(parts, 'f', 1);
        letter_gives_key(parts, 's', 2);
        letter_gives_key(parts, 'v', 3);
        key_is_missing(parts, 'i');
        key_is_missing(parts, 'c');
        key_is_missing(parts, 'r');
        key_is_missing(parts, 'U');
    }
}

/// Keys that transmit and show a frame of 32-bit pixels: `s` is its width and `v`
/// its height. Under tmux `i` is its image, `U` asks for placeholders, and `c` and
/// `r` are its columns and rows, of which there is at least one and no more than can
/// be numbered. `C` keeps the cursor in place, `q` keeps the terminal from
/// answering, and `m` tells whether more packets follow. There is no other key.
pub open spec fn names_frame(parts: Seq<Seq<char>>, header: FrameHeader, more: bool) -> bool {
    &&& keys_are_plain(parts)
    &&& key_value(parts, 'a') == Some(seq!['T'])
    &&& key_number(parts, 'f') == Some(32nat)
    &&& key_number(parts, 's') == Some(header.width_px as nat)
    &&& key_number(parts, 'v') == Some(header.height_px as nat)
    &&& key_number(parts, 'q') == Some(2nat)
    &&& key_number(parts, 'm') == Some(
        if more {
            1nat
        } else {
            0nat
        },
    )
    &&& header.prevent_cursor_move ==> key_number(parts, 'C') == Some(1nat)
    &&& !header.prevent_cursor_move ==> key_value(parts, 'C') is None
    &&& header.tmux_passthrough ==> {
        &&& key_number(parts, 'i') == Some(header.image_id as nat)
        &&& key_number(parts, 'U') == Some(1nat)
        &&& key_number(parts, 'c') == Some(
            if header.cols < 1 {
                1nat
            } else if header.cols > 297 {
                297nat
            } else {
                header.cols as nat
            },
        )
        &&& key_number(parts, 'r') == Some(
            if header.rows < 1 {
                1nat
            } else if header.rows > 297 {
                297nat
            } else {
                header.rows as nat
            },
        )
    }
    &&& !header.tmux_passthrough ==> {
        &&& key_value(parts, 'i') is None
        &&& key_value(parts, 'U') is None
        &&& key_value(parts, 'c') is None
        &&& key_value(parts, 'r') is None
    }
    &&& parts.len() == (if header.tmux_passthrough {
        10int
    } else {
        6int
    }) + (if header.prevent_cursor_move {
        1int
    } else {
        0int
    })
}

/// Out of the first packet of a frame a terminal reads what the frame is, and
/// whether more packets follow it.
pub proof fn first_packet_names_the_frame(header: FrameHeader, payload: Seq<u8>, rest: Seq<u8>)
    requires
        free_of_escapes(payload),
        payload.len() > 0,
    ensures
        read_keys(
            kitty::frame_packets(header, payload) + rest,
            header.tmux_passthrough,
        ) matches Some(parts) && names_frame(parts, header, payload.len() > 4096),
{
    let more = 1 < kitty::packet_count(payload.len());
    let after = kitty::packets_from(header, payload, 1) + rest;
    assert(kitty::frame_packets(header, payload) + rest =~= tmux::sent_packet(
        kitty::frame_packet(header, payload, 0),
        header.tmux_passthrough,
    ) + after);
    frame_packet_reads_back(header, payload, 0, after);
    encode_utf8_decode_utf8(kitty::packet_keys(header, true, more));
    first_keys_parts(header, more);
    first_parts_name_the_frame(header, more);
}

/// Every later packet of a frame only keeps the terminal from answering and tells
/// whether more packets follow: all but the last one announce more.
pub proof fn later_packets_only_go_on(
    header: FrameHeader,
    payload: Seq<u8>,
    k: int,
    rest: Seq<u8>,
)
    requires
        free_of_escapes(payload),
        0 < k,
        4096 * k < payload.len(),
    ensures
        read_keys(
            tmux::sent_packet(
                kitty::frame_packet(header, payload, k),
                header.tmux_passthrough,
            ) + rest,
            header.tmux_passthrough,
        ) matches Some(parts) && {
            &&& parts.len() == 2
            &&& keys_are_plain(parts)
            &&& key_number(parts, 'q') == Some(2nat)
            &&& key_number(parts, 'm') == Some(
                if 4096 * (k + 1) < payload.len() {
                    1nat
                } else {
                    0nat
                },
            )
        },
{
    let more = k + 1 < kitty::packet_count(payload.len());
    frame_packet_reads_back(header, payload, k, rest);
    let keys = kitty::packet_keys(header, false, more);
    encode_utf8_decode_utf8(keys);
    reveal_strlit("q=2");
    reveal_strlit(",m=1");
    reveal_strlit(",m=0");
    small_numbers();
    let quiet = numbered('q', 2);
    let last = numbered('m', more_number(more));
    numbered_part('q', 2);
    numbered_part('m', more_number(more));
    text::split_single(quiet, ',');
    text::split_added(quiet, ',', last);
    assert(keys =~= quiet + seq![','] + last);
    let parts = comma_parts(keys);
    assert(parts =~= seq![quiet, last]);
    letter_gives_key(parts, 'q', 0);
    letter_gives_key(parts, 'm', 1);
}

/// The packet that deletes an image names that image, and asks for its data to be
/// forgotten too.
pub proof fn deletion_names_the_image(image_id: u32, rest: Seq<u8>)
    ensures
        read_packet(
            tmux::tmux_wrapped(encode_utf8(tmux::delete_packet(image_id))) + rest,
            true,
        ) matches Some((body, after)) && {
            let parts = comma_parts(decode_utf8(body));
            &&& after == rest
            &&& parts.len() == 4
            &&& keys_are_plain(parts)
            &&& key_value(parts, 'a') == Some(seq!['d'])
            &&& key_value(parts, 'd') == Some(seq!['I'])
            &&& key_number(parts, 'i') == Some(image_id as nat)
            &&& key_number(parts, 'q') == Some(2nat)
        },
{
    deletion_reads_back(image_id, rest);
    let keys = "a=d,d=I,i="@ + text::decimal(image_id as nat) + ",q=2"@;
    encode_utf8_decode_utf8(keys);
    reveal_strlit("a=d,d=I,i=");
    reveal_strlit(",q=2");
    small_numbers();
    let comma = seq![','];
    let delete = seq!['a', '=', 'd'];
    let data = seq!['d', '=', 'I'];
    let id = numbered('i', image_id as nat);
    let quiet = numbered('q', 2);
    numbered_part('i', image_id as nat);
    numbered_part('q', 2);
    text::split_single(delete, ',');
    let t1 = delete + comma + data;
    let t2 = t1 + comma + id;
    text::split_added(delete, ',', data);
    text::split_added(t1, ',', id);
    text::split_added(t2, ',', quiet);
    assert("a=d,d=I,i="@ + text::decimal(image_id as nat) =~= t2);
    assert(keys =~= t2 + comma + quiet);
    let parts = comma_parts(keys);
    assert(parts =~= seq![delete, data, id, quiet]);
    letter_gives_key(parts, 'a', 0);
    letter_gives_key(parts, 'd', 1);
    letter_gives_key(parts, 'i', 2);
    letter_gives_key(parts, 'q', 3);
    assert(delete.skip(2) =~= seq!['d']);
    assert(data.skip(2) =~= seq!['I']);
}

} // verus!
