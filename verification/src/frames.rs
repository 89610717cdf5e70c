//! What holds of frames that are sent one after the other.
use vstd::prelude::*;
use vstd::string::*;
use vstd::utf8::*;
use crate::base64_text;
use crate::image_ids;
use crate::image_ids::{ImageIds, IMAGE_ID_LIMIT};
use crate::kitty;
use crate::kitty::FrameHeader;
use crate::kitty_reader;
use crate::text;
use crate::tmux;

verus! {

/// The packet, passed through tmux, that makes the terminal forget an image.
pub open spec fn deletion(image_id: u32) -> Seq<u8> {
    tmux::tmux_wrapped(encode_utf8(tmux::delete_packet(image_id)))
}

/// What is sent starts with the deletion of an image.
pub open spec fn starts_with_deletion(sent: Seq<u8>, image_id: u32) -> bool {
    exists|rest: Seq<u8>| sent == #[trigger] (deletion(image_id) + rest)
}

proof fn delete_bodies_tell_ids_apart(a: u32, b: u32)
    requires
        kitty_reader::delete_body(a) == kitty_reader::delete_body(b),
    ensures
        a == b,
{
    let prefix = "a=d,d=I,i="@;
    let suffix = ",q=2"@;
    let x = text::decimal(a as nat);
    let y = text::decimal(b as nat);
    encode_utf8_decode_utf8(prefix + x + suffix);
    encode_utf8_decode_utf8(prefix + y + suffix);
    assert(prefix + x + suffix == prefix + y + suffix);
    assert((prefix + x + suffix).len() == prefix.len() + x.len() + suffix.len());
    assert((prefix + y + suffix).len() == prefix.len() + y.len() + suffix.len());
    assert(x =~= (prefix + x + suffix).subrange(
        prefix.len() as int,
        (prefix.len() + x.len()) as int,
    ));
    assert(y =~= (prefix + y + suffix).subrange(
        prefix.len() as int,
        (prefix.len() + y.len()) as int,
    ));
    text::decimal_reads_back(a as nat);
    text::decimal_reads_back(b as nat);
}

proof fn deletion_starts_as_passthrough(image_id: u32)
    ensures
        deletion(image_id).len() >= 2,
        deletion(image_id)[0] == 0x1b,
        deletion(image_id)[1] == 0x50,
{
}

proof fn placeholders_start_otherwise(
    image_id: u32,
    cols: u32,
    rows: u32,
    indent_cols: u16,
    restore_cursor: bool,
)
    ensures
        ({
            let bytes = encode_utf8(
                tmux::placeholders_text(image_id, cols, rows, indent_cols, restore_cursor),
            );
            bytes.len() >= 1 && (bytes[0] != 0x1b || (bytes.len() >= 2 && bytes[1] != 0x50))
        }),
{
    let whole = tmux::placeholders_text(image_id, cols, rows, indent_cols, restore_cursor);
    reveal_strlit("\x1b7");
    reveal_strlit("\r");
    is_ascii_chars_encode_utf8("\x1b7"@);
    is_ascii_chars_encode_utf8("\r"@);
    let head = if restore_cursor {
        "\x1b7"@
    } else {
        "\r"@
    };
    let tail = whole.skip(head.len() as int);
    assert(whole =~= head + tail);
    text::encode_utf8_concat(head, tail);
}

/// The first packet of a frame transmits.
proof fn frame_keys_transmit(header: FrameHeader)
    ensures
        kitty::frame_keys(header).len() >= 3,
        kitty::frame_keys(header)[2] == 'T',
        kitty::frame_keys(header).take(3) == "a=T"@,
{
    reveal_strlit("a=T");
    reveal_strlit("a=T,i=");
    reveal_strlit("a=T,f=32,s=");
    assert(kitty::frame_keys(header).take(3) =~= "a=T"@);
}

proof fn first_packet_transmits(header: FrameHeader, payload: Seq<u8>)
    requires
        payload.len() > 0,
    ensures
        kitty::packet_body(header, payload, 0).len() >= 3,
        kitty::packet_body(header, payload, 0)[2] == 0x54,
{
    frame_keys_transmit(header);
    let keys = kitty::packet_keys(header, true, 1 < kitty::packet_count(payload.len())) + ";"@;
    let tail = keys.skip(3);
    reveal_strlit("a=T");
    is_ascii_chars_encode_utf8("a=T"@);
    assert(keys =~= "a=T"@ + tail);
    text::encode_utf8_concat("a=T"@, tail);
}

/// A frame that does not replace an image starts with no deletion.
proof fn kept_images_are_not_deleted(
    header: FrameHeader,
    pixels: Seq<u8>,
    indent_cols: u16,
    image_id: u32,
)
    ensures
        !starts_with_deletion(
            kitty::frame_output(header, false, pixels, indent_cols),
            image_id,
        ),
{
    let sent = kitty::frame_output(header, false, pixels, indent_cols);
    if starts_with_deletion(sent, image_id) {
        let rest = choose|rest: Seq<u8>| sent == #[trigger] (deletion(image_id) + rest);
        deletion_starts_as_passthrough(image_id);
        assert(sent[0] == 0x1b && sent[1] == 0x50);
        let payload = encode_utf8(base64_text::base64(pixels));
        payload_facts(pixels);
        let packets = kitty::frame_packets(header, payload);
        let placeholders = if header.tmux_passthrough {
            encode_utf8(
                tmux::placeholders_text(
                    header.image_id,
                    header.cols,
                    header.rows,
                    indent_cols,
                    header.prevent_cursor_move,
                ),
            )
        } else {
            seq![]
        };
        assert(sent =~= packets + placeholders);
        if pixels.len() == 0 {
            assert(packets =~= seq![]);
            assert(sent =~= placeholders);
            if header.tmux_passthrough {
                placeholders_start_otherwise(
                    header.image_id,
                    header.cols,
                    header.rows,
                    indent_cols,
                    header.prevent_cursor_move,
                );
            }
        } else {
            let first = kitty::frame_packet(header, payload, 0);
            let after = kitty::packets_from(header, payload, 1) + placeholders;
            assert(sent =~= tmux::sent_packet(first, header.tmux_passthrough) + after);
            if header.tmux_passthrough {
                kitty_reader::deletion_reads_back(image_id, rest);
                kitty_reader::frame_packet_reads_back(header, payload, 0, after);
                first_packet_transmits(header, payload);
                delete_body_deletes(image_id);
                assert(kitty::packet_body(header, payload, 0)
                    == kitty_reader::delete_body(image_id));
            } else {
                reveal_strlit("\x1b_G");
                is_ascii_chars_encode_utf8("\x1b_G"@);
                assert(sent[1] == 0x5f);
            }
        }
        assert(false);
    }
}

proof fn payload_facts(pixels: Seq<u8>)
    ensures
        kitty_reader::free_of_escapes(encode_utf8(base64_text::base64(pixels))),
        pixels.len() == 0 <==> encode_utf8(base64_text::base64(pixels)).len() == 0,
{
    kitty_reader::payload_is_free_of_escapes(pixels);
}

proof fn delete_body_deletes(image_id: u32)
    ensures
        kitty_reader::delete_body(image_id).len() >= 3,
        kitty_reader::delete_body(image_id)[2] == 0x64,
{
    let tail = text::decimal(image_id as nat) + ",q=2"@;
    reveal_strlit("a=d,d=I,i=");
    is_ascii_chars_encode_utf8("a=d,d=I,i="@);
    assert("a=d,d=I,i="@ + text::decimal(image_id as nat) + ",q=2"@ =~= "a=d,d=I,i="@ + tail);
    text::encode_utf8_concat("a=d,d=I,i="@, tail);
}

/// A frame that replaces an image starts with the deletion of that image and of
/// no other.
proof fn replaced_image_is_deleted(
    header: FrameHeader,
    pixels: Seq<u8>,
    indent_cols: u16,
    image_id: u32,
)
    ensures
        starts_with_deletion(kitty::frame_output(header, true, pixels, indent_cols), image_id)
            <==> image_id == header.image_id,
{
    let sent = kitty::frame_output(header, true, pixels, indent_cols);
    let own = deletion(header.image_id);
    let rest = sent.skip(own.len() as int);
    assert(sent =~= own + rest);
    if starts_with_deletion(sent, image_id) {
        let other_rest = choose|rest: Seq<u8>| sent == #[trigger] (deletion(image_id) + rest);
        kitty_reader::deletion_reads_back(header.image_id, rest);
        kitty_reader::deletion_reads_back(image_id, other_rest);
        delete_bodies_tell_ids_apart(header.image_id, image_id);
    }
}

proof fn direct_packets_ignore_cells(a: FrameHeader, b: FrameHeader, payload: Seq<u8>, k: int)
    requires
        !a.tmux_passthrough,
        !b.tmux_passthrough,
        a.width_px == b.width_px,
        a.height_px == b.height_px,
        a.prevent_cursor_move == b.prevent_cursor_move,
    ensures
        kitty::packets_from(a, payload, k) == kitty::packets_from(b, payload, k),
    decreases kitty::packet_count(payload.len()) - k,
{
    if k < kitty::packet_count(payload.len()) {
        direct_packets_ignore_cells(a, b, payload, k + 1);
    }
}

/// Without tmux nothing but the pixels, their size and the cursor policy matters:
/// cells, indent and images change no byte. Neither the images nor the counter of
/// ids change, no image is deleted, and all that is sent is the direct
/// transmission of the pixels.
pub proof fn direct_frames_ignore_cells_and_images(
    pixels: Seq<u8>,
    width_px: u32,
    height_px: u32,
    prevent_cursor_move: bool,
    cols: (u32, u32),
    rows: (u32, u32),
    indent_cols: (u16, u16),
    images: (Option<image_ids::TmuxImages>, Option<image_ids::TmuxImages>),
    ids: (ImageIds, ImageIds),
    image_id: u32,
)
    ensures
        ({
            let sent = kitty::written_frame(
                pixels,
                width_px,
                height_px,
                cols.0,
                rows.0,
                prevent_cursor_move,
                indent_cols.0,
                images.0,
                false,
                ids.0,
            );
            &&& sent == kitty::written_frame(
                pixels,
                width_px,
                height_px,
                cols.1,
                rows.1,
                prevent_cursor_move,
                indent_cols.1,
                images.1,
                false,
                ids.1,
            )
            &&& !starts_with_deletion(sent, image_id)
            &&& pixels.len() == 0 ==> sent.len() == 0
            &&& pixels.len() > 0 ==> {
                &&& kitty_reader::read_transmission(sent, false) matches Some((payload, after))
                &&& base64_text::decoded(decode_utf8(payload)) == pixels
                &&& after.len() == 0
            }
        }),
        kitty::ids_after(images.0, false, ids.0) == ids.0,
        images.0 matches Some(images) ==> kitty::images_after(images, false) == images,
{
    let a = FrameHeader {
        tmux_passthrough: false,
        image_id: 0,
        width_px,
        height_px,
        cols: cols.0,
        rows: rows.0,
        prevent_cursor_move,
    };
    let b = FrameHeader { cols: cols.1, rows: rows.1, ..a };
    let payload = encode_utf8(base64_text::base64(pixels));
    payload_facts(pixels);
    direct_packets_ignore_cells(a, b, payload, 0);
    kept_images_are_not_deleted(a, pixels, indent_cols.0, image_id);
    let sent = kitty::frame_output(a, false, pixels, indent_cols.0);
    assert(sent =~= kitty::frame_packets(a, payload));
    assert(kitty::frame_output(b, false, pixels, indent_cols.1) =~= kitty::frame_packets(
        b,
        payload,
    ));
    if pixels.len() > 0 {
        kitty_reader::whole_frame_reads_back(a, false, pixels, indent_cols.0);
    }
}

/// A frame that is sent without images deletes none, and under tmux two such
/// frames in a row have different ids, neither of them zero.
pub proof fn single_frames_are_new_images(
    pixels: Seq<u8>,
    width_px: u32,
    height_px: u32,
    cols: u32,
    rows: u32,
    prevent_cursor_move: bool,
    tmux_passthrough: bool,
    ids: ImageIds,
    image_id: u32,
)
    ensures
        !starts_with_deletion(
            kitty::written_frame(
                pixels,
                width_px,
                height_px,
                cols,
                rows,
                prevent_cursor_move,
                0,
                None,
                tmux_passthrough,
                ids,
            ),
            image_id,
        ),
        tmux_passthrough ==> {
            let first = kitty::frame_identity(true, None, ids).0;
            let second = kitty::frame_identity(true, None, kitty::ids_after(None, true, ids)).0;
            &&& first != second
            &&& 1 <= first < IMAGE_ID_LIMIT
            &&& 1 <= second < IMAGE_ID_LIMIT
        },
{
    let header = FrameHeader {
        tmux_passthrough,
        image_id: kitty::frame_identity(tmux_passthrough, None, ids).0,
        width_px,
        height_px,
        cols,
        rows,
        prevent_cursor_move,
    };
    kept_images_are_not_deleted(header, pixels, 0, image_id);
    image_ids::new_ids_differ(ids.next);
    image_ids::new_ids_differ(image_ids::counter_after_draw(ids.next));
}

/// The images of a new [`image_ids::TmuxImageState`].
pub open spec fn new_images(ids: ImageIds) -> image_ids::TmuxImages {
    image_ids::TmuxImages::fresh(ids)
}

/// Under tmux the frames of an animation take turns with two ids that differ, so
/// that no more than two images are ever kept. From the third frame on, and only
/// from there, a frame starts with the deletion of the image that it replaces,
/// and it deletes no other: the frame before it stays on the screen until the new
/// one is there.
pub proof fn animation_replaces_the_frame_before_last(
    drawn_from: ImageIds,
    n: nat,
    pixels: Seq<u8>,
    width_px: u32,
    height_px: u32,
    cols: u32,
    rows: u32,
    prevent_cursor_move: bool,
    indent_cols: u16,
    ids: ImageIds,
    image_id: u32,
)
    requires
        n >= 1,
    ensures
        ({
            let first = new_images(drawn_from);
            let images = first.after_frames((n - 1) as nat);
            let (id, delete_first) = kitty::frame_identity(true, Some(images), ids);
            let sent = kitty::written_frame(
                pixels,
                width_px,
                height_px,
                cols,
                rows,
                prevent_cursor_move,
                indent_cols,
                Some(images),
                true,
                ids,
            );
            &&& first.ids[0] != first.ids[1]
            &&& id == (if n % 2 == 1 {
                first.ids[0]
            } else {
                first.ids[1]
            })
            &&& starts_with_deletion(sent, image_id) <==> n >= 3 && image_id == id
            &&& n >= 2 ==> id != first.after_frames((n - 2) as nat).frame_id()
            &&& kitty::images_after(images, true) == first.after_frames(n)
            &&& kitty::ids_after(Some(images), true, ids) == ids
        }),
{
    let first = new_images(drawn_from);
    let images = first.after_frames((n - 1) as nat);
    image_ids::new_ids_differ(drawn_from.next);
    image_ids::ids_take_turns(first, (n - 1) as nat);
    image_ids::only_later_frames_reuse(first, (n - 1) as nat);
    if n >= 2 {
        image_ids::ids_take_turns(first, (n - 2) as nat);
    }
    let header = FrameHeader {
        tmux_passthrough: true,
        image_id: images.frame_id(),
        width_px,
        height_px,
        cols,
        rows,
        prevent_cursor_move,
    };
    if images.reuses() {
        replaced_image_is_deleted(header, pixels, indent_cols, image_id);
    } else {
        kept_images_are_not_deleted(header, pixels, indent_cols, image_id);
    }
}

/// What a terminal reads of a frame is what was asked for: the pixels, their width
/// and height, whether the cursor stays, and under tmux the image, its cells and the
/// placeholders for them. Under tmux the image that the frame replaces is deleted
/// first, where there is one. Without tmux nothing follows the pixels.
pub proof fn sent_frame_is_read_as_given(
    pixels: Seq<u8>,
    width_px: u32,
    height_px: u32,
    cols: u32,
    rows: u32,
    prevent_cursor_move: bool,
    indent_cols: u16,
    images: Option<image_ids::TmuxImages>,
    tmux_passthrough: bool,
    ids: ImageIds,
)
    requires
        pixels.len() > 0,
    ensures
        ({
            let sent = kitty::written_frame(
                pixels,
                width_px,
                height_px,
                cols,
                rows,
                prevent_cursor_move,
                indent_cols,
                images,
                tmux_passthrough,
                ids,
            );
            let replaces = tmux_passthrough && images is Some && images->0.used[images->0.turn];
            let image_id = if images is Some {
                images->0.ids[images->0.turn]
            } else {
                image_ids::drawn_id(ids.next)
            };
            let stream = match kitty_reader::read_packet(sent, true) {
                Some((_, after)) if replaces => after,
                _ => sent,
            };
            &&& replaces ==> kitty_reader::read_packet(sent, true) == Some(
                (kitty_reader::delete_body(image_id), stream),
            )
            &&& kitty_reader::read_keys(stream, tmux_passthrough) matches Some(parts)
            &&& kitty_reader::names_frame(
                parts,
                FrameHeader {
                    tmux_passthrough,
                    image_id: if tmux_passthrough {
                        image_id
                    } else {
                        0
                    },
                    width_px,
                    height_px,
                    cols,
                    rows,
                    prevent_cursor_move,
                },
                base64_text::base64_len(pixels.len()) > 4096,
            )
            &&& kitty_reader::read_transmission(stream, tmux_passthrough) matches Some(
                (payload, after),
            )
            &&& base64_text::decoded(decode_utf8(payload)) == pixels
            &&& tmux_passthrough ==> after == encode_utf8(
                tmux::placeholders_text(image_id, cols, rows, indent_cols, prevent_cursor_move),
            )
            &&& !tmux_passthrough ==> after.len() == 0
        }),
{
    let (image_id, delete_first) = kitty::frame_identity(tmux_passthrough, images, ids);
    let header = FrameHeader {
        tmux_passthrough,
        image_id,
        width_px,
        height_px,
        cols,
        rows,
        prevent_cursor_move,
    };
    let sent = kitty::frame_output(header, delete_first, pixels, indent_cols);
    kitty_reader::whole_frame_reads_back(header, delete_first, pixels, indent_cols);
    let payload = encode_utf8(base64_text::base64(pixels));
    kitty_reader::payload_is_free_of_escapes(pixels);
    let packets = kitty::frame_packets(header, payload);
    let placeholders = if tmux_passthrough {
        encode_utf8(
            tmux::placeholders_text(image_id, cols, rows, indent_cols, prevent_cursor_move),
        )
    } else {
        seq![]
    };
    kitty_reader::first_packet_names_the_frame(header, payload, placeholders);
    if delete_first {
        let own = deletion(image_id);
        kitty_reader::deletion_reads_back(image_id, packets + placeholders);
        assert(sent =~= own + (packets + placeholders));
    } else {
        assert(sent =~= packets + placeholders);
    }
}

} // verus!
