//! Frames of the Kitty graphics protocol.
use vstd::prelude::*;
use vstd::slice::*;
use vstd::string::*;
use vstd::utf8::*;
use crate::base64_text;
use crate::base64_text::encode_standard;
use crate::image_ids;
use crate::image_ids::{next_image_id, ImageIds, TmuxImageState};
use crate::text;
use crate::text::{append_text, push_decimal};
use crate::tmux;
use crate::tmux::{
    append_tmux_placeholders, tmux_placeholder_cells, write_kitty_packet, write_tmux_delete_image,
};

verus! {

/// The most payload bytes that one packet carries.
pub const KITTY_CHUNK_SIZE: usize = 4096;

/// What the packets of a frame say of it. The image id and the cells only go
/// out where the frame is passed through tmux.
#[derive(Debug, Clone, Copy, PartialEq, Eq, Structural)]
pub struct FrameHeader {
    pub tmux_passthrough: bool,
    pub image_id: u32,
    pub width_px: u32,
    pub height_px: u32,
    pub cols: u32,
    pub rows: u32,
    pub prevent_cursor_move: bool,
}

/// The key that keeps the cursor where it is.
pub open spec fn cursor_policy_text(prevent_cursor_move: bool) -> Seq<char> {
    if prevent_cursor_move {
        ",C=1"@
    } else {
        seq![]
    }
}

/// The key that tells whether more packets follow.
pub open spec fn more_text(more: bool) -> Seq<char> {
    if more {
        ",m=1"@
    } else {
        ",m=0"@
    }
}

/// The keys of a frame's first packet, up to the one for more packets.
pub open spec fn frame_keys(header: FrameHeader) -> Seq<char> {
    if header.tmux_passthrough {
        "a=T,i="@ + text::decimal(header.image_id as nat) + ",f=32,s="@ + text::decimal(
            header.width_px as nat,
        ) + ",v="@ + text::decimal(header.height_px as nat) + ",c="@ + text::decimal(
            tmux::placeholder_extent(header.cols as int) as nat,
        ) + ",r="@ + text::decimal(tmux::placeholder_extent(header.rows as int) as nat) + ",U=1"@
            + cursor_policy_text(header.prevent_cursor_move) + ",q=2"@
    } else {
        "a=T,f=32,s="@ + text::decimal(header.width_px as nat) + ",v="@ + text::decimal(
            header.height_px as nat,
        ) + cursor_policy_text(header.prevent_cursor_move) + ",q=2"@
    }
}

/// The keys of a packet: all of them in the first one, only what has to be
/// repeated in the others.
pub open spec fn packet_keys(header: FrameHeader, first: bool, more: bool) -> Seq<char> {
    (if first {
        frame_keys(header)
    } else {
        "q=2"@
    }) + more_text(more)
}

/// The number of packets that a payload takes.
pub open spec fn packet_count(len: nat) -> nat {
    (len + 4095) / 4096
}

/// The part of the payload that the `k`-th packet carries.
pub open spec fn packet_payload(payload: Seq<u8>, k: int) -> Seq<u8> {
    payload.subrange(
        4096 * k,
        if 4096 * (k + 1) < payload.len() {
            4096 * (k + 1)
        } else {
            payload.len() as int
        },
    )
}

/// What a packet holds between its start and its end.
pub open spec fn packet_body(header: FrameHeader, payload: Seq<u8>, k: int) -> Seq<u8> {
    encode_utf8(packet_keys(header, k == 0, k + 1 < packet_count(payload.len())) + ";"@)
        + packet_payload(payload, k)
}

/// The `k`-th packet of a frame.
pub open spec fn frame_packet(header: FrameHeader, payload: Seq<u8>, k: int) -> Seq<u8> {
    encode_utf8("\x1b_G"@) + packet_body(header, payload, k) + encode_utf8("\x1b\\"@)
}

/// The packets of a frame from the `k`-th on, as they are sent.
pub open spec fn packets_from(header: FrameHeader, payload: Seq<u8>, k: int) -> Seq<u8>
    decreases packet_count(payload.len()) - k,
{
    if k >= packet_count(payload.len()) {
        seq![]
    } else {
        tmux::sent_packet(frame_packet(header, payload, k), header.tmux_passthrough)
            + packets_from(header, payload, k + 1)
    }
}

/// All packets of a frame, as they are sent. An empty payload takes none.
pub open spec fn frame_packets(header: FrameHeader, payload: Seq<u8>) -> Seq<u8> {
    packets_from(header, payload, 0)
}

fn push_frame_keys(keys: &mut String, header: FrameHeader)
    ensures
        final(keys)@ == old(keys)@ + frame_keys(header),
{
    if header.tmux_passthrough {
        let (placed_cols, placed_rows) = tmux_placeholder_cells(header.cols, header.rows);
        keys.append("a=T,i=");
        push_decimal(keys, header.image_id as u64);
        keys.append(",f=32,s=");
        push_decimal(keys, header.width_px as u64);
        keys.append(",v=");
        push_decimal(keys, header.height_px as u64);
        keys.append(",c=");
        push_decimal(keys, placed_cols as u64);
        keys.append(",r=");
        push_decimal(keys, placed_rows as u64);
        keys.append(",U=1");
    } else {
        keys.append("a=T,f=32,s=");
        push_decimal(keys, header.width_px as u64);
        keys.append(",v=");
        push_decimal(keys, header.height_px as u64);
    }
    if header.prevent_cursor_move {
        keys.append(",C=1");
    }
    keys.append(",q=2");
    assert(final(keys)@ =~= old(keys)@ + frame_keys(header));
}

/// Appends the packets of a frame whose payload is given.
pub fn append_frame_packets(writer: &mut Vec<u8>, header: FrameHeader, payload: &[u8])
    ensures
        final(writer)@ == old(writer)@ + frame_packets(header, payload@),
{
    let mut offset: usize = 0;
    let ghost mut k: int = 0;
    assert(writer@ + packets_from(header, payload@, 0) =~= old(writer)@ + frame_packets(
        header,
        payload@,
    ));
    while offset < payload.len()
        invariant
            0 <= k <= packet_count(payload@.len()),
            offset == (if 4096 * k < payload@.len() {
                4096 * k
            } else {
                payload@.len() as int
            }),
            writer@ + packets_from(header, payload@, k) == old(writer)@ + frame_packets(
                header,
                payload@,
            ),
        decreases payload.len() - offset,
    {
        let is_last: bool = payload.len() - offset <= KITTY_CHUNK_SIZE;
        let end: usize = if is_last {
            payload.len()
        } else {
            offset + KITTY_CHUNK_SIZE
        };
        let mut keys: String = String::new();
        if offset == 0 {
            push_frame_keys(&mut keys, header);
        } else {
            keys.append("q=2");
        }
        if is_last {
            keys.append(",m=0");
        } else {
            keys.append(",m=1");
        }
        assert(keys@ =~= packet_keys(header, k == 0, k + 1 < packet_count(payload@.len())));
        keys.append(";");

        let mut packet: Vec<u8> = Vec::new();
        append_text(&mut packet, "\x1b_G");
        append_text(&mut packet, keys.as_str());
        packet.extend_from_slice(slice_subrange(payload, offset, end));
        append_text(&mut packet, "\x1b\\");
        assert(packet@ =~= frame_packet(header, payload@, k));

        let ghost before = writer@;
        write_kitty_packet(writer, packet.as_slice(), header.tmux_passthrough);
        assert(writer@ + packets_from(header, payload@, k + 1) =~= before + packets_from(
            header,
            payload@,
            k,
        ));
        proof {
            k = k + 1;
        }
        offset = end;
    }
    assert(writer@ + packets_from(header, payload@, k) =~= writer@);
}

/// The id that a frame goes out under, and whether an image of that id has to be
/// deleted first. Without tmux no id is used.
pub open spec fn frame_identity(
    tmux_passthrough: bool,
    images: Option<image_ids::TmuxImages>,
    ids: ImageIds,
) -> (u32, bool) {
    if !tmux_passthrough {
        (0, false)
    } else {
        match images {
            Some(images) => (images.frame_id(), images.reuses()),
            None => (image_ids::drawn_id(ids.next), false),
        }
    }
}

/// Everything that is sent for a frame: the deletion of the image that it
/// replaces, its packets, and under tmux the placeholders.
pub open spec fn frame_output(
    header: FrameHeader,
    delete_first: bool,
    pixels: Seq<u8>,
    indent_cols: u16,
) -> Seq<u8> {
    (if delete_first {
        tmux::tmux_wrapped(encode_utf8(tmux::delete_packet(header.image_id)))
    } else {
        seq![]
    }) + frame_packets(header, encode_utf8(base64_text::base64(pixels))) + (
    if header.tmux_passthrough {
        encode_utf8(
            tmux::placeholders_text(
                header.image_id,
                header.cols,
                header.rows,
                indent_cols,
                header.prevent_cursor_move,
            ),
        )
    } else {
        seq![]
    })
}

/// Everything that is sent for a frame whose image id comes from `images`, or
/// from `ids` where there are none.
pub open spec fn written_frame(
    pixels: Seq<u8>,
    width_px: u32,
    height_px: u32,
    cols: u32,
    rows: u32,
    prevent_cursor_move: bool,
    indent_cols: u16,
    images: Option<image_ids::TmuxImages>,
    tmux_passthrough: bool,
    ids: ImageIds,
) -> Seq<u8> {
    let (image_id, delete_first) = frame_identity(tmux_passthrough, images, ids);
    frame_output(
        FrameHeader {
            tmux_passthrough,
            image_id,
            width_px,
            height_px,
            cols,
            rows,
            prevent_cursor_move,
        },
        delete_first,
        pixels,
        indent_cols,
    )
}

/// The images once a frame was sent. Only under tmux is an image id needed.
pub open spec fn images_after(
    images: image_ids::TmuxImages,
    tmux_passthrough: bool,
) -> image_ids::TmuxImages {
    if tmux_passthrough {
        images.after_frame()
    } else {
        images
    }
}

/// The counter of image ids once a frame was sent.
pub open spec fn ids_after(
    images: Option<image_ids::TmuxImages>,
    tmux_passthrough: bool,
    ids: ImageIds,
) -> ImageIds {
    if tmux_passthrough && images is None {
        ImageIds { next: image_ids::counter_after_draw(ids.next) }
    } else {
        ids
    }
}

/// Appends what shows a frame of 32-bit RGBA pixels.
/// `width_px` and `height_px` are the dimensions in pixels; `cols` and `rows` are
/// the terminal cells that it occupies, for the placeholders under tmux.
/// `prevent_cursor_move` keeps the cursor fixed. Under tmux the frame takes its
/// image id from `tmux_image_state`, or a new one from `ids`.
pub fn write_rgba_frame_to_with_tmux_state(
    writer: &mut Vec<u8>,
    pixels: &[u8],
    width_px: u32,
    height_px: u32,
    cols: u32,
    rows: u32,
    prevent_cursor_move: bool,
    placeholder_indent_cols: u16,
    tmux_image_state: Option<&mut TmuxImageState>,
    tmux_passthrough: bool,
    ids: &mut ImageIds,
)
    requires
        base64_text::base64_len(pixels@.len()) <= isize::MAX,
        tmux_image_state matches Some(state) ==> state@.wf(),
    ensures
        final(writer)@ == old(writer)@ + written_frame(
            pixels@,
            width_px,
            height_px,
            cols,
            rows,
            prevent_cursor_move,
            placeholder_indent_cols,
            match tmux_image_state {
                Some(state) => Some(state@),
                None => None,
            },
            tmux_passthrough,
            *old(ids),
        ),
        tmux_image_state matches Some(state) ==> (*final(state))@ == images_after(
            state@,
            tmux_passthrough,
        ),
        *final(ids) == ids_after(
            match tmux_image_state {
                Some(state) => Some(state@),
                None => None,
            },
            tmux_passthrough,
            *old(ids),
        ),
{
    let (image_id, delete_before_transmit) = if tmux_passthrough {
        match tmux_image_state {
            Some(state) => state.next_frame_id(),
            None => (next_image_id(ids), false),
        }
    } else {
        (0, false)
    };
    let header = FrameHeader {
        tmux_passthrough,
        image_id,
        width_px,
        height_px,
        cols,
        rows,
        prevent_cursor_move,
    };
    if delete_before_transmit {
        write_tmux_delete_image(writer, image_id);
    }
    let payload: String = encode_standard(pixels);
    append_frame_packets(writer, header, payload.as_str().as_bytes());
    if tmux_passthrough {
        append_tmux_placeholders(
            writer,
            image_id,
            cols,
            rows,
            placeholder_indent_cols,
            prevent_cursor_move,
        );
    }
    assert(writer@ =~= old(writer)@ + frame_output(
        header,
        delete_before_transmit,
        pixels@,
        placeholder_indent_cols,
    ));
}

/// Appends what shows a single frame of 32-bit RGBA pixels, unindented and
/// under an image id of its own.
pub fn write_rgba_frame_to(
    writer: &mut Vec<u8>,
    pixels: &[u8],
    width_px: u32,
    height_px: u32,
    cols: u32,
    rows: u32,
    prevent_cursor_move: bool,
    tmux_passthrough: bool,
    ids: &mut ImageIds,
)
    requires
        base64_text::base64_len(pixels@.len()) <= isize::MAX,
    ensures
        final(writer)@ == old(writer)@ + written_frame(
            pixels@,
            width_px,
            height_px,
            cols,
            rows,
            prevent_cursor_move,
            0,
            None,
            tmux_passthrough,
            *old(ids),
        ),
        *final(ids) == ids_after(None, tmux_passthrough, *old(ids)),
{
    write_rgba_frame_to_with_tmux_state(
        writer,
        pixels,
        width_px,
        height_px,
        cols,
        rows,
        prevent_cursor_move,
        0,
        None,
        tmux_passthrough,
        ids,
    )
}

} // verus!
