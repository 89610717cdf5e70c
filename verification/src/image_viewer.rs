//! Showing pictures and animations in the terminal.
use vstd::prelude::*;
use vstd::utf8::*;
use image::imageops::FilterType;
use image::{DynamicImage, ImageBuffer, ImageFormat, RgbaImage};
use crate::ansi;
use crate::ansi::{move_down_robust, move_up_robust, Screen};
use crate::base64_text;
use crate::frames;
use crate::image_ids;
use crate::image_ids::{ImageIds, TmuxImageState};
use crate::kitty;
use crate::kitty::{
    write_rgba_frame_to, write_rgba_frame_to_with_tmux_state, FrameHeader,
};
use crate::kitty_reader;
use crate::terminal_geometry;
use crate::terminal_geometry::{cells_for_pixels, TerminalGeometry};
use crate::text;
use crate::tmux;
use crate::video_layout::{FIT_MARGIN_COLS, FIT_MARGIN_ROWS};

verus! {

/// The size at which a picture is shown, in cells and in pixels.
#[derive(Debug, Clone, Copy, PartialEq, Eq, Structural)]
pub struct ImageDisplaySize {
    pub target_cols: u32,
    pub target_rows: u32,
    pub target_w_px: u32,
    pub target_h_px: u32,
}

/// What kind of picture a file holds.
#[derive(Debug, Clone, Copy, PartialEq, Eq, Structural)]
pub enum PictureKind {
    Animation,
    Still,
    /// No format of pictures begins like the file.
    Unrecognized,
}

/// How pixels between those of a picture are found.
#[derive(Debug, Clone, Copy, PartialEq, Eq, Structural)]
pub enum ResizeFilter {
    /// The nearest pixel is taken.
    Nearest,
    /// Neighbouring pixels are mixed.
    Triangle,
}

/// A picture of 32-bit RGBA pixels.
#[derive(Debug, Clone)]
pub struct Picture {
    pub pixels: Vec<u8>,
    pub width_px: u32,
    pub height_px: u32,
}

/// The channels of a picture of 16-bit samples.
#[derive(Debug, Clone, Copy, PartialEq, Eq, Structural)]
pub enum DeepLayout {
    Gray,
    GrayAlpha,
    Rgb,
    Rgba,
}

impl DeepLayout {
    /// The samples of a pixel.
    pub open spec fn channels(self) -> u8 {
        match self {
            DeepLayout::Gray => 1,
            DeepLayout::GrayAlpha => 2,
            DeepLayout::Rgb => 3,
            DeepLayout::Rgba => 4,
        }
    }

    /// The samples of a pixel.
    pub fn channel_count(&self) -> (channels: u8)
        ensures
            channels == self.channels(),
    {
        match self {
            DeepLayout::Gray => 1,
            DeepLayout::GrayAlpha => 2,
            DeepLayout::Rgb => 3,
            DeepLayout::Rgba => 4,
        }
    }
}

/// A picture of 16-bit samples.
#[derive(Debug, Clone)]
pub struct DeepPicture {
    pub samples: Vec<u16>,
    pub layout: DeepLayout,
    pub width_px: u32,
    pub height_px: u32,
}

/// The largest dimension of a picture whose pixels are mixed. Up to it the halves
/// of pixels can be told in 32-bit floating point. A little beyond it the position
/// of the last pixel can be rounded so far outside that there is none to mix.
pub const MAX_MIXED_PX: u32 = 0x80_0000;

/// Bytes that a file of the Graphics Interchange Format begins with.
pub open spec fn begins_as_gif(bytes: Seq<u8>) -> bool {
    &&& bytes.len() >= 6
    &&& bytes[0] == 0x47 && bytes[1] == 0x49 && bytes[2] == 0x46 && bytes[3] == 0x38
    &&& bytes[4] == 0x37 || bytes[4] == 0x39
    &&& bytes[5] == 0x61
}

/// What `image::guess_format` makes of the first bytes of a file: whether the
/// format is the Graphics Interchange Format, or `None` without a guess.
pub uninterp spec fn guessed_gif(bytes: Seq<u8>) -> Option<bool>;

/// The pixels to which `image::DynamicImage::resize_exact` brings a picture of
/// 32-bit RGBA pixels. `smooth` stands for the triangle filter, and otherwise
/// the nearest pixel is taken.
pub uninterp spec fn resized_pixels(
    pixels: Seq<u8>,
    width_px: u32,
    height_px: u32,
    new_width_px: u32,
    new_height_px: u32,
    smooth: bool,
) -> Seq<u8>;

/// Calls `image::guess_format`, which knows formats by the bytes that they begin
/// with. It takes exactly those files for animations that begin with `GIF87a` or
/// `GIF89a`.
#[verifier::external_body]
fn guess_gif(bytes: &[u8]) -> (gif: Option<bool>)
    ensures
        gif == guessed_gif(bytes@),
        gif == Some(true) <==> begins_as_gif(bytes@),
{
    match image::guess_format(bytes) {
        Ok(ImageFormat::Gif) => Some(true),
        Ok(_) => Some(false),
        Err(_) => None,
    }
}

/// The samples to which `image::DynamicImage::resize_exact`, with the triangle
/// filter, brings a picture of 16-bit samples.
pub uninterp spec fn resized_samples(
    samples: Seq<u16>,
    channels: u8,
    width_px: u32,
    height_px: u32,
    new_width_px: u32,
    new_height_px: u32,
) -> Seq<u16>;

/// The 32-bit RGBA pixels that `image::DynamicImage::to_rgba8` makes of a picture
/// of 16-bit samples.
pub uninterp spec fn rgba_of_samples(
    samples: Seq<u16>,
    channels: u8,
    width_px: u32,
    height_px: u32,
) -> Seq<u8>;

/// A picture has to be brought from one size to another. An empty picture holds
/// nothing to be brought.
pub open spec fn is_scaled(
    width_px: u32,
    height_px: u32,
    new_width_px: u32,
    new_height_px: u32,
) -> bool {
    &&& width_px > 0 && height_px > 0
    &&& new_width_px != width_px || new_height_px != height_px
}

/// Rows of both sizes, and what is needed on the way from one size to the other,
/// can be held in memory.
pub open spec fn sizes_fit(
    width_px: u32,
    height_px: u32,
    new_width_px: u32,
    new_height_px: u32,
) -> bool {
    &&& 4 * width_px <= usize::MAX
    &&& 4 * new_width_px <= usize::MAX
    &&& is_scaled(width_px, height_px, new_width_px, new_height_px) ==> 16 * (width_px
        * new_height_px) <= isize::MAX
}

/// Between these sizes pixels can be mixed.
pub open spec fn sizes_mix(
    width_px: u32,
    height_px: u32,
    new_width_px: u32,
    new_height_px: u32,
) -> bool {
    is_scaled(width_px, height_px, new_width_px, new_height_px) ==> {
        &&& width_px <= MAX_MIXED_PX
        &&& height_px <= MAX_MIXED_PX
        &&& new_width_px <= MAX_MIXED_PX
        &&& new_height_px <= MAX_MIXED_PX
    }
}

/// The pixels of a picture are all there, and it can be brought to another size.
pub open spec fn can_resize(
    picture: Picture,
    new_width_px: u32,
    new_height_px: u32,
    filter: ResizeFilter,
) -> bool {
    &&& picture.pixels@.len() == 4 * (picture.width_px * picture.height_px)
    &&& 4 * (new_width_px * new_height_px) <= isize::MAX
    &&& sizes_fit(picture.width_px, picture.height_px, new_width_px, new_height_px)
    &&& filter is Triangle ==> sizes_mix(
        picture.width_px,
        picture.height_px,
        new_width_px,
        new_height_px,
    )
}

/// The samples of a picture are all there, and it can be brought to another size.
pub open spec fn can_resize_deep(
    picture: DeepPicture,
    new_width_px: u32,
    new_height_px: u32,
) -> bool {
    &&& picture.samples@.len() == picture.layout.channels() * (picture.width_px
        * picture.height_px)
    &&& 8 * (new_width_px * new_height_px) <= isize::MAX
    &&& sizes_fit(picture.width_px, picture.height_px, new_width_px, new_height_px)
    &&& sizes_mix(picture.width_px, picture.height_px, new_width_px, new_height_px)
}

/// Calls `image::DynamicImage::resize_exact` on a picture of 32-bit RGBA pixels.
/// The result has the pixels of the new size, and where the size stays the same
/// it is the picture itself. Between very large sizes the triangle filter can
/// find no pixel to mix, and the call panics.
#[verifier::external_body]
fn resize_exact(
    picture: &Picture,
    new_width_px: u32,
    new_height_px: u32,
    filter: ResizeFilter,
) -> (pixels: Vec<u8>)
    requires
        can_resize(*picture, new_width_px, new_height_px, filter),
    ensures
        pixels@ == resized_pixels(
            picture.pixels@,
            picture.width_px,
            picture.height_px,
            new_width_px,
            new_height_px,
            filter is Triangle,
        ),
        pixels@.len() == 4 * (new_width_px * new_height_px),
        new_width_px == picture.width_px && new_height_px == picture.height_px ==> pixels@
            == picture.pixels@,
{
    let filter = match filter {
        ResizeFilter::Nearest => FilterType::Nearest,
        ResizeFilter::Triangle => FilterType::Triangle,
    };
    let pixels = picture.pixels.clone();
    let image = RgbaImage::from_raw(picture.width_px, picture.height_px, pixels).unwrap();
    let resized = DynamicImage::ImageRgba8(image).resize_exact(new_width_px, new_height_px, filter);
    resized.to_rgba8().into_raw()
}

/// Calls `image::DynamicImage::resize_exact` with the triangle filter on a
/// picture of 16-bit samples. The result has the samples of the new size, and
/// where the size stays the same they are those of the picture. Between very large
/// sizes the call panics.
#[verifier::external_body]
fn resize_deep(picture: &DeepPicture, new_width_px: u32, new_height_px: u32) -> (samples: Vec<
    u16,
>)
    requires
        can_resize_deep(*picture, new_width_px, new_height_px),
    ensures
        samples@ == resized_samples(
            picture.samples@,
            picture.layout.channels(),
            picture.width_px,
            picture.height_px,
            new_width_px,
            new_height_px,
        ),
        samples@.len() == picture.layout.channels() * (new_width_px * new_height_px),
        new_width_px == picture.width_px && new_height_px == picture.height_px ==> samples@
            == picture.samples@,
{
    let (w, h, s) = (picture.width_px, picture.height_px, picture.samples.clone());
    let image = match picture.layout {
        DeepLayout::Gray => ImageBuffer::from_raw(w, h, s).map(DynamicImage::ImageLuma16),
        DeepLayout::GrayAlpha => ImageBuffer::from_raw(w, h, s).map(DynamicImage::ImageLumaA16),
        DeepLayout::Rgb => ImageBuffer::from_raw(w, h, s).map(DynamicImage::ImageRgb16),
        DeepLayout::Rgba => ImageBuffer::from_raw(w, h, s).map(DynamicImage::ImageRgba16),
    };
    match image.unwrap().resize_exact(new_width_px, new_height_px, FilterType::Triangle) {
        DynamicImage::ImageLuma16(b) => b.into_raw(),
        DynamicImage::ImageLumaA16(b) => b.into_raw(),
        DynamicImage::ImageRgb16(b) => b.into_raw(),
        other => other.into_rgba16().into_raw(),
    }
}

/// The samples of a picture are all there, and its 32-bit RGBA pixels can be held
/// in memory.
pub open spec fn can_cut(picture: DeepPicture) -> bool {
    &&& picture.samples@.len() == picture.layout.channels() * (picture.width_px
        * picture.height_px)
    &&& 4 * picture.width_px <= usize::MAX
    &&& 4 * (picture.width_px * picture.height_px) <= isize::MAX
}

/// Calls `image::DynamicImage::to_rgba8` on a picture of 16-bit samples. The
/// result has four bytes for every pixel.
#[verifier::external_body]
fn cut_to_rgba(picture: &DeepPicture) -> (pixels: Vec<u8>)
    requires
        can_cut(*picture),
    ensures
        pixels@ == rgba_of_samples(
            picture.samples@,
            picture.layout.channels(),
            picture.width_px,
            picture.height_px,
        ),
        pixels@.len() == 4 * (picture.width_px * picture.height_px),
{
    let (w, h, s) = (picture.width_px, picture.height_px, picture.samples.clone());
    let image = match picture.layout {
        DeepLayout::Gray => ImageBuffer::from_raw(w, h, s).map(DynamicImage::ImageLuma16),
        DeepLayout::GrayAlpha => ImageBuffer::from_raw(w, h, s).map(DynamicImage::ImageLumaA16),
        DeepLayout::Rgb => ImageBuffer::from_raw(w, h, s).map(DynamicImage::ImageRgb16),
        DeepLayout::Rgba => ImageBuffer::from_raw(w, h, s).map(DynamicImage::ImageRgba16),
    };
    image.unwrap().to_rgba8().into_raw()
}

/// What a guess at the format of a file tells of it.
pub fn kind_of_guess(gif: Option<bool>) -> (kind: PictureKind)
    ensures
        kind == (match gif {
            Some(true) => PictureKind::Animation,
            Some(false) => PictureKind::Still,
            None => PictureKind::Unrecognized,
        }),
{
    match gif {
        Some(true) => PictureKind::Animation,
        Some(false) => PictureKind::Still,
        None => PictureKind::Unrecognized,
    }
}

/// Tells what kind of picture the bytes of a file are.
pub fn picture_kind(bytes: &[u8]) -> (kind: PictureKind)
    ensures
        kind is Animation <==> begins_as_gif(bytes@),
        kind is Still <==> guessed_gif(bytes@) == Some(false),
        kind is Unrecognized <==> guessed_gif(bytes@) is None,
{
    kind_of_guess(guess_gif(bytes))
}

/// The bounds of a picture within its margin can be told in pixels.
pub open spec fn picture_bounds_fit(geometry: TerminalGeometry) -> bool {
    &&& terminal_geometry::cells_within_margin(geometry.cols, FIT_MARGIN_COLS)
        * geometry.cell_width_px <= u32::MAX
    &&& terminal_geometry::cells_within_margin(geometry.rows, FIT_MARGIN_ROWS)
        * geometry.cell_height_px <= u32::MAX
}

/// The pixels that a picture may take up in a terminal.
pub fn picture_bounds(geometry: &TerminalGeometry) -> (bounds: (u32, u32))
    requires
        picture_bounds_fit(*geometry),
    ensures
        bounds.0 == terminal_geometry::cells_within_margin(geometry.cols, FIT_MARGIN_COLS)
            * geometry.cell_width_px,
        bounds.1 == terminal_geometry::cells_within_margin(geometry.rows, FIT_MARGIN_ROWS)
            * geometry.cell_height_px,
{
    (geometry.drawable_width_px(FIT_MARGIN_COLS), geometry.drawable_height_px(FIT_MARGIN_ROWS))
}

/// The size of a picture that is shown with the given pixels.
pub open spec fn picture_size(
    geometry: TerminalGeometry,
    target_w_px: u32,
    target_h_px: u32,
) -> ImageDisplaySize {
    ImageDisplaySize {
        target_cols: terminal_geometry::covering_cells(
            target_w_px as int,
            geometry.cell_width_px as int,
        ) as u32,
        target_rows: terminal_geometry::covering_cells(
            target_h_px as int,
            geometry.cell_height_px as int,
        ) as u32,
        target_w_px,
        target_h_px,
    }
}

/// The size of a picture that is shown with the given pixels: it occupies all
/// cells that it touches.
pub fn picture_size_for(
    geometry: &TerminalGeometry,
    target_w_px: u32,
    target_h_px: u32,
) -> (size: ImageDisplaySize)
    requires
        geometry.cell_width_px > 0,
        geometry.cell_height_px > 0,
    ensures
        size.target_w_px == target_w_px,
        size.target_h_px == target_h_px,
        size.target_cols == terminal_geometry::covering_cells(
            target_w_px as int,
            geometry.cell_width_px as int,
        ),
        size.target_rows == terminal_geometry::covering_cells(
            target_h_px as int,
            geometry.cell_height_px as int,
        ),
        size == picture_size(*geometry, target_w_px, target_h_px),
{
    ImageDisplaySize {
        target_cols: cells_for_pixels(target_w_px, geometry.cell_width_px),
        target_rows: cells_for_pixels(target_h_px, geometry.cell_height_px),
        target_w_px,
        target_h_px,
    }
}

fn fit_sizes(width_px: u32, height_px: u32, new_width_px: u32, new_height_px: u32) -> (fit: bool)
    ensures
        fit == sizes_fit(width_px, height_px, new_width_px, new_height_px),
{
    proof {
        product_fits(width_px, new_height_px);
    }
    let between: u128 = 16 * (width_px as u128 * new_height_px as u128);
    let scaled: bool = width_px > 0 && height_px > 0 && (new_width_px != width_px
        || new_height_px != height_px);
    4 * (width_px as u128) <= usize::MAX as u128 && 4 * (new_width_px as u128)
        <= usize::MAX as u128 && (!scaled || between <= isize::MAX as u128)
}

fn mix_sizes(width_px: u32, height_px: u32, new_width_px: u32, new_height_px: u32) -> (mix: bool)
    ensures
        mix == sizes_mix(width_px, height_px, new_width_px, new_height_px),
{
    let scaled: bool = width_px > 0 && height_px > 0 && (new_width_px != width_px
        || new_height_px != height_px);
    !scaled || (width_px <= MAX_MIXED_PX && height_px <= MAX_MIXED_PX && new_width_px
        <= MAX_MIXED_PX && new_height_px <= MAX_MIXED_PX)
}

/// Tells whether a picture can be brought to another size.
pub fn is_resizable(
    picture: &Picture,
    new_width_px: u32,
    new_height_px: u32,
    filter: ResizeFilter,
) -> (possible: bool)
    ensures
        possible == can_resize(*picture, new_width_px, new_height_px, filter),
{
    proof {
        product_fits(picture.width_px, picture.height_px);
        product_fits(new_width_px, new_height_px);
    }
    let len: u128 = 4 * (picture.width_px as u128 * picture.height_px as u128);
    let new_len: u128 = 4 * (new_width_px as u128 * new_height_px as u128);
    let mix: bool = match filter {
        ResizeFilter::Nearest => true,
        ResizeFilter::Triangle => mix_sizes(
            picture.width_px,
            picture.height_px,
            new_width_px,
            new_height_px,
        ),
    };
    picture.pixels.len() as u128 == len && new_len <= isize::MAX as u128 && mix && fit_sizes(
        picture.width_px,
        picture.height_px,
        new_width_px,
        new_height_px,
    )
}

/// Tells whether a picture of 16-bit samples can be brought to another size.
pub fn is_deep_resizable(
    picture: &DeepPicture,
    new_width_px: u32,
    new_height_px: u32,
) -> (possible: bool)
    ensures
        possible == can_resize_deep(*picture, new_width_px, new_height_px),
{
    proof {
        product_fits(picture.width_px, picture.height_px);
        product_fits(new_width_px, new_height_px);
    }
    let pixels: u128 = picture.width_px as u128 * picture.height_px as u128;
    let channels: u128 = picture.layout.channel_count() as u128;
    assert(channels * pixels == picture.layout.channels() * (picture.width_px
        * picture.height_px) && 0 <= channels * pixels <= 4 * (0xffff_ffff * 0xffff_ffff))
        by (nonlinear_arith)
        requires
            channels == picture.layout.channels(),
            1 <= channels <= 4,
            pixels == picture.width_px * picture.height_px,
            0 <= pixels <= 0xffff_ffff * 0xffff_ffff,
    ;
    let len: u128 = channels * pixels;
    let new_len: u128 = 8 * (new_width_px as u128 * new_height_px as u128);
    picture.samples.len() as u128 == len && new_len <= isize::MAX as u128 && fit_sizes(
        picture.width_px,
        picture.height_px,
        new_width_px,
        new_height_px,
    ) && mix_sizes(picture.width_px, picture.height_px, new_width_px, new_height_px)
}

proof fn product_fits(a: u32, b: u32)
    by (nonlinear_arith)
    ensures
        0 <= a * b <= 0xffff_ffff * 0xffff_ffff,
{
}

/// Ends of lines, one after the other.
pub open spec fn line_ends(n: nat) -> Seq<u8> {
    Seq::new(n, |i: int| 0x0au8)
}

/// What makes room for an animation: as many lines as it has rows, and the way
/// back up to the first of them.
pub open spec fn reserved_rows(rows: u32) -> Seq<u8> {
    line_ends(rows as nat) + encode_utf8(ansi::numbered_command((rows as u16) as nat, "A"@))
        + encode_utf8(ansi::move_to_column_text(0))
}

/// Appends what makes room for an animation, so that its frames do not scroll.
pub fn reserve_rows(writer: &mut Vec<u8>, rows: u32)
    ensures
        final(writer)@ == old(writer)@ + reserved_rows(rows),
{
    let mut row: u32 = 0;
    while row < rows
        invariant
            row <= rows,
            writer@ == old(writer)@ + line_ends(row as nat),
        decreases rows - row,
    {
        writer.push(0x0a);
        assert(line_ends(row as nat).push(0x0a) =~= line_ends((row + 1) as nat));
        row = row + 1;
    }
    move_up_robust(writer, rows as u16);
    assert(writer@ =~= old(writer)@ + reserved_rows(rows));
}

/// One frame of 32-bit RGBA pixels that is shown at a size, unindented.
pub open spec fn shown_pixels(
    pixels: Seq<u8>,
    size: ImageDisplaySize,
    prevent_cursor_move: bool,
    images: Option<image_ids::TmuxImages>,
    tmux_passthrough: bool,
    ids: ImageIds,
) -> Seq<u8> {
    kitty::written_frame(
        pixels,
        size.target_w_px,
        size.target_h_px,
        size.target_cols,
        size.target_rows,
        prevent_cursor_move,
        0,
        images,
        tmux_passthrough,
        ids,
    )
}

/// The pixels of a picture that is shown at a size can be sent as text.
pub open spec fn can_send(size: ImageDisplaySize) -> bool {
    base64_text::base64_len((4 * (size.target_w_px * size.target_h_px)) as nat) <= isize::MAX
}

/// A picture can be shown at a size.
pub open spec fn can_show(
    picture: Picture,
    size: ImageDisplaySize,
    filter: ResizeFilter,
) -> bool {
    can_resize(picture, size.target_w_px, size.target_h_px, filter) && can_send(size)
}

/// A picture of 16-bit samples can be shown at a size.
pub open spec fn can_show_deep(picture: DeepPicture, size: ImageDisplaySize) -> bool {
    can_resize_deep(picture, size.target_w_px, size.target_h_px) && can_send(size)
}

fn is_sendable(size: ImageDisplaySize) -> (possible: bool)
    ensures
        possible == can_send(size),
{
    proof {
        product_fits(size.target_w_px, size.target_h_px);
    }
    let len: u128 = 4 * (size.target_w_px as u128 * size.target_h_px as u128);
    (len + 2) / 3 * 4 <= isize::MAX as u128
}

/// Tells whether a picture can be shown at a size.
pub fn is_showable(
    picture: &Picture,
    size: ImageDisplaySize,
    filter: ResizeFilter,
) -> (possible: bool)
    ensures
        possible == can_show(*picture, size, filter),
{
    is_resizable(picture, size.target_w_px, size.target_h_px, filter) && is_sendable(size)
}

/// Tells whether a picture of 16-bit samples can be shown at a size.
pub fn is_deep_showable(picture: &DeepPicture, size: ImageDisplaySize) -> (possible: bool)
    ensures
        possible == can_show_deep(*picture, size),
{
    is_deep_resizable(picture, size.target_w_px, size.target_h_px) && is_sendable(size)
}

/// The pixels of a picture at a size: those of a still picture are mixed, those of a
/// frame of an animation are the nearest ones.
pub open spec fn scaled_pixels(
    picture: Picture,
    size: ImageDisplaySize,
    filter: ResizeFilter,
) -> Seq<u8> {
    resized_pixels(
        picture.pixels@,
        picture.width_px,
        picture.height_px,
        size.target_w_px,
        size.target_h_px,
        filter is Triangle,
    )
}

/// What shows one frame of an animation.
pub open spec fn shown_animation_frame(
    picture: Picture,
    size: ImageDisplaySize,
    images: image_ids::TmuxImages,
    tmux_passthrough: bool,
    ids: ImageIds,
) -> Seq<u8> {
    shown_pixels(
        scaled_pixels(picture, size, ResizeFilter::Nearest),
        size,
        true,
        Some(images),
        tmux_passthrough,
        ids,
    )
}

/// What shows a still picture of given pixels: the frame, and the end of its line.
pub open spec fn shown_still_pixels(
    pixels: Seq<u8>,
    size: ImageDisplaySize,
    tmux_passthrough: bool,
    ids: ImageIds,
) -> Seq<u8> {
    shown_pixels(pixels, size, false, None, tmux_passthrough, ids) + line_ends(1)
}

/// Appends what shows one frame of an animation in place of the frame before,
/// with the cursor kept where it is.
pub fn show_animation_frame(
    writer: &mut Vec<u8>,
    picture: &Picture,
    size: ImageDisplaySize,
    tmux_image_state: &mut TmuxImageState,
    tmux_passthrough: bool,
    ids: &mut ImageIds,
)
    requires
        can_show(*picture, size, ResizeFilter::Nearest),
        old(tmux_image_state)@.wf(),
    ensures
        final(writer)@ == old(writer)@ + shown_pixels(
            resized_pixels(
                picture.pixels@,
                picture.width_px,
                picture.height_px,
                size.target_w_px,
                size.target_h_px,
                false,
            ),
            size,
            true,
            Some(old(tmux_image_state)@),
            tmux_passthrough,
            *old(ids),
        ),
        resized_pixels(
            picture.pixels@,
            picture.width_px,
            picture.height_px,
            size.target_w_px,
            size.target_h_px,
            false,
        ).len() == 4 * (size.target_w_px * size.target_h_px),
        final(writer)@ == old(writer)@ + shown_animation_frame(
            *picture,
            size,
            old(tmux_image_state)@,
            tmux_passthrough,
            *old(ids),
        ),
        final(tmux_image_state)@ == kitty::images_after(old(tmux_image_state)@, tmux_passthrough),
        *final(ids) == *old(ids),
{
    let rgba: Vec<u8> = resize_exact(
        picture,
        size.target_w_px,
        size.target_h_px,
        ResizeFilter::Nearest,
    );
    write_rgba_frame_to_with_tmux_state(
        writer,
        rgba.as_slice(),
        size.target_w_px,
        size.target_h_px,
        size.target_cols,
        size.target_rows,
        true,
        0,
        Some(tmux_image_state),
        tmux_passthrough,
        ids,
    );
}

/// What follows the last frame of an animation: the cursor goes below it.
pub open spec fn animation_end(rows: u32) -> Seq<u8> {
    encode_utf8(ansi::numbered_command((rows as u16) as nat, "B"@)) + encode_utf8(
        ansi::move_to_column_text(0),
    ) + line_ends(1)
}

/// Appends what follows the last frame of an animation.
pub fn end_animation(writer: &mut Vec<u8>, rows: u32)
    ensures
        final(writer)@ == old(writer)@ + animation_end(rows),
{
    move_down_robust(writer, rows as u16);
    writer.push(0x0a);
    assert(writer@ =~= old(writer)@ + animation_end(rows));
}

/// Appends a frame, and ends its line.
fn append_still(
    writer: &mut Vec<u8>,
    rgba: &[u8],
    size: ImageDisplaySize,
    tmux_passthrough: bool,
    ids: &mut ImageIds,
)
    requires
        base64_text::base64_len(rgba@.len()) <= isize::MAX,
    ensures
        final(writer)@ == old(writer)@ + shown_pixels(
            rgba@,
            size,
            false,
            None,
            tmux_passthrough,
            *old(ids),
        ) + line_ends(1),
        *final(ids) == kitty::ids_after(None, tmux_passthrough, *old(ids)),
{
    write_rgba_frame_to(
        writer,
        rgba,
        size.target_w_px,
        size.target_h_px,
        size.target_cols,
        size.target_rows,
        false,
        tmux_passthrough,
        ids,
    );
    let ghost shown = writer@;
    writer.push(0x0a);
    assert(writer@ =~= shown + line_ends(1));
}

/// Appends what shows a still picture, and ends its line.
pub fn show_still(
    writer: &mut Vec<u8>,
    picture: &Picture,
    size: ImageDisplaySize,
    tmux_passthrough: bool,
    ids: &mut ImageIds,
)
    requires
        can_show(*picture, size, ResizeFilter::Triangle),
    ensures
        final(writer)@ == old(writer)@ + shown_pixels(
            resized_pixels(
                picture.pixels@,
                picture.width_px,
                picture.height_px,
                size.target_w_px,
                size.target_h_px,
                true,
            ),
            size,
            false,
            None,
            tmux_passthrough,
            *old(ids),
        ) + line_ends(1),
        final(writer)@ == old(writer)@ + shown_still_pixels(
            scaled_pixels(*picture, size, ResizeFilter::Triangle),
            size,
            tmux_passthrough,
            *old(ids),
        ),
        resized_pixels(
            picture.pixels@,
            picture.width_px,
            picture.height_px,
            size.target_w_px,
            size.target_h_px,
            true,
        ).len() == 4 * (size.target_w_px * size.target_h_px),
        *final(ids) == kitty::ids_after(None, tmux_passthrough, *old(ids)),
{
    let rgba: Vec<u8> = resize_exact(
        picture,
        size.target_w_px,
        size.target_h_px,
        ResizeFilter::Triangle,
    );
    append_still(writer, rgba.as_slice(), size, tmux_passthrough, ids);
    assert(writer@ =~= old(writer)@ + shown_still_pixels(
        scaled_pixels(*picture, size, ResizeFilter::Triangle),
        size,
        tmux_passthrough,
        *old(ids),
    ));
}

/// The pixels of a picture of 16-bit samples at a size: it is scaled first, and
/// then cut to eight bits.
pub open spec fn deep_pixels(picture: DeepPicture, size: ImageDisplaySize) -> Seq<u8> {
    rgba_of_samples(
        resized_samples(
            picture.samples@,
            picture.layout.channels(),
            picture.width_px,
            picture.height_px,
            size.target_w_px,
            size.target_h_px,
        ),
        picture.layout.channels(),
        size.target_w_px,
        size.target_h_px,
    )
}

/// Appends what shows a still picture of 16-bit samples, and ends its line.
pub fn show_deep_still(
    writer: &mut Vec<u8>,
    picture: &DeepPicture,
    size: ImageDisplaySize,
    tmux_passthrough: bool,
    ids: &mut ImageIds,
)
    requires
        can_show_deep(*picture, size),
    ensures
        final(writer)@ == old(writer)@ + shown_pixels(
            deep_pixels(*picture, size),
            size,
            false,
            None,
            tmux_passthrough,
            *old(ids),
        ) + line_ends(1),
        final(writer)@ == old(writer)@ + shown_still_pixels(
            deep_pixels(*picture, size),
            size,
            tmux_passthrough,
            *old(ids),
        ),
        deep_pixels(*picture, size).len() == 4 * (size.target_w_px * size.target_h_px),
        *final(ids) == kitty::ids_after(None, tmux_passthrough, *old(ids)),
{
    let scaled = DeepPicture {
        samples: resize_deep(picture, size.target_w_px, size.target_h_px),
        layout: picture.layout,
        width_px: size.target_w_px,
        height_px: size.target_h_px,
    };
    let rgba: Vec<u8> = cut_to_rgba(&scaled);
    append_still(writer, rgba.as_slice(), size, tmux_passthrough, ids);
    assert(writer@ =~= old(writer)@ + shown_still_pixels(
        deep_pixels(*picture, size),
        size,
        tmux_passthrough,
        *old(ids),
    ));
}

/// The frame of an animation that follows frame `index` of `count`; `None` at
/// the end. One that loops starts over.
pub open spec fn following_frame(index: int, count: int, loops: bool) -> Option<int> {
    if index + 1 < count {
        Some(index + 1)
    } else if loops {
        Some(0)
    } else {
        None
    }
}

/// The frame of an animation that is shown first.
pub open spec fn opening_frame(count: int) -> Option<int> {
    if count > 0 {
        Some(0int)
    } else {
        None
    }
}

/// The frame of an animation that is shown first; `None` where it has none. An
/// animation without frames that loops would never end.
pub fn first_frame(count: usize, loops: bool) -> (index: Option<usize>)
    requires
        count > 0 || !loops,
    ensures
        index == (if count > 0 {
            Some(0usize)
        } else {
            None
        }),
        index is Some <==> opening_frame(count as int) is Some,
        index matches Some(index) ==> opening_frame(count as int) == Some(index as int),
{
    if count > 0 {
        Some(0)
    } else {
        None
    }
}

/// The frame of an animation that follows another one.
pub fn next_frame(index: usize, count: usize, loops: bool) -> (next: Option<usize>)
    requires
        index < count,
    ensures
        next is Some <==> following_frame(index as int, count as int, loops) is Some,
        next matches Some(next) ==> next == following_frame(index as int, count as int, loops)->0
            && next < count,
{
    if index + 1 < count {
        Some(index + 1)
    } else if loops {
        Some(0)
    } else {
        None
    }
}

/// The frames that are shown of an animation that starts at frame `index`, at
/// most `n` of them.
pub open spec fn frames_shown(index: int, count: int, loops: bool, n: nat) -> Seq<int>
    decreases n,
{
    if n == 0 {
        seq![]
    } else {
        seq![index] + (match following_frame(index, count, loops) {
            Some(next) => frames_shown(next, count, loops, (n - 1) as nat),
            None => seq![],
        })
    }
}

/// An animation that does not loop shows every frame once and in order.
pub proof fn animation_shows_every_frame(index: int, count: int, n: nat)
    requires
        0 <= index < count,
        n >= count - index,
    ensures
        frames_shown(index, count, false, n) == Seq::new((count - index) as nat, |i: int| index + i),
    decreases count - index,
{
    if index + 1 < count {
        animation_shows_every_frame(index + 1, count, (n - 1) as nat);
    }
    assert(frames_shown(index, count, false, n) =~= Seq::new(
        (count - index) as nat,
        |i: int| index + i,
    ));
}

/// An animation that loops shows its frames over and over: frame after frame,
/// counted around.
pub proof fn looping_animation_starts_over(index: int, count: int, n: nat)
    requires
        0 <= index < count,
    ensures
        frames_shown(index, count, true, n) == Seq::new(n, |i: int| (index + i) % count),
    decreases n,
{
    if n > 0 {
        let next = following_frame(index, count, true)->0;
        looping_animation_starts_over(next, count, (n - 1) as nat);
        assert(index % count == index) by (nonlinear_arith)
            requires
                0 <= index < count,
        ;
        assert forall|i: int| 0 <= i < n - 1 implies #[trigger] ((next + i) % count) == (index + 1
            + i) % count by {
            if next == 0 {
                assert((index + 1 + i) % count == i % count) by (nonlinear_arith)
                    requires
                        index + 1 == count,
                        0 <= i,
                ;
            }
        }
        assert(frames_shown(index, count, true, n) =~= Seq::new(n, |i: int| (index + i) % count));
    } else {
        assert(frames_shown(index, count, true, n) =~= Seq::new(n, |i: int| (index + i) % count));
    }
}

/// A picture whose pixels lie within the bounds occupies no cell of the margin.
pub proof fn picture_within_bounds_keeps_the_margin(
    geometry: TerminalGeometry,
    target_w_px: int,
    target_h_px: int,
)
    requires
        geometry.cell_width_px > 0,
        geometry.cell_height_px > 0,
        1 <= target_w_px <= terminal_geometry::cells_within_margin(geometry.cols, FIT_MARGIN_COLS)
            * geometry.cell_width_px,
        1 <= target_h_px <= terminal_geometry::cells_within_margin(geometry.rows, FIT_MARGIN_ROWS)
            * geometry.cell_height_px,
    ensures
        1 <= terminal_geometry::covering_cells(target_w_px, geometry.cell_width_px as int)
            <= terminal_geometry::cells_within_margin(geometry.cols, FIT_MARGIN_COLS),
        1 <= terminal_geometry::covering_cells(target_h_px, geometry.cell_height_px as int)
            <= terminal_geometry::cells_within_margin(geometry.rows, FIT_MARGIN_ROWS),
{
    cells_stay_within(
        target_w_px,
        geometry.cell_width_px as int,
        terminal_geometry::cells_within_margin(geometry.cols, FIT_MARGIN_COLS),
    );
    cells_stay_within(
        target_h_px,
        geometry.cell_height_px as int,
        terminal_geometry::cells_within_margin(geometry.rows, FIT_MARGIN_ROWS),
    );
}

proof fn cells_stay_within(pixels: int, cell_px: int, cells: int)
    requires
        cell_px > 0,
        1 <= pixels <= cells * cell_px,
    ensures
        1 <= terminal_geometry::covering_cells(pixels, cell_px) <= cells,
{
    terminal_geometry::covering_cells_are_just_enough(pixels, cell_px);
    let covering = terminal_geometry::covering_cells(pixels, cell_px);
    assert(covering <= cells) by (nonlinear_arith)
        requires
            (covering - 1) * cell_px < pixels,
            pixels <= cells * cell_px,
            cell_px > 0,
    ;
    assert(covering >= 1) by (nonlinear_arith)
        requires
            covering * cell_px >= pixels,
            pixels >= 1,
            cell_px > 0,
    ;
}

/// Ends of lines as text.
spec fn line_end_text(n: nat) -> Seq<char> {
    Seq::new(n, |i: int| '\n')
}

proof fn line_ends_are_text(n: nat)
    ensures
        encode_utf8(line_end_text(n)) == line_ends(n),
{
    is_ascii_chars_encode_utf8(line_end_text(n));
    assert(encode_utf8(line_end_text(n)) =~= line_ends(n));
}

proof fn line_ends_go_down(screen: Screen, n: nat, rest: Seq<char>)
    ensures
        screen.shown(line_end_text(n) + rest) == (Screen { row: screen.row + n, ..screen }).shown(
            rest,
        ),
    decreases n,
{
    if n == 0 {
        assert(line_end_text(n) + rest =~= rest);
    } else {
        let m = (n - 1) as nat;
        line_ends_go_down(screen, m, seq!['\n'] + rest);
        assert(line_end_text(n) + rest =~= line_end_text(m) + (seq!['\n'] + rest));
        ansi::letter_is_taken_up(Screen { row: screen.row + m, ..screen }, '\n', rest);
    }
}

/// Room for an animation is made by as many ends of lines as it has rows; then the
/// cursor is back in the row that it came from, in the first column, and no cell has
/// changed.
pub proof fn room_is_made_for_the_rows(screen: Screen, rows: u32)
    requires
        1 <= rows <= u16::MAX,
    ensures
        screen.shown(decode_utf8(reserved_rows(rows))) == (Screen { col: 0, ..screen }),
        forall|i: int| 0 <= i < rows ==> #[trigger] reserved_rows(rows)[i] == 0x0a,
{
    let down = line_end_text(rows as nat);
    let up = ansi::numbered_command((rows as u16) as nat, "A"@);
    let start = ansi::move_to_column_text(0);
    let none = Seq::<char>::empty();
    line_ends_are_text(rows as nat);
    text::encode_utf8_concat(down, up);
    text::encode_utf8_concat(down + up, start);
    encode_utf8_decode_utf8(down + up + start);
    assert(down + up + start =~= down + (up + (start + none)));
    line_ends_go_down(screen, rows as nat, up + (start + none));
    let below = Screen { row: screen.row + rows, ..screen };
    ansi::numbered_commands_move_the_cursor(below, rows as nat, start + none);
    ansi::cursor_goes_to_the_column(Screen { row: below.row - rows, ..below }, 0, none);
    ansi::nothing_is_shown(Screen { col: 0, ..screen });
    assert forall|i: int| 0 <= i < rows implies #[trigger] reserved_rows(rows)[i] == 0x0a by {
        assert(reserved_rows(rows)[i] == line_ends(rows as nat)[i]);
    }
}

/// After the last frame the cursor stands in the first column of the line below the
/// rows of the animation, and no cell has changed.
pub proof fn cursor_ends_below_the_animation(screen: Screen, rows: u32)
    requires
        1 <= rows <= u16::MAX,
    ensures
        screen.shown(decode_utf8(animation_end(rows))) == (Screen {
            row: screen.row + rows + 1,
            col: 0,
            ..screen
        }),
{
    let down = ansi::numbered_command((rows as u16) as nat, "B"@);
    let start = ansi::move_to_column_text(0);
    let end = line_end_text(1);
    let none = Seq::<char>::empty();
    line_ends_are_text(1);
    text::encode_utf8_concat(down, start);
    text::encode_utf8_concat(down + start, end);
    encode_utf8_decode_utf8(down + start + end);
    assert(down + start + end =~= down + (start + (end + none)));
    ansi::numbered_commands_move_the_cursor(screen, rows as nat, start + (end + none));
    let below = Screen { row: screen.row + rows, ..screen };
    ansi::cursor_goes_to_the_column(below, 0, end + none);
    line_ends_go_down(Screen { col: 0, ..below }, 1, none);
    ansi::nothing_is_shown(Screen { row: screen.row + rows + 1, col: 0, ..screen });
}

/// What a terminal reads of a picture are its pixels in the size at which it is shown,
/// with the cursor kept in place where that is asked for, and under tmux the placeholders
/// for its cells, unindented.
pub proof fn picture_is_read_at_its_size(
    pixels: Seq<u8>,
    size: ImageDisplaySize,
    prevent_cursor_move: bool,
    images: Option<image_ids::TmuxImages>,
    tmux_passthrough: bool,
    ids: ImageIds,
)
    requires
        pixels.len() > 0,
    ensures
        ({
            let sent = shown_pixels(
                pixels,
                size,
                prevent_cursor_move,
                images,
                tmux_passthrough,
                ids,
            );
            let replaces = tmux_passthrough && images is Some && images->0.used[images->0.turn];
            let image_id = if images is Some {
                images->0.ids[images->0.turn]
            } else {
                image_ids::drawn_id(ids.next)
            };
            let stream = match kitty_reader::read_packet(sent, true) {
                Some((_, after)) if replaces => after,
                _ => sent,
            };
            &&& replaces ==> kitty_reader::read_packet(sent, true) == Some(
                (kitty_reader::delete_body(image_id), stream),
            )
            &&& kitty_reader::read_keys(stream, tmux_passthrough) matches Some(parts)
            &&& kitty_reader::names_frame(
                parts,
                FrameHeader {
                    tmux_passthrough,
                    image_id: if tmux_passthrough {
                        image_id
                    } else {
                        0
                    },
                    width_px: size.target_w_px,
                    height_px: size.target_h_px,
                    cols: size.target_cols,
                    rows: size.target_rows,
                    prevent_cursor_move,
                },
                base64_text::base64_len(pixels.len()) > 4096,
            )
            &&& kitty_reader::read_transmission(stream, tmux_passthrough) matches Some(
                (payload, after),
            )
            &&& base64_text::decoded(decode_utf8(payload)) == pixels
            &&& tmux_passthrough ==> after == encode_utf8(
                tmux::placeholders_text(
                    image_id,
                    size.target_cols,
                    size.target_rows,
                    0,
                    prevent_cursor_move,
                ),
            )
            &&& !tmux_passthrough ==> after.len() == 0
        }),
{
    frames::sent_frame_is_read_as_given(
        pixels,
        size.target_w_px,
        size.target_h_px,
        size.target_cols,
        size.target_rows,
        prevent_cursor_move,
        0,
        images,
        tmux_passthrough,
        ids,
    );
}

/// A picture occupies just the cells that its pixels touch, and keeps its pixels.
pub proof fn picture_takes_up_the_cells_it_touches(
    geometry: TerminalGeometry,
    target_w_px: u32,
    target_h_px: u32,
)
    requires
        geometry.cell_width_px > 0,
        geometry.cell_height_px > 0,
        target_w_px > 0,
        target_h_px > 0,
    ensures
        ({
            let size = picture_size(geometry, target_w_px, target_h_px);
            &&& size.target_w_px == target_w_px
            &&& size.target_h_px == target_h_px
            &&& (size.target_cols - 1) * geometry.cell_width_px < target_w_px
                <= size.target_cols * geometry.cell_width_px
            &&& (size.target_rows - 1) * geometry.cell_height_px < target_h_px
                <= size.target_rows * geometry.cell_height_px
        }),
{
    covering_cells_fit(target_w_px, geometry.cell_width_px);
    covering_cells_fit(target_h_px, geometry.cell_height_px);
}

proof fn covering_cells_fit(pixels: u32, cell_px: u32)
    requires
        pixels > 0,
        cell_px > 0,
    ensures
        ({
            let cells = terminal_geometry::covering_cells(pixels as int, cell_px as int);
            &&& 1 <= cells <= u32::MAX
            &&& (cells - 1) * cell_px < pixels <= cells * cell_px
        }),
{
    let cells = terminal_geometry::covering_cells(pixels as int, cell_px as int);
    terminal_geometry::covering_cells_are_just_enough(pixels as int, cell_px as int);
    assert(1 <= cells <= u32::MAX) by (nonlinear_arith)
        requires
            (cells - 1) * cell_px < pixels,
            pixels <= cells * cell_px,
            0 < pixels <= u32::MAX,
            cell_px > 0,
    ;
}

/// An animation starts with its first frame, unless it has none.
pub proof fn animation_starts_with_its_first_frame(count: int)
    requires
        count >= 0,
    ensures
        count > 0 ==> opening_frame(count) == Some(0int),
        count == 0 ==> opening_frame(count) is None,
{
}

/// Stills are scaled by mixing pixels and frames of animations by the nearest pixel, both
/// from their own size to the size at which they are shown.
pub proof fn pictures_are_scaled_to_their_size(picture: Picture, size: ImageDisplaySize)
    ensures
        ({
            let scaled = |smooth: bool| resized_pixels(
                picture.pixels@,
                picture.width_px,
                picture.height_px,
                size.target_w_px,
                size.target_h_px,
                smooth,
            );
            &&& scaled_pixels(picture, size, ResizeFilter::Triangle) == scaled(true)
            &&& scaled_pixels(picture, size, ResizeFilter::Nearest) == scaled(false)
        }),
{
}

/// A still picture is followed by the end of its line, and lets the cursor move on; before
/// that the terminal reads its pixels at its size.
pub proof fn still_is_read_at_its_size(
    pixels: Seq<u8>,
    size: ImageDisplaySize,
    tmux_passthrough: bool,
    ids: ImageIds,
)
    requires
        pixels.len() > 0,
    ensures
        ({
            let all = shown_still_pixels(pixels, size, tmux_passthrough, ids);
            let sent = all.drop_last();
            &&& all.len() > 0 && all.last() == 0x0a
            &&& kitty_reader::read_keys(sent, tmux_passthrough) matches Some(parts)
            &&& kitty_reader::key_number(parts, 's') == Some(size.target_w_px as nat)
            &&& kitty_reader::key_number(parts, 'v') == Some(size.target_h_px as nat)
            &&& kitty_reader::key_value(parts, 'C') is None
            &&& kitty_reader::read_transmission(sent, tmux_passthrough) matches Some((payload, _))
            &&& base64_text::decoded(decode_utf8(payload)) == pixels
        }),
{
    let all = shown_still_pixels(pixels, size, tmux_passthrough, ids);
    assert(all.drop_last() =~= shown_pixels(pixels, size, false, None, tmux_passthrough, ids));
    picture_is_read_at_its_size(pixels, size, false, None, tmux_passthrough, ids);
}

/// A frame of an animation keeps the cursor in place, so that the next one is shown over
/// it. Under tmux it goes out under the image id whose turn it is, once the image that
/// had it before is deleted.
pub proof fn animation_frame_is_read_at_its_size(
    picture: Picture,
    size: ImageDisplaySize,
    images: image_ids::TmuxImages,
    tmux_passthrough: bool,
    ids: ImageIds,
)
    requires
        scaled_pixels(picture, size, ResizeFilter::Nearest).len() > 0,
    ensures
        ({
            let all = shown_animation_frame(picture, size, images, tmux_passthrough, ids);
            let replaces = tmux_passthrough && images.used[images.turn];
            let sent = match kitty_reader::read_packet(all, true) {
                Some((_, after)) if replaces => after,
                _ => all,
            };
            &&& replaces ==> kitty_reader::read_packet(all, true) == Some(
                (kitty_reader::delete_body(images.ids[images.turn]), sent),
            )
            &&& kitty_reader::read_keys(sent, tmux_passthrough) matches Some(parts)
            &&& kitty_reader::key_number(parts, 's') == Some(size.target_w_px as nat)
            &&& kitty_reader::key_number(parts, 'v') == Some(size.target_h_px as nat)
            &&& kitty_reader::key_number(parts, 'C') == Some(1nat)
            &&& tmux_passthrough ==> kitty_reader::key_number(parts, 'i') == Some(
                images.ids[images.turn] as nat,
            )
            &&& kitty_reader::read_transmission(sent, tmux_passthrough) matches Some((payload, _))
            &&& base64_text::decoded(decode_utf8(payload)) == scaled_pixels(
                picture,
                size,
                ResizeFilter::Nearest,
            )
        }),
{
    picture_is_read_at_its_size(
        scaled_pixels(picture, size, ResizeFilter::Nearest),
        size,
        true,
        Some(images),
        tmux_passthrough,
        ids,
    );
}

} // verus!
