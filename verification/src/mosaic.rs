//! Making the pictures of the world cache: where each thumbnail stands on a tile, and what
//! the tile looks like when they have been laid on it.

use crate::paths::{file_name, split_extension};
use crate::report::{FailureView, WorldCacheFailureRecord};
use crate::text::{concat2, concat3, concat5, copy_text, text_eq};
use crate::tiles::{
    div_up, world_lod_tile_cells, TileView, WorldCellCacheEntry, WorldTileCacheEntry,
    DEFAULT_WORLD_CELL_THUMBNAIL_EDGE, DEFAULT_WORLD_TILE_CELLS,
};
use crate::paths;
use crate::report;
use crate::tiles;
use vstd::prelude::*;

verus! {

// ---------------------------------------------------------------------------
// Pictures

/// A picture: four bytes to each pixel (red, green, blue, alpha), the rows from the top
/// one after the other.
#[derive(Clone, Debug, PartialEq, Eq)]
pub struct Pixels {
    pub width: u32,
    pub height: u32,
    pub data: Vec<u8>,
}

/// A picture, as a mathematical value.
#[verifier::ext_equal]
pub struct PixelsView {
    pub width: nat,
    pub height: nat,
    pub data: Seq<u8>,
}

impl View for Pixels {
    type V = PixelsView;

    open spec fn view(&self) -> PixelsView {
        PixelsView { width: self.width as nat, height: self.height as nat, data: self.data@ }
    }
}

/// How many bytes a picture of a size takes.
pub open spec fn bytes_for(width: nat, height: nat) -> nat {
    4 * (width * height)
}

impl PixelsView {
    /// Whether a picture has the bytes that its size calls for.
    pub open spec fn is_whole(self) -> bool {
        self.data.len() == bytes_for(self.width, self.height)
    }
}

/// A picture of a size in which every pixel is clear.
pub open spec fn clear(width: nat, height: nat) -> PixelsView {
    PixelsView {
        width,
        height,
        data: Seq::new(bytes_for(width, height), |i: int| 0u8),
    }
}

/// A picture in which every pixel is clear.
pub fn clear_pixels(width: u32, height: u32) -> (pixels: Pixels)
    requires
        bytes_for(width as nat, height as nat) <= usize::MAX,
    ensures
        pixels@ == clear(width as nat, height as nat),
        pixels@.is_whole(),
{
    proof {
        assert(width * height <= u64::MAX) by (nonlinear_arith)
            requires
                width <= u32::MAX,
                height <= u32::MAX,
        ;
        assert(width * height >= 0) by (nonlinear_arith);
    }
    let pixels: u64 = (width as u64) * (height as u64);
    let size: usize = (pixels as usize) * 4;
    let mut data: Vec<u8> = Vec::with_capacity(size);
    let mut i: usize = 0;
    while i < size
        invariant
            i <= size,
            data@.len() == i,
            forall|j: int| 0 <= j < i ==> data@[j] == 0,
        decreases size - i,
    {
        data.push(0);
        i = i + 1;
    }
    assert(data@ =~= clear(width as nat, height as nat).data);
    Pixels { width, height, data }
}

/// What `image` makes of a pixel that is laid over another and is neither clear nor solid.
pub uninterp spec fn blended(below: Seq<u8>, above: Seq<u8>) -> Seq<u8>;

/// A pixel with another laid over it: a clear one leaves it as it is, a solid one hides it.
pub open spec fn mixed(below: Seq<u8>, above: Seq<u8>) -> Seq<u8> {
    if above[3] == 0 {
        below
    } else if above[3] == 255 {
        above
    } else {
        blended(below, above)
    }
}

/// The four bytes of a pixel.
pub open spec fn pixel_at(picture: PixelsView, column: int, row: int) -> Seq<u8> {
    let start = 4 * (row * picture.width + column);
    seq![
        picture.data[start],
        picture.data[start + 1],
        picture.data[start + 2],
        picture.data[start + 3],
    ]
}

/// The bytes of a pixel of a picture that has another laid over it with the corner at a
/// place.
pub open spec fn covered_pixel(
    below: PixelsView,
    above: PixelsView,
    x: int,
    y: int,
    column: int,
    row: int,
) -> Seq<u8> {
    if x <= column < x + above.width && y <= row < y + above.height {
        mixed(pixel_at(below, column, row), pixel_at(above, column - x, row - y))
    } else {
        pixel_at(below, column, row)
    }
}

/// A picture with another laid over it with the corner at a place. What stands out over
/// the edges is lost.
pub open spec fn overlaid(below: PixelsView, above: PixelsView, x: int, y: int) -> PixelsView {
    let width = below.width as int;
    PixelsView {
        width: below.width,
        height: below.height,
        data: Seq::new(
            below.data.len(),
            |i: int|
                covered_pixel(below, above, x, y, (i / 4) % width, (i / 4) / width)[i % 4],
        ),
    }
}

/// Calls `image::imageops::overlay` on two pictures of `Rgba<u8>` pixels. It walks the
/// pixels that both pictures have and blends each into the one below it: a pixel whose alpha
/// is zero changes nothing, one whose alpha is full takes the place of the other. For the
/// rest the two are weighed with binary32 arithmetic, and the outcome, which depends on the
/// two pixels alone, only has a name here.
#[verifier::external_body]
fn overlay(below: &mut Pixels, above: &Pixels, x: u32, y: u32)
    requires
        old(below)@.is_whole(),
        above@.is_whole(),
    ensures
        final(below)@ == overlaid(old(below)@, above@, x as int, y as int),
        forall|column: int, row: int|
            x <= column < x + above.width && column < old(below).width && y <= row < y
                + above.height && row < old(below).height && 0 < pixel_at(
                above@,
                column - x,
                row - y,
            )[3] < 255 ==> #[trigger] pixel_at(final(below)@, column, row) == blended(
                pixel_at(old(below)@, column, row),
                pixel_at(above@, column - x, row - y),
            ),
{
    let mut canvas = image::ImageBuffer::<image::Rgba<u8>, &mut [u8]>::from_raw(
        below.width,
        below.height,
        &mut below.data[..],
    ).expect("a picture is whole");
    let top = image::ImageBuffer::<image::Rgba<u8>, &[u8]>::from_raw(
        above.width,
        above.height,
        &above.data[..],
    ).expect("a picture is whole");
    image::imageops::overlay(&mut canvas, &top, i64::from(x), i64::from(y));
}

/// What a picture looks like where another has been laid over it: a solid pixel hides the one
/// below, a clear one shows it, and beside the other picture nothing changes.
pub proof fn law_overlaid_pixels(
    below: PixelsView,
    above: PixelsView,
    x: int,
    y: int,
    column: int,
    row: int,
)
    requires
        below.is_whole(),
        above.is_whole(),
        0 <= column < below.width,
        0 <= row < below.height,
    ensures
        ({
            let shown = pixel_at(overlaid(below, above, x, y), column, row);
            let covered = x <= column < x + above.width && y <= row < y + above.height;
            let over = pixel_at(above, column - x, row - y);
            &&& covered && over[3] == 255 ==> shown == over
            &&& covered && over[3] == 0 ==> shown == pixel_at(below, column, row)
            &&& !covered ==> shown == pixel_at(below, column, row)
        }),
{
    let width = below.width as int;
    let height = below.height as int;
    let at = row * width + column;
    assert(0 <= at < width * height) by (nonlinear_arith)
        requires
            at == row * width + column,
            0 <= column < width,
            0 <= row < height,
    ;
    assert(at % width == column && at / width == row) by {
        vstd::arithmetic::div_mod::lemma_fundamental_div_mod_converse(at, width, row, column);
    }
    let shown = pixel_at(overlaid(below, above, x, y), column, row);
    let wanted = covered_pixel(below, above, x, y, column, row);
    assert forall|k: int| 0 <= k < 4 implies shown[k] == wanted[k] by {
        let i = 4 * at + k;
        assert(i / 4 == at && i % 4 == k);
    }
    let over = pixel_at(above, column - x, row - y);
    if over[3] == 255 || over[3] == 0 || !(x <= column < x + above.width && y <= row < y
        + above.height) {
        assert(shown =~= wanted);
    }
}

/// The longest edge that a picture is brought to: for longer ones the buffers of resampling may
/// outgrow what a size can be.
pub const LONGEST_EDGE: u32 = 0x4000;

/// Whether `image::imageops::resize` may make one picture of another. The filter takes the
/// sine from the machine's library, so that two machines may make two pictures of one.
pub uninterp spec fn may_become(
    picture: PixelsView,
    width: u32,
    height: u32,
    resized: PixelsView,
) -> bool;

/// Calls `image::imageops::resize` with the Lanczos filter. The outcome has the size that
/// was asked for; a picture that has this size already is copied. Which pixels a resampled
/// picture has is not said, only that they are what the call may make of the picture.
#[verifier::external_body]
fn resize(picture: &Pixels, width: u32, height: u32) -> (resized: Pixels)
    requires
        picture@.is_whole(),
        0 < width <= LONGEST_EDGE,
        0 < height <= LONGEST_EDGE,
    ensures
        resized@.is_whole(),
        resized.width == width,
        resized.height == height,
        picture.width == width && picture.height == height ==> resized@ == picture@,
        may_become(picture@, width, height, resized@),
{
    let source = image::ImageBuffer::<image::Rgba<u8>, &[u8]>::from_raw(
        picture.width,
        picture.height,
        &picture.data[..],
    ).expect("a picture is whole");
    let filter = image::imageops::FilterType::Lanczos3;
    Pixels { width, height, data: image::imageops::resize(&source, width, height, filter).into_raw() }
}

/// The decoded picture of `image`.
#[verifier::external_type_specification]
#[verifier::external_body]
pub struct ExDynamicImage(image::DynamicImage);

/// The error of `image`.
#[verifier::external_type_specification]
#[verifier::external_body]
pub struct ExImageError(image::ImageError);

/// The format of a picture in `image`.
#[verifier::external_type_specification]
#[verifier::external_body]
pub struct ExImageFormat(image::ImageFormat);

/// The format that `image::guess_format` reads off the first bytes of a file.
pub uninterp spec fn guessed(bytes: Seq<u8>) -> Result<image::ImageFormat, image::ImageError>;

/// Calls `image::guess_format`, which compares the first bytes of a file with the signatures
/// of the formats. What it says of bytes that it does not know is always the same.
#[verifier::external_body]
fn guess_format(bytes: &Vec<u8>) -> (result: Result<image::ImageFormat, image::ImageError>)
    ensures
        result == guessed(bytes@),
        result matches Err(error) ==> forall|text: Seq<char>| #[trigger]
            may_say(error, text) ==> text == "The image format could not be determined"@,
{
    image::guess_format(bytes.as_slice())
}

/// The format that `image::ImageFormat::from_path` takes from the extension of a path.
pub uninterp spec fn named(path: Seq<char>) -> Result<image::ImageFormat, image::ImageError>;

/// Calls `image::ImageFormat::from_path`, which looks up the extension of a path, in whatever
/// case, among those of the formats. An extension that it does not know is an error.
#[verifier::external_body]
fn format_from_path(path: &str) -> (result: Result<image::ImageFormat, image::ImageError>)
    ensures
        result == named(path@),
{
    image::ImageFormat::from_path(path)
}

/// Whether `image::ImageReader::decode` may give a result for the bytes of a file in a format.
/// The decoder of one format picks its routines by what the processor offers, so that two
/// machines may read two pictures off the same bytes.
pub uninterp spec fn may_give(
    bytes: Seq<u8>,
    format: image::ImageFormat,
    result: Result<image::DynamicImage, image::ImageError>,
) -> bool;

/// Calls `image::ImageReader::decode` on the bytes of a file, in a format. Whether there is a
/// picture, and which, is not said, only that the result is one that the call may give for the
/// bytes in that format.
#[verifier::external_body]
fn decode_as(bytes: &Vec<u8>, format: image::ImageFormat) -> (result: Result<
    image::DynamicImage,
    image::ImageError,
>)
    ensures
        may_give(bytes@, format, result),
{
    image::ImageReader::with_format(std::io::Cursor::new(bytes.as_slice()), format).decode()
}

/// The size of a decoded picture and the bytes of its buffer, as `image::DynamicImage::to_rgba8`
/// gives them.
pub uninterp spec fn pixels_in(picture: image::DynamicImage) -> PixelsView;

/// Calls `image::DynamicImage::to_rgba8`, which gives a picture its four bytes to a pixel. The
/// buffer holds the bytes of every pixel, and may go on behind them.
#[verifier::external_body]
fn rgba(picture: &image::DynamicImage) -> (pixels: Pixels)
    ensures
        pixels.data.len() >= bytes_for(pixels.width as nat, pixels.height as nat),
        pixels@ == pixels_in(*picture),
{
    let buffer = picture.to_rgba8();
    Pixels { width: buffer.width(), height: buffer.height(), data: buffer.into_raw() }
}

/// Whether `image::DynamicImage::resize_to_fill` may make a picture of a size out of a decoded
/// one. It resamples with the machine's sine, as `resize` does.
pub uninterp spec fn may_fill(
    picture: image::DynamicImage,
    width: u32,
    height: u32,
    filled: PixelsView,
) -> bool;

/// Whether a picture that is scaled until it fills a size has an edge that is longer than can
/// be told.
pub open spec fn is_too_narrow(picture: PixelsView, width: u32, height: u32) -> bool {
    ||| picture.width * height > u32::MAX * picture.height
    ||| picture.height * width > u32::MAX * picture.width
}

/// Whether a picture has the size that another was to fill. One without pixels, or too narrow,
/// may fill less of it.
pub open spec fn has_filled(
    picture: PixelsView,
    width: u32,
    height: u32,
    filled: PixelsView,
) -> bool {
    if picture.width > 0 && picture.height > 0 && !is_too_narrow(picture, width, height) {
        filled.width == width && filled.height == height
    } else {
        filled.width <= width && filled.height <= height
    }
}

/// Calls `image::DynamicImage::resize_to_fill` with the Lanczos filter and gives the outcome
/// its four bytes to a pixel. The picture is scaled and cut to the size that was asked for;
/// one without pixels, or so narrow that its scaled length cannot be told, may come out
/// smaller. Which pixels it has is not said, only that they are what the call may make of the
/// picture.
#[verifier::external_body]
fn fill(picture: &image::DynamicImage, width: u32, height: u32) -> (pixels: Pixels)
    requires
        0 < width <= LONGEST_EDGE,
        0 < height <= LONGEST_EDGE,
    ensures
        pixels@.is_whole(),
        has_filled(pixels_in(*picture), width, height, pixels@),
        may_fill(*picture, width, height, pixels@),
{
    let filled = picture.resize_to_fill(width, height, image::imageops::FilterType::Lanczos3);
    let buffer = filled.to_rgba8();
    Pixels { width: buffer.width(), height: buffer.height(), data: buffer.into_raw() }
}

/// Whether an `image::ImageError` may say a text. An error that it holds may be one of the
/// system, which has its own words for it.
pub uninterp spec fn may_say(error: image::ImageError, text: Seq<char>) -> bool;

/// Formats an `image::ImageError`. Which text comes is not said, only that the error may say it.
#[verifier::external_body]
fn error_text(error: &image::ImageError) -> (text: String)
    ensures
        may_say(*error, text@),
{
    format!("{error}")
}

// ---------------------------------------------------------------------------
// Thumbnails

/// The complaint about a file that holds no picture.
pub open spec fn no_picture(what: Seq<char>, path: Seq<char>, reason: Seq<char>) -> Seq<char> {
    "failed to decode "@ + what + " "@ + path + ": "@ + reason
}

/// The complaint about a file that holds no picture.
pub fn decode_failure(what: &str, path: &str, reason: &str) -> (message: String)
    ensures
        message@ == no_picture(what@, path@, reason@),
{
    let start = concat5("failed to decode ", what, " ", path, ": ");
    concat2(&start, reason)
}

/// Whether the file at a path has an extension.
pub open spec fn has_extension(path: Seq<char>) -> bool {
    match paths::name_of_file(path) {
        Some(name) => match paths::stem_and_extension(name).1 {
            Some(extension) => extension.len() > 0,
            None => false,
        },
        None => false,
    }
}

/// The format of the file at a path: the one that its first bytes show, or else the one that
/// its extension names.
pub open spec fn format_of(path: Seq<char>, bytes: Seq<u8>) -> Result<
    image::ImageFormat,
    image::ImageError,
> {
    match guessed(bytes) {
        Ok(format) => Ok(format),
        Err(error) => if has_extension(path) {
            named(path)
        } else {
            Err(error)
        },
    }
}

/// The format of the file at a path: the one that its first bytes show, or else the one that
/// its extension names.
pub fn picture_format(path: &str, bytes: &Vec<u8>) -> (result: Result<
    image::ImageFormat,
    image::ImageError,
>)
    ensures
        result == format_of(path@, bytes@),
{
    match guess_format(bytes) {
        Ok(format) => Ok(format),
        Err(error) => {
            let extended = match file_name(path) {
                Some(name) => match split_extension(name.as_str()).1 {
                    Some(extension) => {
                        proof {
                            reveal_strlit("");
                            assert(extension@.len() == 0 ==> extension@ =~= ""@);
                        }
                        !text_eq(extension.as_str(), "")
                    },
                    None => false,
                },
                None => false,
            };
            if extended {
                format_from_path(path)
            } else {
                Err(error)
            }
        },
    }
}

/// Whether a result is what `image` may make of the bytes of the file at a path.
pub open spec fn may_decode(
    path: Seq<char>,
    bytes: Seq<u8>,
    result: Result<image::DynamicImage, image::ImageError>,
) -> bool {
    match format_of(path, bytes) {
        Ok(format) => may_give(bytes, format, result),
        Err(error) => result == Err::<image::DynamicImage, image::ImageError>(error),
    }
}

fn decode(path: &str, bytes: &Vec<u8>) -> (result: Result<image::DynamicImage, image::ImageError>)
    ensures
        may_decode(path@, bytes@, result),
{
    match picture_format(path, bytes) {
        Ok(format) => decode_as(bytes, format),
        Err(error) => Err(error),
    }
}

/// A picture without the bytes that stand behind its last pixel.
pub open spec fn trimmed(picture: PixelsView) -> PixelsView {
    PixelsView {
        data: picture.data.take(bytes_for(picture.width, picture.height) as int),
        ..picture
    }
}

fn trim(picture: Pixels) -> (pixels: Pixels)
    requires
        picture.data.len() >= bytes_for(picture.width as nat, picture.height as nat),
    ensures
        pixels@ == trimmed(picture@),
        pixels@.is_whole(),
{
    let mut pixels = picture;
    let across: usize = pixels.width as usize;
    let down: usize = pixels.height as usize;
    assert(0 <= across * down) by (nonlinear_arith)
        requires
            across >= 0,
            down >= 0,
    ;
    pixels.data.truncate(4 * (across * down));
    pixels
}

/// Whether an error of `image` gives a complaint about a file.
pub open spec fn may_complain(
    error: image::ImageError,
    what: Seq<char>,
    path: Seq<char>,
    message: Seq<char>,
) -> bool {
    exists|text: Seq<char>| #[trigger]
        may_say(error, text) && message == no_picture(what, path, text)
}

/// Whether a result is what reading a picture off the bytes of a file may come to.
pub open spec fn may_be_read(
    bytes: Seq<u8>,
    what: Seq<char>,
    path: Seq<char>,
    result: Result<Pixels, String>,
) -> bool {
    exists|given: Result<image::DynamicImage, image::ImageError>| #[trigger]
        may_decode(path, bytes, given) && match (given, result) {
            (Ok(picture), Ok(pixels)) => pixels@ == trimmed(pixels_in(picture)),
            (Err(error), Err(message)) => may_complain(error, what, path, message@),
            _ => false,
        }
}

/// Whether a result is what making a picture of a size of the bytes of a file may come to.
pub open spec fn may_be_made(
    bytes: Seq<u8>,
    path: Seq<char>,
    width: u32,
    height: u32,
    result: Result<Pixels, String>,
) -> bool {
    exists|given: Result<image::DynamicImage, image::ImageError>| #[trigger]
        may_decode(path, bytes, given) && match (given, result) {
            (Ok(picture), Ok(pixels)) => may_fill(picture, width, height, pixels@)
                && has_filled(pixels_in(picture), width, height, pixels@),
            (Err(error), Err(message)) => may_complain(error, "source image"@, path, message@),
            _ => false,
        }
}

/// Whether a picture is another that has been brought to a size.
pub open spec fn is_fitted(
    picture: PixelsView,
    width: u32,
    height: u32,
    pixels: PixelsView,
) -> bool {
    if picture.width == width && picture.height == height {
        pixels == picture
    } else {
        may_become(picture, width, height, pixels)
    }
}

/// Reads a picture from the bytes of a file. `what` names the file in a complaint.
pub fn decode_picture(what: &str, path: &str, bytes: &Vec<u8>) -> (result: Result<Pixels, String>)
    ensures
        may_be_read(bytes@, what@, path@, result),
        result matches Ok(pixels) ==> pixels@.is_whole(),
{
    match decode(path, bytes) {
        Ok(picture) => Ok(trim(rgba(&picture))),
        Err(error) => Err(decode_failure(what, path, error_text(&error).as_str())),
    }
}

/// Reads a thumbnail from the bytes of its file.
pub fn load_world_cell_thumbnail(image_path: &str, bytes: &Vec<u8>) -> (result: Result<
    Pixels,
    String,
>)
    ensures
        may_be_read(bytes@, "cell thumbnail"@, image_path@, result),
        result matches Ok(pixels) ==> pixels@.is_whole(),
{
    decode_picture("cell thumbnail", image_path, bytes)
}

/// Makes a thumbnail from the bytes of the wallpaper's file: the picture fills the size, and
/// what stands out is cut off.
pub fn generate_world_cell_thumbnail_image_internal(
    source_path: &str,
    bytes: &Vec<u8>,
    width: u32,
    height: u32,
) -> (result: Result<Pixels, String>)
    requires
        0 < width <= LONGEST_EDGE,
        0 < height <= LONGEST_EDGE,
    ensures
        may_be_made(bytes@, source_path@, width, height, result),
        result matches Ok(pixels) ==> pixels@.is_whole() && pixels.width <= width && pixels.height
            <= height,
{
    match decode(source_path, bytes) {
        Ok(picture) => Ok(fill(&picture, width, height)),
        Err(error) => Err(
            decode_failure("source image", source_path, error_text(&error).as_str()),
        ),
    }
}

/// Brings a thumbnail to a size. One that has the size stays as it is.
pub fn fitted(picture: Pixels, width: u32, height: u32) -> (pixels: Pixels)
    requires
        picture@.is_whole(),
        0 < width <= LONGEST_EDGE,
        0 < height <= LONGEST_EDGE,
    ensures
        pixels@.is_whole(),
        pixels.width == width,
        pixels.height == height,
        is_fitted(picture@, width, height, pixels@),
{
    if picture.width == width && picture.height == height {
        return picture;
    }
    resize(&picture, width, height)
}

/// Reads a stored thumbnail and brings it to a size.
pub fn load_fitted_thumbnail(image_path: &str, bytes: &Vec<u8>, width: u32, height: u32) -> (result:
    Result<Pixels, String>)
    requires
        0 < width <= LONGEST_EDGE,
        0 < height <= LONGEST_EDGE,
    ensures
        exists|read: Result<Pixels, String>| #[trigger]
            may_be_read(bytes@, "cell thumbnail"@, image_path@, read) && match (read, result) {
                (Ok(picture), Ok(pixels)) => is_fitted(picture@, width, height, pixels@),
                (Err(reason), Err(message)) => message@ == reason@,
                _ => false,
            },
        result matches Ok(pixels) ==> pixels@.is_whole() && pixels.width == width && pixels.height
            == height,
{
    match load_world_cell_thumbnail(image_path, bytes) {
        Ok(picture) => Ok(fitted(picture, width, height)),
        Err(message) => Err(message),
    }
}

/// What is said when a thumbnail could be made neither here nor by `vipsthumbnail`.
pub fn thumbnail_failure(internal_error: &str, vips_error: &str) -> (message: String)
    ensures
        message@ == internal_error@ + "; vipsthumbnail fallback failed: "@ + vips_error@,
{
    concat3(internal_error, "; vipsthumbnail fallback failed: ", vips_error)
}

// ---------------------------------------------------------------------------
// Places

/// How many pixels a number of cells takes, if that can be told.
pub open spec fn pixels_of(cells: nat, edge: u32) -> Option<u32> {
    if cells * (edge as nat) <= u32::MAX && cells <= u32::MAX {
        Some((cells * (edge as nat)) as u32)
    } else {
        None
    }
}

/// How many pixels a number of cells takes. `label` names the measure in a complaint.
pub fn tile_pixels(cells: usize, edge: u32, label: &str) -> (result: Result<u32, String>)
    ensures
        match (result, pixels_of(cells as nat, edge)) {
            (Ok(pixels), Some(expected)) => pixels == expected,
            (Err(message), None) => message@ == label@ + " is out of range"@,
            _ => false,
        },
{
    if cells > u32::MAX as usize {
        return Err(concat2(label, " is out of range"));
    }
    proof {
        assert(cells * edge >= 0) by (nonlinear_arith);
    }
    match (cells as u32).checked_mul(edge) {
        Some(pixels) => Ok(pixels),
        None => Err(concat2(label, " is out of range")),
    }
}

/// Where one of a number of equal parts of an edge begins, in whole pixels.
pub open spec fn part_start(index: nat, count: nat, edge: u32) -> u32 {
    let product = index * (edge as nat);
    let reached = if product > u64::MAX {
        u64::MAX as nat
    } else {
        product
    };
    let start = reached / tiles::one_or_more(count);
    if start <= u32::MAX {
        start as u32
    } else {
        edge
    }
}

/// Where one of a number of equal parts of an edge begins, in whole pixels.
pub fn scaled_offset(index: usize, count: usize, edge: u32) -> (offset: u32)
    ensures
        offset == part_start(index as nat, count as nat, edge),
{
    let parts: u64 = if count == 0 {
        1
    } else {
        count as u64
    };
    proof {
        assert(index * edge >= 0) by (nonlinear_arith);
    }
    let product: u64 = match (index as u64).checked_mul(edge as u64) {
        Some(product) => product,
        None => u64::MAX,
    };
    let start: u64 = product / parts;
    if start <= u32::MAX as u64 {
        start as u32
    } else {
        edge
    }
}

/// The parts of an edge follow one another without a gap: the first begins at its start, the
/// last ends at its end, and none begins before the one that it follows.
pub proof fn law_parts_fill_the_edge(index: nat, count: nat, edge: u32)
    requires
        index < count <= u32::MAX,
    ensures
        part_start(0, count, edge) == 0,
        part_start(count, count, edge) == edge,
        part_start(index, count, edge) <= part_start(index + 1, count, edge) <= edge,
{
    lemma_part_start(0, count, edge);
    lemma_part_start(count, count, edge);
    lemma_part_start(index, count, edge);
    lemma_part_start(index + 1, count, edge);
    let e = edge as nat;
    assert((count * e) / count == e) by (nonlinear_arith)
        requires
            count > 0,
    ;
    assert((0 * e) / count == 0) by (nonlinear_arith)
        requires
            count > 0,
    ;
    assert((index * e) / count <= ((index + 1) * e) / count <= (count * e) / count)
        by (nonlinear_arith)
        requires
            count > 0,
            index < count,
    ;
}

proof fn lemma_part_start(index: nat, count: nat, edge: u32)
    requires
        index <= count <= u32::MAX,
        count > 0,
    ensures
        part_start(index, count, edge) == (index * (edge as nat)) / count,
{
    let e = edge as nat;
    assert(index * e <= u64::MAX) by (nonlinear_arith)
        requires
            index <= u32::MAX,
            e <= u32::MAX,
    ;
    assert((index * e) / count <= e) by (nonlinear_arith)
        requires
            index <= count,
            count > 0,
    ;
}

/// Where an edge is as long as its parts are many times a whole number of pixels, each part
/// begins at a multiple of that number.
pub proof fn law_whole_cells_stand_side_by_side(index: nat, count: nat, cell: u32, edge: u32)
    requires
        index <= count <= u32::MAX,
        count > 0,
        edge == count * cell,
    ensures
        part_start(index, count, edge) == index * cell,
{
    lemma_part_start(index, count, edge);
    let c = cell as nat;
    assert((index * (count * c)) / count == index * c) by (nonlinear_arith)
        requires
            count > 0,
    ;
}

/// The cells that a picture shows: those between two columns and two rows of the world.
#[derive(Clone, Copy, Debug, PartialEq, Eq)]
pub struct WorldLodChildBlock {
    pub child_column: usize,
    pub child_row: usize,
    pub start_column: usize,
    pub end_column: usize,
    pub start_row: usize,
    pub end_row: usize,
}

/// Where a thumbnail stands on a picture.
#[derive(Clone, Copy, Debug, PartialEq, Eq)]
pub struct CellPlacement {
    /// The number of the cell.
    pub cell: usize,
    pub x: u32,
    pub y: u32,
    pub width: u32,
    pub height: u32,
}

/// How far it is from one number to another, and at least one.
pub open spec fn span_of(start: usize, end: usize) -> nat {
    if end > start {
        (end - start) as nat
    } else {
        1
    }
}

/// How long one of the parts of an edge is drawn: at least one pixel.
pub open spec fn part_length(index: nat, count: nat, edge: u32) -> u32 {
    let start = part_start(index, count, edge);
    let end = part_start(index + 1, count, edge);
    if end > start {
        (end - start) as u32
    } else {
        1
    }
}

/// Where a cell of a block stands on a picture of a size.
pub open spec fn placed_at(
    columns: usize,
    block: WorldLodChildBlock,
    width: u32,
    height: u32,
    row: int,
    column: int,
) -> CellPlacement {
    let across = span_of(block.start_column, block.end_column);
    let down = span_of(block.start_row, block.end_row);
    let i = (column - block.start_column) as nat;
    let j = (row - block.start_row) as nat;
    CellPlacement {
        cell: (row * columns + column) as usize,
        x: part_start(i, across, width),
        y: part_start(j, down, height),
        width: part_length(i, across, width),
        height: part_length(j, down, height),
    }
}

/// Where the cells of a row stand, up to a column. There may be fewer cells than places.
pub open spec fn places_in_row(
    cell_count: usize,
    columns: usize,
    block: WorldLodChildBlock,
    width: u32,
    height: u32,
    row: int,
    end: int,
) -> Seq<CellPlacement>
    decreases end - block.start_column,
{
    if end <= block.start_column {
        Seq::empty()
    } else {
        let before = places_in_row(cell_count, columns, block, width, height, row, end - 1);
        if row * columns + (end - 1) < cell_count {
            before.push(placed_at(columns, block, width, height, row, end - 1))
        } else {
            before
        }
    }
}

/// Where the cells of a block stand, up to a row: row by row, and from left to right.
pub open spec fn places_in(
    cell_count: usize,
    columns: usize,
    block: WorldLodChildBlock,
    width: u32,
    height: u32,
    end: int,
) -> Seq<CellPlacement>
    decreases end - block.start_row,
{
    if end <= block.start_row {
        Seq::empty()
    } else {
        places_in(cell_count, columns, block, width, height, end - 1) + places_in_row(
            cell_count,
            columns,
            block,
            width,
            height,
            end - 1,
            block.end_column as int,
        )
    }
}

fn part(index: usize, count: usize, edge: u32) -> (result: (u32, u32))
    requires
        index < usize::MAX,
    ensures
        result.0 == part_start(index as nat, count as nat, edge),
        result.1 == part_length(index as nat, count as nat, edge),
{
    let start = scaled_offset(index, count, edge);
    let end = scaled_offset(index + 1, count, edge);
    if end > start {
        (start, end - start)
    } else {
        (start, 1)
    }
}

fn span(start: usize, end: usize) -> (cells: usize)
    ensures
        cells == span_of(start, end),
{
    if end > start {
        end - start
    } else {
        1
    }
}

/// Where the thumbnails of a block stand on a picture of a size.
pub fn block_placements(
    cell_count: usize,
    columns: usize,
    block: WorldLodChildBlock,
    width: u32,
    height: u32,
) -> (places: Vec<CellPlacement>)
    ensures
        places@ == places_in(
            cell_count,
            columns,
            block,
            width,
            height,
            block.end_row as int,
        ),
        forall|i: int| 0 <= i < places@.len() ==> (#[trigger] places@[i]).cell < cell_count,
{
    let mut places: Vec<CellPlacement> = Vec::new();
    let across = span(block.start_column, block.end_column);
    let down = span(block.start_row, block.end_row);
    let mut row: usize = block.start_row;
    while row < block.end_row
        invariant
            block.start_row <= row,
            row <= block.end_row || row == block.start_row,
            across == span_of(block.start_column, block.end_column),
            down == span_of(block.start_row, block.end_row),
            places@ == places_in(cell_count, columns, block, width, height, row as int),
            forall|i: int| 0 <= i < places@.len() ==> (#[trigger] places@[i]).cell < cell_count,
        decreases block.end_row - row,
    {
        let ghost before = places@;
        let (y, tall) = part(row - block.start_row, down, height);
        let mut column: usize = block.start_column;
        while column < block.end_column
            invariant
                block.start_row <= row < block.end_row,
                block.start_column <= column,
                column <= block.end_column || column == block.start_column,
                across == span_of(block.start_column, block.end_column),
                down == span_of(block.start_row, block.end_row),
                y == part_start((row - block.start_row) as nat, down as nat, height),
                tall == part_length((row - block.start_row) as nat, down as nat, height),
                places@ == before + places_in_row(
                    cell_count,
                    columns,
                    block,
                    width,
                    height,
                    row as int,
                    column as int,
                ),
                forall|i: int| 0 <= i < places@.len() ==> (#[trigger] places@[i]).cell < cell_count,
            decreases block.end_column - column,
        {
            proof {
                assert(row * columns >= 0) by (nonlinear_arith);
            }
            if let Some(first) = row.checked_mul(columns) {
                if let Some(number) = first.checked_add(column) {
                    if number < cell_count {
                        let (x, wide) = part(column - block.start_column, across, width);
                        places.push(CellPlacement { cell: number, x, y, width: wide, height: tall });
                    }
                }
            }
            column = column + 1;
            assert(places@ =~= before + places_in_row(
                cell_count,
                columns,
                block,
                width,
                height,
                row as int,
                column as int,
            ));
        }
        proof {
            if block.end_column < block.start_column {
                assert(places_in_row(
                    cell_count,
                    columns,
                    block,
                    width,
                    height,
                    row as int,
                    block.end_column as int,
                ) =~= Seq::<CellPlacement>::empty());
                assert(places@ =~= before);
            }
        }
        row = row + 1;
        assert(places@ =~= before + places_in_row(
            cell_count,
            columns,
            block,
            width,
            height,
            row - 1,
            block.end_column as int,
        ));
    }
    places
}

// ---------------------------------------------------------------------------
// Composing

/// A picture that thumbnails have been laid on, and what could not be laid on it.
#[derive(Clone, Debug, PartialEq, Eq)]
pub struct WorldCellBlock {
    pub image: Pixels,
    pub failures: Vec<WorldCacheFailureRecord>,
}

/// A clear picture with thumbnails laid on it in order. One that could not be had leaves its
/// place as it is.
pub open spec fn composed(
    width: u32,
    height: u32,
    places: Seq<CellPlacement>,
    thumbnails: Seq<Result<Pixels, String>>,
) -> PixelsView
    decreases places.len(),
{
    if places.len() == 0 {
        clear(width as nat, height as nat)
    } else {
        let before = composed(width, height, places.drop_last(), thumbnails.drop_last());
        match thumbnails.last() {
            Ok(thumbnail) => overlaid(
                before,
                thumbnail@,
                places.last().x as int,
                places.last().y as int,
            ),
            Err(_) => before,
        }
    }
}

/// What is noted of the thumbnails that could not be had: the wallpaper and the reason.
pub open spec fn missed(
    cells: Seq<WorldCellCacheEntry>,
    places: Seq<CellPlacement>,
    thumbnails: Seq<Result<Pixels, String>>,
) -> Seq<FailureView>
    decreases places.len(),
{
    if places.len() == 0 {
        Seq::empty()
    } else {
        let before = missed(cells, places.drop_last(), thumbnails.drop_last());
        match thumbnails.last() {
            Ok(_) => before,
            Err(message) => before.push(
                FailureView {
                    kind: "cell"@,
                    item: cells[places.last().cell as int].source_path@,
                    message: message@,
                },
            ),
        }
    }
}

/// Whether every thumbnail that could be had is whole.
pub open spec fn all_whole(thumbnails: Seq<Result<Pixels, String>>) -> bool {
    forall|i: int|
        0 <= i < thumbnails.len() ==> ((#[trigger] thumbnails[i]) matches Ok(thumbnail)
            ==> thumbnail@.is_whole())
}

/// Lays thumbnails on a clear picture.
pub fn compose(
    cells: &Vec<WorldCellCacheEntry>,
    width: u32,
    height: u32,
    places: &Vec<CellPlacement>,
    thumbnails: &Vec<Result<Pixels, String>>,
) -> (block: WorldCellBlock)
    requires
        places.len() == thumbnails.len(),
        all_whole(thumbnails@),
        forall|i: int| 0 <= i < places@.len() ==> (#[trigger] places@[i]).cell < cells.len(),
        bytes_for(width as nat, height as nat) <= usize::MAX,
    ensures
        block.image@ == composed(width, height, places@, thumbnails@),
        block.image@.is_whole(),
        block.image.width == width,
        block.image.height == height,
        report::failure_views(block.failures@) == missed(cells@, places@, thumbnails@),
{
    let mut image = clear_pixels(width, height);
    let mut failures: Vec<WorldCacheFailureRecord> = Vec::new();
    let mut i: usize = 0;
    assert(places@.take(0) =~= Seq::<CellPlacement>::empty());
    assert(report::failure_views(failures@) =~= Seq::<FailureView>::empty());
    while i < places.len()
        invariant
            i <= places.len(),
            places.len() == thumbnails.len(),
            all_whole(thumbnails@),
            forall|j: int| 0 <= j < places@.len() ==> (#[trigger] places@[j]).cell < cells.len(),
            image@ == composed(
                width,
                height,
                places@.take(i as int),
                thumbnails@.take(i as int),
            ),
            image@.is_whole(),
            image.width == width,
            image.height == height,
            report::failure_views(failures@) == missed(
                cells@,
                places@.take(i as int),
                thumbnails@.take(i as int),
            ),
        decreases places.len() - i,
    {
        proof {
            assert(places@.take(i + 1).drop_last() =~= places@.take(i as int));
            assert(thumbnails@.take(i + 1).drop_last() =~= thumbnails@.take(i as int));
        }
        let ghost noted = failures@;
        assert(places@[i as int].cell < cells.len());
        match &thumbnails[i] {
            Ok(thumbnail) => {
                assert(thumbnails@[i as int] matches Ok(t) && t@.is_whole());
                overlay(&mut image, thumbnail, places[i].x, places[i].y);
            },
            Err(message) => {
                failures.push(
                    WorldCacheFailureRecord {
                        kind: copy_text("cell"),
                        item: copy_text(&cells[places[i].cell].source_path),
                        message: copy_text(message),
                    },
                );
                assert(report::failure_views(failures@) =~= report::failure_views(noted).push(
                    failures@[noted.len() as int]@,
                ));
            },
        }
        i = i + 1;
    }
    assert(places@.take(i as int) =~= places@);
    assert(thumbnails@.take(i as int) =~= thumbnails@);
    WorldCellBlock { image, failures }
}

/// Lays the thumbnails of a block on a square picture.
pub fn generate_world_cell_block(
    cells: &Vec<WorldCellCacheEntry>,
    columns: usize,
    block: WorldLodChildBlock,
    edge: u32,
    thumbnails: &Vec<Result<Pixels, String>>,
) -> (result: WorldCellBlock)
    requires
        places_in(
            cells.len(),
            columns,
            block,
            edge,
            edge,
            block.end_row as int,
        ).len() == thumbnails.len(),
        all_whole(thumbnails@),
        bytes_for(edge as nat, edge as nat) <= usize::MAX,
    ensures
        result.image@ == composed(
            edge,
            edge,
            places_in(cells.len(), columns, block, edge, edge, block.end_row as int),
            thumbnails@,
        ),
        result.image@.is_whole(),
        report::failure_views(result.failures@) == missed(
            cells@,
            places_in(cells.len(), columns, block, edge, edge, block.end_row as int),
            thumbnails@,
        ),
{
    let places = block_placements(cells.len(), columns, block, edge, edge);
    compose(cells, edge, edge, &places, thumbnails)
}

// ---------------------------------------------------------------------------
// Tiles

/// The cells of a tile, as a block.
pub open spec fn tile_block(tile: TileView) -> WorldLodChildBlock {
    WorldLodChildBlock {
        child_column: 0,
        child_row: 0,
        start_column: tile.start_column as usize,
        end_column: tile.end_column as usize,
        start_row: tile.start_row as usize,
        end_row: tile.end_row as usize,
    }
}

/// How far it is from one number to another, if that is not backward.
pub open spec fn distance(start: nat, end: nat) -> nat {
    if end > start {
        (end - start) as nat
    } else {
        0
    }
}

/// The size of a picture that shows a number of squares across and down, or which of the
/// two measures is too long.
pub open spec fn squares_size(across: nat, down: nat, edge: u32) -> Result<(u32, u32), Seq<char>> {
    match pixels_of(across, edge) {
        None => Err("tile width is out of range"@),
        Some(width) => match pixels_of(down, edge) {
            None => Err("tile height is out of range"@),
            Some(height) => Ok((width, height)),
        },
    }
}

fn canvas_size(across: usize, down: usize, edge: u32) -> (result: Result<(u32, u32), String>)
    ensures
        match (result, squares_size(across as nat, down as nat, edge)) {
            (Ok(size), Ok(expected)) => size == expected,
            (Err(message), Err(expected)) => message@ == expected,
            _ => false,
        },
{
    proof {
        reveal_strlit("tile width");
        reveal_strlit("tile height");
        reveal_strlit(" is out of range");
        reveal_strlit("tile width is out of range");
        reveal_strlit("tile height is out of range");
        assert("tile width"@ + " is out of range"@ =~= "tile width is out of range"@);
        assert("tile height"@ + " is out of range"@ =~= "tile height is out of range"@);
    }
    let width = tile_pixels(across, edge, "tile width")?;
    let height = tile_pixels(down, edge, "tile height")?;
    Ok((width, height))
}

fn between(start: usize, end: usize) -> (cells: usize)
    ensures
        cells == distance(start as nat, end as nat),
{
    if end > start {
        end - start
    } else {
        0
    }
}

/// The size of a tile of the first level.
pub open spec fn l0_size(tile: TileView) -> Result<(u32, u32), Seq<char>> {
    squares_size(
        distance(tile.start_column, tile.end_column),
        distance(tile.start_row, tile.end_row),
        DEFAULT_WORLD_CELL_THUMBNAIL_EDGE,
    )
}

/// Where the thumbnails of a tile of the first level stand: side by side, in squares.
pub open spec fn l0_places(tile: TileView, cell_count: usize, columns: usize) -> Seq<CellPlacement> {
    match l0_size(tile) {
        Ok((width, height)) => places_in(
            cell_count,
            columns,
            tile_block(tile),
            width,
            height,
            tile.end_row as int,
        ),
        Err(_) => Seq::empty(),
    }
}

/// Where the thumbnails of a tile of the first level stand: side by side, in squares. There
/// are none where the tile is larger than a picture can be.
pub fn l0_placements(tile: &WorldTileCacheEntry, cell_count: usize, columns: usize) -> (places: Vec<
    CellPlacement,
>)
    ensures
        places@ == l0_places(tile@, cell_count, columns),
        forall|i: int| 0 <= i < places@.len() ==> (#[trigger] places@[i]).cell < cell_count,
{
    let across = between(tile.start_column, tile.end_column);
    let down = between(tile.start_row, tile.end_row);
    match canvas_size(across, down, DEFAULT_WORLD_CELL_THUMBNAIL_EDGE) {
        Ok((width, height)) => {
            let block = WorldLodChildBlock {
                child_column: 0,
                child_row: 0,
                start_column: tile.start_column,
                end_column: tile.end_column,
                start_row: tile.start_row,
                end_row: tile.end_row,
            };
            block_placements(cell_count, columns, block, width, height)
        },
        Err(_) => Vec::new(),
    }
}

/// Whether a picture of a size, if it has one, can be held in memory.
pub open spec fn can_hold(size: Result<(u32, u32), Seq<char>>) -> bool {
    size matches Ok((width, height)) ==> bytes_for(width as nat, height as nat) <= usize::MAX
}

fn size_can_be_held(size: &Result<(u32, u32), String>) -> (result: bool)
    ensures
        result == match *size {
            Ok((width, height)) => bytes_for(width as nat, height as nat) <= usize::MAX,
            Err(_) => true,
        },
{
    match size {
        Ok((width, height)) => {
            proof {
                assert(*width * *height <= u64::MAX) by (nonlinear_arith)
                    requires
                        *width <= u32::MAX,
                        *height <= u32::MAX,
                ;
                assert(*width * *height >= 0) by (nonlinear_arith);
            }
            let pixels: u64 = (*width as u64) * (*height as u64);
            pixels <= usize::MAX as u64 / 4
        },
        Err(_) => true,
    }
}

/// Whether the picture of a tile can be held in memory.
pub fn tile_can_be_held(tile: &WorldTileCacheEntry) -> (result: bool)
    ensures
        result == can_hold(
            if tile@.lod == 0 {
                l0_size(tile@)
            } else {
                lod_size(tile@)
            },
        ),
{
    let edge = DEFAULT_WORLD_CELL_THUMBNAIL_EDGE;
    if tile.lod == 0 {
        let across = between(tile.start_column, tile.end_column);
        let down = between(tile.start_row, tile.end_row);
        size_can_be_held(&canvas_size(across, down, edge))
    } else {
        let grid = children_of(tile);
        let across = between(grid.start_column, grid.end_column);
        let down = between(grid.start_row, grid.end_row);
        size_can_be_held(&canvas_size(across, down, edge))
    }
}

/// Makes a tile of the first level from the thumbnails of its cells.
pub fn generate_world_l0_tile(
    tile: &WorldTileCacheEntry,
    cells: &Vec<WorldCellCacheEntry>,
    columns: usize,
    thumbnails: &Vec<Result<Pixels, String>>,
) -> (result: Result<WorldCellBlock, String>)
    requires
        l0_places(tile@, cells.len(), columns).len() == thumbnails.len(),
        all_whole(thumbnails@),
        can_hold(l0_size(tile@)),
    ensures
        match (result, l0_size(tile@)) {
            (Ok(block), Ok((width, height))) => {
                let places = l0_places(tile@, cells.len(), columns);
                &&& block.image@ == composed(width, height, places, thumbnails@)
                &&& block.image@.is_whole()
                &&& report::failure_views(block.failures@) == missed(cells@, places, thumbnails@)
            },
            (Err(message), Err(expected)) => message@ == expected,
            _ => false,
        },
{
    let across = between(tile.start_column, tile.end_column);
    let down = between(tile.start_row, tile.end_row);
    let (width, height) = canvas_size(across, down, DEFAULT_WORLD_CELL_THUMBNAIL_EDGE)?;
    let places = l0_placements(tile, cells.len(), columns);
    Ok(compose(cells, width, height, &places, thumbnails))
}

/// The tiles of the level below that a tile is put together from, by column and row.
#[derive(Clone, Copy, Debug, PartialEq, Eq)]
pub struct ChildGrid {
    pub start_column: usize,
    pub end_column: usize,
    pub start_row: usize,
    pub end_row: usize,
    /// How many cells each of them spans.
    pub cells: usize,
}

/// The tiles of the level below that a tile is put together from.
pub open spec fn child_grid(tile: TileView) -> ChildGrid {
    let below = if tile.lod == 0 {
        0
    } else {
        (tile.lod - 1) as nat
    };
    let cells = tiles::cells_at(DEFAULT_WORLD_TILE_CELLS as nat, below);
    ChildGrid {
        start_column: (tile.start_column / cells) as usize,
        end_column: tiles::ceil_div(tile.end_column, cells) as usize,
        start_row: (tile.start_row / cells) as usize,
        end_row: tiles::ceil_div(tile.end_row, cells) as usize,
        cells: cells as usize,
    }
}

fn children_of(tile: &WorldTileCacheEntry) -> (grid: ChildGrid)
    ensures
        grid == child_grid(tile@),
{
    let below: usize = if tile.lod == 0 {
        0
    } else {
        tile.lod - 1
    };
    proof {
        tiles::lemma_cells_at(DEFAULT_WORLD_TILE_CELLS as nat, below as nat);
    }
    let cells = world_lod_tile_cells(DEFAULT_WORLD_TILE_CELLS, below);
    ChildGrid {
        start_column: tile.start_column / cells,
        end_column: div_up(tile.end_column, cells),
        start_row: tile.start_row / cells,
        end_row: div_up(tile.end_row, cells),
        cells,
    }
}

/// A number, as far as it can be told.
pub open spec fn up_to_max(n: nat) -> nat {
    tiles::lesser(n, usize::MAX as nat)
}

/// Where a tile of the level below starts and ends along one direction: it ends no later
/// than the tile that it is a part of.
pub open spec fn child_range(child: nat, cells: nat, end: nat) -> (nat, nat) {
    let start = up_to_max(child * cells);
    (start, tiles::lesser(up_to_max(start + cells), end))
}

/// The cells that a tile of the level below shows.
pub open spec fn child_block(grid: ChildGrid, tile: TileView, row: int, column: int) ->
    WorldLodChildBlock {
    let across = child_range(column as nat, grid.cells as nat, tile.end_column);
    let down = child_range(row as nat, grid.cells as nat, tile.end_row);
    WorldLodChildBlock {
        child_column: column as usize,
        child_row: row as usize,
        start_column: across.0 as usize,
        end_column: across.1 as usize,
        start_row: down.0 as usize,
        end_row: down.1 as usize,
    }
}

/// The tiles of the level below in a row, up to a column.
pub open spec fn blocks_in_row(grid: ChildGrid, tile: TileView, row: int, end: int) -> Seq<
    WorldLodChildBlock,
>
    decreases end - grid.start_column,
{
    if end <= grid.start_column {
        Seq::empty()
    } else {
        blocks_in_row(grid, tile, row, end - 1).push(child_block(grid, tile, row, end - 1))
    }
}

/// The tiles of the level below, up to a row: row by row, and from left to right.
pub open spec fn blocks_in(grid: ChildGrid, tile: TileView, end: int) -> Seq<WorldLodChildBlock>
    decreases end - grid.start_row,
{
    if end <= grid.start_row {
        Seq::empty()
    } else {
        blocks_in(grid, tile, end - 1) + blocks_in_row(
            grid,
            tile,
            end - 1,
            grid.end_column as int,
        )
    }
}

/// The tiles of the level below that a tile is put together from.
pub open spec fn blocks_of(tile: TileView) -> Seq<WorldLodChildBlock> {
    let grid = child_grid(tile);
    blocks_in(grid, tile, grid.end_row as int)
}

/// Whether a tile of the level below is in a grid of them.
pub open spec fn is_child(grid: ChildGrid, block: WorldLodChildBlock) -> bool {
    &&& grid.start_column <= block.child_column < grid.end_column
    &&& grid.start_row <= block.child_row < grid.end_row
}

fn range_of_child(child: usize, cells: usize, end: usize) -> (range: (usize, usize))
    ensures
        range.0 == child_range(child as nat, cells as nat, end as nat).0,
        range.1 == child_range(child as nat, cells as nat, end as nat).1,
{
    proof {
        assert(child * cells >= 0) by (nonlinear_arith);
    }
    let start: usize = match child.checked_mul(cells) {
        Some(start) => start,
        None => usize::MAX,
    };
    let after: usize = match start.checked_add(cells) {
        Some(after) => after,
        None => usize::MAX,
    };
    if after <= end {
        (start, after)
    } else {
        (start, end)
    }
}

/// The tiles of the level below that a tile is put together from.
pub fn world_lod_child_blocks(tile: &WorldTileCacheEntry) -> (blocks: Vec<WorldLodChildBlock>)
    ensures
        blocks@ == blocks_of(tile@),
        forall|i: int| 0 <= i < blocks@.len() ==> is_child(child_grid(tile@), #[trigger] blocks@[i]),
{
    let grid = children_of(tile);
    let mut blocks: Vec<WorldLodChildBlock> = Vec::new();
    let mut row: usize = grid.start_row;
    while row < grid.end_row
        invariant
            grid.start_row <= row,
            row <= grid.end_row || row == grid.start_row,
            blocks@ == blocks_in(grid, tile@, row as int),
            forall|i: int| 0 <= i < blocks@.len() ==> is_child(grid, #[trigger] blocks@[i]),
        decreases grid.end_row - row,
    {
        let ghost before = blocks@;
        let (start_row, end_row) = range_of_child(row, grid.cells, tile.end_row);
        let mut column: usize = grid.start_column;
        while column < grid.end_column
            invariant
                grid.start_row <= row < grid.end_row,
                grid.start_column <= column,
                column <= grid.end_column || column == grid.start_column,
                start_row == child_range(row as nat, grid.cells as nat, tile.end_row as nat).0,
                end_row == child_range(row as nat, grid.cells as nat, tile.end_row as nat).1,
                blocks@ == before + blocks_in_row(grid, tile@, row as int, column as int),
                forall|i: int| 0 <= i < blocks@.len() ==> is_child(grid, #[trigger] blocks@[i]),
            decreases grid.end_column - column,
        {
            let (start_column, end_column) = range_of_child(column, grid.cells, tile.end_column);
            let block = WorldLodChildBlock {
                child_column: column,
                child_row: row,
                start_column,
                end_column,
                start_row,
                end_row,
            };
            blocks.push(block);
            column = column + 1;
            assert(block == child_block(grid, tile@, row as int, column - 1));
            assert(blocks@ =~= before + blocks_in_row(grid, tile@, row as int, column as int));
        }
        row = row + 1;
        assert(blocks@ =~= before + blocks_in_row(
            grid,
            tile@,
            row - 1,
            grid.end_column as int,
        ));
    }
    blocks
}

/// The size of a tile of a coarser level.
pub open spec fn lod_size(tile: TileView) -> Result<(u32, u32), Seq<char>> {
    let grid = child_grid(tile);
    squares_size(
        distance(grid.start_column as nat, grid.end_column as nat),
        distance(grid.start_row as nat, grid.end_row as nat),
        DEFAULT_WORLD_CELL_THUMBNAIL_EDGE,
    )
}

/// A clear picture with the pictures of tiles of the level below laid on it, each in its
/// square.
pub open spec fn assembled(
    width: u32,
    height: u32,
    grid: ChildGrid,
    blocks: Seq<WorldLodChildBlock>,
    pictures: Seq<WorldCellBlock>,
) -> PixelsView
    decreases blocks.len(),
{
    if blocks.len() == 0 {
        clear(width as nat, height as nat)
    } else {
        overlaid(
            assembled(width, height, grid, blocks.drop_last(), pictures.drop_last()),
            pictures.last().image@,
            (blocks.last().child_column - grid.start_column) * DEFAULT_WORLD_CELL_THUMBNAIL_EDGE,
            (blocks.last().child_row - grid.start_row) * DEFAULT_WORLD_CELL_THUMBNAIL_EDGE,
        )
    }
}

/// What was noted of all the pictures, one after the other.
pub open spec fn all_missed(pictures: Seq<WorldCellBlock>) -> Seq<FailureView>
    decreases pictures.len(),
{
    if pictures.len() == 0 {
        Seq::empty()
    } else {
        all_missed(pictures.drop_last()) + report::failure_views(pictures.last().failures@)
    }
}

fn note_all(failures: &mut Vec<WorldCacheFailureRecord>, more: &Vec<WorldCacheFailureRecord>)
    ensures
        report::failure_views(final(failures)@) == report::failure_views(old(failures)@)
            + report::failure_views(more@),
{
    let ghost before = failures@;
    let mut i: usize = 0;
    while i < more.len()
        invariant
            i <= more.len(),
            failures@.len() == before.len() + i,
            forall|j: int| 0 <= j < before.len() ==> failures@[j] == before[j],
            forall|j: int|
                0 <= j < i ==> (#[trigger] failures@[before.len() + j])@ == more@[j]@,
        decreases more.len() - i,
    {
        failures.push(
            WorldCacheFailureRecord {
                kind: copy_text(&more[i].kind),
                item: copy_text(&more[i].item),
                message: copy_text(&more[i].message),
            },
        );
        i = i + 1;
    }
    assert forall|k: int| before.len() <= k < failures@.len() implies (#[trigger] failures@[k])@
        == more@[k - before.len()]@ by {
        assert(failures@[before.len() + (k - before.len())]@ == more@[k - before.len()]@);
    }
    assert(report::failure_views(failures@) =~= report::failure_views(before)
        + report::failure_views(more@));
}

/// Makes a tile of a coarser level from the pictures of the tiles of the level below.
pub fn generate_world_lod_tile(tile: &WorldTileCacheEntry, pictures: &Vec<WorldCellBlock>) -> (result:
    Result<WorldCellBlock, String>)
    requires
        blocks_of(tile@).len() == pictures.len(),
        forall|i: int|
            0 <= i < pictures@.len() ==> (#[trigger] pictures@[i]).image@.is_whole(),
        can_hold(lod_size(tile@)),
    ensures
        match (result, lod_size(tile@)) {
            (Ok(block), Ok((width, height))) => {
                &&& block.image@ == assembled(
                    width,
                    height,
                    child_grid(tile@),
                    blocks_of(tile@),
                    pictures@,
                )
                &&& block.image@.is_whole()
                &&& report::failure_views(block.failures@) == all_missed(pictures@)
            },
            (Err(message), Err(expected)) => message@ == expected,
            _ => false,
        },
{
    let edge = DEFAULT_WORLD_CELL_THUMBNAIL_EDGE;
    let grid = children_of(tile);
    let across = between(grid.start_column, grid.end_column);
    let down = between(grid.start_row, grid.end_row);
    let (width, height) = canvas_size(across, down, edge)?;
    let blocks = world_lod_child_blocks(tile);
    let mut image = clear_pixels(width, height);
    let mut failures: Vec<WorldCacheFailureRecord> = Vec::new();
    let mut i: usize = 0;
    assert(report::failure_views(failures@) =~= Seq::<FailureView>::empty());
    while i < blocks.len()
        invariant
            i <= blocks.len(),
            blocks.len() == pictures.len(),
            edge == DEFAULT_WORLD_CELL_THUMBNAIL_EDGE,
            across == distance(grid.start_column as nat, grid.end_column as nat),
            down == distance(grid.start_row as nat, grid.end_row as nat),
            pixels_of(across as nat, edge) == Some(width),
            pixels_of(down as nat, edge) == Some(height),
            forall|j: int| 0 <= j < blocks@.len() ==> is_child(grid, #[trigger] blocks@[j]),
            forall|j: int|
                0 <= j < pictures@.len() ==> (#[trigger] pictures@[j]).image@.is_whole(),
            image@ == assembled(
                width,
                height,
                grid,
                blocks@.take(i as int),
                pictures@.take(i as int),
            ),
            image@.is_whole(),
            report::failure_views(failures@) == all_missed(pictures@.take(i as int)),
        decreases blocks.len() - i,
    {
        proof {
            assert(blocks@.take(i + 1).drop_last() =~= blocks@.take(i as int));
            assert(pictures@.take(i + 1).drop_last() =~= pictures@.take(i as int));
            assert(is_child(grid, blocks@[i as int]));
            assert(pictures@[i as int].image@.is_whole());
        }
        let right: u32 = (blocks[i].child_column - grid.start_column) as u32;
        let lower: u32 = (blocks[i].child_row - grid.start_row) as u32;
        overlay(&mut image, &pictures[i].image, right * edge, lower * edge);
        note_all(&mut failures, &pictures[i].failures);
        i = i + 1;
    }
    assert(blocks@.take(i as int) =~= blocks@);
    assert(pictures@.take(i as int) =~= pictures@);
    Ok(WorldCellBlock { image, failures })
}

} // verus!
