//! Decoding of a JPEG frame into the pixels that are shown.
use vstd::prelude::*;

use crate::protocol::{pixel_bytes, Config};

verus! {

/// How the decoder lays out a pixel.
#[derive(Clone, Copy, Debug, PartialEq, Eq, Structural)]
pub enum PixelFormat {
    L8,
    L16,
    Rgb24,
    Cmyk32,
}

/// What the decoder says of an image beside its pixels.
#[derive(Clone, Copy, Debug, PartialEq, Eq, Structural)]
pub struct ImageInfo {
    pub width: u16,
    pub height: u16,
    pub pixel_format: PixelFormat,
}

/// A decoded image.
pub struct Image {
    pub pixels: Vec<u8>,
    pub info: Option<ImageInfo>,
}

/// The longest side of an image whose rows and columns of eight pixels the
/// decoder can always count: one more row would end at pixel 65536, which is no
/// `u16`.
pub const MAX_SIDE: u16 = 65528;

/// The fewest bytes that a scan of an image takes: its marker and its header
/// with one component.
pub const SCAN_BYTES: usize = 10;

/// How the decoder has to undo the coding of an image.
#[derive(Clone, Copy, Debug, PartialEq, Eq, Structural)]
pub enum CodingProcess {
    DctSequential,
    DctProgressive,
    Lossless,
}

/// What the frame header says of an image.
#[derive(Clone, Copy, Debug, PartialEq, Eq, Structural)]
pub struct Header {
    pub width: u16,
    pub height: u16,
    pub process: CodingProcess,
}

/// What `jpeg_decoder::Decoder::read_info` and then `Decoder::info` say of the
/// size and the coding of the image, or the text of the error.
pub uninterp spec fn jpeg_header(encoded: Seq<u8>) -> Result<Option<Header>, Seq<char>>;

/// Runs `jpeg_decoder::Decoder::read_info` and `Decoder::info` on the data. They
/// read up to the frame header and decode nothing; what they say follows from
/// the data alone.
#[verifier::external_body]
fn read_header(encoded: &[u8]) -> (res: Result<Option<Header>, String>)
    ensures
        match res {
            Ok(header) => jpeg_header(encoded@) == Ok::<Option<Header>, Seq<char>>(header),
            Err(error) => jpeg_header(encoded@) == Err::<Option<Header>, Seq<char>>(error@),
        },
{
    let mut decoder = jpeg_decoder::Decoder::new(encoded);
    decoder.read_info().map_err(|error| error.to_string())?;
    Ok(decoder.info().map(|info| {
        let process = match info.coding_process {
            jpeg_decoder::CodingProcess::DctSequential => CodingProcess::DctSequential,
            jpeg_decoder::CodingProcess::DctProgressive => CodingProcess::DctProgressive,
            jpeg_decoder::CodingProcess::Lossless => CodingProcess::Lossless,
        };
        Header { width: info.width, height: info.height, process }
    }))
}

/// Whether a scan of one component may start at this place: its marker, the
/// length of its header and the number of components.
pub open spec fn single_scan_at(encoded: Seq<u8>, place: int) -> bool {
    &&& 0 <= place <= encoded.len() - 5
    &&& encoded[place] == 0xff
    &&& encoded[place + 1] == 0xda
    &&& encoded[place + 2] == 0
    &&& encoded[place + 3] == 8
    &&& encoded[place + 4] == 1
}

/// Whether there may be a scan of one component.
pub open spec fn has_single_scan(encoded: Seq<u8>) -> bool {
    exists|place: int| #[trigger] single_scan_at(encoded, place)
}

/// Whether a frame header of this size may start at this place and give three
/// columns of blocks to the component with this number.
pub open spec fn tripled_at(encoded: Seq<u8>, header: Header, place: int, component: int) -> bool {
    &&& 0 <= place
    &&& 0 <= component
    &&& place + 11 + 3 * component < encoded.len()
    &&& encoded[place] == 0xff
    &&& 0xc0 <= encoded[place + 1] <= 0xc2
    &&& 0x100 * encoded[place + 5] + encoded[place + 6] == header.height
    &&& 0x100 * encoded[place + 7] + encoded[place + 8] == header.width
    &&& component < encoded[place + 9]
    &&& encoded[place + 11 + 3 * component] / 16 == 3
}

/// Whether there may be a component with three columns of blocks.
pub open spec fn has_tripled(encoded: Seq<u8>, header: Header) -> bool {
    exists|place: int, component: int| #[trigger] tripled_at(encoded, header, place, component)
}

/// Whether a counter of the decoder may overflow. It counts rows and columns of
/// blocks in a `u16`, and multiplies the number by eight. In a scan of several
/// components, and in an image without blocks, the product fits for every size.
/// In a scan of one component it may not: for rows where the image is higher
/// than [`MAX_SIDE`], for columns where it is wider and the component has three
/// of them, so that their number is rounded up beyond the width.
pub open spec fn overflows(encoded: Seq<u8>, header: Header) -> bool {
    &&& header.process != CodingProcess::Lossless
    &&& has_single_scan(encoded)
    &&& header.height > MAX_SIDE || (header.width > MAX_SIDE && has_tripled(encoded, header))
}

/// Whether the decoder can count what an image with this header takes: its rows
/// and columns, and the bytes of its buffers, at most eight for a pixel of the
/// image with the blocks at its edges filled up.
pub open spec fn countable_image(encoded: Seq<u8>, header: Header) -> bool {
    &&& !overflows(encoded, header)
    &&& (header.width + 32) * (header.height + 32) * 8 <= isize::MAX
}

/// Whether the decoder can count the scans of the data and what its frame header
/// announces. Without a frame header the decoder comes to no scan.
pub open spec fn countable(encoded: Seq<u8>) -> bool {
    &&& encoded.len() as int / SCAN_BYTES as int <= i32::MAX
    &&& jpeg_header(encoded) matches Ok(Some(header)) ==> countable_image(encoded, header)
}

/// Looks for a scan of one component.
fn find_single_scan(encoded: &[u8]) -> (res: bool)
    ensures
        res == has_single_scan(encoded@),
{
    let length: usize = encoded.len();
    let mut place: usize = 0;
    while place < length && length - place >= 5
        invariant
            place <= length,
            length == encoded@.len(),
            forall|k: int| 0 <= k < place ==> !#[trigger] single_scan_at(encoded@, k),
        decreases length - place,
    {
        if encoded[place] == 0xff && encoded[place + 1] == 0xda && encoded[place + 2] == 0
            && encoded[place + 3] == 8 && encoded[place + 4] == 1 {
            assert(single_scan_at(encoded@, place as int));
            return true;
        }
        place += 1;
    }
    false
}

/// Looks for a component with three columns of blocks at a place.
fn tripled_component(encoded: &[u8], header: &Header, place: usize) -> (res: bool)
    requires
        place < encoded@.len(),
    ensures
        res == exists|component: int| #[trigger] tripled_at(
            encoded@,
            *header,
            place as int,
            component,
        ),
{
    let length: usize = encoded.len();
    if length - place < 12 || encoded[place] != 0xff || encoded[place + 1] < 0xc0 || encoded[place
        + 1] > 0xc2 {
        return false;
    }
    let height: u16 = 0x100 * (encoded[place + 5] as u16) + encoded[place + 6] as u16;
    let width: u16 = 0x100 * (encoded[place + 7] as u16) + encoded[place + 8] as u16;
    if height != header.height || width != header.width {
        return false;
    }
    let count: u8 = encoded[place + 9];
    let mut component: u8 = 0;
    while component < count && length - place > 11 + 3 * (component as usize)
        invariant
            component <= count,
            place < length,
            length == encoded@.len(),
            count == encoded@[place + 9],
            length - place >= 12,
            encoded@[place as int] == 0xff,
            0xc0 <= encoded@[place + 1] <= 0xc2,
            0x100 * encoded@[place + 5] + encoded@[place + 6] == header.height,
            0x100 * encoded@[place + 7] + encoded@[place + 8] == header.width,
            forall|k: int|
                0 <= k < component ==> !#[trigger] tripled_at(encoded@, *header, place as int, k),
        decreases count - component,
    {
        if encoded[place + 11 + 3 * (component as usize)] / 16 == 3 {
            assert(tripled_at(encoded@, *header, place as int, component as int));
            return true;
        }
        component += 1;
    }
    false
}

/// Looks for a component with three columns of blocks.
fn find_tripled(encoded: &[u8], header: &Header) -> (res: bool)
    ensures
        res == has_tripled(encoded@, *header),
{
    let mut place: usize = 0;
    while place < encoded.len()
        invariant
            place <= encoded@.len(),
            forall|k: int, component: int|
                0 <= k < place ==> !#[trigger] tripled_at(encoded@, *header, k, component),
        decreases encoded@.len() - place,
    {
        if tripled_component(encoded, header, place) {
            return true;
        }
        place += 1;
    }
    false
}

/// Says whether the decoder can count what an image with this header takes.
pub fn is_countable_image(encoded: &[u8], header: &Header) -> (res: bool)
    ensures
        res == countable_image(encoded@, *header),
{
    assert((header.width + 32) * (header.height + 32) * 8 <= 0x1_0000_0000_0000) by (
    nonlinear_arith)
        requires
            header.width <= 0xffff,
            header.height <= 0xffff,
    ;
    let bytes: u64 = (header.width as u64 + 32) * (header.height as u64 + 32) * 8;
    if bytes > isize::MAX as u64 {
        return false;
    }
    if header.process == CodingProcess::Lossless {
        return true;
    }
    if header.height > MAX_SIDE {
        return !find_single_scan(encoded);
    }
    if header.width > MAX_SIDE {
        return !find_single_scan(encoded) || !find_tripled(encoded, header);
    }
    true
}

/// Says whether the data can be handed to the decoder.
pub fn is_countable(encoded: &[u8]) -> (res: bool)
    ensures
        res == countable(encoded@),
{
    if encoded.len() / SCAN_BYTES > i32::MAX as usize {
        return false;
    }
    match read_header(encoded) {
        Ok(Some(header)) => is_countable_image(encoded, &header),
        _ => true,
    }
}

/// What `jpeg_decoder::Decoder::decode` makes of the data when a decoded image
/// may take `limit` bytes: the number of bytes of the image and what
/// `Decoder::info` says of it, or the text of the error.
pub uninterp spec fn jpeg_outcome(encoded: Seq<u8>, limit: nat) -> Result<
    (nat, Option<ImageInfo>),
    Seq<char>,
>;

/// Whether `jpeg_decoder::Decoder::decode` can return these pixels for the
/// data. There may be more than one answer: the decoder rounds as the
/// instructions of the processor do.
pub uninterp spec fn jpeg_pixels(encoded: Seq<u8>, pixels: Seq<u8>) -> bool;

/// Runs `jpeg_decoder::Decoder::decode` and `Decoder::info` on the data, with
/// `Decoder::set_max_decoding_buffer_size` set to `limit`. Whether this
/// succeeds, the size and description of the image, and the text of an error
/// follow from the data and the limit; after a success there is a description.
/// The pixels are one of the answers that the data allows, and no more is
/// claimed of their values, which depend on the processor. The decoder counts
/// rows and columns in a `u16` and scans in an `i32`, and does so before it
/// looks at the limit: data for which a count may overflow is left out.
#[verifier::external_body]
fn decode_image(encoded: &[u8], limit: usize) -> (res: Result<Image, String>)
    requires
        countable(encoded@),
    ensures
        match res {
            Ok(image) => {
                &&& jpeg_outcome(encoded@, limit as nat) == Ok::<
                    (nat, Option<ImageInfo>),
                    Seq<char>,
                >((image.pixels@.len(), image.info))
                &&& jpeg_pixels(encoded@, image.pixels@)
                &&& image.info is Some
            },
            Err(error) => jpeg_outcome(encoded@, limit as nat) == Err::<
                (nat, Option<ImageInfo>),
                Seq<char>,
            >(error@),
        },
{
    let mut decoder = jpeg_decoder::Decoder::new(encoded);
    decoder.set_max_decoding_buffer_size(limit);
    let pixels = decoder.decode().map_err(|error| error.to_string())?;
    let info = decoder.info().map(|info| {
        let pixel_format = match info.pixel_format {
            jpeg_decoder::PixelFormat::L8 => PixelFormat::L8,
            jpeg_decoder::PixelFormat::L16 => PixelFormat::L16,
            jpeg_decoder::PixelFormat::RGB24 => PixelFormat::Rgb24,
            jpeg_decoder::PixelFormat::CMYK32 => PixelFormat::Cmyk32,
        };
        ImageInfo { width: info.width, height: info.height, pixel_format }
    });
    Ok(Image { pixels, info })
}

/// Whether an image of `length` bytes is a frame of the configured size.
pub open spec fn image_fits(length: nat, info: Option<ImageInfo>, config: Config) -> bool {
    match info {
        Some(info) => {
            &&& info.width == config.width
            &&& info.height == config.height
            &&& info.pixel_format == PixelFormat::Rgb24
            &&& length == config.width * config.height * 3
        },
        None => false,
    }
}

/// The number of pixels that can be copied from three bytes each to four.
pub open spec fn copied_pixels(pixels: Seq<u8>, raw: Seq<u8>) -> int {
    if pixels.len() / 3 <= raw.len() / 4 {
        pixels.len() as int / 3
    } else {
        raw.len() as int / 4
    }
}

/// `raw` with red, green and blue from `pixels` and full opacity, as far as
/// both reach.
pub open spec fn opaque_pixels(pixels: Seq<u8>, raw: Seq<u8>) -> Seq<u8> {
    Seq::new(
        raw.len(),
        |k: int|
            if k / 4 >= copied_pixels(pixels, raw) {
                raw[k]
            } else if k % 4 == 3 {
                0xff
            } else {
                pixels[3 * (k / 4) + k % 4]
            },
    )
}

/// Copies an image of the configured size into `raw`; any other image is an
/// error, and leaves `raw` as it is.
pub fn store_image(
    pixels: &[u8],
    info: Option<ImageInfo>,
    config: &Config,
    raw: &mut [u8],
) -> (res: Result<(), String>)
    ensures
        match res {
            Ok(_) => {
                &&& image_fits(pixels@.len(), info, *config)
                &&& final(raw)@ == opaque_pixels(pixels@, old(raw)@)
            },
            Err(error) => {
                &&& !image_fits(pixels@.len(), info, *config)
                &&& final(raw)@ == old(raw)@
                &&& error@ == "Invalid JPEG frame"@
            },
        },
{
    let length: usize = pixels.len();
    let room: usize = raw.len();
    let info = match info {
        Some(info) => info,
        None => {
            return Err("Invalid JPEG frame".to_owned());
        },
    };
    let expected: usize = match pixel_bytes(config.width, config.height, 3) {
        Some(expected) => expected,
        None => {
            return Err("Invalid JPEG frame".to_owned());
        },
    };
    if info.width as usize != config.width || info.height as usize != config.height
        || info.pixel_format != PixelFormat::Rgb24 || length != expected {
        return Err("Invalid JPEG frame".to_owned());
    }
    let count: usize = if length / 3 <= room / 4 {
        length / 3
    } else {
        room / 4
    };
    let ghost before = raw@;
    let mut index: usize = 0;
    while index < count
        invariant
            index <= count,
            count == copied_pixels(pixels@, before),
            length == pixels@.len(),
            room == before.len(),
            raw@.len() == before.len(),
            forall|k: int|
                0 <= k < 4 * index ==> #[trigger] raw@[k] == opaque_pixels(pixels@, before)[k],
            forall|k: int| 4 * index <= k < before.len() ==> #[trigger] raw@[k] == before[k],
        decreases count - index,
    {
        raw[4 * index] = pixels[3 * index];
        raw[4 * index + 1] = pixels[3 * index + 1];
        raw[4 * index + 2] = pixels[3 * index + 2];
        raw[4 * index + 3] = 0xff;
        index += 1;
    }
    assert(raw@ =~= opaque_pixels(pixels@, before));
    Ok(())
}

/// Why the data is no frame of the configured size, if the decoder may use
/// `limit` bytes; nothing, if it is one.
pub open spec fn frame_error(encoded: Seq<u8>, limit: nat, config: Config) -> Option<Seq<char>> {
    if !countable(encoded) {
        Some("Invalid JPEG frame"@)
    } else {
        match jpeg_outcome(encoded, limit) {
            Ok((length, info)) => if image_fits(length, info, config) {
                None
            } else {
                Some("Invalid JPEG frame"@)
            },
            Err(text) => Some("Invalid JPEG frame: "@ + text),
        }
    }
}

/// Whether decoding a frame of the configured size can turn the bytes `before`
/// into the bytes `after`.
pub open spec fn is_decoded(
    encoded: Seq<u8>,
    config: Config,
    before: Seq<u8>,
    after: Seq<u8>,
) -> bool {
    exists|pixels: Seq<u8>|
        {
            &&& #[trigger] jpeg_pixels(encoded, pixels)
            &&& pixels.len() == config.width * config.height * 3
            &&& after == opaque_pixels(pixels, before)
        }
}

/// Decodes a frame into `raw`, four bytes a pixel. The decoder may use as many
/// bytes as `raw` has. An error leaves `raw` as it is.
pub fn decode_jpeg(encoded: &[u8], config: &Config, raw: &mut [u8]) -> (res: Result<(), String>)
    requires
        countable(encoded@),
    ensures
        match res {
            Ok(_) => {
                &&& frame_error(encoded@, old(raw)@.len(), *config) is None
                &&& is_decoded(encoded@, *config, old(raw)@, final(raw)@)
            },
            Err(error) => {
                &&& frame_error(encoded@, old(raw)@.len(), *config) == Some(error@)
                &&& final(raw)@ == old(raw)@
            },
        },
{
    match decode_image(encoded, raw.len()) {
        Ok(image) => store_image(image.pixels.as_slice(), image.info, config, raw),
        Err(error) => Err("Invalid JPEG frame: ".to_owned().concat(error.as_str())),
    }
}

/// A frame of the configured size fills the whole buffer: every pixel is opaque
/// and has the decoded colors, and nothing of the frame before shows through.
pub proof fn frame_replaces_buffer(config: Config, pixels: Seq<u8>, raw: Seq<u8>, other: Seq<u8>)
    requires
        config.wf(),
        pixels.len() == config.width * config.height * 3,
        raw.len() == config.payload,
        other.len() == config.payload,
    ensures
        opaque_pixels(pixels, raw) == opaque_pixels(pixels, other),
        forall|pixel: int, channel: int|
            0 <= pixel < config.width * config.height && 0 <= channel < 4
                ==> #[trigger] opaque_pixels(pixels, raw)[4 * pixel + channel] == if channel == 3 {
                0xff
            } else {
                pixels[3 * pixel + channel]
            },
{
    let area = config.width * config.height;
    assert(copied_pixels(pixels, raw) == area);
    assert(copied_pixels(pixels, other) == area);
    assert(opaque_pixels(pixels, raw) =~= opaque_pixels(pixels, other));
    assert forall|pixel: int, channel: int|
        0 <= pixel < area && 0 <= channel < 4 implies #[trigger] opaque_pixels(
        pixels,
        raw,
    )[4 * pixel + channel] == if channel == 3 {
        0xff
    } else {
        pixels[3 * pixel + channel]
    } by {
        assert((4 * pixel + channel) / 4 == pixel);
        assert((4 * pixel + channel) % 4 == channel);
    }
}

/// An image is taken as a frame exactly if the decoder gives three bytes for each
/// pixel and describes an RGB image with the configured sides: no size of a
/// well-formed configuration is refused.
pub proof fn images_of_the_configured_size_fit(
    length: nat,
    info: Option<ImageInfo>,
    config: Config,
)
    ensures
        image_fits(length, info, config) <==> {
            &&& info is Some
            &&& info->0.width as int == config.width as int
            &&& info->0.height as int == config.height as int
            &&& info->0.pixel_format == PixelFormat::Rgb24
            &&& length == 3 * (config.width * config.height)
        },
{
}

/// Data that the decoder can count is a frame exactly if the decoder makes an RGB
/// image with the configured sides and three bytes for each pixel of it. Where
/// the decoder fails its reason is told.
pub proof fn frames_are_refused_only_for_a_reason(
    encoded: Seq<u8>,
    limit: nat,
    config: Config,
    width: u16,
    height: u16,
)
    requires
        countable(encoded),
        config.width == width,
        config.height == height,
    ensures
        jpeg_outcome(encoded, limit) == Ok::<(nat, Option<ImageInfo>), Seq<char>>(
            (
                (3 * (width * height)) as nat,
                Some(ImageInfo { width, height, pixel_format: PixelFormat::Rgb24 }),
            ),
        ) <==> frame_error(encoded, limit, config) is None,
        forall|text: Seq<char>|
            jpeg_outcome(encoded, limit) == Err::<(nat, Option<ImageInfo>), Seq<char>>(text)
                ==> #[trigger] frame_error(encoded, limit, config) == Some(
                "Invalid JPEG frame: "@ + text,
            ),
        jpeg_outcome(encoded, limit) is Ok && frame_error(encoded, limit, config) is Some
            ==> frame_error(encoded, limit, config) == Some("Invalid JPEG frame"@),
{
    assert((width * height) * 3 == 3 * (width * height));
    if frame_error(encoded, limit, config) is None {
        let (length, info) = jpeg_outcome(encoded, limit)->Ok_0;
        assert(info == Some(ImageInfo { width, height, pixel_format: PixelFormat::Rgb24 }));
        assert(length == (3 * (width * height)) as nat);
    }
}

/// Every pixel for which there are three decoded bytes and room for four gets its
/// colors and full opacity; every other byte stays as it was.
pub proof fn pixels_are_copied_one_by_one(pixels: Seq<u8>, raw: Seq<u8>, pixel: int)
    requires
        0 <= pixel,
    ensures
        opaque_pixels(pixels, raw).len() == raw.len(),
        3 * pixel + 3 <= pixels.len() && 4 * pixel + 4 <= raw.len() ==> opaque_pixels(
            pixels,
            raw,
        ).subrange(4 * pixel, 4 * pixel + 4) == pixels.subrange(3 * pixel, 3 * pixel + 3).push(
            0xff,
        ),
        3 * pixel + 3 > pixels.len() || 4 * pixel + 4 > raw.len() ==> forall|k: int|
            4 * pixel <= k < 4 * pixel + 4 && k < raw.len() ==> #[trigger] opaque_pixels(
                pixels,
                raw,
            )[k] == raw[k],
{
    let copied = opaque_pixels(pixels, raw);
    if 3 * pixel + 3 <= pixels.len() && 4 * pixel + 4 <= raw.len() {
        assert(pixel < copied_pixels(pixels, raw));
        assert(copied.subrange(4 * pixel, 4 * pixel + 4) =~= pixels.subrange(
            3 * pixel,
            3 * pixel + 3,
        ).push(0xff));
    } else {
        assert(pixel >= copied_pixels(pixels, raw));
    }
}

/// What a frame is decoded into are the colors that the decoder can give for it,
/// each pixel opaque, whatever was in the buffer.
pub proof fn decoded_frames_have_the_colors_of_the_decoder(
    encoded: Seq<u8>,
    config: Config,
    before: Seq<u8>,
    after: Seq<u8>,
)
    requires
        config.wf(),
        before.len() == 4 * (config.width * config.height),
        is_decoded(encoded, config, before, after),
    ensures
        after.len() == before.len(),
        exists|pixels: Seq<u8>|
            {
                &&& #[trigger] jpeg_pixels(encoded, pixels)
                &&& pixels.len() == 3 * (config.width * config.height)
                &&& forall|pixel: int|
                    0 <= pixel < config.width * config.height ==> #[trigger] after.subrange(
                        4 * pixel,
                        4 * pixel + 4,
                    ) == pixels.subrange(3 * pixel, 3 * pixel + 3).push(0xff)
            },
{
    let pixels = choose|pixels: Seq<u8>|
        {
            &&& #[trigger] jpeg_pixels(encoded, pixels)
            &&& pixels.len() == config.width * config.height * 3
            &&& after == opaque_pixels(pixels, before)
        };
    assert(jpeg_pixels(encoded, pixels));
    assert forall|pixel: int|
        0 <= pixel < config.width * config.height implies #[trigger] after.subrange(
        4 * pixel,
        4 * pixel + 4,
    ) == pixels.subrange(3 * pixel, 3 * pixel + 3).push(0xff) by {
        pixels_are_copied_one_by_one(pixels, before, pixel);
    }
}

/// Data is refused for its size only where it must be: it has a scan of one
/// component in an image that is coded in blocks, and that image is higher than
/// 65528 pixels, or wider than that with a component of three columns.
pub proof fn only_scans_of_one_component_are_refused(encoded: Seq<u8>, header: Header)
    requires
        encoded.len() <= 0x4_0000_0000,
        jpeg_header(encoded) == Ok::<Option<Header>, Seq<char>>(Some(header)),
        (header.width + 32) * (header.height + 32) * 8 <= isize::MAX,
    ensures
        header.width <= 65528 && header.height <= 65528 ==> countable(encoded),
        header.process == CodingProcess::Lossless ==> countable(encoded),
        (forall|k: int|
            0 <= k <= encoded.len() - 5 ==> #[trigger] encoded.subrange(k, k + 5) != seq![
                0xffu8,
                0xdau8,
                0u8,
                8u8,
                1u8,
            ]) ==> countable(encoded),
        header.height <= 65528 && (forall|k: int|
            0 <= k < encoded.len() && #[trigger] encoded[k] / 16 == 3 ==> false)
            ==> countable(encoded),
{
    if has_single_scan(encoded) {
        let k = choose|k: int| #[trigger] single_scan_at(encoded, k);
        assert(encoded.subrange(k, k + 5) =~= seq![0xffu8, 0xdau8, 0u8, 8u8, 1u8]);
    }
    if has_tripled(encoded, header) {
        let (k, component) = choose|k: int, component: int|
            #[trigger] tripled_at(encoded, header, k, component);
        assert(encoded[k + 11 + 3 * component] / 16 == 3);
    }
}

/// Data without a readable frame header is handed to the decoder, which says what
/// is wrong with it.
pub proof fn data_without_a_header_is_decoded(encoded: Seq<u8>)
    requires
        encoded.len() <= 0x4_0000_0000,
        !(jpeg_header(encoded) matches Ok(Some(_))),
    ensures
        countable(encoded),
{
}

/// No data is handed to the decoder on which its row counter may overflow: a scan
/// of one component of an image that is coded in blocks and higher than 65528
/// pixels.
pub proof fn high_scans_of_one_component_are_refused(encoded: Seq<u8>, header: Header, k: int)
    requires
        jpeg_header(encoded) == Ok::<Option<Header>, Seq<char>>(Some(header)),
        header.process != CodingProcess::Lossless,
        0 <= k <= encoded.len() - 5,
        encoded.subrange(k, k + 5) == seq![0xffu8, 0xdau8, 0u8, 8u8, 1u8],
        header.height > 65528,
    ensures
        !countable(encoded),
{
    let scan = encoded.subrange(k, k + 5);
    assert(encoded[k] == scan[0] && encoded[k + 1] == scan[1] && encoded[k + 2] == scan[2]
        && encoded[k + 3] == scan[3] && encoded[k + 4] == scan[4]);
    assert(single_scan_at(encoded, k));
}

/// Nor is data on which its column counter may overflow: a scan of one component
/// of an image that is coded in blocks, wider than 65528 pixels, and with a frame
/// header that gives a component three columns.
pub proof fn wide_scans_of_three_columns_are_refused(
    encoded: Seq<u8>,
    header: Header,
    k: int,
    place: int,
    component: int,
)
    requires
        jpeg_header(encoded) == Ok::<Option<Header>, Seq<char>>(Some(header)),
        header.process != CodingProcess::Lossless,
        0 <= k <= encoded.len() - 5,
        encoded.subrange(k, k + 5) == seq![0xffu8, 0xdau8, 0u8, 8u8, 1u8],
        header.width > 65528,
        0 <= place,
        0 <= component,
        place + 11 + 3 * component < encoded.len(),
        encoded[place] == 0xff,
        encoded[place + 1] == 0xc0 || encoded[place + 1] == 0xc1 || encoded[place + 1] == 0xc2,
        encoded[place + 5] as int == header.height as int / 0x100,
        encoded[place + 6] as int == header.height as int % 0x100,
        encoded[place + 7] as int == header.width as int / 0x100,
        encoded[place + 8] as int == header.width as int % 0x100,
        component < encoded[place + 9],
        0x30 <= encoded[place + 11 + 3 * component] < 0x40,
    ensures
        !countable(encoded),
{
    let scan = encoded.subrange(k, k + 5);
    assert(encoded[k] == scan[0] && encoded[k + 1] == scan[1] && encoded[k + 2] == scan[2]
        && encoded[k + 3] == scan[3] && encoded[k + 4] == scan[4]);
    assert(single_scan_at(encoded, k));
    assert(tripled_at(encoded, header, place, component));
}

/// Data that the decoder cannot count is no frame, whatever the limit and the
/// configuration.
pub proof fn data_that_cannot_be_counted_is_no_frame(encoded: Seq<u8>, limit: nat, config: Config)
    requires
        !countable(encoded),
    ensures
        frame_error(encoded, limit, config) == Some("Invalid JPEG frame"@),
{
}

/// More scans than the decoder can count take at least 20 gibibytes.
pub proof fn scans_are_counted(encoded: Seq<u8>)
    ensures
        encoded.len() >= 21_474_836_480 ==> !countable(encoded),
        encoded.len() < 21_474_836_480 && !(jpeg_header(encoded) matches Ok(Some(_)))
            ==> countable(encoded),
{
}

/// Whether bytes that end in the sampling factors of a component may be the start
/// of a frame header of this size that gives it three columns.
pub open spec fn announces_three_columns(start: Seq<u8>, width: u16, height: u16) -> bool {
    &&& start[0] == 0xff
    &&& start[1] == 0xc0 || start[1] == 0xc1 || start[1] == 0xc2
    &&& start[5] as int == height as int / 0x100
    &&& start[6] as int == height as int % 0x100
    &&& start[7] as int == width as int / 0x100
    &&& start[8] as int == width as int % 0x100
    &&& (start.len() - 12) / 3 < start[9]
    &&& 0x30 <= start.last() < 0x40
}

/// A wide image that is no higher than 65528 pixels is refused only if a frame
/// header of its size may give a component three columns.
pub proof fn wide_images_without_three_columns_are_decoded(encoded: Seq<u8>, header: Header)
    requires
        encoded.len() <= 0x4_0000_0000,
        jpeg_header(encoded) == Ok::<Option<Header>, Seq<char>>(Some(header)),
        (header.width + 32) * (header.height + 32) * 8 <= isize::MAX,
        header.height <= 65528,
        forall|place: int, component: int|
            0 <= place && 0 <= component && place + 12 + 3 * component <= encoded.len()
                ==> !announces_three_columns(
                #[trigger] encoded.subrange(place, place + 12 + 3 * component),
                header.width,
                header.height,
            ),
    ensures
        countable(encoded),
{
    if has_tripled(encoded, header) {
        let (place, component) = choose|place: int, component: int|
            #[trigger] tripled_at(encoded, header, place, component);
        let start = encoded.subrange(place, place + 12 + 3 * component);
        assert(start.last() == encoded[place + 11 + 3 * component]);
        assert(start[0] == encoded[place] && start[1] == encoded[place + 1]);
        assert(start[5] == encoded[place + 5] && start[6] == encoded[place + 6]);
        assert(start[7] == encoded[place + 7] && start[8] == encoded[place + 8]);
        assert(start[9] == encoded[place + 9]);
        assert(announces_three_columns(start, header.width, header.height));
    }
}

/// No data is handed to the decoder whose buffers may take more bytes than there
/// are addresses for.
pub proof fn images_larger_than_memory_are_refused(encoded: Seq<u8>, header: Header)
    requires
        jpeg_header(encoded) == Ok::<Option<Header>, Seq<char>>(Some(header)),
        8 * ((header.width + 32) * (header.height + 32)) > isize::MAX,
    ensures
        !countable(encoded),
{
}

} // verus!
