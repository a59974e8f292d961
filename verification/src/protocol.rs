//! The wire format of the stream and the double buffer of frames.
//!
//! Every message of the stream starts with eight magic bytes. Numbers are
//! little endian. The tablet announces a configuration in a header of 48 bytes
//! and then sends frames, each behind a packet header of 16 bytes.
use vstd::prelude::*;

verus! {

/// Frames per second that the viewer asks for.
pub const FPS: u32 = 60;

/// Largest size in bytes of a decoded frame.
pub const MAX_FRAME_BYTES: usize = 64 * 1024 * 1024;

/// The only frame flag that is understood: frames are JPEG images.
pub const FRAME_FLAG_JPEG: u32 = 1;

/// The pixel format of the tablet's screen, `AR24`.
pub const FRAME_FORMAT: u32 = 0x3432_5241;

/// `CMCONFIG`: a configuration header.
pub const CONFIG_MAGIC: [u8; 8] = [0x43, 0x4d, 0x43, 0x4f, 0x4e, 0x46, 0x49, 0x47];

/// `CMJPEG01`: the header of a frame.
pub const PACKET_MAGIC: [u8; 8] = [0x43, 0x4d, 0x4a, 0x50, 0x45, 0x47, 0x30, 0x31];

/// `CMREADY1`: the tablet is ready.
pub const READY_MAGIC: [u8; 8] = [0x43, 0x4d, 0x52, 0x45, 0x41, 0x44, 0x59, 0x31];

/// `CMSTART1`: the viewer starts the stream.
pub const START_MAGIC: [u8; 8] = [0x43, 0x4d, 0x53, 0x54, 0x41, 0x52, 0x54, 0x31];

/// `CMSTOP01`: the viewer stops the stream.
pub const STOP_MAGIC: [u8; 8] = [0x43, 0x4d, 0x53, 0x54, 0x4f, 0x50, 0x30, 0x31];

/// `CMINPUT1`: an input command.
pub const INPUT_MAGIC: [u8; 8] = [0x43, 0x4d, 0x49, 0x4e, 0x50, 0x55, 0x54, 0x31];

/// The number in the four bytes from `index` on, the least significant first.
pub open spec fn le32(bytes: Seq<u8>, index: int) -> int {
    bytes[index] + 0x100 * bytes[index + 1] + 0x1_0000 * bytes[index + 2] + 0x100_0000
        * bytes[index + 3]
}

/// The number in the two bytes from `index` on, the least significant first.
pub open spec fn le16(bytes: Seq<u8>, index: int) -> int {
    bytes[index] + 0x100 * bytes[index + 1]
}

/// Whether a message starts with the given magic bytes.
pub open spec fn starts_with(bytes: Seq<u8>, magic: [u8; 8]) -> bool {
    bytes.len() >= 8 && bytes.take(8) == magic@
}

/// A message of 16 bytes: magic, a number of four bytes, two of two bytes.
pub open spec fn is_message(
    bytes: Seq<u8>,
    magic: [u8; 8],
    value: int,
    first: int,
    second: int,
) -> bool {
    &&& bytes.len() == 16
    &&& starts_with(bytes, magic)
    &&& le32(bytes, 8) == value
    &&& le16(bytes, 12) == first
    &&& le16(bytes, 14) == second
}

/// Whether no frame was shown yet.
pub open spec fn is_blank(frames: Frames) -> bool {
    &&& frames.front == 0
    &&& frames.sequence == 0
    &&& frames.width == 0
    &&& frames.height == 0
    &&& frames.buffers@[0]@.len() == 0
    &&& frames.buffers@[1]@.len() == 0
}

/// Two buffers of pixels: the one in front is shown, the other one is filled.
pub struct Frames {
    pub buffers: [Vec<u8>; 2],
    pub front: usize,
    pub sequence: u64,
    pub width: usize,
    pub height: usize,
}

impl Frames {
    /// The bytes of the frame that is shown.
    pub open spec fn shown(&self) -> Seq<u8> {
        self.buffers@[self.front as int]@
    }

    /// The frame that is shown is a whole picture of four bytes a pixel, within
    /// the size limit; before the first frame it is empty.
    pub open spec fn wf(&self) -> bool {
        &&& self.front < 2
        &&& self.shown().len() == self.width * self.height * 4
        &&& self.width * self.height * 4 <= MAX_FRAME_BYTES
        &&& self.width == 0 <==> self.height == 0
    }

    /// No frame yet.
    pub fn new() -> (frames: Self)
        ensures
            frames.wf(),
            frames.buffers@[0]@ == Seq::<u8>::empty(),
            frames.buffers@[1]@ == Seq::<u8>::empty(),
            frames.front == 0,
            frames.sequence == 0,
            frames.width == 0,
            frames.height == 0,
            is_blank(frames),
    {
        let frames = Frames {
            buffers: [Vec::new(), Vec::new()],
            front: 0,
            sequence: 0,
            width: 0,
            height: 0,
        };
        assert(frames.width * frames.height == 0);
        frames
    }
}

/// The size of the frames that follow, in pixels, and of a decoded frame in
/// bytes.
pub struct Config {
    pub width: usize,
    pub height: usize,
    pub payload: usize,
}

/// Whether a header of 48 bytes announces frames that can be shown.
pub open spec fn supported(header: Seq<u8>) -> bool {
    let width = le32(header, 8);
    let height = le32(header, 12);
    &&& width > 0
    &&& height > 0
    &&& le32(header, 16) == width * 4
    &&& le32(header, 20) == FRAME_FORMAT
    &&& le32(header, 40) == width * height * 4
    &&& le32(header, 40) <= MAX_FRAME_BYTES
    &&& le32(header, 44) == FRAME_FLAG_JPEG
}

impl Config {
    /// What every configuration that was read from a header satisfies.
    pub open spec fn wf(&self) -> bool {
        &&& self.width > 0
        &&& self.height > 0
        &&& self.payload == self.width * self.height * 4
        &&& self.payload <= MAX_FRAME_BYTES
    }

    /// Reads a configuration header. The bytes from 24 to 39 are not looked at.
    pub fn parse(header: &[u8; 48]) -> (res: Result<Self, String>)
        ensures
            match res {
                Ok(config) => {
                    &&& starts_with(header@, CONFIG_MAGIC)
                    &&& supported(header@)
                    &&& config.wf()
                    &&& config.width == le32(header@, 8)
                    &&& config.height == le32(header@, 12)
                    &&& config.payload == le32(header@, 40)
                },
                Err(error) => {
                    if starts_with(header@, CONFIG_MAGIC) {
                        !supported(header@) && error@ == "Unsupported stream configuration"@
                    } else {
                        error@ == "Invalid stream configuration"@
                    }
                },
            },
    {
        if !has_magic(header, &CONFIG_MAGIC) {
            return Err("Invalid stream configuration".to_owned());
        }
        let width: usize = number(header, 8) as usize;
        let height: usize = number(header, 12) as usize;
        let pitch: usize = number(header, 16) as usize;
        let format: u32 = number(header, 20);
        let payload: usize = number(header, 40) as usize;
        let flags: u32 = number(header, 44);
        let expected: usize = match pixel_bytes(width, height, 4) {
            Some(expected) => expected,
            None => {
                return Err("Unsupported stream configuration".to_owned());
            },
        };
        if width == 0 || height == 0 {
            return Err("Unsupported stream configuration".to_owned());
        }
        assert(width * 4 <= width * height * 4) by (nonlinear_arith)
            requires
                height > 0,
        ;
        if pitch != width * 4 || format != FRAME_FORMAT || payload != expected || payload
            > MAX_FRAME_BYTES || flags != FRAME_FLAG_JPEG {
            return Err("Unsupported stream configuration".to_owned());
        }
        Ok(Config { width, height, payload })
    }
}

/// The bytes of a picture of `width` by `height` pixels of `depth` bytes, if
/// the number fits.
pub fn pixel_bytes(width: usize, height: usize, depth: usize) -> (res: Option<usize>)
    requires
        depth > 0,
    ensures
        match res {
            Some(bytes) => bytes == width * height * depth,
            None => width * height * depth > usize::MAX,
        },
{
    match width.checked_mul(height) {
        Some(pixels) => pixels.checked_mul(depth),
        None => {
            assert(width * height * depth >= width * height) by (nonlinear_arith)
                requires
                    depth > 0,
            ;
            None
        },
    }
}

/// Whether the message starts with the magic bytes.
pub fn has_magic(bytes: &[u8], magic: &[u8; 8]) -> (res: bool)
    requires
        bytes@.len() >= 8,
    ensures
        res == starts_with(bytes@, *magic),
{
    let mut index: usize = 0;
    while index < 8
        invariant
            index <= 8,
            bytes@.len() >= 8,
            forall|k: int| 0 <= k < index ==> bytes@[k] == magic@[k],
        decreases 8 - index,
    {
        if bytes[index] != magic[index] {
            assert(bytes@.take(8)[index as int] != magic@[index as int]);
            return false;
        }
        index += 1;
    }
    assert(bytes@.take(8) =~= magic@);
    true
}

/// Reads the number in the four bytes from `index` on.
pub fn number(bytes: &[u8], index: usize) -> (res: u32)
    requires
        index + 4 <= bytes@.len(),
    ensures
        res == le32(bytes@, index as int),
{
    bytes[index] as u32 + 0x100 * (bytes[index + 1] as u32) + 0x1_0000 * (bytes[index + 2] as u32)
        + 0x100_0000 * (bytes[index + 3] as u32)
}

/// Builds a message of 16 bytes.
pub fn message(magic: &[u8; 8], value: u32, first: u16, second: u16) -> (res: [u8; 16])
    ensures
        is_message(res@, *magic, value as int, first as int, second as int),
{
    let res: [u8; 16] = [
        magic[0],
        magic[1],
        magic[2],
        magic[3],
        magic[4],
        magic[5],
        magic[6],
        magic[7],
        (value % 0x100) as u8,
        (value / 0x100 % 0x100) as u8,
        (value / 0x1_0000 % 0x100) as u8,
        (value / 0x100_0000) as u8,
        (first % 0x100) as u8,
        (first / 0x100) as u8,
        (second % 0x100) as u8,
        (second / 0x100) as u8,
    ];
    assert(res@.take(8) =~= magic@);
    res
}

/// The command that starts the stream at [`FPS`] frames per second.
pub fn start_command() -> (res: [u8; 16])
    ensures
        is_message(res@, START_MAGIC, FPS as int, 0, 0),
{
    message(&START_MAGIC, FPS, 0, 0)
}

/// The command that stops the stream.
pub fn stop_command() -> (res: [u8; 16])
    ensures
        is_message(res@, STOP_MAGIC, 0, 0, 0),
{
    message(&STOP_MAGIC, 0, 0, 0)
}

/// Whether a packet header announces a frame of at most `maximum` bytes.
pub open spec fn packet_fits(header: Seq<u8>, maximum: int) -> bool {
    &&& starts_with(header, PACKET_MAGIC)
    &&& 0 < le32(header, 8) <= maximum
}

/// The number of bytes of the frame behind a packet header.
pub fn packet_size(header: &[u8; 16], maximum: usize) -> (res: Result<usize, String>)
    ensures
        match res {
            Ok(size) => packet_fits(header@, maximum as int) && size == le32(header@, 8),
            Err(error) => !packet_fits(header@, maximum as int) && error@
                == "Invalid JPEG frame"@,
        },
{
    let size: usize = number(header, 8) as usize;
    if !has_magic(header, &PACKET_MAGIC) || size == 0 || size > maximum {
        return Err("Invalid JPEG frame".to_owned());
    }
    Ok(size)
}

/// Whether a frame of the configured size was shown: it is in front, the frame
/// that was shown before is in the other buffer, and it has the next number.
pub open spec fn is_published(
    before: Frames,
    config: Config,
    raw: Seq<u8>,
    after: Frames,
) -> bool {
    &&& after.front + before.front == 1
    &&& after.buffers@[after.front as int]@ == raw
    &&& after.buffers@[before.front as int]@ == before.buffers@[before.front as int]@
    &&& after.sequence == (before.sequence + 1) % 0x1_0000_0000_0000_0000
    &&& after.width == config.width
    &&& after.height == config.height
}

/// Fills the buffer behind the one that is shown with `raw`, and shows it. The
/// frame that was shown before stays as it is, in the other buffer.
pub fn publish(frames: &mut Frames, config: &Config, raw: &[u8])
    requires
        old(frames).front < 2,
    ensures
        final(frames).front == 1 - old(frames).front,
        final(frames).shown() == raw@,
        final(frames).buffers@[old(frames).front as int] == old(
            frames,
        ).buffers@[old(frames).front as int],
        final(frames).sequence == if old(frames).sequence == u64::MAX {
            0
        } else {
            old(frames).sequence + 1
        },
        final(frames).width == config.width,
        final(frames).height == config.height,
        config.wf() && raw@.len() == config.payload ==> final(frames).wf(),
        is_published(*old(frames), *config, raw@, *final(frames)),
{
    let back: usize = 1 - frames.front;
    let destination = &mut frames.buffers[back];
    if destination.len() != raw.len() {
        destination.resize(raw.len(), 0);
    }
    let mut index: usize = 0;
    while index < raw.len()
        invariant
            destination.len() == raw.len(),
            index <= raw.len(),
            forall|k: int| 0 <= k < index ==> destination@[k] == raw@[k],
        decreases raw.len() - index,
    {
        destination[index] = raw[index];
        index += 1;
    }
    assert(destination@ =~= raw@);
    frames.front = back;
    frames.sequence = frames.sequence.wrapping_add(1);
    frames.width = config.width;
    frames.height = config.height;
}

/// The bytes of a configuration header from 24 to 39 do not matter.
pub proof fn reserved_bytes_are_ignored(header: Seq<u8>, other: Seq<u8>)
    requires
        header.len() == 48,
        other.len() == 48,
        forall|k: int| 0 <= k < 24 || 40 <= k < 48 ==> header[k] == other[k],
    ensures
        starts_with(header, CONFIG_MAGIC) == starts_with(other, CONFIG_MAGIC),
        supported(header) == supported(other),
        le32(header, 8) == le32(other, 8),
        le32(header, 12) == le32(other, 12),
        le32(header, 40) == le32(other, 40),
{
    assert(header.take(8) =~= other.take(8));
}

/// No message of the tablet can be taken for one of another kind.
pub proof fn messages_are_told_apart(bytes: Seq<u8>)
    ensures
        !(starts_with(bytes, CONFIG_MAGIC) && starts_with(bytes, PACKET_MAGIC)),
        !(starts_with(bytes, CONFIG_MAGIC) && starts_with(bytes, READY_MAGIC)),
        !(starts_with(bytes, PACKET_MAGIC) && starts_with(bytes, READY_MAGIC)),
{
    assert(CONFIG_MAGIC@[2] == 0x43);
    assert(PACKET_MAGIC@[2] == 0x4a);
    assert(READY_MAGIC@[2] == 0x52);
}

/// A number is the one whose digits to the base 256 are its bytes, the least
/// significant first.
pub proof fn numbers_have_their_bytes_as_digits(bytes: Seq<u8>, index: int)
    requires
        0 <= index,
        index + 4 <= bytes.len(),
    ensures
        0 <= le32(bytes, index) < 0x1_0000_0000,
        le32(bytes, index) % 0x100 == bytes[index],
        le32(bytes, index) / 0x100 % 0x100 == bytes[index + 1],
        le32(bytes, index) / 0x1_0000 % 0x100 == bytes[index + 2],
        le32(bytes, index) / 0x100_0000 == bytes[index + 3],
        0 <= le16(bytes, index) < 0x1_0000,
        le16(bytes, index) % 0x100 == bytes[index],
        le16(bytes, index) / 0x100 == bytes[index + 1],
{
}

/// A message starts with magic bytes exactly if its first eight bytes are these.
pub proof fn magic_is_the_first_eight_bytes(bytes: Seq<u8>, magic: [u8; 8])
    ensures
        starts_with(bytes, magic) <==> bytes.len() >= 8 && forall|k: int|
            0 <= k < 8 ==> #[trigger] bytes[k] == magic@[k],
{
    if bytes.len() >= 8 {
        if forall|k: int| 0 <= k < 8 ==> #[trigger] bytes[k] == magic@[k] {
            assert(bytes.take(8) =~= magic@);
        }
        if bytes.take(8) == magic@ {
            assert forall|k: int| 0 <= k < 8 implies #[trigger] bytes[k] == magic@[k] by {
                assert(bytes.take(8)[k] == magic@[k]);
            }
        }
    }
}

/// A message is laid out byte by byte: eight magic bytes, a number of four bytes
/// and two of two bytes, each with its least significant byte first.
pub proof fn messages_are_laid_out(
    bytes: Seq<u8>,
    magic: [u8; 8],
    value: u32,
    first: u16,
    second: u16,
)
    ensures
        is_message(bytes, magic, value as int, first as int, second as int) <==> {
            &&& bytes.len() == 16
            &&& forall|k: int| 0 <= k < 8 ==> #[trigger] bytes[k] == magic@[k]
            &&& bytes[8] == value as int % 0x100
            &&& bytes[9] == value as int / 0x100 % 0x100
            &&& bytes[10] == value as int / 0x1_0000 % 0x100
            &&& bytes[11] == value as int / 0x100_0000
            &&& bytes[12] == first as int % 0x100
            &&& bytes[13] == first as int / 0x100
            &&& bytes[14] == second as int % 0x100
            &&& bytes[15] == second as int / 0x100
        },
{
    magic_is_the_first_eight_bytes(bytes, magic);
}

/// A header is supported exactly if it announces frames of four bytes a pixel,
/// row after row without a gap, in the format `AR24` and sent as JPEG images, of
/// at least one and at most 2^24 pixels.
pub proof fn sizes_up_to_the_limit_are_supported(header: Seq<u8>, width: int, height: int)
    requires
        header.len() == 48,
        width == le32(header, 8),
        height == le32(header, 12),
    ensures
        supported(header) <==> {
            &&& 1 <= width
            &&& 1 <= height
            &&& width * height <= 0x100_0000
            &&& le32(header, 16) == 4 * width
            &&& header.subrange(20, 24) == seq![0x41u8, 0x52u8, 0x32u8, 0x34u8]
            &&& le32(header, 40) == 4 * (width * height)
            &&& header.subrange(44, 48) == seq![1u8, 0u8, 0u8, 0u8]
        },
{
    let format = header.subrange(20, 24);
    let flags = header.subrange(44, 48);
    if le32(header, 20) == 0x3432_5241 {
        assert(format =~= seq![0x41u8, 0x52u8, 0x32u8, 0x34u8]);
    }
    if format == seq![0x41u8, 0x52u8, 0x32u8, 0x34u8] {
        assert(header[20] == format[0] && header[21] == format[1] && header[22] == format[2]
            && header[23] == format[3]);
    }
    if le32(header, 44) == 1 {
        assert(flags =~= seq![1u8, 0u8, 0u8, 0u8]);
    }
    if flags == seq![1u8, 0u8, 0u8, 0u8] {
        assert(header[44] == flags[0] && header[45] == flags[1] && header[46] == flags[2]
            && header[47] == flags[3]);
    }
}

/// A configuration is well formed for every size of at least one and at most 2^24
/// pixels, with four bytes a pixel, and for no other.
pub proof fn well_formed_sizes(config: Config)
    ensures
        config.wf() <==> {
            &&& 1 <= config.width
            &&& 1 <= config.height
            &&& config.width * config.height <= 0x100_0000
            &&& config.payload == 4 * (config.width * config.height)
        },
{
}

/// A frame is well formed exactly if the buffer in front holds four bytes for
/// each pixel of a picture of at least one and at most 2^24 pixels, or nothing
/// for a picture without sides.
pub proof fn well_formed_frames(frames: Frames)
    ensures
        frames.wf() <==> {
            &&& frames.front == 0 || frames.front == 1
            &&& frames.buffers@[frames.front as int]@.len() == 4 * (frames.width * frames.height)
            &&& frames.width * frames.height <= 0x100_0000
            &&& (frames.width == 0 && frames.height == 0) || (frames.width >= 1 && frames.height
                >= 1)
        },
        frames.shown() == frames.buffers@[frames.front as int]@,
{
}

/// A packet header is accepted exactly if it has the magic bytes of a frame and
/// announces at least one byte and no more than there is room for.
pub proof fn packets_within_the_room_are_accepted(header: Seq<u8>, maximum: int, size: int)
    requires
        header.len() == 16,
        size == le32(header, 8),
    ensures
        packet_fits(header, maximum) <==> header.subrange(0, 8) == seq![
            0x43u8,
            0x4du8,
            0x4au8,
            0x50u8,
            0x45u8,
            0x47u8,
            0x30u8,
            0x31u8,
        ] && 1 <= size && size <= maximum,
{
    let magic = seq![0x43u8, 0x4du8, 0x4au8, 0x50u8, 0x45u8, 0x47u8, 0x30u8, 0x31u8];
    assert(PACKET_MAGIC@ =~= magic);
    assert(header.subrange(0, 8) =~= header.take(8));
}

/// After two frames were shown, the later one is in front and the earlier one
/// behind it, whatever was there before; two more numbers are used.
pub proof fn last_two_frames_are_kept(
    start: Frames,
    first: Config,
    early: Seq<u8>,
    middle: Frames,
    second: Config,
    late: Seq<u8>,
    end: Frames,
)
    requires
        start.front < 2,
        is_published(start, first, early, middle),
        is_published(middle, second, late, end),
    ensures
        middle.shown() == early,
        (middle.width, middle.height) == (first.width, first.height),
        end.front == start.front,
        end.shown() == late,
        end.buffers@[1 - end.front]@ == early,
        (end.width, end.height) == (second.width, second.height),
        middle.sequence != start.sequence,
        end.sequence != middle.sequence,
        (end.sequence - start.sequence) % 0x1_0000_0000_0000_0000 == 2,
        start.sequence < 0xffff_ffff_ffff_fffe ==> end.sequence == start.sequence + 2,
{
}

/// At first there is no picture. The first frame that is shown has the number 1,
/// and there is nothing behind it.
pub proof fn first_frames_have_nothing_behind(
    blank: Frames,
    config: Config,
    raw: Seq<u8>,
    after: Frames,
)
    requires
        is_blank(blank),
        is_published(blank, config, raw, after),
    ensures
        blank.shown().len() == 0,
        blank.width == 0 && blank.height == 0,
        after.front == 1,
        after.sequence == 1,
        after.shown() == raw,
        after.buffers@[0]@.len() == 0,
{
}

} // verus!
