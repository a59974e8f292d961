use pencast::protocol::Frames;
use pencast::stream::{stream, Stream, StreamAction, StreamEvent, StreamStep};

fn segment(image: &mut Vec<u8>, marker: u8, body: &[u8]) {
    image.extend_from_slice(&[0xff, marker]);
    image.extend_from_slice(&((body.len() + 2) as u16).to_be_bytes());
    image.extend_from_slice(body);
}

/// A picture in red 228, green 100, blue 128.
fn picture(width: u16, height: u16) -> Vec<u8> {
    let mut image = vec![0xff, 0xd8];
    let mut table = vec![0u8];
    table.extend_from_slice(&[8; 64]);
    segment(&mut image, 0xdb, &table);
    let mut frame = vec![8];
    frame.extend_from_slice(&height.to_be_bytes());
    frame.extend_from_slice(&width.to_be_bytes());
    frame.extend_from_slice(&[3, b'R', 0x11, 0, b'G', 0x11, 0, b'B', 0x11, 0]);
    segment(&mut image, 0xc0, &frame);
    segment(
        &mut image,
        0xc4,
        &[0x00, 1, 1, 1, 0, 0, 0, 0, 0, 0, 0, 0, 0, 0, 0, 0, 0, 0, 7, 5],
    );
    segment(&mut image, 0xc4, &[0x10, 1, 0, 0, 0, 0, 0, 0, 0, 0, 0, 0, 0, 0, 0, 0, 0, 0]);
    segment(&mut image, 0xda, &[3, b'R', 0, b'G', 0, b'B', 0, 0, 63, 0]);
    image.extend_from_slice(&[0xb2, 0x30, 0xc0, 0xff, 0xd9]);
    image
}

fn header(width: u32, height: u32) -> Vec<u8> {
    let mut header = vec![0u8; 48];
    header[..8].copy_from_slice(b"CMCONFIG");
    header[8..12].copy_from_slice(&width.to_le_bytes());
    header[12..16].copy_from_slice(&height.to_le_bytes());
    header[16..20].copy_from_slice(&(width * 4).to_le_bytes());
    header[20..24].copy_from_slice(&0x3432_5241u32.to_le_bytes());
    header[40..44].copy_from_slice(&(width * height * 4).to_le_bytes());
    header[44..48].copy_from_slice(&1u32.to_le_bytes());
    header
}

fn message(magic: &[u8; 8], value: u32) -> Vec<u8> {
    let mut message = magic.to_vec();
    message.extend_from_slice(&value.to_le_bytes());
    message.extend_from_slice(&[0; 4]);
    message
}

fn told(stream: &mut Stream, action: StreamAction, event: StreamEvent) {
    assert_eq!(stream.action(), action);
    stream.advance(event);
}

fn connect(stream: &mut Stream) {
    told(stream, StreamAction::Provision, StreamEvent::Done);
    told(stream, StreamAction::WaitForUsb, StreamEvent::Done);
}

/// A stream of frames of 8 by 8 pixels that is about to look whether it ends.
fn streaming() -> Stream {
    let mut stream = Stream::new();
    connect(&mut stream);
    told(&mut stream, StreamAction::Read(16), StreamEvent::Bytes(message(b"CMREADY1", 0)));
    told(&mut stream, StreamAction::Write(*b"CMSTART1\x3c\0\0\0\0\0\0\0"), StreamEvent::Done);
    told(&mut stream, StreamAction::Read(48), StreamEvent::Bytes(header(8, 8)));
    told(&mut stream, StreamAction::Resize, StreamEvent::Done);
    stream
}

fn stops(mut stream: Stream) -> Result<(), String> {
    told(&mut stream, StreamAction::Write(*b"CMSTOP01\0\0\0\0\0\0\0\0"), StreamEvent::Done);
    told(&mut stream, StreamAction::Release, StreamEvent::Done);
    assert_eq!(stream.action(), StreamAction::Finish);
    stream.into_result()
}

fn failed(error: &str) -> StreamEvent {
    StreamEvent::Failed(error.to_owned())
}

/// Receives and shows a frame.
fn shown(stream: &mut Stream, frames: &mut Frames, width: u16, height: u16) {
    let image = picture(width, height);
    let length = image.len();
    told(stream, StreamAction::CheckRunning, StreamEvent::Running(true));
    let packet = message(b"CMJPEG01", length as u32);
    told(stream, StreamAction::Read(16), StreamEvent::Bytes(packet));
    told(stream, StreamAction::Read(length), StreamEvent::Bytes(image));
    assert_eq!(stream.action(), StreamAction::Publish);
    stream.publish(frames);
}

#[test]
fn frames_are_received_and_shown() {
    let mut frames = Frames::new();
    let mut stream = streaming();
    shown(&mut stream, &mut frames, 8, 8);
    assert_eq!((frames.width, frames.height, frames.sequence), (8, 8, 1));
    assert_eq!(frames.buffers[frames.front].len(), 256);
    for pixel in frames.buffers[frames.front].chunks(4) {
        assert_eq!(pixel, [228, 100, 128, 255]);
    }
    stream.advance(StreamEvent::Published { pending: false });
    told(&mut stream, StreamAction::Notify, StreamEvent::Done);
    told(&mut stream, StreamAction::TakeCommand, StreamEvent::Command(None));
    shown(&mut stream, &mut frames, 8, 8);
    assert_eq!(frames.sequence, 2);
    stream.advance(StreamEvent::Published { pending: true });
    assert_eq!(stream.action(), StreamAction::TakeCommand);
}

#[test]
fn queued_commands_are_sent_after_a_frame() {
    let mut frames = Frames::new();
    let mut stream = streaming();
    shown(&mut stream, &mut frames, 8, 8);
    stream.advance(StreamEvent::Published { pending: true });
    for command in [[1u8; 16], [2; 16]] {
        told(&mut stream, StreamAction::TakeCommand, StreamEvent::Command(Some(command)));
        told(&mut stream, StreamAction::Write(command), StreamEvent::Done);
    }
    told(&mut stream, StreamAction::TakeCommand, StreamEvent::Command(None));
    assert_eq!(stream.action(), StreamAction::CheckRunning);
}

#[test]
fn configuration_may_change() {
    let mut stream = streaming();
    let header = header(8, 9);
    told(&mut stream, StreamAction::CheckRunning, StreamEvent::Running(true));
    told(&mut stream, StreamAction::Read(16), StreamEvent::Bytes(header[..16].to_vec()));
    told(&mut stream, StreamAction::Read(32), StreamEvent::Bytes(header[16..].to_vec()));
    assert_eq!((stream.config.width, stream.config.height), (8, 9));
    assert_eq!(stream.raw, vec![0u8; 288]);
    told(&mut stream, StreamAction::Resize, StreamEvent::Done);
    told(&mut stream, StreamAction::CheckRunning, StreamEvent::Running(true));
    let image = picture(8, 8);
    let length = image.len();
    let packet = message(b"CMJPEG01", length as u32);
    told(&mut stream, StreamAction::Read(16), StreamEvent::Bytes(packet));
    told(&mut stream, StreamAction::Read(length), StreamEvent::Bytes(image));
    assert_eq!(stops(stream), Err("Invalid JPEG frame".to_owned()));
}

#[test]
fn bad_configurations_stop_the_stream() {
    let mut stream = Stream::new();
    connect(&mut stream);
    stream.advance(StreamEvent::Bytes(message(b"CMREADY1", 0)));
    stream.advance(StreamEvent::Done);
    stream.advance(StreamEvent::Bytes(vec![0; 48]));
    assert_eq!(stops(stream), Err("Invalid stream configuration".to_owned()));
    let mut second = streaming();
    let mut header = header(8, 8);
    header[44] = 0;
    second.advance(StreamEvent::Running(true));
    second.advance(StreamEvent::Bytes(header[..16].to_vec()));
    second.advance(StreamEvent::Bytes(header[16..].to_vec()));
    assert_eq!(stops(second), Err("Unsupported stream configuration".to_owned()));
}

#[test]
fn bad_packets_stop_the_stream() {
    for packet in [
        message(b"CMREADY1", 4),
        message(b"CMJPEG01", 0),
        message(b"CMJPEG01", 8 * 8 * 4 + 1),
    ] {
        let mut stream = streaming();
        stream.advance(StreamEvent::Running(true));
        stream.advance(StreamEvent::Bytes(packet));
        assert_eq!(stops(stream), Err("Invalid JPEG frame".to_owned()));
    }
}

#[test]
fn bad_images_stop_the_stream() {
    let mut stream = streaming();
    stream.advance(StreamEvent::Running(true));
    stream.advance(StreamEvent::Bytes(message(b"CMJPEG01", 2)));
    told(&mut stream, StreamAction::Read(2), StreamEvent::Bytes(vec![1, 2]));
    assert_eq!(
        stops(stream),
        Err(
            "Invalid JPEG frame: invalid JPEG format: first two bytes are not an SOI marker"
                .to_owned()
        )
    );
}

/// A gray picture whose scan holds no data.
fn gray(width: u16, height: u16) -> Vec<u8> {
    let mut image = vec![0xff, 0xd8];
    let mut table = vec![0u8];
    table.extend_from_slice(&[8; 64]);
    segment(&mut image, 0xdb, &table);
    let mut frame = vec![8];
    frame.extend_from_slice(&height.to_be_bytes());
    frame.extend_from_slice(&width.to_be_bytes());
    frame.extend_from_slice(&[1, 1, 0x11, 0]);
    segment(&mut image, 0xc0, &frame);
    segment(&mut image, 0xc4, &[0x00, 1, 0, 0, 0, 0, 0, 0, 0, 0, 0, 0, 0, 0, 0, 0, 0, 0]);
    segment(&mut image, 0xc4, &[0x10, 1, 0, 0, 0, 0, 0, 0, 0, 0, 0, 0, 0, 0, 0, 0, 0, 0]);
    segment(&mut image, 0xda, &[1, 1, 0, 0, 63, 0]);
    image.extend_from_slice(&[0xff, 0xd9]);
    image
}

#[test]
fn frames_too_high_to_count_stop_the_stream() {
    let mut stream = streaming();
    let image = gray(1, 65535);
    let length = image.len();
    stream.advance(StreamEvent::Running(true));
    stream.advance(StreamEvent::Bytes(message(b"CMJPEG01", length as u32)));
    told(&mut stream, StreamAction::Read(length), StreamEvent::Bytes(image));
    assert_eq!(stops(stream), Err("Invalid JPEG frame".to_owned()));
}

#[test]
fn highest_frames_are_shown() {
    let mut frames = Frames::new();
    let mut stream = streaming();
    let header = header(1, 65535);
    stream.advance(StreamEvent::Running(true));
    stream.advance(StreamEvent::Bytes(header[..16].to_vec()));
    stream.advance(StreamEvent::Bytes(header[16..].to_vec()));
    told(&mut stream, StreamAction::Resize, StreamEvent::Done);
    shown(&mut stream, &mut frames, 1, 65535);
    assert_eq!((frames.width, frames.height), (1, 65535));
    assert_eq!(frames.buffers[frames.front].len(), 65535 * 4);
    for pixel in frames.buffers[frames.front].chunks(4) {
        assert_eq!(pixel, [228, 100, 128, 255]);
    }
}

#[test]
fn stream_ends_when_the_program_does() {
    let mut stream = streaming();
    told(&mut stream, StreamAction::CheckRunning, StreamEvent::Running(false));
    told(
        &mut stream,
        StreamAction::Write(*b"CMSTOP01\0\0\0\0\0\0\0\0"),
        failed("unplugged"),
    );
    told(&mut stream, StreamAction::Release, StreamEvent::Done);
    assert_eq!(stream.action(), StreamAction::Finish);
    assert_eq!(stream.into_result(), Ok(()));
}

#[test]
fn failed_setup_ends_the_stream_at_once() {
    let mut stream = Stream::new();
    told(&mut stream, StreamAction::Provision, failed("no device"));
    assert_eq!(stream.action(), StreamAction::Finish);
    assert_eq!(stream.into_result(), Err("no device".to_owned()));
    let mut stream = Stream::new();
    told(&mut stream, StreamAction::Provision, StreamEvent::Done);
    told(&mut stream, StreamAction::WaitForUsb, failed("Cancelled"));
    assert_eq!(stream.action(), StreamAction::Finish);
    assert_eq!(stream.into_result(), Err("Cancelled".to_owned()));
}

#[test]
fn failed_transfers_stop_the_stream() {
    let mut stream = Stream::new();
    connect(&mut stream);
    stream.advance(failed("ready"));
    assert_eq!(stops(stream), Err("ready".to_owned()));
    let mut stream = Stream::new();
    connect(&mut stream);
    stream.advance(StreamEvent::Bytes(message(b"CMREADY1", 0)));
    stream.advance(failed("start"));
    assert_eq!(stops(stream), Err("start".to_owned()));
    let mut stream = streaming();
    stream.advance(StreamEvent::Running(true));
    stream.advance(failed("packet"));
    assert_eq!(stops(stream), Err("packet".to_owned()));
    let mut stream = streaming();
    shown(&mut stream, &mut Frames::new(), 8, 8);
    stream.advance(StreamEvent::Published { pending: true });
    stream.advance(StreamEvent::Command(Some([3; 16])));
    stream.advance(failed("Short USB write"));
    assert_eq!(stops(stream), Err("Short USB write".to_owned()));
}

#[test]
fn failed_handshake_is_retried_once() {
    let mut stream = Stream::new();
    for attempt in 0..2u8 {
        assert_eq!(stream.attempt, attempt);
        connect(&mut stream);
        told(&mut stream, StreamAction::Read(16), StreamEvent::Bytes(vec![0; 16]));
        stream.advance(StreamEvent::Done);
        told(&mut stream, StreamAction::Release, StreamEvent::Done);
        if attempt == 0 {
            told(&mut stream, StreamAction::CheckRunning, StreamEvent::Running(true));
            told(&mut stream, StreamAction::WaitForCleanup, StreamEvent::Done);
        }
    }
    assert_eq!(stream.step, StreamStep::Finished);
    assert_eq!(stream.into_result(), Err("Invalid PenCast USB handshake".to_owned()));
}

#[test]
fn failed_handshake_is_not_retried_when_the_program_ends() {
    let mut stream = Stream::new();
    connect(&mut stream);
    stream.advance(StreamEvent::Bytes(vec![0; 16]));
    stream.advance(StreamEvent::Done);
    stream.advance(StreamEvent::Done);
    told(&mut stream, StreamAction::CheckRunning, StreamEvent::Running(false));
    assert_eq!(stream.action(), StreamAction::Finish);
    assert_eq!(stream.into_result(), Err("Invalid PenCast USB handshake".to_owned()));
}

#[test]
fn retry_needs_the_session_to_end() {
    let mut stream = Stream::new();
    connect(&mut stream);
    stream.advance(StreamEvent::Bytes(vec![0; 16]));
    stream.advance(StreamEvent::Done);
    stream.advance(StreamEvent::Done);
    stream.advance(StreamEvent::Running(true));
    told(&mut stream, StreamAction::WaitForCleanup, failed("ADB shell failed: no"));
    assert_eq!(stream.action(), StreamAction::Finish);
    assert_eq!(stream.into_result(), Err("ADB shell failed: no".to_owned()));
}

#[test]
fn user_is_told_while_the_program_runs() {
    assert_eq!(stream(Ok(()), true), None);
    assert_eq!(stream(Err("why".to_owned()), true), Some("why".to_owned()));
    assert_eq!(stream(Err("why".to_owned()), false), None);
}
