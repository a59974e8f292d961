use pencast::protocol::{
    has_magic, number, packet_size, pixel_bytes, publish, start_command, stop_command, Config,
    Frames, CONFIG_MAGIC, PACKET_MAGIC, READY_MAGIC,
};

fn header(width: u32, height: u32) -> [u8; 48] {
    let mut header = [0u8; 48];
    header[..8].copy_from_slice(b"CMCONFIG");
    header[8..12].copy_from_slice(&width.to_le_bytes());
    header[12..16].copy_from_slice(&height.to_le_bytes());
    header[16..20].copy_from_slice(&width.wrapping_mul(4).to_le_bytes());
    header[20..24].copy_from_slice(&0x3432_5241u32.to_le_bytes());
    header[40..44].copy_from_slice(&width.wrapping_mul(height).wrapping_mul(4).to_le_bytes());
    header[44..48].copy_from_slice(&1u32.to_le_bytes());
    header
}

fn unsupported(header: &[u8; 48]) -> bool {
    Config::parse(header).err() == Some("Unsupported stream configuration".to_owned())
}

fn packet(magic: &[u8; 8], size: u32) -> [u8; 16] {
    let mut packet = [0u8; 16];
    packet[..8].copy_from_slice(magic);
    packet[8..12].copy_from_slice(&size.to_le_bytes());
    packet
}

#[test]
fn there_is_no_frame_at_first() {
    let frames = Frames::new();
    assert_eq!(frames.front, 0);
    assert_eq!(frames.sequence, 0);
    assert_eq!((frames.width, frames.height), (0, 0));
    assert!(frames.buffers[0].is_empty());
    assert!(frames.buffers[1].is_empty());
}

#[test]
fn configuration_is_read() {
    let config = Config::parse(&header(960, 2160)).ok().unwrap();
    assert_eq!(config.width, 960);
    assert_eq!(config.height, 2160);
    assert_eq!(config.payload, 960 * 2160 * 4);
}

#[test]
fn reserved_bytes_of_a_configuration_do_not_matter() {
    let mut odd = header(16, 8);
    for byte in &mut odd[24..40] {
        *byte = 0xa5;
    }
    let config = Config::parse(&odd).ok().unwrap();
    assert_eq!((config.width, config.height, config.payload), (16, 8, 512));
}

#[test]
fn configuration_needs_its_magic() {
    let mut wrong = header(16, 8);
    wrong[7] = b'g';
    assert_eq!(Config::parse(&wrong).err(), Some("Invalid stream configuration".to_owned()));
}

#[test]
fn configuration_must_be_supported() {
    assert!(unsupported(&header(0, 8)));
    assert!(unsupported(&header(8, 0)));
    let mut pitch = header(16, 8);
    pitch[16] += 1;
    assert!(unsupported(&pitch));
    let mut format = header(16, 8);
    format[20] += 1;
    assert!(unsupported(&format));
    let mut payload = header(16, 8);
    payload[40] += 1;
    assert!(unsupported(&payload));
    let mut flags = header(16, 8);
    flags[44] = 3;
    assert!(unsupported(&flags));
}

#[test]
fn frames_have_a_largest_size() {
    let config = Config::parse(&header(4096, 4096)).ok().unwrap();
    assert_eq!(config.payload, 64 * 1024 * 1024);
    assert!(unsupported(&header(4096, 4097)));
}

#[test]
fn sizes_that_overflow_are_not_supported() {
    assert!(unsupported(&header(u32::MAX, u32::MAX)));
    assert!(unsupported(&header(0x8000_0000, 2)));
}

#[test]
fn numbers_are_little_endian() {
    assert_eq!(number(&[9, 0x78, 0x56, 0x34, 0x12], 1), 0x1234_5678);
    assert_eq!(number(&[0xff; 4], 0), u32::MAX);
}

#[test]
fn picture_sizes_are_checked() {
    assert_eq!(pixel_bytes(3, 5, 4), Some(60));
    assert_eq!(pixel_bytes(0, usize::MAX, 4), Some(0));
    assert_eq!(pixel_bytes(usize::MAX, 2, 1), None);
    assert_eq!(pixel_bytes(usize::MAX / 2, 1, 3), None);
}

#[test]
fn packet_sizes_are_read() {
    assert_eq!(packet_size(&packet(b"CMJPEG01", 1), 1), Ok(1));
    assert_eq!(packet_size(&packet(b"CMJPEG01", 70_000), 70_000), Ok(70_000));
}

#[test]
fn bad_packets_are_refused() {
    let error = Err("Invalid JPEG frame".to_owned());
    assert_eq!(packet_size(&packet(b"CMJPEG02", 1), 10), error);
    assert_eq!(packet_size(&packet(b"CMJPEG01", 0), 10), error);
    assert_eq!(packet_size(&packet(b"CMJPEG01", 11), 10), error);
}

#[test]
fn messages_of_the_tablet_differ() {
    let config = packet(b"CMCONFIG", 0);
    assert!(has_magic(&config, &CONFIG_MAGIC));
    assert!(!has_magic(&config, &PACKET_MAGIC));
    assert!(!has_magic(&config, &READY_MAGIC));
    assert!(has_magic(b"CMREADY1", &READY_MAGIC));
    assert!(has_magic(b"CMJPEG01 and more", &PACKET_MAGIC));
}

#[test]
fn commands_to_the_tablet_are_built() {
    assert_eq!(&start_command(), b"CMSTART1\x3c\0\0\0\0\0\0\0");
    assert_eq!(&stop_command(), b"CMSTOP01\0\0\0\0\0\0\0\0");
}

#[test]
fn frames_are_shown_in_turn() {
    let mut frames = Frames::new();
    let config = Config { width: 2, height: 1, payload: 8 };
    publish(&mut frames, &config, &[1, 2, 3, 4, 5, 6, 7, 8]);
    assert_eq!((frames.front, frames.sequence), (1, 1));
    assert_eq!((frames.width, frames.height), (2, 1));
    assert_eq!(frames.buffers[1], vec![1, 2, 3, 4, 5, 6, 7, 8]);
    let smaller = Config { width: 1, height: 1, payload: 4 };
    publish(&mut frames, &smaller, &[9, 9, 9, 9]);
    assert_eq!((frames.front, frames.sequence), (0, 2));
    assert_eq!(frames.buffers[0], vec![9, 9, 9, 9]);
    assert_eq!(frames.buffers[1], vec![1, 2, 3, 4, 5, 6, 7, 8]);
    publish(&mut frames, &smaller, &[7, 7, 7, 7]);
    assert_eq!(frames.buffers[1], vec![7, 7, 7, 7]);
}

#[test]
fn sequence_starts_anew_after_the_last_number() {
    let mut frames = Frames::new();
    frames.sequence = u64::MAX;
    let config = Config { width: 1, height: 1, payload: 4 };
    publish(&mut frames, &config, &[0; 4]);
    assert_eq!(frames.sequence, 0);
}
