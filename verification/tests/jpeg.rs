use pencast::jpeg::{
    decode_jpeg, is_countable, is_countable_image, store_image, CodingProcess, Header, ImageInfo,
    PixelFormat, MAX_SIDE,
};
use pencast::protocol::Config;

fn segment(image: &mut Vec<u8>, marker: u8, body: &[u8]) {
    image.extend_from_slice(&[0xff, marker]);
    image.extend_from_slice(&((body.len() + 2) as u16).to_be_bytes());
    image.extend_from_slice(body);
}

/// A picture in one color, with components of the given names in one scan.
fn picture(width: u16, height: u16, components: &[u8], data: &[u8]) -> Vec<u8> {
    coded(0xc0, 0x11, width, height, components, data)
}

/// A picture with the given coding and blocks in each component.
fn coded(
    process: u8,
    blocks: u8,
    width: u16,
    height: u16,
    components: &[u8],
    data: &[u8],
) -> Vec<u8> {
    let mut image = vec![0xff, 0xd8];
    let mut table = vec![0u8];
    table.extend_from_slice(&[8; 64]);
    segment(&mut image, 0xdb, &table);
    let mut frame = vec![8];
    frame.extend_from_slice(&height.to_be_bytes());
    frame.extend_from_slice(&width.to_be_bytes());
    frame.push(components.len() as u8);
    for component in components {
        frame.extend_from_slice(&[*component, blocks, 0]);
    }
    segment(&mut image, process, &frame);
    segment(
        &mut image,
        0xc4,
        &[0x00, 1, 1, 1, 0, 0, 0, 0, 0, 0, 0, 0, 0, 0, 0, 0, 0, 0, 7, 5],
    );
    segment(&mut image, 0xc4, &[0x10, 1, 0, 0, 0, 0, 0, 0, 0, 0, 0, 0, 0, 0, 0, 0, 0, 0]);
    let mut scan = vec![components.len() as u8];
    for component in components {
        scan.extend_from_slice(&[*component, 0x00]);
    }
    scan.extend_from_slice(&[0, 63, 0]);
    segment(&mut image, 0xda, &scan);
    image.extend_from_slice(data);
    image.extend_from_slice(&[0xff, 0xd9]);
    image
}

/// Red 228, green 100, blue 128.
fn color(width: u16, height: u16) -> Vec<u8> {
    picture(width, height, b"RGB", &[0xb2, 0x30, 0xc7])
}

fn config(width: usize, height: usize) -> Config {
    Config { width, height, payload: width * height * 4 }
}

#[test]
fn frame_is_decoded_into_opaque_pixels() {
    let mut raw = vec![7u8; 8 * 8 * 4];
    assert_eq!(decode_jpeg(&color(8, 8), &config(8, 8), &mut raw), Ok(()));
    for pixel in raw.chunks(4) {
        assert_eq!(pixel, [228, 100, 128, 255]);
    }
}

#[test]
fn nothing_of_the_frame_before_shows_through() {
    let mut first = vec![0u8; 8 * 3 * 4];
    let mut second = vec![0xffu8; 8 * 3 * 4];
    assert_eq!(decode_jpeg(&color(8, 3), &config(8, 3), &mut first), Ok(()));
    assert_eq!(decode_jpeg(&color(8, 3), &config(8, 3), &mut second), Ok(()));
    assert_eq!(first, second);
}

#[test]
fn frame_of_another_size_is_refused() {
    let mut raw = vec![7u8; 8 * 8 * 4];
    let error = Err("Invalid JPEG frame".to_owned());
    assert_eq!(decode_jpeg(&color(8, 7), &config(8, 8), &mut raw), error);
    assert_eq!(decode_jpeg(&color(7, 8), &config(8, 8), &mut raw), error);
    assert_eq!(raw, vec![7u8; 8 * 8 * 4]);
}

#[test]
fn gray_frame_is_refused() {
    let mut raw = vec![7u8; 8 * 8 * 4];
    let gray = picture(8, 8, &[1], &[0x3f]);
    let error = Err("Invalid JPEG frame".to_owned());
    assert_eq!(decode_jpeg(&gray, &config(8, 8), &mut raw), error);
    assert_eq!(raw, vec![7u8; 8 * 8 * 4]);
}

#[test]
fn data_that_is_no_image_is_refused() {
    let mut raw = vec![7u8; 4];
    assert_eq!(
        decode_jpeg(b"no image", &config(1, 1), &mut raw),
        Err(
            "Invalid JPEG frame: invalid JPEG format: first two bytes are not an SOI marker"
                .to_owned()
        )
    );
    assert_eq!(raw, vec![7u8; 4]);
}

#[test]
fn decoder_keeps_to_the_size_of_the_buffer() {
    let mut raw = vec![7u8; 8 * 8 * 3 - 1];
    assert_eq!(
        decode_jpeg(&color(8, 8), &config(8, 8), &mut raw),
        Err(
            "Invalid JPEG frame: invalid JPEG format: size of decoded image exceeds maximum \
             allowed size"
                .to_owned()
        )
    );
}

#[test]
fn image_is_stored_as_far_as_the_buffer_reaches() {
    let info = Some(ImageInfo { width: 2, height: 1, pixel_format: PixelFormat::Rgb24 });
    let mut raw = [0u8; 10];
    assert_eq!(store_image(&[1, 2, 3, 4, 5, 6], info, &config(2, 1), &mut raw), Ok(()));
    assert_eq!(raw, [1, 2, 3, 255, 4, 5, 6, 255, 0, 0]);
    let mut short = [0u8; 7];
    assert_eq!(store_image(&[1, 2, 3, 4, 5, 6], info, &config(2, 1), &mut short), Ok(()));
    assert_eq!(short, [1, 2, 3, 255, 0, 0, 0]);
}

#[test]
fn image_that_does_not_fit_is_not_stored() {
    let error = Err("Invalid JPEG frame".to_owned());
    let info = ImageInfo { width: 2, height: 1, pixel_format: PixelFormat::Rgb24 };
    let mut raw = [0u8; 8];
    let pixels = [1u8, 2, 3, 4, 5, 6];
    assert_eq!(store_image(&pixels, None, &config(2, 1), &mut raw), error);
    assert_eq!(store_image(&pixels[..5], Some(info), &config(2, 1), &mut raw), error);
    let gray = ImageInfo { pixel_format: PixelFormat::L8, ..info };
    assert_eq!(store_image(&pixels, Some(gray), &config(2, 1), &mut raw), error);
    assert_eq!(store_image(&pixels, Some(info), &config(1, 2), &mut raw), error);
    assert_eq!(store_image(&pixels, Some(info), &config(usize::MAX, 2), &mut raw), error);
    assert_eq!(raw, [0; 8]);
}

#[test]
fn rows_of_one_component_are_counted_up_to_the_last_block() {
    let single = [0xff, 0xda, 0, 8, 1];
    let header = Header { width: 1, height: MAX_SIDE, process: CodingProcess::DctSequential };
    assert!(is_countable_image(&single, &header));
    let high = Header { height: MAX_SIDE + 1, ..header };
    assert!(!is_countable_image(&single, &high));
    assert!(is_countable_image(&[], &high));
    assert!(is_countable_image(&[0xff, 0xda, 0, 12, 3], &high));
    let progressive = Header { process: CodingProcess::DctProgressive, ..high };
    assert!(!is_countable_image(&single, &progressive));
    let lossless = Header { process: CodingProcess::Lossless, ..high };
    assert!(is_countable_image(&single, &lossless));
}

#[test]
fn header_tells_whether_a_frame_can_be_counted() {
    assert!(is_countable(&color(8, 8)));
    assert!(is_countable(&picture(1, 65528, &[1], &[])));
    assert!(!is_countable(&picture(1, 65529, &[1], &[])));
    assert!(!is_countable(&picture(1, 65535, &[1], &[])));
    assert!(is_countable(&picture(1, 65535, b"RGB", &[])));
    assert!(is_countable(&picture(65535, 1, b"RGB", &[])));
    assert!(is_countable(&picture(65535, 1, &[1], &[])));
    assert!(is_countable(&coded(0xc0, 0x13, 65535, 1, &[1], &[])));
    assert!(!is_countable(&coded(0xc0, 0x31, 65535, 1, &[1], &[])));
    assert!(is_countable(&coded(0xc0, 0x31, 65528, 1, &[1], &[])));
    assert!(!is_countable(&coded(0xc2, 0x11, 1, 65535, &[1], &[])));
    assert!(is_countable(&coded(0xc3, 0x11, 1, 65535, &[1], &[])));
    assert!(is_countable(b"no image"));
    assert!(is_countable(&[]));
}

#[test]
fn longest_frames_are_decoded() {
    for (width, height) in [(1, 65535), (65535, 1), (1, 65529), (65529, 1)] {
        let mut raw = vec![7u8; 65535 * 4];
        let image = picture(width, height, b"RGB", &[]);
        assert!(is_countable(&image));
        let size = config(width as usize, height as usize);
        let frame = &mut raw[..size.payload];
        assert_eq!(decode_jpeg(&image, &size, frame), Ok(()));
        for pixel in frame.chunks(4) {
            assert_eq!(pixel, [128, 128, 128, 255]);
        }
    }
}

#[test]
fn longest_gray_frames_are_refused_for_their_color() {
    let error = Err("Invalid JPEG frame".to_owned());
    let mut raw = vec![7u8; 65535 * 4];
    for (width, height) in [(1, 65528), (65535, 1)] {
        let gray = picture(width, height, &[1], &[]);
        assert!(is_countable(&gray));
        let size = config(width as usize, height as usize);
        assert_eq!(decode_jpeg(&gray, &size, &mut raw), error);
    }
    assert_eq!(raw, vec![7u8; 65535 * 4]);
}
