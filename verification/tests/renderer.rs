use pencast::protocol::{publish, Config, Frames};
use pencast::renderer::{
    client_size, paint, present, Presentation, Render, Renderer, Resize, SurfaceStatus,
    TextureWrite, Upload,
};
use pencast::window::Rect;

fn frames(width: usize, height: usize) -> Frames {
    let mut frames = Frames::new();
    show(&mut frames, width, height);
    frames
}

fn show(frames: &mut Frames, width: usize, height: usize) {
    let payload = width * height * 4;
    publish(frames, &Config { width, height, payload }, &vec![0u8; payload]);
}

fn write(buffer: usize, width: u32, height: u32) -> TextureWrite {
    TextureWrite { buffer, bytes_per_row: width * 4, rows: height, width, height }
}

fn failed(upload: Upload, texture: Option<(u32, u32)>, error: &str) -> bool {
    upload.texture == texture && upload.write == Err(error.to_owned())
}

#[test]
fn surface_follows_the_window() {
    let mut renderer = Renderer::new(10, 20);
    assert_eq!(renderer.resize(10, 20), Resize::Same);
    assert_eq!(renderer.resize(10, 21), Resize::Configure);
    assert_eq!(renderer.resize(10, 21), Resize::Same);
    assert_eq!(renderer.resize(0, 21), Resize::Hidden);
    assert_eq!(renderer.resize(10, 0), Resize::Hidden);
    assert_eq!((renderer.surface_width, renderer.surface_height), (10, 21));
}

#[test]
fn frame_is_uploaded_once() {
    let mut renderer = Renderer::new(10, 20);
    let mut frames = frames(4, 3);
    let first = renderer.upload(&frames);
    assert_eq!(first.texture, Some((4, 3)));
    assert_eq!(first.write, Ok(Some(write(1, 4, 3))));
    let again = renderer.upload(&frames);
    assert_eq!(again.texture, None);
    assert_eq!(again.write, Ok(None));
    show(&mut frames, 4, 3);
    let next = renderer.upload(&frames);
    assert_eq!(next.texture, None);
    assert_eq!(next.write, Ok(Some(write(0, 4, 3))));
}

#[test]
fn texture_follows_the_size_of_the_frames() {
    let mut renderer = Renderer::new(10, 20);
    let mut frames = frames(4, 3);
    renderer.upload(&frames);
    show(&mut frames, 3, 4);
    let upload = renderer.upload(&frames);
    assert_eq!(upload.texture, Some((3, 4)));
    assert_eq!(upload.write, Ok(Some(write(0, 3, 4))));
    assert_eq!((renderer.frame_width, renderer.frame_height), (3, 4));
    assert_eq!(renderer.uploaded, Some(2));
}

#[test]
fn frames_that_cannot_be_shown_are_refused() {
    let mut frames = frames(4, 3);
    frames.width = u32::MAX as usize + 1;
    assert!(failed(Renderer::new(1, 1).upload(&frames), None, "Invalid frame width"));
    frames.width = 4;
    frames.height = u32::MAX as usize + 1;
    assert!(failed(Renderer::new(1, 1).upload(&frames), None, "Invalid frame height"));
    frames.width = u32::MAX as usize;
    frames.height = u32::MAX as usize;
    assert!(failed(
        Renderer::new(1, 1).upload(&frames),
        Some((u32::MAX, u32::MAX)),
        "Invalid frame size"
    ));
    frames.width = 4;
    frames.height = 4;
    let mut renderer = Renderer::new(1, 1);
    assert!(failed(renderer.upload(&frames), Some((4, 4)), "Invalid frame buffer"));
    assert_eq!(renderer.uploaded, None);
    assert!(failed(renderer.upload(&frames), None, "Invalid frame buffer"));
}

#[test]
fn frame_without_a_size_has_no_texture() {
    let mut renderer = Renderer::new(1, 1);
    assert!(failed(renderer.upload(&Frames::new()), None, "Missing frame texture"));
}

#[test]
fn picture_is_prepared() {
    let mut renderer = Renderer::new(10, 20);
    let frames = frames(4, 3);
    assert!(matches!(renderer.render(0, 20, &frames), Render::Hidden));
    assert!(matches!(
        renderer.render(10, 20, &Frames::new()),
        Render::Draw { configure: false, upload: None }
    ));
    match renderer.render(11, 20, &frames) {
        Render::Draw { configure, upload: Some(upload) } => {
            assert!(configure);
            assert_eq!(upload.texture, Some((4, 3)));
            assert_eq!(upload.write, Ok(Some(write(1, 4, 3))));
        },
        _ => panic!("not drawn"),
    }
}

#[test]
fn painting_needs_a_renderer() {
    let frames = frames(4, 3);
    let mut renderer = None;
    assert_eq!(
        paint(&mut renderer, 10, 20, &frames).err(),
        Some("D3D12 renderer is unavailable".to_owned())
    );
    renderer = Some(Renderer::new(10, 20));
    assert!(matches!(
        paint(&mut renderer, 10, 20, &frames),
        Ok(Render::Draw { configure: false, upload: Some(_) })
    ));
    assert_eq!(renderer.map(|renderer| renderer.uploaded), Some(Some(1)));
}

#[test]
fn surface_image_is_presented() {
    assert_eq!(present(SurfaceStatus::Success), Ok(Presentation::Draw { configure: false }));
    assert_eq!(present(SurfaceStatus::Suboptimal), Ok(Presentation::Draw { configure: true }));
    assert_eq!(present(SurfaceStatus::Timeout), Ok(Presentation::Skip));
    assert_eq!(present(SurfaceStatus::Occluded), Ok(Presentation::Skip));
    assert_eq!(present(SurfaceStatus::Outdated), Ok(Presentation::Configure));
    assert_eq!(present(SurfaceStatus::Lost), Err("D3D12 surface was lost".to_owned()));
    assert_eq!(
        present(SurfaceStatus::Validation),
        Err("D3D12 surface validation failed".to_owned())
    );
}

#[test]
fn inside_of_a_window_is_measured() {
    assert_eq!(client_size(Rect { left: -5, top: 3, right: 7, bottom: 10 }), (12, 7));
    assert_eq!(client_size(Rect { left: 5, top: 3, right: 4, bottom: 3 }), (0, 0));
}
