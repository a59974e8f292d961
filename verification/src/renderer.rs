//! The plan for drawing a frame: when the surface is configured anew, when a
//! texture is made, and when a frame is uploaded.
use vstd::prelude::*;

use crate::protocol::{pixel_bytes, Frames};
use crate::window::Rect;

verus! {

/// What the renderer remembers: the size of its surface, the size of its
/// texture, whether there is one, and the frame that is in it.
#[derive(Clone, Copy, Debug, PartialEq, Eq, Structural)]
pub struct Renderer {
    pub surface_width: u32,
    pub surface_height: u32,
    pub frame_width: u32,
    pub frame_height: u32,
    pub textured: bool,
    pub uploaded: Option<u64>,
}

/// What a new size of the window means for the surface.
#[derive(Clone, Copy, Debug, PartialEq, Eq, Structural)]
pub enum Resize {
    /// There is nothing to draw on.
    Hidden,
    /// The surface has this size.
    Same,
    /// The surface is to be configured with its new size.
    Configure,
}

/// How the bytes of a frame are written to the texture: which of the two buffers
/// they are in, and how they lie there.
#[derive(Clone, Copy, Debug, PartialEq, Eq, Structural)]
pub struct TextureWrite {
    pub buffer: usize,
    pub bytes_per_row: u32,
    pub rows: u32,
    pub width: u32,
    pub height: u32,
}

/// What is done to show a frame: first a texture of the given size is made, if
/// one is asked for; then the frame is written to the texture, or nothing is
/// to be written, or the frame cannot be shown.
pub struct Upload {
    pub texture: Option<(u32, u32)>,
    pub write: Result<Option<TextureWrite>, String>,
}

/// What is done before the picture is drawn.
pub enum Render {
    /// Nothing is drawn.
    Hidden,
    /// The surface is configured, if need be, and a frame is uploaded, if there
    /// is one.
    Draw { configure: bool, upload: Option<Upload> },
}

/// What the surface says when its next image is asked for.
#[derive(Clone, Copy, Debug, PartialEq, Eq, Structural)]
pub enum SurfaceStatus {
    Success,
    Suboptimal,
    Timeout,
    Occluded,
    Outdated,
    Lost,
    Validation,
}

/// What is done with the image of the surface.
#[derive(Clone, Copy, Debug, PartialEq, Eq, Structural)]
pub enum Presentation {
    /// It is drawn and presented; then the surface is configured, if need be.
    Draw { configure: bool },
    /// This picture is left out.
    Skip,
    /// This picture is left out, and the surface is configured.
    Configure,
}

impl Renderer {
    /// A renderer that has a size of a texture has the texture.
    pub open spec fn wf(&self) -> bool {
        self.frame_width != 0 || self.frame_height != 0 ==> self.textured
    }

    /// Whether the renderer has a surface of this size and nothing else.
    pub open spec fn is_bare(self, width: u32, height: u32) -> bool {
        &&& self.surface_width == width && self.surface_height == height
        &&& self.frame_width == 0 && self.frame_height == 0
        &&& !self.textured
        &&& self.uploaded is None
    }

    /// A renderer without a texture, on a surface of the given size.
    pub fn new(width: u32, height: u32) -> (res: Self)
        ensures
            res.wf(),
            res == (Renderer {
                surface_width: width,
                surface_height: height,
                frame_width: 0,
                frame_height: 0,
                textured: false,
                uploaded: None,
            }),
            res.is_bare(width, height),
    {
        Renderer {
            surface_width: width,
            surface_height: height,
            frame_width: 0,
            frame_height: 0,
            textured: false,
            uploaded: None,
        }
    }

    /// The renderer on a surface of another size.
    pub open spec fn resized(self, width: u32, height: u32) -> Self {
        if width == 0 || height == 0 {
            self
        } else {
            Renderer { surface_width: width, surface_height: height, ..self }
        }
    }

    /// What a size of the window means for the surface.
    pub open spec fn fitting(self, width: u32, height: u32) -> Resize {
        if width == 0 || height == 0 {
            Resize::Hidden
        } else if self.surface_width == width && self.surface_height == height {
            Resize::Same
        } else {
            Resize::Configure
        }
    }

    /// Follows the size of the window.
    pub fn resize(&mut self, width: u32, height: u32) -> (res: Resize)
        ensures
            res == old(self).fitting(width, height),
            *final(self) == old(self).resized(width, height),
    {
        if width == 0 || height == 0 {
            return Resize::Hidden;
        }
        if self.surface_width != width || self.surface_height != height {
            self.surface_width = width;
            self.surface_height = height;
            Resize::Configure
        } else {
            Resize::Same
        }
    }

    /// Whether the texture has another size than the frames.
    pub open spec fn differs(self, frames: &Frames) -> bool {
        self.frame_width != frames.width || self.frame_height != frames.height
    }

    /// The renderer once it has a texture of the size of the frames.
    pub open spec fn with_texture(self, frames: &Frames) -> Self {
        if self.differs(frames) {
            Renderer {
                frame_width: frames.width as u32,
                frame_height: frames.height as u32,
                textured: true,
                uploaded: None,
                ..self
            }
        } else {
            self
        }
    }

    /// Whether the frame that is shown is not yet in a texture of its size.
    pub open spec fn is_stale(self, frames: &Frames) -> bool {
        self.with_texture(frames).uploaded != Some(frames.sequence)
    }

    /// Why a frame cannot be shown, if so.
    pub open spec fn upload_error(self, frames: &Frames) -> Option<Seq<char>> {
        if frames.width > u32::MAX {
            Some("Invalid frame width"@)
        } else if frames.height > u32::MAX {
            Some("Invalid frame height"@)
        } else if !self.is_stale(frames) {
            None
        } else if frames.width * frames.height * 4 > usize::MAX {
            Some("Invalid frame size"@)
        } else if frames.shown().len() != frames.width * frames.height * 4 {
            Some("Invalid frame buffer"@)
        } else if !self.with_texture(frames).textured {
            Some("Missing frame texture"@)
        } else {
            None
        }
    }

    /// The renderer after a frame was uploaded.
    pub open spec fn after_upload(self, frames: &Frames) -> Self {
        if frames.width > u32::MAX || frames.height > u32::MAX {
            self
        } else if self.upload_error(frames) is Some {
            self.with_texture(frames)
        } else {
            Renderer { uploaded: Some(frames.sequence), ..self.with_texture(frames) }
        }
    }

    /// Whether a frame can be looked at: there is a buffer in front, and where
    /// the frame is written, a row of it has fewer bytes than a `u32` can tell.
    pub open spec fn upload_fits(self, frames: &Frames) -> bool {
        frames.width <= u32::MAX && frames.height <= u32::MAX && self.is_stale(frames)
            && frames.width * frames.height * 4 <= usize::MAX ==> {
            &&& frames.front < 2
            &&& self.upload_error(frames) is None ==> frames.width * 4 <= u32::MAX
        }
    }

    /// What is done to show a frame.
    pub open spec fn is_upload(self, frames: &Frames, upload: Upload) -> bool {
        let too_large = frames.width > u32::MAX || frames.height > u32::MAX;
        &&& upload.texture == if !too_large && self.differs(frames) {
            Some((frames.width as u32, frames.height as u32))
        } else {
            None
        }
        &&& match (upload.write, self.upload_error(frames)) {
            (Ok(Some(write)), None) => {
                &&& self.is_stale(frames)
                &&& write.buffer == frames.front
                &&& write.bytes_per_row == frames.width * 4
                &&& write.rows == frames.height
                &&& write.width == frames.width
                &&& write.height == frames.height
            },
            (Ok(None), None) => !self.is_stale(frames),
            (Err(error), Some(text)) => error@ == text,
            _ => false,
        }
    }

    /// Brings the frame that is shown into the texture.
    pub fn upload(&mut self, frames: &Frames) -> (res: Upload)
        requires
            old(self).upload_fits(frames),
        ensures
            old(self).is_upload(frames, res),
            *final(self) == old(self).after_upload(frames),
            old(self).wf() ==> final(self).wf(),
    {
        if frames.width > 0xffff_ffff {
            return Upload { texture: None, write: Err("Invalid frame width".to_owned()) };
        }
        if frames.height > 0xffff_ffff {
            return Upload { texture: None, write: Err("Invalid frame height".to_owned()) };
        }
        let width: u32 = frames.width as u32;
        let height: u32 = frames.height as u32;
        let mut texture: Option<(u32, u32)> = None;
        if self.frame_width != width || self.frame_height != height {
            texture = Some((width, height));
            self.frame_width = width;
            self.frame_height = height;
            self.textured = true;
            self.uploaded = None;
        }
        let stale: bool = match self.uploaded {
            Some(sequence) => sequence != frames.sequence,
            None => true,
        };
        if !stale {
            return Upload { texture, write: Ok(None) };
        }
        let bytes: usize = match pixel_bytes(frames.width, frames.height, 4) {
            Some(bytes) => bytes,
            None => {
                return Upload { texture, write: Err("Invalid frame size".to_owned()) };
            },
        };
        if frames.buffers[frames.front].len() != bytes {
            return Upload { texture, write: Err("Invalid frame buffer".to_owned()) };
        }
        if !self.textured {
            return Upload { texture, write: Err("Missing frame texture".to_owned()) };
        }
        self.uploaded = Some(frames.sequence);
        let write = TextureWrite {
            buffer: frames.front,
            bytes_per_row: width * 4,
            rows: height,
            width,
            height,
        };
        Upload { texture, write: Ok(Some(write)) }
    }

    /// Whether the next picture can be prepared in a window of the given size.
    pub open spec fn render_fits(self, width: u32, height: u32, frames: &Frames) -> bool {
        width > 0 && height > 0 && frames.width != 0 && frames.height != 0 ==> self.resized(
            width,
            height,
        ).upload_fits(frames)
    }

    /// How the next picture is prepared in a window of the given size, and the
    /// renderer after that.
    pub open spec fn is_render(
        self,
        width: u32,
        height: u32,
        frames: &Frames,
        render: Render,
        after: Self,
    ) -> bool {
        let resized = self.resized(width, height);
        match render {
            Render::Hidden => {
                &&& self.fitting(width, height) is Hidden
                &&& after == self
            },
            Render::Draw { configure, upload } => {
                &&& self.fitting(width, height) !is Hidden
                &&& configure == (self.fitting(width, height) is Configure)
                &&& match upload {
                    Some(upload) => {
                        &&& frames.width != 0 && frames.height != 0
                        &&& resized.is_upload(frames, upload)
                        &&& after == resized.after_upload(frames)
                    },
                    None => {
                        &&& frames.width == 0 || frames.height == 0
                        &&& after == resized
                    },
                }
            },
        }
    }

    /// Prepares the next picture in a window of the given size. Nothing is
    /// uploaded before the first frame.
    pub fn render(&mut self, width: u32, height: u32, frames: &Frames) -> (res: Render)
        requires
            old(self).render_fits(width, height, frames),
        ensures
            old(self).is_render(width, height, frames, res, *final(self)),
            old(self).wf() ==> final(self).wf(),
    {
        let configure: bool = match self.resize(width, height) {
            Resize::Hidden => {
                return Render::Hidden;
            },
            Resize::Same => false,
            Resize::Configure => true,
        };
        let upload: Option<Upload> = if frames.width != 0 && frames.height != 0 {
            Some(self.upload(frames))
        } else {
            None
        };
        Render::Draw { configure, upload }
    }
}

/// How the next picture is prepared, if there is a renderer.
pub open spec fn is_painted(
    before: Option<Renderer>,
    width: u32,
    height: u32,
    frames: &Frames,
    after: Option<Renderer>,
    result: Result<Render, String>,
) -> bool {
    match result {
        Ok(render) => before is Some && after is Some && before->0.is_render(
            width,
            height,
            frames,
            render,
            after->0,
        ),
        Err(error) => before is None && after is None && error@ == "D3D12 renderer is unavailable"@,
    }
}

/// Prepares the next picture, if there is a renderer.
pub fn paint(renderer: &mut Option<Renderer>, width: u32, height: u32, frames: &Frames) -> (res:
    Result<Render, String>)
    requires
        *old(renderer) matches Some(before) ==> before.render_fits(width, height, frames),
    ensures
        match (*old(renderer), *final(renderer), res) {
            (Some(before), Some(after), Ok(render)) => {
                &&& before.is_render(width, height, frames, render, after)
                &&& before.wf() ==> after.wf()
            },
            (None, None, Err(error)) => error@ == "D3D12 renderer is unavailable"@,
            _ => false,
        },
        is_painted(*old(renderer), width, height, frames, *final(renderer), res),
{
    match renderer {
        Some(renderer) => Ok(renderer.render(width, height, frames)),
        None => Err("D3D12 renderer is unavailable".to_owned()),
    }
}

/// What is done with the image of a surface that says this.
pub open spec fn is_presented(
    status: SurfaceStatus,
    presentation: Result<Presentation, String>,
) -> bool {
    match presentation {
        Ok(Presentation::Draw { configure }) => status == if configure {
            SurfaceStatus::Suboptimal
        } else {
            SurfaceStatus::Success
        },
        Ok(Presentation::Skip) => status is Timeout || status is Occluded,
        Ok(Presentation::Configure) => status is Outdated,
        Err(error) => {
            ||| status is Lost && error@ == "D3D12 surface was lost"@
            ||| status is Validation && error@ == "D3D12 surface validation failed"@
        },
    }
}

/// Decides what is done with the image of the surface.
pub fn present(status: SurfaceStatus) -> (res: Result<Presentation, String>)
    ensures
        match (status, res) {
            (SurfaceStatus::Success, Ok(step)) => step == (Presentation::Draw {
                configure: false,
            }),
            (SurfaceStatus::Suboptimal, Ok(step)) => step == (Presentation::Draw {
                configure: true,
            }),
            (SurfaceStatus::Timeout, Ok(step)) => step == Presentation::Skip,
            (SurfaceStatus::Occluded, Ok(step)) => step == Presentation::Skip,
            (SurfaceStatus::Outdated, Ok(step)) => step == Presentation::Configure,
            (SurfaceStatus::Lost, Err(error)) => error@ == "D3D12 surface was lost"@,
            (SurfaceStatus::Validation, Err(error)) => error@
                == "D3D12 surface validation failed"@,
            _ => false,
        },
        is_presented(status, res),
{
    match status {
        SurfaceStatus::Success => Ok(Presentation::Draw { configure: false }),
        SurfaceStatus::Suboptimal => Ok(Presentation::Draw { configure: true }),
        SurfaceStatus::Timeout => Ok(Presentation::Skip),
        SurfaceStatus::Occluded => Ok(Presentation::Skip),
        SurfaceStatus::Outdated => Ok(Presentation::Configure),
        SurfaceStatus::Lost => Err("D3D12 surface was lost".to_owned()),
        SurfaceStatus::Validation => Err("D3D12 surface validation failed".to_owned()),
    }
}

/// A distance, or zero where it is negative.
pub open spec fn at_least_zero(distance: int) -> int {
    if distance < 0 {
        0
    } else {
        distance
    }
}

/// Whether this is the size of the inside of a window.
pub open spec fn is_client_size(client: Rect, size: (u32, u32)) -> bool {
    &&& size.0 == at_least_zero(client.across())
    &&& size.1 == at_least_zero(client.down())
}

/// The size of the inside of a window.
pub fn client_size(client: Rect) -> (res: (u32, u32))
    requires
        client.measurable(),
    ensures
        res.0 == at_least_zero(client.across()),
        res.1 == at_least_zero(client.down()),
        is_client_size(client, res),
{
    let width: i32 = client.right - client.left;
    let height: i32 = client.bottom - client.top;
    (
        if width < 0 {
            0
        } else {
            width as u32
        },
        if height < 0 {
            0
        } else {
            height as u32
        },
    )
}

/// Every frame that was received can be shown: its upload never fails, and the
/// texture has its size afterwards.
pub proof fn received_frames_can_be_shown(renderer: Renderer, frames: &Frames)
    requires
        renderer.wf(),
        frames.wf(),
        frames.width > 0,
    ensures
        renderer.upload_fits(frames),
        renderer.upload_error(frames) is None,
        renderer.after_upload(frames).frame_width == frames.width,
        renderer.after_upload(frames).frame_height == frames.height,
        renderer.after_upload(frames).uploaded == Some(frames.sequence),
{
    assert(frames.width <= frames.width * frames.height) by (nonlinear_arith)
        requires
            frames.height > 0,
    ;
    assert(frames.height <= frames.width * frames.height) by (nonlinear_arith)
        requires
            frames.width > 0,
    ;
}

/// A frame that can be shown is uploaded once. Its upload leaves a texture of its
/// size with the frame in it, and changes nothing if the frame was there before:
/// until another one is shown, nothing is made and nothing is written.
pub proof fn frames_are_uploaded_once(renderer: Renderer, frames: &Frames)
    requires
        renderer.upload_error(frames) is None,
    ensures
        renderer.after_upload(frames).frame_width == frames.width,
        renderer.after_upload(frames).frame_height == frames.height,
        renderer.after_upload(frames).uploaded == Some(frames.sequence),
        renderer.is_stale(frames) <==> renderer.differs(frames) || renderer.uploaded != Some(
            frames.sequence,
        ),
        !renderer.is_stale(frames) ==> renderer.after_upload(frames) == renderer,
        !renderer.after_upload(frames).differs(frames),
        !renderer.after_upload(frames).is_stale(frames),
        renderer.after_upload(frames).after_upload(frames) == renderer.after_upload(frames),
{
}

/// A frame that is published after another one was uploaded is uploaded too.
pub proof fn next_frame_is_uploaded(renderer: Renderer, frames: &Frames, next: &Frames)
    requires
        renderer.upload_error(frames) is None,
        next.sequence == if frames.sequence == u64::MAX {
            0
        } else {
            frames.sequence + 1
        },
    ensures
        renderer.after_upload(frames).is_stale(next),
{
}

/// A window without an inside is not drawn in, and changes nothing. In any other
/// window the surface gets the size of the window: it is configured exactly if
/// that is a new size, and nothing else changes.
pub proof fn surfaces_follow_the_window(renderer: Renderer, width: u32, height: u32)
    ensures
        width == 0 || height == 0 <==> renderer.fitting(width, height) is Hidden,
        width == 0 || height == 0 ==> renderer.resized(width, height) == renderer,
        width > 0 && height > 0 ==> renderer.resized(width, height) == (Renderer {
            surface_width: width,
            surface_height: height,
            frame_width: renderer.frame_width,
            frame_height: renderer.frame_height,
            textured: renderer.textured,
            uploaded: renderer.uploaded,
        }),
        renderer.fitting(width, height) is Configure <==> width > 0 && height > 0 && (width
            != renderer.surface_width || height != renderer.surface_height),
        renderer.resized(width, height).fitting(width, height) !is Configure,
{
}

/// The upload of a frame fails for one of these reasons, the first that holds: a
/// side that is no `u32`; and, if the frame has yet to be written, more bytes than
/// can be counted, a buffer of another length, or no texture.
pub proof fn uploads_fail_for_a_reason(renderer: Renderer, frames: &Frames)
    ensures
        ({
            let bytes = 4 * (frames.width * frames.height);
            let stale = renderer.frame_width != frames.width || renderer.frame_height
                != frames.height || renderer.uploaded != Some(frames.sequence);
            let error = renderer.upload_error(frames);
            &&& frames.width > 0xffff_ffff ==> error == Some("Invalid frame width"@)
            &&& frames.width <= 0xffff_ffff < frames.height ==> error == Some(
                "Invalid frame height"@,
            )
            &&& frames.width <= 0xffff_ffff && frames.height <= 0xffff_ffff ==> {
                &&& !stale ==> error is None
                &&& stale && bytes > usize::MAX ==> error == Some("Invalid frame size"@)
                &&& stale && bytes <= usize::MAX && frames.shown().len() != bytes ==> error == Some(
                    "Invalid frame buffer"@,
                )
                &&& stale && bytes <= usize::MAX && frames.shown().len() == bytes ==> {
                    let untextured = !renderer.textured && renderer.frame_width == frames.width
                        && renderer.frame_height == frames.height;
                    error == if untextured {
                        Some("Missing frame texture"@)
                    } else {
                        None
                    }
                }
            }
        }),
{
}

/// A frame is written whole and as it is: from the buffer in front, row by row,
/// into a texture of its own size, which is made if the one there has another.
/// An error is told, and then nothing is written.
pub proof fn uploads_write_the_frame_in_front(renderer: Renderer, frames: &Frames, upload: Upload)
    requires
        renderer.is_upload(frames, upload),
    ensures
        upload.write is Err <==> renderer.upload_error(frames) is Some,
        upload.write matches Err(error) ==> renderer.upload_error(frames) == Some(error@),
        upload.write matches Ok(Some(write)) ==> {
            &&& write.buffer == frames.front
            &&& write.width == frames.width
            &&& write.height == frames.height
            &&& write.rows == frames.height
            &&& write.bytes_per_row == 4 * frames.width
            &&& frames.shown().len() == write.bytes_per_row * write.rows
        },
        upload.write matches Ok(None) ==> {
            &&& renderer.uploaded == Some(frames.sequence)
            &&& renderer.frame_width == frames.width
            &&& renderer.frame_height == frames.height
        },
        renderer.uploaded == Some(frames.sequence) && renderer.frame_width == frames.width
            && renderer.frame_height == frames.height ==> upload.write matches Ok(None),
        frames.width <= 0xffff_ffff && frames.height <= 0xffff_ffff ==> {
            &&& upload.texture is Some <==> renderer.frame_width != frames.width
                || renderer.frame_height != frames.height
            &&& upload.texture matches Some(size) ==> (size.0 as int, size.1 as int) == (
                frames.width as int,
                frames.height as int,
            )
        },
        frames.width > 0xffff_ffff || frames.height > 0xffff_ffff ==> upload.texture is None,
{
    if let Ok(Some(write)) = upload.write {
        assert(frames.width * frames.height * 4 == 4 * frames.width * frames.height)
            by (nonlinear_arith);
    }
}

/// After an upload that failed, the renderer has no frame of that size that it
/// takes for uploaded.
pub proof fn failed_uploads_are_tried_again(renderer: Renderer, frames: &Frames)
    requires
        renderer.upload_error(frames) is Some,
    ensures
        renderer.after_upload(frames).surface_width == renderer.surface_width,
        renderer.after_upload(frames).surface_height == renderer.surface_height,
        renderer.after_upload(frames).uploaded != Some(frames.sequence)
            || renderer.after_upload(frames) == renderer,
        frames.width > 0xffff_ffff || frames.height > 0xffff_ffff ==> renderer.after_upload(frames)
            == renderer,
        frames.width <= 0xffff_ffff && frames.height <= 0xffff_ffff ==> {
            &&& renderer.after_upload(frames).frame_width == frames.width
            &&& renderer.after_upload(frames).frame_height == frames.height
        },
{
}

/// An upload leaves the surface as it is, and a renderer that has uploaded a
/// frame of some size has a texture.
pub proof fn uploads_leave_the_surface(renderer: Renderer, frames: &Frames)
    requires
        renderer.wf(),
        renderer.upload_error(frames) is None,
        frames.width > 0,
    ensures
        renderer.after_upload(frames) == (Renderer {
            surface_width: renderer.surface_width,
            surface_height: renderer.surface_height,
            frame_width: frames.width as u32,
            frame_height: frames.height as u32,
            textured: true,
            uploaded: Some(frames.sequence),
        }),
{
}

/// A picture is drawn in every window that has an inside. The surface is
/// configured if the window has a new size, and the frame is uploaded if there
/// is one; a window without an inside changes nothing.
pub proof fn pictures_are_drawn_in_windows_with_an_inside(
    renderer: Renderer,
    width: u32,
    height: u32,
    frames: &Frames,
    render: Render,
    after: Renderer,
)
    requires
        renderer.is_render(width, height, frames, render, after),
    ensures
        render is Hidden <==> width == 0 || height == 0,
        render is Hidden ==> after == renderer,
        render matches Render::Draw { configure, upload } ==> {
            &&& after.surface_width == width
            &&& after.surface_height == height
            &&& configure <==> width != renderer.surface_width || height
                != renderer.surface_height
            &&& upload is Some <==> frames.width > 0 && frames.height > 0
            &&& upload is None ==> after.uploaded == renderer.uploaded && after.frame_width
                == renderer.frame_width && after.frame_height == renderer.frame_height
            &&& upload matches Some(upload) ==> {
                let sized = Renderer { surface_width: width, surface_height: height, ..renderer };
                sized.is_upload(frames, upload) && after == sized.after_upload(frames)
            }
        },
{
}

/// A distance counts as it is, or as nothing if it is negative.
pub proof fn negative_distances_count_as_nothing(distance: int)
    ensures
        at_least_zero(distance) >= 0,
        at_least_zero(distance) >= distance,
        at_least_zero(distance) == 0 || at_least_zero(distance) == distance,
{
}

/// A new renderer fits its window, and makes a texture for the first frame.
pub proof fn first_frames_get_a_texture(
    renderer: Renderer,
    width: u32,
    height: u32,
    frames: &Frames,
    upload: Upload,
)
    requires
        renderer.is_bare(width, height),
        renderer.is_upload(frames, upload),
        frames.wf(),
        frames.width > 0,
    ensures
        renderer.wf(),
        renderer.fitting(width, height) !is Configure,
        upload.texture == Some((frames.width as u32, frames.height as u32)),
        upload.write matches Ok(Some(_)),
{
    received_frames_can_be_shown(renderer, frames);
}

/// A picture is prepared by the renderer exactly if there is one.
pub proof fn pictures_need_a_renderer(
    before: Option<Renderer>,
    width: u32,
    height: u32,
    frames: &Frames,
    after: Option<Renderer>,
    result: Result<Render, String>,
)
    requires
        is_painted(before, width, height, frames, after, result),
    ensures
        result is Ok <==> before is Some,
        after is Some <==> before is Some,
        before is Some ==> before->0.is_render(width, height, frames, result->Ok_0, after->0),
        result matches Err(error) ==> error@ == "D3D12 renderer is unavailable"@,
{
}

/// An image that there is gets drawn, and then the surface is configured if the
/// image did not quite fit. A surface that does not answer or is covered is left
/// alone, one that is out of date is configured, and the rest are errors.
pub proof fn surfaces_say_what_is_done(
    status: SurfaceStatus,
    presentation: Result<Presentation, String>,
)
    requires
        is_presented(status, presentation),
    ensures
        status is Success ==> presentation == Ok::<Presentation, String>(
            Presentation::Draw { configure: false },
        ),
        status is Suboptimal ==> presentation == Ok::<Presentation, String>(
            Presentation::Draw { configure: true },
        ),
        status is Timeout || status is Occluded ==> presentation == Ok::<Presentation, String>(
            Presentation::Skip,
        ),
        status is Outdated ==> presentation == Ok::<Presentation, String>(Presentation::Configure),
        status is Lost ==> (presentation matches Err(error) && error@
            == "D3D12 surface was lost"@),
        status is Validation ==> (presentation matches Err(error) && error@
            == "D3D12 surface validation failed"@),
{
}

/// The inside of a window is as wide and high as its corners are apart, and has
/// no width or height where they lie the wrong way round.
pub proof fn insides_are_measured_between_corners(client: Rect, size: (u32, u32))
    requires
        is_client_size(client, size),
    ensures
        client.left <= client.right ==> client.left + size.0 == client.right,
        client.left > client.right ==> size.0 == 0,
        client.top <= client.bottom ==> client.top + size.1 == client.bottom,
        client.top > client.bottom ==> size.1 == 0,
{
}

} // verus!
