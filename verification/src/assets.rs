//! Handles for the three asset representations.
//!
//! [`Image`] is a plain CPU-resident pixel buffer. [`Texture`] pairs a
//! GPU-resident drawable of the rendering subsystem with its pixel size.
//! Sounds are the audio subsystem's opaque handles, stored as they are.
//! The GPU upload and readback primitives live here behind trusted
//! wrappers; everything else about these types is verified.

use vstd::prelude::*;

verus! {

#[verifier::external_type_specification]
#[verifier::external_body]
pub struct ExTexture2D(macroquad::texture::Texture2D);

#[verifier::external_type_specification]
#[verifier::external_body]
pub struct ExSound(macroquad::audio::Sound);

/// An owned, CPU-resident decoded pixel buffer: `height` rows of `width`
/// pixels, four bytes per pixel.
pub struct Image {
    pub width: u16,
    pub height: u16,
    pub bytes: Vec<u8>,
}

impl Image {
    /// A pixel buffer is well formed when it holds exactly four bytes for
    /// each pixel of its `width` by `height` grid.
    pub open spec fn wf(&self) -> bool {
        self.bytes@.len() == 4 * (self.width as nat) * (self.height as nat)
    }
}

/// An owned handle to a GPU-resident drawable, together with its pixel
/// size. The recorded `width` and `height` always equal the handle's own
/// pixel size: the fields are private, and the only constructors are
/// [`upload_image`], whose texture has exactly the uploaded buffer's
/// size, and the trusted [`Texture::from_raw`], whose callers owe it the
/// handle's true size. [`read_back`] relies on that equality to describe
/// the pixel data it reads back at the handle's size.
pub struct Texture {
    width: u16,
    height: u16,
    raw: macroquad::texture::Texture2D,
}

impl Texture {
    /// The recorded pixel width: the handle's own width.
    pub closed spec fn spec_width(&self) -> u16 {
        self.width
    }

    /// The recorded pixel height: the handle's own height.
    pub closed spec fn spec_height(&self) -> u16 {
        self.height
    }

    pub fn width(&self) -> (w: u16)
        ensures
            w == self.spec_width(),
    {
        self.width
    }

    pub fn height(&self) -> (h: u16)
        ensures
            h == self.spec_height(),
    {
        self.height
    }

    /// Wraps a GPU texture handle. Trusted: `width` and `height` must be
    /// the handle's own pixel size — the contracts of this crate treat
    /// the recorded numbers as that size, and [`read_back`] returns pixel
    /// data of the handle's size. Pairing a handle with any other numbers
    /// voids the readback contract.
    #[verifier::external_body]
    pub fn from_raw(raw: macroquad::texture::Texture2D, width: u16, height: u16) -> (r: Texture)
        ensures
            r.spec_width() == width,
            r.spec_height() == height,
    {
        Texture { width, height, raw }
    }
}

/// Uploads a well-formed pixel buffer to a new GPU texture of the same
/// pixel size. Relies on macroquad's `Texture2D::from_image` (through
/// `from_rgba8`): the texture it creates has exactly the image's width
/// and height, so the recorded size is the handle's own. The buffer must
/// be well formed, since the upload reads `4 * width * height` bytes from
/// it. Like every GPU call of the rendering subsystem, this may only run
/// on the thread of a live macroquad application; without that context it
/// panics.
#[verifier::external_body]
pub fn upload_image(img: &Image) -> (t: Texture)
    requires
        img.wf(),
    ensures
        t.spec_width() == img.width,
        t.spec_height() == img.height,
{
    let raw = macroquad::texture::Texture2D::from_image(
        &macroquad::texture::Image {
            bytes: img.bytes.clone(),
            width: img.width,
            height: img.height,
        },
    );
    Texture { width: img.width, height: img.height, raw }
}

/// Relies on macroquad's `Texture2D::get_texture_data`: it reads the
/// texture back from the GPU as an image of the texture's own pixel size,
/// four bytes per pixel — and `t` records exactly that size (see
/// [`Texture`]). Like every GPU call of the rendering subsystem, this may
/// only run on the thread of a live macroquad application (and not on the
/// Metal backend, where the readback is unimplemented); without that it
/// panics.
#[verifier::external_body]
pub(crate) fn read_back(t: &Texture) -> (img: Image)
    ensures
        img.width == t.spec_width(),
        img.height == t.spec_height(),
        img.wf(),
{
    let data = t.raw.get_texture_data();
    Image { width: data.width, height: data.height, bytes: data.bytes }
}

} // verus!
