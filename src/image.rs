//! Decoded RGB images.
use vstd::prelude::*;

verus! {

/// Bytes per pixel of an RGB image.
pub const CHANNELS: u32 = 3;

/// Raw RGB pixels, three bytes per pixel, row by row.
pub struct Image {
    pub data: Vec<u8>,
    pub width: u32,
    pub height: u32,
}

/// The number of bytes that an RGB image of the given size holds.
pub open spec fn rgb_len(width: u32, height: u32) -> int {
    width as int * height as int * CHANNELS as int
}

/// Why image bytes were refused.
#[derive(Clone, Copy, Debug, PartialEq, Eq, Structural)]
pub enum ImageError {
    /// The bytes are not a PNG stream that decodes.
    Undecodable,
    /// The decoded pixels are not three bytes per pixel.
    NotRgb,
}

/// The first frame that png decodes from `png`, with its width and height.
pub uninterp spec fn png_frame(png: Seq<u8>) -> Option<(Seq<u8>, u32, u32)>;

/// Relies on png's decoding sequence, which is one operation in that crate's
/// interface: `Decoder::new`, `Decoder::read_info` (default transformations;
/// it refuses a frame whose buffer would exceed the default 64 MiB limit),
/// `OutputInfo::buffer_size` and `Reader::next_frame` decode the first frame of
/// a PNG stream into a buffer of `buffer_size` bytes, or fail with a
/// `DecodingError`. The result depends on the bytes alone.
#[verifier::external_body]
fn decode_png(png_data: &[u8]) -> (r: Option<(Vec<u8>, u32, u32)>)
    ensures
        match png_frame(png_data@) {
            Some((d, w, h)) => r matches Some((rd, rw, rh)) && rd@ == d && rw == w && rh == h,
            None => r is None,
        },
{
    let (info, mut reader) = png::Decoder::new(png_data).read_info().ok()?;
    let mut data: Vec<u8> = vec![0; info.buffer_size()];
    reader.next_frame(data.as_mut_slice()).ok()?;
    Some((data, info.width, info.height))
}

impl Image {
    /// The pixel buffer holds exactly one RGB triple per pixel.
    pub open spec fn wf(&self) -> bool {
        self.data@.len() == rgb_len(self.width, self.height)
    }

    /// Creates an image from raw RGB data.
    pub fn from_vec(data: Vec<u8>, width: u32, height: u32) -> (r: Self)
        requires
            data@.len() == rgb_len(width, height),
        ensures
            r.wf(),
            r.data@ == data@,
            r.width == width,
            r.height == height,
    {
        Image { data, width, height }
    }
}

impl Image {
    /// Creates an image from decoded pixels, which must be RGB: exactly
    /// `width * height * 3` bytes.
    pub fn from_pixels(data: Vec<u8>, width: u32, height: u32) -> (r: Result<Self, ImageError>)
        ensures
            match r {
                Ok(img) => data@.len() == rgb_len(width, height) && img.wf() && img.data@ == data@
                    && img.width == width && img.height == height,
                Err(e) => data@.len() != rgb_len(width, height) && e == ImageError::NotRgb,
            },
    {
        let w = width as u128;
        let h = height as u128;
        assert(w * h <= 0xffff_ffff_ffff_ffff) by (nonlinear_arith)
            requires
                w <= 0xffff_ffff,
                h <= 0xffff_ffff,
        ;
        let want = w * h * 3;
        if data.len() as u128 == want {
            Ok(Image::from_vec(data, width, height))
        } else {
            Err(ImageError::NotRgb)
        }
    }

    /// Creates an image from PNG bytes that decode to RGB pixels.
    pub fn from_png(png_data: &[u8]) -> (r: Result<Self, ImageError>)
        ensures
            match png_frame(png_data@) {
                None => r == Err::<Image, ImageError>(ImageError::Undecodable),
                Some((d, w, h)) => match r {
                    Ok(img) => d.len() == rgb_len(w, h) && img.wf() && img.data@ == d && img.width
                        == w && img.height == h,
                    Err(e) => d.len() != rgb_len(w, h) && e == ImageError::NotRgb,
                },
            },
    {
        match decode_png(png_data) {
            Some((data, width, height)) => Image::from_pixels(data, width, height),
            None => Err(ImageError::Undecodable),
        }
    }
}

} // verus!
