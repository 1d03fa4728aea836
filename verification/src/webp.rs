//! WebP encoding of images with eight bits per channel.

use vstd::prelude::*;

verus! {

/// The longest side of a WebP image, in pixels.
pub const MAX_WEBP_DIM: u32 = 16_384;

/// The channels of a pixel, one byte each, in the order of their names.
#[derive(Clone, Copy, Debug, PartialEq, Eq, Structural)]
pub enum Channels {
    Luma,
    LumaAlpha,
    Rgb,
    Rgba,
}

/// Why an image was not encoded.
#[derive(Debug)]
pub enum WebpError {
    /// WebP has no images of that size. The encoder's own error says so too.
    Dimensions(image::ImageError),
}

impl Channels {
    /// How many channels there are.
    pub open spec fn spec_count(self) -> u8 {
        match self {
            Channels::Luma => 1,
            Channels::LumaAlpha => 2,
            Channels::Rgb => 3,
            Channels::Rgba => 4,
        }
    }

    /// How many channels there are.
    pub fn count(self) -> (count: u8)
        ensures
            count == self.spec_count(),
    {
        match self {
            Channels::Luma => 1,
            Channels::LumaAlpha => 2,
            Channels::Rgb => 3,
            Channels::Rgba => 4,
        }
    }
}

/// WebP has images of that size.
pub open spec fn is_webp_size(width: u32, height: u32) -> bool {
    1 <= width <= MAX_WEBP_DIM && 1 <= height <= MAX_WEBP_DIM
}

/// What `image` reports when it cannot read or write an image.
#[verifier::external_type_specification]
#[verifier::external_body]
pub struct ExImageError(image::ImageError);

/// The lossless WebP file of an image with that many channels of one byte, given
/// row by row from the top.
pub uninterp spec fn webp_file(channels: u8, width: u32, height: u32, samples: Seq<u8>) -> Seq<u8>;

/// `image`'s `WebPEncoder::new_lossless` and `encode` into a vector: the image's
/// WebP file, which depends on nothing but the arguments. It fails exactly for
/// the sizes that WebP does not have, and panics where the number of bytes is not
/// that of an image of that size. What the file's bytes are is not stated.
#[verifier::external_body]
fn encode_lossless(channels: Channels, width: u32, height: u32, samples: &[u8]) -> (result: Result<
    Vec<u8>,
    image::ImageError,
>)
    requires
        samples@.len() == width * height * channels.spec_count(),
    ensures
        match result {
            Ok(file) => is_webp_size(width, height) && file@ == webp_file(
                channels.spec_count(),
                width,
                height,
                samples@,
            ),
            Err(_) => !is_webp_size(width, height),
        },
{
    let color = match channels {
        Channels::Luma => image::ExtendedColorType::L8,
        Channels::LumaAlpha => image::ExtendedColorType::La8,
        Channels::Rgb => image::ExtendedColorType::Rgb8,
        Channels::Rgba => image::ExtendedColorType::Rgba8,
    };
    let mut file = Vec::new();
    image::codecs::webp::WebPEncoder::new_lossless(&mut file).encode(samples, width, height, color)?;
    Ok(file)
}

/// The lossless WebP file of an image, given row by row from the top. It is there
/// for every size that WebP has.
pub fn encode_webp(channels: Channels, width: u32, height: u32, samples: &[u8]) -> (result: Result<
    Vec<u8>,
    WebpError,
>)
    requires
        samples@.len() == width * height * channels.spec_count(),
    ensures
        match result {
            Ok(file) => is_webp_size(width, height) && file@ == webp_file(
                channels.spec_count(),
                width,
                height,
                samples@,
            ),
            Err(_) => !is_webp_size(width, height),
        },
{
    match encode_lossless(channels, width, height, samples) {
        Ok(file) => Ok(file),
        Err(error) => Err(WebpError::Dimensions(error)),
    }
}

/// WebP takes exactly the images with sides from 1 to 16384 pixels, whatever their
/// channels are; the same pixels give the same file.
pub proof fn law_webp_takes_every_size_it_has(
    channels: Channels,
    width: u32,
    height: u32,
    samples: &[u8],
    result: Result<Vec<u8>, WebpError>,
    again: Result<Vec<u8>, WebpError>,
)
    requires
        samples@.len() == width * height * channels.spec_count(),
        call_ensures(encode_webp, (channels, width, height, samples), result),
        call_ensures(encode_webp, (channels, width, height, samples), again),
    ensures
        result is Ok <==> 0 < width <= 16384 && 0 < height <= 16384,
        result is Ok ==> again is Ok && result->Ok_0@ == again->Ok_0@,
{
}

/// Gray takes one byte and colors three; alpha takes one more.
pub proof fn law_channels_are_counted(channels: Channels, count: u8)
    requires
        call_ensures(Channels::count, (channels,), count),
    ensures
        count == channels.spec_count(),
        channels == Channels::Luma ==> count == 1,
        channels == Channels::LumaAlpha ==> count == 1 + 1,
        channels == Channels::Rgb ==> count == 3,
        channels == Channels::Rgba ==> count == 3 + 1,
{
}

} // verus!
