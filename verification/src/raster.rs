//! Images as rows of pixels.

use vstd::prelude::*;

verus! {

/// A color with its opacity.
#[derive(Clone, Copy, Debug, PartialEq, Eq, Structural)]
pub struct Rgba {
    pub r: u8,
    pub g: u8,
    pub b: u8,
    pub a: u8,
}

impl Rgba {
    /// Opaque white.
    pub open spec fn spec_white() -> Rgba {
        Rgba { r: 255, g: 255, b: 255, a: 255 }
    }

    /// Opaque white.
    pub fn white() -> (color: Rgba)
        ensures
            color == Rgba::spec_white(),
    {
        Rgba { r: 255, g: 255, b: 255, a: 255 }
    }
}

/// An image of `width` by `height` pixels, row by row from the top.
#[derive(Debug)]
pub struct Image<T> {
    width: u32,
    height: u32,
    pixels: Vec<T>,
}

/// A grayscale image.
pub type GrayImage = Image<u8>;

/// A color image.
pub type RgbaImage = Image<Rgba>;

/// What an image shows.
#[verifier::ext_equal]
pub struct ImageView<T> {
    pub width: nat,
    pub height: nat,
    pub pixels: Seq<T>,
}

impl<T> ImageView<T> {
    /// There is one pixel for each place.
    pub open spec fn wf(self) -> bool {
        &&& self.width <= u32::MAX
        &&& self.height <= u32::MAX
        &&& self.pixels.len() == self.width * self.height
    }

    /// The place is in the image.
    pub open spec fn has(self, x: int, y: int) -> bool {
        0 <= x < self.width && 0 <= y < self.height
    }

    /// The pixel in column `x` of row `y`.
    pub open spec fn at(self, x: int, y: int) -> T {
        self.pixels[y * self.width + x]
    }
}

impl<T> View for Image<T> {
    type V = ImageView<T>;

    closed spec fn view(&self) -> ImageView<T> {
        ImageView {
            width: self.width as nat,
            height: self.height as nat,
            pixels: self.pixels@,
        }
    }
}

/// The pixels of a row lie one after another, in front of the next row's.
pub(crate) proof fn lemma_place(width: int, height: int, x: int, y: int)
    requires
        0 <= x < width,
        0 <= y < height,
    ensures
        0 <= y * width <= y * width + x < width * height,
        y * width + width <= width * height,
        (y + 1) * width == y * width + width,
{
    assert(0 <= y * width) by (nonlinear_arith)
        requires
            0 <= y,
            0 < width,
    ;
    assert(y * width + width <= width * height) by (nonlinear_arith)
        requires
            0 <= y < height,
            0 < width,
    ;
    assert((y + 1) * width == y * width + width) by (nonlinear_arith);
}

impl<T> Image<T> {
    #[verifier::type_invariant]
    spec fn inv(self) -> bool {
        self.pixels@.len() == self.width * self.height
    }

    /// An image of the given pixels, row by row from the top. `None` if their
    /// number is not that of an image of that size.
    pub fn from_pixels(width: u32, height: u32, pixels: Vec<T>) -> (image: Option<Image<T>>)
        ensures
            match image {
                Some(image) => pixels@.len() == width * height && image@ == (ImageView {
                    width: width as nat,
                    height: height as nat,
                    pixels: pixels@,
                }),
                None => pixels@.len() != width * height,
            },
    {
        assert(width * height <= u64::MAX) by (nonlinear_arith);
        let places: u64 = width as u64 * height as u64;
        if pixels.len() as u64 == places {
            Some(Image { width, height, pixels })
        } else {
            None
        }
    }

    /// The pixels of this image, row by row from the top.
    pub fn into_pixels(self) -> (pixels: Vec<T>)
        ensures
            pixels@ == self@.pixels,
    {
        self.pixels
    }

    pub fn width(&self) -> (width: u32)
        ensures
            width == self@.width,
            self@.wf(),
    {
        proof {
            use_type_invariant(&*self);
        }
        self.width
    }

    pub fn height(&self) -> (height: u32)
        ensures
            height == self@.height,
            self@.wf(),
    {
        proof {
            use_type_invariant(&*self);
        }
        self.height
    }

    /// The pixel in column `x` of row `y`.
    pub fn pixel(&self, x: u32, y: u32) -> (pixel: &T)
        requires
            self@.has(x as int, y as int),
        ensures
            *pixel == self@.at(x as int, y as int),
    {
        proof {
            use_type_invariant(&*self);
            lemma_place(self.width as int, self.height as int, x as int, y as int);
            assert(self.pixels@.len() == self.pixels.len());
        }
        &self.pixels[y as usize * self.width as usize + x as usize]
    }
}

/// An image is made of its pixels row by row from the top: the pixel in column `x`
/// of row `y` is the one behind `y` whole rows and `x` further pixels. There is an
/// image exactly where the pixels fill all rows.
pub proof fn law_image_is_its_pixels<T>(
    width: u32,
    height: u32,
    pixels: Vec<T>,
    made: Option<Image<T>>,
)
    requires
        call_ensures(Image::<T>::from_pixels, (width, height, pixels), made),
    ensures
        made is Some <==> pixels@.len() == width * height,
        made matches Some(image) ==> {
            &&& forall|w: u32| #[trigger] call_ensures(Image::<T>::width, (&image,), w) ==> w == width
            &&& forall|h: u32| #[trigger]
                call_ensures(Image::<T>::height, (&image,), h) ==> h == height
            &&& forall|p: Vec<T>| #[trigger]
                call_ensures(Image::<T>::into_pixels, (image,), p) ==> p@ == pixels@
            &&& forall|x: u32, y: u32, pixel: &T|
                x < width && y < height && #[trigger] call_ensures(
                    Image::<T>::pixel,
                    (&image, x, y),
                    pixel,
                ) ==> *pixel == pixels@[y * width + x]
        },
{
}

/// What an image shows is what it hands out: its size, and the pixels row by row.
pub proof fn law_image_shows_its_pixels<T>(image: &Image<T>, x: u32, y: u32, pixel: &T)
    requires
        call_ensures(Image::<T>::pixel, (image, x, y), pixel),
        x < image@.width,
        y < image@.height,
    ensures
        *pixel == image@.pixels[y * image@.width + x],
        forall|w: u32| #[trigger]
            call_ensures(Image::<T>::width, (image,), w) ==> w == image@.width,
        forall|h: u32| #[trigger]
            call_ensures(Image::<T>::height, (image,), h) ==> h == image@.height,
{
}

/// Opaque white has every channel at its greatest.
pub proof fn law_white_is_bright_and_opaque(color: Rgba)
    requires
        call_ensures(Rgba::white, (), color),
    ensures
        color.r == 255 && color.g == 255 && color.b == 255 && color.a == 255,
        color == Rgba::spec_white(),
{
}

} // verus!
