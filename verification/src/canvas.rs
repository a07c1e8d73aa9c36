//! Pixel buffers: four bytes for each pixel, row by row, with premultiplied alpha.

use crate::blend::Rgba;
use image::imageops::FilterType;
use image::{DynamicImage, ImageBuffer};
use resvg::tiny_skia::{Pixmap, PixmapPaint, Transform};
use tiny_skia_path::IntSize;
use vstd::prelude::*;

verus! {

/// The largest width and the largest height that a pixel buffer may have.
pub const MAX_SIDE: u32 = 0x7fff;

/// A pixel buffer.
#[derive(Debug)]
pub struct Canvas {
    pub width: u32,
    pub height: u32,
    pub data: Vec<u8>,
}

/// The colour of a transparent pixel.
pub open spec fn transparent() -> Rgba {
    Rgba { red: 0, green: 0, blue: 0, alpha: 0 }
}

/// The colour of pixel `i` in the bytes of a buffer.
pub open spec fn pixel_of(data: Seq<u8>, i: int) -> Rgba {
    Rgba { red: data[4 * i], green: data[4 * i + 1], blue: data[4 * i + 2], alpha: data[4 * i + 3] }
}

/// Channel `k` of a colour, in the order of its bytes in a buffer.
pub open spec fn channel(colour: Rgba, k: int) -> u8 {
    if k == 0 {
        colour.red
    } else if k == 1 {
        colour.green
    } else if k == 2 {
        colour.blue
    } else {
        colour.alpha
    }
}

/// The bytes of a buffer of `count` pixels with the given colours.
pub open spec fn bytes_of(count: int, colours: spec_fn(int) -> Rgba) -> Seq<u8> {
    Seq::new((4 * count) as nat, |j: int| channel(colours(j / 4), j % 4))
}

/// Bytes whose pixels have the given colours are the bytes of those colours.
pub proof fn lemma_bytes_of(data: Seq<u8>, count: int, colours: spec_fn(int) -> Rgba)
    requires
        0 <= count,
        data.len() == 4 * count,
        forall|i: int| 0 <= i < count ==> #[trigger] pixel_of(data, i) == colours(i),
    ensures
        data == bytes_of(count, colours),
{
    assert forall|j: int| 0 <= j < 4 * count implies data[j] == #[trigger] bytes_of(
        count,
        colours,
    )[j] by {
        let i = j / 4;
        assert(pixel_of(data, i) == colours(i));
    }
    assert(data =~= bytes_of(count, colours));
}

/// A buffer whose sides are such as a pixel buffer may have has no more pixels than a
/// thirty-two-bit number counts, four bytes each.
pub proof fn lemma_pixel_count(width: u32, height: u32)
    requires
        1 <= width <= MAX_SIDE,
        1 <= height <= MAX_SIDE,
    ensures
        1 <= width * height <= 0x7fff * 0x7fff,
{
    assert(1 <= width * height <= 0x7fff * 0x7fff) by (nonlinear_arith)
        requires
            1 <= width <= 0x7fff,
            1 <= height <= 0x7fff,
    ;
}

impl Canvas {
    /// Whether the buffer has a size, no side above the largest, and four bytes for each
    /// pixel.
    pub open spec fn wf(&self) -> bool {
        &&& 1 <= self.width <= MAX_SIDE
        &&& 1 <= self.height <= MAX_SIDE
        &&& self.data@.len() == 4 * (self.width * self.height)
    }

    /// The number of pixels.
    pub open spec fn count(&self) -> int {
        self.width * self.height
    }

    /// The colour of pixel `i`, counted row by row.
    pub open spec fn pixel(&self, i: int) -> Rgba {
        pixel_of(self.data@, i)
    }

    /// Whether the two buffers have the same size.
    pub open spec fn same_size(&self, other: &Canvas) -> bool {
        self.width == other.width && self.height == other.height
    }

    /// A buffer of the given size in which every pixel is transparent; none where the size
    /// is not one that a buffer may have.
    pub fn new(width: u32, height: u32) -> (res: Option<Canvas>)
        ensures
            (1 <= width <= MAX_SIDE && 1 <= height <= MAX_SIDE) ==> res is Some,
            !(1 <= width <= MAX_SIDE && 1 <= height <= MAX_SIDE) ==> res is None,
            res matches Some(c) ==> c.wf() && c.width == width && c.height == height
                && forall|i: int| 0 <= i < c.data@.len() ==> c.data@[i] == 0,
    {
        if width < 1 || width > MAX_SIDE || height < 1 || height > MAX_SIDE {
            return None;
        }
        proof {
            lemma_pixel_count(width, height);
        }
        let count: u32 = width * height;
        let size: usize = 4 * (count as usize);
        let data: Vec<u8> = vec![0u8; size];
        Some(Canvas { width, height, data })
    }

    /// A buffer of the given size over the given bytes; none where the size is not one that a
    /// buffer may have, or the bytes are not four for each pixel.
    pub fn from_bytes(width: u32, height: u32, data: Vec<u8>) -> (res: Option<Canvas>)
        ensures
            (1 <= width <= MAX_SIDE && 1 <= height <= MAX_SIDE && data@.len() == 4 * (width
                * height)) ==> res is Some,
            !(1 <= width <= MAX_SIDE && 1 <= height <= MAX_SIDE && data@.len() == 4 * (width
                * height)) ==> res is None,
            res matches Some(c) ==> c.wf() && c.width == width && c.height == height && c.data@
                == data@,
    {
        if width < 1 || width > MAX_SIDE || height < 1 || height > MAX_SIDE {
            return None;
        }
        proof {
            lemma_pixel_count(width, height);
        }
        let count: u32 = width * height;
        if data.len() != 4 * (count as usize) {
            return None;
        }
        Some(Canvas { width, height, data })
    }

    /// The number of pixels.
    pub fn pixel_count(&self) -> (res: usize)
        requires
            self.wf(),
        ensures
            res == self.count(),
            4 * res == self.data@.len(),
    {
        proof {
            lemma_pixel_count(self.width, self.height);
        }
        (self.width * self.height) as usize
    }

    /// The colour of pixel `i`.
    pub fn get_pixel(&self, i: usize) -> (res: Rgba)
        requires
            self.wf(),
            i < self.count(),
        ensures
            res == self.pixel(i as int),
    {
        proof {
            lemma_pixel_count(self.width, self.height);
        }
        Rgba {
            red: self.data[4 * i],
            green: self.data[4 * i + 1],
            blue: self.data[4 * i + 2],
            alpha: self.data[4 * i + 3],
        }
    }

    /// Gives pixel `i` a colour.
    pub fn put_pixel(&mut self, i: usize, colour: Rgba)
        requires
            old(self).wf(),
            i < old(self).count(),
        ensures
            final(self).wf(),
            final(self).same_size(old(self)),
            final(self).pixel(i as int) == colour,
            forall|j: int| 0 <= j < old(self).count() && j != i ==> final(self).pixel(j) == old(
                self,
            ).pixel(j),
    {
        proof {
            lemma_pixel_count(self.width, self.height);
        }
        self.data.set(4 * i, colour.red);
        self.data.set(4 * i + 1, colour.green);
        self.data.set(4 * i + 2, colour.blue);
        self.data.set(4 * i + 3, colour.alpha);
    }
}

/// What `resize` of the image crate, with its `CatmullRom` filter, makes of the bytes of an
/// image of `width` by `height` pixels when it is brought to `new_width` by `new_height`.
pub uninterp spec fn resized_bytes(
    data: Seq<u8>,
    width: u32,
    height: u32,
    new_width: u32,
    new_height: u32,
) -> Seq<u8>;

/// What `draw_pixmap` of tiny-skia, with its default paint and no transform or clip, leaves
/// in a buffer of `width` by `height` pixels after it has drawn an image of `image_width` by
/// `image_height` pixels with its corner at `x`, `y`.
pub uninterp spec fn drawn_bytes(
    data: Seq<u8>,
    width: u32,
    height: u32,
    x: i32,
    y: i32,
    image: Seq<u8>,
    image_width: u32,
    image_height: u32,
) -> Seq<u8>;

/// Calls `DynamicImage::resize_exact` of the image crate with the `CatmullRom` filter, on
/// the buffer taken as an image of four eight-bit channels. Claimed of it, as its source
/// shows: the result has the size asked for, with four bytes for each pixel, and its bytes
/// are a function of the image's bytes and the two sizes, which goes by the name
/// `resized_bytes`. The precondition keeps the sizes to those of pixel buffers, for which the
/// buffers that it allocates can be had.
#[verifier::external_body]
pub(crate) fn resize_exact(image: &Canvas, new_width: u32, new_height: u32) -> (res: Canvas)
    requires
        image.wf(),
        1 <= new_width <= MAX_SIDE,
        1 <= new_height <= MAX_SIDE,
    ensures
        res.wf(),
        res.width == new_width,
        res.height == new_height,
        res.data@ == resized_bytes(image.data@, image.width, image.height, new_width, new_height),
{
    let buffer = ImageBuffer::from_vec(image.width, image.height, image.data.clone()).unwrap();
    let resized = DynamicImage::ImageRgba8(buffer).resize_exact(
        new_width,
        new_height,
        FilterType::CatmullRom,
    );
    Canvas { width: new_width, height: new_height, data: resized.into_bytes() }
}

/// Calls `Pixmap::draw_pixmap` of tiny-skia with its default paint, no transform and no
/// clip: the image is laid over the buffer with its corner at `x`, `y`. Claimed of it, as its
/// source shows: the buffer keeps its size, and its bytes afterwards are a function of its
/// bytes before, the image's bytes, the sizes and the corner, which goes by the name
/// `drawn_bytes`. The call panics where the corner plus the image's size is beyond what an
/// `i32` holds: the precondition leaves that out.
#[verifier::external_body]
pub(crate) fn draw_pixmap(canvas: &mut Canvas, x: i32, y: i32, image: &Canvas)
    requires
        old(canvas).wf(),
        image.wf(),
        x + image.width <= i32::MAX,
        y + image.height <= i32::MAX,
    ensures
        final(canvas).wf(),
        final(canvas).same_size(old(canvas)),
        final(canvas).data@ == drawn_bytes(
            old(canvas).data@,
            old(canvas).width,
            old(canvas).height,
            x,
            y,
            image.data@,
            image.width,
            image.height,
        ),
{
    let size = IntSize::from_wh(canvas.width, canvas.height).unwrap();
    let mut target = Pixmap::from_vec(std::mem::take(&mut canvas.data), size).unwrap();
    let source_size = IntSize::from_wh(image.width, image.height).unwrap();
    let source = Pixmap::from_vec(image.data.clone(), source_size).unwrap();
    target.draw_pixmap(x, y, source.as_ref(), &PixmapPaint::default(), Transform::identity(), None);
    canvas.data = target.take();
}

/// Tells whether a buffer has a size, no side above the largest, and four bytes for each
/// pixel.
pub fn is_pixel_buffer(image: &Canvas) -> (res: bool)
    ensures
        res == image.wf(),
{
    if image.width < 1 || image.width > MAX_SIDE || image.height < 1 || image.height > MAX_SIDE {
        return false;
    }
    proof {
        lemma_pixel_count(image.width, image.height);
    }
    let count: usize = (image.width * image.height) as usize;
    image.data.len() == 4 * count
}

/// Why the bytes of a file gave no image.
#[derive(Clone, Copy, Debug, PartialEq, Eq, Structural)]
pub enum ImageError {
    /// The bytes are no image that can be decoded.
    Undecodable,
    /// The image has a side above the largest that a pixel buffer may have.
    TooLarge,
}

/// What `Pixmap::decode_png` of tiny-skia makes of the bytes of a file: the width, the
/// height and the bytes of the image, or nothing where it reports an error.
pub uninterp spec fn decoded_png(bytes: Seq<u8>) -> Option<(u32, u32, Seq<u8>)>;

/// Calls `Pixmap::decode_png` of tiny-skia. Claimed of it: whether it gives an image, and
/// that image's size and bytes, are a function of the file's bytes alone, which goes by the
/// name `decoded_png`. Nothing is claimed of the size or of the number of bytes.
#[verifier::external_body]
pub(crate) fn decode_png(bytes: &[u8]) -> (res: Option<Canvas>)
    ensures
        match res {
            Some(image) => decoded_png(bytes@) == Some((image.width, image.height, image.data@)),
            None => decoded_png(bytes@) is None,
        },
{
    let pixmap = Pixmap::decode_png(bytes).ok()?;
    Some(Canvas { width: pixmap.width(), height: pixmap.height(), data: pixmap.take() })
}

/// Whether bytes of the given size are those of a pixel buffer.
pub open spec fn is_buffer_size(width: u32, height: u32, data: Seq<u8>) -> bool {
    &&& 1 <= width <= MAX_SIDE
    &&& 1 <= height <= MAX_SIDE
    &&& data.len() == 4 * (width * height)
}

/// Takes what decoding the bytes of a file gave: the image, where there is one and it is a
/// pixel buffer.
pub fn accept_image(decoded: Option<Canvas>) -> (res: Result<Canvas, ImageError>)
    ensures
        match decoded {
            None => res == Err::<Canvas, ImageError>(ImageError::Undecodable),
            Some(image) => if image.wf() {
                res == Ok::<Canvas, ImageError>(image)
            } else {
                res == Err::<Canvas, ImageError>(ImageError::TooLarge)
            },
        },
{
    match decoded {
        None => Err(ImageError::Undecodable),
        Some(image) => if is_pixel_buffer(&image) {
            Ok(image)
        } else {
            Err(ImageError::TooLarge)
        },
    }
}

/// Decodes the bytes of an image file into a pixel buffer.
pub fn load_image(bytes: &[u8]) -> (res: Result<Canvas, ImageError>)
    ensures
        match decoded_png(bytes@) {
            None => res == Err::<Canvas, ImageError>(ImageError::Undecodable),
            Some((width, height, data)) => if is_buffer_size(width, height, data) {
                res matches Ok(image) && image.wf() && image.width == width && image.height
                    == height && image.data@ == data
            } else {
                res == Err::<Canvas, ImageError>(ImageError::TooLarge)
            },
        },
{
    accept_image(decode_png(bytes))
}

} // verus!
