//! Grayscale pictures: the screen and the pictures that are looked for on
//! it.

use vstd::prelude::*;

verus! {

/// The largest number of pixels a picture may have.
pub const MAX_PIXELS: u64 = 67_108_864;

/// A grayscale picture as a mathematical value: rows of pixels, top row
/// first, each row from left to right.
pub struct Bitmap {
    pub width: nat,
    pub height: nat,
    pub pixels: Seq<u8>,
}

impl Bitmap {
    /// There is one pixel value for each position, and not too many.
    pub open spec fn wf(self) -> bool {
        &&& self.pixels.len() == self.width * self.height
        &&& self.width * self.height <= MAX_PIXELS
    }

    /// The position lies inside the picture.
    pub open spec fn holds(self, x: int, y: int) -> bool {
        0 <= x < self.width && 0 <= y < self.height
    }

    /// The value of the pixel in column `x` of row `y`.
    pub open spec fn at(self, x: int, y: int) -> int {
        self.pixels[y * self.width + x] as int
    }

    /// A picture of the size of `t` fits on this one with its top-left
    /// corner at `(x, y)`.
    pub open spec fn fits(self, t: Bitmap, x: int, y: int) -> bool {
        0 <= x && 0 <= y && x + t.width <= self.width && y + t.height <= self.height
    }
}

/// The brightness of a colour: 0.2126 of its red, 0.7152 of its green and
/// 0.0722 of its blue, rounded down.
pub open spec fn luma(red: u8, green: u8, blue: u8) -> u8 {
    ((2126 * red + 7152 * green + 722 * blue) / 10000) as u8
}

/// The brightness of each pixel of a colour picture in which every pixel
/// takes four values: red, green, blue and opacity.
pub open spec fn luma_of_rgba(rgba: Seq<u8>) -> Seq<u8> {
    Seq::new(rgba.len() / 4, |k: int| luma(rgba[4 * k], rgba[4 * k + 1], rgba[4 * k + 2]))
}

/// The brightness of a colour.
pub fn to_luma(red: u8, green: u8, blue: u8) -> (l: u8)
    ensures
        l == luma(red, green, blue),
{
    let sum: u32 = 2126 * (red as u32) + 7152 * (green as u32) + 722 * (blue as u32);
    (sum / 10000) as u8
}

/// The value at position `i` after the first and the third of every four
/// values have changed places.
pub open spec fn swapped_at(values: Seq<u8>, i: int) -> u8 {
    if i % 4 == 0 && i + 2 < values.len() {
        values[i + 2]
    } else if i % 4 == 2 {
        values[i - 2]
    } else {
        values[i]
    }
}

/// Turns a colour picture stored as blue, green, red and opacity of each
/// pixel into one stored as red, green, blue and opacity. Values after the
/// last whole pixel stay as they are.
pub fn bgra_to_rgba(buffer: &mut Vec<u8>)
    ensures
        final(buffer)@.len() == old(buffer)@.len(),
        forall|i: int|
            0 <= i < old(buffer)@.len() - old(buffer)@.len() % 4 ==> #[trigger] final(buffer)@[i]
                == swapped_at(old(buffer)@, i),
        forall|i: int|
            old(buffer)@.len() - old(buffer)@.len() % 4 <= i < old(buffer)@.len()
                ==> #[trigger] final(buffer)@[i] == old(buffer)@[i],
{
    let n = buffer.len();
    let ghost before = buffer@;
    let mut i: usize = 0;
    while n - i >= 4
        invariant
            n == before.len(),
            buffer@.len() == n,
            i <= n,
            i % 4 == 0,
            forall|k: int| 0 <= k < i ==> #[trigger] buffer@[k] == swapped_at(before, k),
            forall|k: int| i <= k < n ==> #[trigger] buffer@[k] == before[k],
        decreases n - i,
    {
        let blue = buffer[i];
        let red = buffer[i + 2];
        buffer[i] = red;
        buffer[i + 2] = blue;
        i = i + 4;
    }
}

/// A grayscale picture.
pub struct GrayscaleBuffer {
    width: u32,
    height: u32,
    pixels: Vec<u8>,
}

impl View for GrayscaleBuffer {
    type V = Bitmap;

    closed spec fn view(&self) -> Bitmap {
        Bitmap { width: self.width as nat, height: self.height as nat, pixels: self.pixels@ }
    }
}

/// The index of a position inside a picture is below the number of pixels.
pub proof fn lemma_index_in_range(width: int, height: int, x: int, y: int)
    requires
        0 <= x < width,
        0 <= y < height,
    ensures
        0 <= y * width + x < width * height,
{
    assert(y * width + x < width * height) by (nonlinear_arith)
        requires
            0 <= x < width,
            0 <= y < height,
    ;
    assert(0 <= y * width) by (nonlinear_arith)
        requires
            0 <= y,
            0 <= width,
    ;
}

impl GrayscaleBuffer {
    #[verifier::type_invariant]
    spec fn inv(self) -> bool {
        self@.wf()
    }

    /// A picture of `width` by `height` pixels, given row by row. `None` when
    /// the number of values is not `width * height` or the picture has more
    /// than `MAX_PIXELS` pixels.
    pub fn new(width: u32, height: u32, pixels: Vec<u8>) -> (r: Option<GrayscaleBuffer>)
        ensures
            r.is_some() <==> (pixels@.len() == width * height && width * height <= MAX_PIXELS),
            r.is_some() ==> r.unwrap()@ == (Bitmap {
                width: width as nat,
                height: height as nat,
                pixels: pixels@,
            }),
    {
        assert(width * height <= 0xffff_ffff * 0xffff_ffff) by (nonlinear_arith)
            requires
                0 <= width <= 0xffff_ffff,
                0 <= height <= 0xffff_ffff,
        ;
        let count: u64 = (width as u64) * (height as u64);
        if count <= MAX_PIXELS && pixels.len() as u64 == count {
            Some(GrayscaleBuffer { width, height, pixels })
        } else {
            None
        }
    }

    /// The grayscale picture of a colour picture given as red, green, blue
    /// and opacity of each pixel, row by row. `None` when the number of
    /// values is not four times `width * height` or the picture has more than
    /// `MAX_PIXELS` pixels.
    pub fn from_rgba(width: u32, height: u32, rgba: &Vec<u8>) -> (r: Option<GrayscaleBuffer>)
        ensures
            r.is_some() <==> (rgba@.len() == 4 * (width * height) && width * height
                <= MAX_PIXELS),
            r.is_some() ==> r.unwrap()@ == (Bitmap {
                width: width as nat,
                height: height as nat,
                pixels: luma_of_rgba(rgba@),
            }),
    {
        assert(width * height <= 0xffff_ffff * 0xffff_ffff) by (nonlinear_arith)
            requires
                0 <= width <= 0xffff_ffff,
                0 <= height <= 0xffff_ffff,
        ;
        let count: u64 = (width as u64) * (height as u64);
        if count > MAX_PIXELS || rgba.len() as u64 != 4 * count {
            return None;
        }
        let mut pixels: Vec<u8> = Vec::new();
        let mut i: usize = 0;
        while i < count as usize
            invariant
                i <= count,
                count <= MAX_PIXELS,
                rgba@.len() == 4 * count,
                pixels@.len() == i,
                forall|k: int| 0 <= k < i ==> #[trigger] pixels@[k] == luma(rgba@[4 * k], rgba@[4 * k
                        + 1], rgba@[4 * k + 2]),
            decreases count - i,
        {
            let l = to_luma(rgba[4 * i], rgba[4 * i + 1], rgba[4 * i + 2]);
            pixels.push(l);
            i = i + 1;
        }
        assert(pixels@ =~= luma_of_rgba(rgba@));
        Some(GrayscaleBuffer { width, height, pixels })
    }

    /// The number of columns.
    pub fn width(&self) -> (w: u32)
        ensures
            w == self@.width,
            self@.wf(),
    {
        proof {
            use_type_invariant(self);
        }
        self.width
    }

    /// The number of rows.
    pub fn height(&self) -> (h: u32)
        ensures
            h == self@.height,
            self@.wf(),
    {
        proof {
            use_type_invariant(self);
        }
        self.height
    }

    /// The value of the pixel in column `x` of row `y`.
    pub fn get_pixel(&self, x: u32, y: u32) -> (p: u8)
        requires
            self@.holds(x as int, y as int),
        ensures
            p == self@.at(x as int, y as int),
            self@.wf(),
    {
        proof {
            use_type_invariant(self);
            lemma_index_in_range(self.width as int, self.height as int, x as int, y as int);
        }
        let index: usize = (y as usize) * (self.width as usize) + (x as usize);
        self.pixels[index]
    }
}

/// `image::imageops::resize` with the Lanczos filter of window 3, on a
/// grayscale picture: a picture of the asked width and height. Its pixel
/// values come out of floating-point arithmetic and nothing is claimed of
/// them. The bounds keep the buffers that the function allocates within what
/// a vector can hold.
#[verifier::external_body]
pub(crate) fn resample(template: &GrayscaleBuffer, width: u32, height: u32) -> (r: GrayscaleBuffer)
    requires
        template@.wf(),
        template@.width >= 1,
        template@.height >= 1,
        width >= 1,
        height >= 1,
        width * height <= MAX_PIXELS,
        2 * template@.width * height <= 3 * MAX_PIXELS,
    ensures
        r@.wf(),
        r@.width == width,
        r@.height == height,
{
    let source = image::ImageBuffer::<image::Luma<u8>, &[u8]>::from_raw(
        template.width,
        template.height,
        template.pixels.as_slice(),
    ).unwrap();
    let filter = image::imageops::FilterType::Lanczos3;
    let resized = image::imageops::resize(&source, width, height, filter);
    GrayscaleBuffer { width, height, pixels: resized.into_raw() }
}

} // verus!
