//! The grid of pixels that a render fills.

use crate::units::color::{black, QuantColor};
use vstd::prelude::*;

verus! {

/// A grid of colors, `width` columns by `height` rows.
#[derive(Debug)]
pub struct Canvas {
    /// Canvas width
    pub width: usize,
    /// Canvas height
    pub height: usize,
    /// The rows from top to bottom, each from left to right
    pub pixels: Vec<Vec<QuantColor>>,
}

/// A run of rows of a canvas.
pub struct CanvasPart {
    pub size: usize,
    pub pixels: Vec<Vec<QuantColor>>,
}

impl Canvas {
    /// The grid is as large as `width` and `height` say.
    pub open spec fn wf(&self) -> bool {
        &&& self.pixels.len() == self.height
        &&& forall|y: int| 0 <= y < self.height ==> (#[trigger] self.pixels[y]).len() == self.width
    }

    /// The color in column `x` of row `y`.
    pub open spec fn pixel(&self, x: int, y: int) -> QuantColor {
        self.pixels[y][x]
    }

    /// A canvas of the given size with every pixel black.
    pub fn new(width: usize, height: usize) -> (canvas: Canvas)
        ensures
            canvas.wf(),
            canvas.width == width,
            canvas.height == height,
            forall|x: int, y: int|
                0 <= x < width && 0 <= y < height ==> canvas.pixel(x, y) == black(),
    {
        let mut pixels: Vec<Vec<QuantColor>> = Vec::new();
        let mut y: usize = 0;
        while y < height
            invariant
                y <= height,
                pixels.len() == y,
                forall|j: int| 0 <= j < y ==> (#[trigger] pixels[j]).len() == width,
                forall|i: int, j: int| 0 <= i < width && 0 <= j < y ==> pixels[j][i] == black(),
            decreases height - y,
        {
            let mut row: Vec<QuantColor> = Vec::new();
            let mut x: usize = 0;
            while x < width
                invariant
                    x <= width,
                    row.len() == x,
                    forall|i: int| 0 <= i < x ==> row[i] == black(),
                decreases width - x,
            {
                row.push(QuantColor::new(0, 0, 0));
                x += 1;
            }
            pixels.push(row);
            y += 1;
        }
        Canvas { width, height, pixels }
    }

    /// Sets the pixel in column `x` of row `y`, and no other.
    pub fn write_pixel(&mut self, x: usize, y: usize, color: QuantColor)
        requires
            old(self).wf(),
            x < old(self).width,
            y < old(self).height,
        ensures
            final(self).wf(),
            final(self).width == old(self).width,
            final(self).height == old(self).height,
            final(self).pixel(x as int, y as int) == color,
            forall|i: int, j: int|
                0 <= i < old(self).width && 0 <= j < old(self).height && (i != x || j != y)
                    ==> final(self).pixel(i, j) == old(self).pixel(i, j),
    {
        self.pixels[y][x] = color;
    }

    /// The pixel in column `x` of row `y`.
    pub fn get_pixel(&self, x: usize, y: usize) -> (color: QuantColor)
        requires
            self.wf(),
            x < self.width,
            y < self.height,
        ensures
            color == self.pixel(x as int, y as int),
    {
        self.pixels[y][x]
    }
}

/// ASCII `0`; the other digits follow it.
pub const DIGIT_0: u8 = 48;

/// ASCII `2`
pub const DIGIT_2: u8 = 50;

/// ASCII `3`
pub const DIGIT_3: u8 = 51;

/// ASCII `5`
pub const DIGIT_5: u8 = 53;

/// ASCII `-`
pub const MINUS: u8 = 45;

/// ASCII space
pub const SPACE: u8 = 32;

/// ASCII line feed
pub const LINE_FEED: u8 = 10;

/// ASCII `P`
pub const LETTER_P: u8 = 80;

/// The decimal digits of `n` in ASCII, without leading zeros.
pub open spec fn digits(n: nat) -> Seq<u8>
    decreases n,
{
    if n < 10 {
        seq![(DIGIT_0 + n) as u8]
    } else {
        digits(n / 10).push((DIGIT_0 + n % 10) as u8)
    }
}

/// `v` in decimal notation in ASCII, with a minus sign before a negative one.
pub open spec fn decimal(v: int) -> Seq<u8> {
    if v < 0 {
        seq![MINUS] + digits((-v) as nat)
    } else {
        digits(v as nat)
    }
}

/// The head of a plain PPM file: the magic number, the two sizes with the
/// height first, and the greatest channel value, a line each.
pub open spec fn ppm_header(width: int, height: int) -> Seq<u8> {
    seq![LETTER_P, DIGIT_3, LINE_FEED] + decimal(height) + seq![SPACE] + decimal(width) + seq![
        LINE_FEED,
        DIGIT_2,
        DIGIT_5,
        DIGIT_5,
        LINE_FEED,
    ]
}

/// One pixel in a plain PPM file: its three channels, a space behind each.
pub open spec fn ppm_pixel(c: QuantColor) -> Seq<u8> {
    decimal(c.r as int) + seq![SPACE] + decimal(c.g as int) + seq![SPACE] + decimal(c.b as int)
        + seq![SPACE]
}

/// The first `n` pixels of a row in a plain PPM file.
pub open spec fn ppm_pixels(row: Seq<QuantColor>, n: int) -> Seq<u8>
    decreases n,
{
    if n <= 0 {
        Seq::empty()
    } else {
        ppm_pixels(row, n - 1) + ppm_pixel(row[n - 1])
    }
}

/// The first `n` rows in a plain PPM file, each closed by a line feed.
pub open spec fn ppm_rows(rows: Seq<Vec<QuantColor>>, n: int) -> Seq<u8>
    decreases n,
{
    if n <= 0 {
        Seq::empty()
    } else {
        ppm_rows(rows, n - 1) + ppm_pixels(rows[n - 1]@, rows[n - 1]@.len() as int) + seq![LINE_FEED]
    }
}

/// Appends the decimal digits of `n`.
fn push_digits(out: &mut Vec<u8>, n: u64)
    ensures
        final(out)@ == old(out)@ + digits(n as nat),
    decreases n,
{
    if n >= 10 {
        push_digits(out, n / 10);
    }
    let digit: u8 = (n % 10) as u8;
    out.push(DIGIT_0 + digit);
    assert(final(out)@ =~= old(out)@ + digits(n as nat));
}

/// Appends `v` in decimal notation.
fn push_decimal(out: &mut Vec<u8>, v: i64)
    ensures
        final(out)@ == old(out)@ + decimal(v as int),
{
    if v < 0 {
        out.push(MINUS);
        let magnitude: u64 = ((-(v + 1)) as u64) + 1;
        push_digits(out, magnitude);
        assert(final(out)@ =~= old(out)@ + decimal(v as int));
    } else {
        push_digits(out, v as u64);
    }
}

impl Canvas {
    /// This canvas as a plain PPM file.
    pub open spec fn ppm_text(&self) -> Seq<u8> {
        ppm_header(self.width as int, self.height as int) + ppm_rows(
            self.pixels@,
            self.pixels@.len() as int,
        )
    }

    /// Appends this canvas as a plain PPM file to `out`, see
    /// [`Canvas::ppm_text`].
    pub fn write_ppm(&self, out: &mut Vec<u8>)
        ensures
            final(out)@ == old(out)@ + self.ppm_text(),
    {
        out.push(LETTER_P);
        out.push(DIGIT_3);
        out.push(LINE_FEED);
        push_digits(out, self.height as u64);
        out.push(SPACE);
        push_digits(out, self.width as u64);
        out.push(LINE_FEED);
        out.push(DIGIT_2);
        out.push(DIGIT_5);
        out.push(DIGIT_5);
        out.push(LINE_FEED);
        assert(out@ =~= old(out)@ + ppm_header(self.width as int, self.height as int));
        let mut y: usize = 0;
        while y < self.pixels.len()
            invariant
                y <= self.pixels.len(),
                out@ == old(out)@ + ppm_header(self.width as int, self.height as int) + ppm_rows(
                    self.pixels@,
                    y as int,
                ),
            decreases self.pixels.len() - y,
        {
            let row = &self.pixels[y];
            let ghost start = out@;
            let mut x: usize = 0;
            while x < row.len()
                invariant
                    x <= row.len(),
                    out@ == start + ppm_pixels(row@, x as int),
                decreases row.len() - x,
            {
                let ghost at = out@;
                let pixel = row[x];
                push_decimal(out, pixel.r);
                out.push(SPACE);
                push_decimal(out, pixel.g);
                out.push(SPACE);
                push_decimal(out, pixel.b);
                out.push(SPACE);
                assert(out@ =~= at + ppm_pixel(pixel));
                assert(out@ =~= start + ppm_pixels(row@, x + 1));
                x += 1;
            }
            out.push(LINE_FEED);
            assert(out@ =~= old(out)@ + ppm_header(self.width as int, self.height as int)
                + ppm_rows(self.pixels@, y + 1));
            y += 1;
        }
    }
}

/// An image buffer of the `image` crate with three channels of eight bits
/// for every pixel.
#[verifier::external_body]
pub struct RgbBuffer {
    inner: image::RgbImage,
}

/// The pixels of an image buffer: for every column `x` and row `y` of the
/// image, the red, green and blue value at `(x, y)`.
pub uninterp spec fn image_pixels(buffer: RgbBuffer) -> Map<(int, int), (u8, u8, u8)>;

/// The width and the height of an image buffer.
pub uninterp spec fn image_size(buffer: RgbBuffer) -> (nat, nat);

/// The places of an image that is `width` wide and `height` high.
pub open spec fn grid(width: int, height: int) -> Set<(int, int)> {
    Set::new(|p: (int, int)| 0 <= p.0 < width && 0 <= p.1 < height)
}

/// Where the pixel at `(x, y)` begins among the bytes of an image that is
/// `width` wide.
pub open spec fn offset(width: int, x: int, y: int) -> int {
    3 * (y * width + x)
}

/// The three bytes of `raw` from `at` on are the channels of `value`.
pub open spec fn holds_at(raw: Seq<u8>, at: int, value: (u8, u8, u8)) -> bool {
    &&& 0 <= at
    &&& at + 2 < raw.len()
    &&& raw[at] == value.0
    &&& raw[at + 1] == value.1
    &&& raw[at + 2] == value.2
}

/// `image::ImageBuffer::new`: a buffer of the given size in which every
/// channel of every pixel is zero. The buffer's length in bytes, three for
/// each pixel, must not exceed what a vector can hold.
#[verifier::external_body]
fn new_image(width: u32, height: u32) -> (buffer: RgbBuffer)
    requires
        3 * width * height <= isize::MAX,
    ensures
        image_size(buffer) == (width as nat, height as nat),
        image_pixels(buffer).dom() == grid(width as int, height as int),
        forall|p: (int, int)|
            grid(width as int, height as int).contains(p) ==> image_pixels(buffer)[p] == (
                0u8,
                0u8,
                0u8,
            ),
{
    RgbBuffer { inner: image::ImageBuffer::new(width, height) }
}

/// `image::ImageBuffer::put_pixel`: sets the pixel at `(x, y)`, which must lie
/// in the image, and no other.
#[verifier::external_body]
fn put_pixel(buffer: &mut RgbBuffer, x: u32, y: u32, r: u8, g: u8, b: u8)
    requires
        image_pixels(*old(buffer)).dom().contains((x as int, y as int)),
    ensures
        image_size(*final(buffer)) == image_size(*old(buffer)),
        image_pixels(*final(buffer)) == image_pixels(*old(buffer)).insert(
            (x as int, y as int),
            (r, g, b),
        ),
{
    buffer.inner.put_pixel(x, y, image::Rgb([r, g, b]))
}

/// `image::ImageBuffer::into_raw`: the bytes of the buffer. The pixels stand
/// row after row, each row from left to right, each pixel as its red, green
/// and blue byte, so the pixel at `(x, y)` begins at byte `3 * (y * width + x)`.
#[verifier::external_body]
fn into_raw(buffer: RgbBuffer) -> (raw: Vec<u8>)
    ensures
        raw.len() == 3 * image_size(buffer).0 * image_size(buffer).1,
        forall|x: int, y: int|
            image_pixels(buffer).dom().contains((x, y)) ==> holds_at(
                raw@,
                offset(image_size(buffer).0 as int, x, y),
                #[trigger] image_pixels(buffer)[(x, y)],
            ),
{
    buffer.inner.into_raw()
}

/// The low eight bits of a channel.
pub open spec fn low_byte(v: i64) -> u8 {
    v as u8
}

impl Canvas {
    /// What an image of this canvas holds at `(x, y)`: the low byte of each
    /// channel of the pixel there. The last column and the last row of the
    /// image are not drawn and stay black.
    pub open spec fn image_value(&self, x: int, y: int) -> (u8, u8, u8) {
        if x < self.width - 1 && y < self.height - 1 {
            (
                low_byte(self.pixel(x, y).r),
                low_byte(self.pixel(x, y).g),
                low_byte(self.pixel(x, y).b),
            )
        } else {
            (0u8, 0u8, 0u8)
        }
    }

    /// What the image holds at `(x, y)` while it is drawn column by column,
    /// once the columns before `column` are done and, of that column, the
    /// rows before `row`.
    pub open spec fn drawn(&self, x: int, y: int, column: int, row: int) -> (u8, u8, u8) {
        if x < column || (x == column && y < row) {
            self.image_value(x, y)
        } else {
            (0u8, 0u8, 0u8)
        }
    }

    /// The bytes of an image with this canvas's size and pixels, see
    /// [`Canvas::image_value`]: row after row, each row from left to right,
    /// each pixel as its red, green and blue byte. The canvas must have a
    /// column and a row, and its sizes must be within what an image buffer can
    /// have.
    pub fn to_rgb(&self) -> (raw: Vec<u8>)
        requires
            self.wf(),
            1 <= self.width <= u32::MAX,
            1 <= self.height <= u32::MAX,
            3 * self.width * self.height <= isize::MAX,
        ensures
            raw.len() == 3 * self.width * self.height,
            forall|x: int, y: int|
                0 <= x < self.width && 0 <= y < self.height ==> holds_at(
                    raw@,
                    offset(self.width as int, x, y),
                    #[trigger] self.image_value(x, y),
                ),
    {
        let mut img = new_image(self.width as u32, self.height as u32);
        let mut column: usize = 0;
        while column < self.width - 1
            invariant
                self.wf(),
                1 <= self.width <= u32::MAX,
                1 <= self.height <= u32::MAX,
                column <= self.width - 1,
                image_size(img) == (self.width as nat, self.height as nat),
                image_pixels(img).dom() == grid(self.width as int, self.height as int),
                forall|x: int, y: int|
                    0 <= x < self.width && 0 <= y < self.height ==> #[trigger] image_pixels(
                        img,
                    )[(x, y)] == self.drawn(x, y, column as int, 0),
            decreases self.width - 1 - column,
        {
            let mut row: usize = 0;
            while row < self.height - 1
                invariant
                    self.wf(),
                    1 <= self.width <= u32::MAX,
                    1 <= self.height <= u32::MAX,
                    column < self.width - 1,
                    row <= self.height - 1,
                    image_size(img) == (self.width as nat, self.height as nat),
                    image_pixels(img).dom() == grid(self.width as int, self.height as int),
                    forall|x: int, y: int|
                        0 <= x < self.width && 0 <= y < self.height ==> #[trigger] image_pixels(
                            img,
                        )[(x, y)] == self.drawn(x, y, column as int, row as int),
                decreases self.height - 1 - row,
            {
                let pixel = self.pixels[row][column];
                let r: u8 = #[verifier::truncate] (pixel.r as u8);
                let g: u8 = #[verifier::truncate] (pixel.g as u8);
                let b: u8 = #[verifier::truncate] (pixel.b as u8);
                assert(grid(self.width as int, self.height as int).contains(
                    (column as int, row as int),
                ));
                put_pixel(&mut img, column as u32, row as u32, r, g, b);
                row += 1;
            }
            column += 1;
        }
        let raw = into_raw(img);
        assert forall|x: int, y: int| 0 <= x < self.width && 0 <= y < self.height implies holds_at(
            raw@,
            offset(self.width as int, x, y),
            #[trigger] self.image_value(x, y),
        ) by {
            assert(grid(self.width as int, self.height as int).contains((x, y)));
            assert(image_pixels(img)[(x, y)] == self.image_value(x, y));
        }
        raw
    }
}

} // verus!
