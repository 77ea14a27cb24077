//! Finished pixels and their plain-text image: a `P3` line, the size, the
//! channel maximum, then one line per pixel, top row first.

use vstd::prelude::*;

verus! {

/// One pixel of the image, each channel between 0 and 255.
#[derive(Clone, Copy, Debug, PartialEq, Eq, Structural)]
pub struct Pixel {
    pub r: u8,
    pub g: u8,
    pub b: u8,
}

/// A scaled channel value cut to the range of a channel.
pub open spec fn channel_spec(scaled: int) -> int {
    if scaled < 0 {
        0
    } else if scaled > 255 {
        255
    } else {
        scaled
    }
}

/// Cuts a scaled channel value to the range from 0 to 255.
pub fn channel(scaled: i64) -> (level: u8)
    ensures
        level == channel_spec(scaled as int),
        0 <= scaled <= 255 ==> level == scaled,
{
    if scaled < 0 {
        0
    } else if scaled > 255 {
        255
    } else {
        scaled as u8
    }
}

/// The pixel of three scaled channel values.
pub fn pixel(r: i64, g: i64, b: i64) -> (p: Pixel)
    ensures
        p.r == channel_spec(r as int),
        p.g == channel_spec(g as int),
        p.b == channel_spec(b as int),
{
    Pixel { r: channel(r), g: channel(g), b: channel(b) }
}

/// The decimal digits of `n` in ASCII, most significant first, without
/// leading zeros.
pub open spec fn decimal(n: nat) -> Seq<u8>
    decreases n,
{
    if n < 10 {
        seq![(48 + n) as u8]
    } else {
        decimal(n / 10).push((48 + n % 10) as u8)
    }
}

/// The number that a sequence of ASCII digits writes.
pub open spec fn digits_value(digits: Seq<u8>) -> int
    decreases digits.len(),
{
    if digits.len() == 0 {
        0
    } else {
        10 * digits_value(digits.drop_last()) + (digits.last() - 48)
    }
}

/// The line that gives the image's size.
pub open spec fn size_line(width: nat, height: nat) -> Seq<u8> {
    decimal(width).push(32u8) + decimal(height)
}

/// The line of one pixel: its three channels, a space between them.
pub open spec fn pixel_line(p: Pixel) -> Seq<u8> {
    decimal(p.r as nat).push(32u8) + decimal(p.g as nat).push(32u8) + decimal(p.b as nat)
}

/// The first line of every image: `P3`.
pub open spec fn magic_line() -> Seq<u8> {
    seq![80u8, 51u8]
}

/// The line that gives the channel maximum: `255`.
pub open spec fn maximum_line() -> Seq<u8> {
    seq![50u8, 53u8, 53u8]
}

/// Appends the decimal digits of `n`.
pub fn push_decimal(out: &mut Vec<u8>, n: u64)
    ensures
        final(out)@ == old(out)@ + decimal(n as nat),
    decreases n,
{
    if n >= 10 {
        push_decimal(out, n / 10);
    }
    let digit: u8 = (n % 10) as u8;
    out.push(48 + digit);
    proof {
        assert(out@ =~= old(out)@ + decimal(n as nat));
    }
}

/// Writes the size line of an image.
pub fn encode_size(width: u64, height: u64) -> (line: Vec<u8>)
    ensures
        line@ == size_line(width as nat, height as nat),
{
    let mut line: Vec<u8> = Vec::new();
    push_decimal(&mut line, width);
    line.push(32u8);
    push_decimal(&mut line, height);
    proof {
        assert(line@ =~= size_line(width as nat, height as nat));
    }
    line
}

/// Writes the line of one pixel.
pub fn encode_pixel(p: Pixel) -> (line: Vec<u8>)
    ensures
        line@ == pixel_line(p),
{
    let mut line: Vec<u8> = Vec::new();
    push_decimal(&mut line, p.r as u64);
    line.push(32u8);
    push_decimal(&mut line, p.g as u64);
    line.push(32u8);
    push_decimal(&mut line, p.b as u64);
    proof {
        assert(line@ =~= pixel_line(p));
    }
    line
}

/// An image under construction: its scanlines arrive top row first, and each
/// is stored left to right.
pub struct Frame {
    width: u64,
    height: u64,
    rows: u64,
    pixels: Vec<Pixel>,
}

impl Frame {
    /// The stored pixels are exactly the finished rows.
    pub closed spec fn wf(&self) -> bool {
        &&& self.rows <= self.height
        &&& self.pixels@.len() == self.rows * self.width
    }

    pub closed spec fn width(&self) -> nat {
        self.width as nat
    }

    pub closed spec fn height(&self) -> nat {
        self.height as nat
    }

    /// How many scanlines have been stored.
    pub closed spec fn rows(&self) -> nat {
        self.rows as nat
    }

    /// The stored pixels in output order.
    pub closed spec fn view(&self) -> Seq<Pixel> {
        self.pixels@
    }

    /// Every scanline has been stored.
    pub open spec fn complete(&self) -> bool {
        self.rows() == self.height()
    }

    /// The whole image as lines: three header lines, then the pixels.
    pub open spec fn lines(&self) -> Seq<Seq<u8>> {
        seq![magic_line(), size_line(self.width(), self.height()), maximum_line()]
            + Seq::new(self@.len(), |k: int| pixel_line(self@[k]))
    }

    /// An image of the given size with no scanline stored yet.
    pub fn new(width: u64, height: u64) -> (frame: Frame)
        ensures
            frame.wf(),
            frame.width() == width,
            frame.height() == height,
            frame.rows() == 0,
            frame@ == Seq::<Pixel>::empty(),
    {
        Frame { width, height, rows: 0, pixels: Vec::new() }
    }

    /// The image row to render next, counted from the bottom: the topmost
    /// row first, then downwards; `None` once the image is complete.
    pub fn next_row(&self) -> (row: Option<u64>)
        requires
            self.wf(),
        ensures
            self.complete() <==> row.is_none(),
            row matches Some(j) ==> j == self.height() - 1 - self.rows(),
    {
        if self.rows == self.height {
            None
        } else {
            Some(self.height - 1 - self.rows)
        }
    }

    /// Whether every scanline has been stored.
    pub fn is_complete(&self) -> (done: bool)
        requires
            self.wf(),
        ensures
            done == self.complete(),
    {
        self.rows == self.height
    }

    /// Stores the next scanline below those already stored. A scanline of
    /// the wrong width, or one more than the image has rows, is refused and
    /// the image stays as it was.
    pub fn push_scanline(&mut self, line: &Vec<Pixel>) -> (stored: bool)
        requires
            old(self).wf(),
        ensures
            final(self).wf(),
            final(self).width() == old(self).width(),
            final(self).height() == old(self).height(),
            stored <==> !old(self).complete() && line@.len() == old(self).width(),
            stored ==> final(self)@ == old(self)@ + line@ && final(self).rows() == old(self).rows()
                + 1,
            !stored ==> final(self)@ == old(self)@ && final(self).rows() == old(self).rows(),
    {
        if self.rows == self.height || line.len() as u64 != self.width {
            return false;
        }
        let mut k: usize = 0;
        while k < line.len()
            invariant
                k <= line.len(),
                line@.len() == self.width,
                self.width == old(self).width,
                self.height == old(self).height,
                self.rows == old(self).rows,
                self.rows < self.height,
                self.pixels@ == old(self).pixels@ + line@.take(k as int),
            decreases line.len() - k,
        {
            self.pixels.push(line[k]);
            proof {
                assert(line@.take(k + 1) =~= line@.take(k as int).push(line@[k as int]));
                assert(self.pixels@ =~= old(self).pixels@ + line@.take(k + 1));
            }
            k = k + 1;
        }
        proof {
            assert(line@.take(k as int) =~= line@);
            assert((self.rows + 1) * self.width == self.rows * self.width + self.width)
                by (nonlinear_arith);
        }
        self.rows = self.rows + 1;
        true
    }

    /// The pixel at a column and a row counted from the bottom, once that
    /// row has been stored.
    pub fn pixel_at(&self, column: u64, row: u64) -> (p: Option<Pixel>)
        requires
            self.wf(),
        ensures
            p.is_some() <==> column < self.width() && row < self.height() && self.height() - row
                <= self.rows(),
            p matches Some(q) ==> {
                let k = (self.height() - 1 - row) * self.width() + column;
                0 <= k < self@.len() && q == self@[k]
            },
    {
        if column >= self.width || row >= self.height || self.height - row > self.rows {
            return None;
        }
        let above: u64 = self.height - 1 - row;
        proof {
            let w = self.width as int;
            let r = self.rows as int;
            let a = above as int;
            assert(a * w + w <= r * w) by (nonlinear_arith)
                requires
                    0 <= a < r,
                    0 <= w,
            ;
            assert(0 <= a * w) by (nonlinear_arith)
                requires
                    0 <= a,
                    0 <= w,
            ;
        }
        let stored: usize = self.pixels.len();
        assert(above * self.width + column < stored);
        let k: u64 = above * self.width + column;
        Some(self.pixels[k as usize])
    }

    /// The complete image as lines of text, in the order in which they are
    /// written out; `None` while scanlines are missing.
    pub fn encode(&self) -> (text: Option<Vec<Vec<u8>>>)
        requires
            self.wf(),
        ensures
            text.is_some() <==> self.complete(),
            text matches Some(lines) ==> {
                &&& lines@.len() == 3 + self.width() * self.height()
                &&& lines@.len() == self.lines().len()
                &&& forall|i: int| 0 <= i < lines@.len() ==> (#[trigger] lines@[i])@ == self.lines()[i]
            },
    {
        if self.rows != self.height {
            return None;
        }
        let mut lines: Vec<Vec<u8>> = Vec::new();
        let mut magic: Vec<u8> = Vec::new();
        magic.push(80u8);
        magic.push(51u8);
        let mut maximum: Vec<u8> = Vec::new();
        maximum.push(50u8);
        maximum.push(53u8);
        maximum.push(53u8);
        proof {
            assert(magic@ =~= magic_line());
            assert(maximum@ =~= maximum_line());
        }
        lines.push(magic);
        lines.push(encode_size(self.width, self.height));
        lines.push(maximum);
        let mut k: usize = 0;
        while k < self.pixels.len()
            invariant
                k <= self.pixels.len(),
                lines@.len() == 3 + k,
                self.lines().len() == 3 + self.pixels@.len(),
                forall|i: int| 0 <= i < lines@.len() ==> (#[trigger] lines@[i])@ == self.lines()[i],
            decreases self.pixels.len() - k,
        {
            lines.push(encode_pixel(self.pixels[k]));
            k = k + 1;
        }
        proof {
            assert(self.rows * self.width == self.width * self.height) by (nonlinear_arith)
                requires
                    self.rows == self.height,
            ;
        }
        Some(lines)
    }
}

/// The digits of a number write that number back, and every one of them is
/// an ASCII digit.
pub proof fn lemma_decimal_round_trip(n: nat)
    ensures
        digits_value(decimal(n)) == n,
        decimal(n).len() >= 1,
        forall|i: int| 0 <= i < decimal(n).len() ==> 48 <= #[trigger] decimal(n)[i] <= 57,
    decreases n,
{
    if n < 10 {
        let d = decimal(n);
        assert(d.drop_last().len() == 0);
        assert(digits_value(d.drop_last()) == 0);
    } else {
        lemma_decimal_round_trip(n / 10);
        let d = decimal(n);
        assert(d.drop_last() =~= decimal(n / 10));
    }
}

/// A complete image has three header lines and one line for each of its
/// `width * height` pixels.
pub proof fn lemma_complete_line_count(frame: Frame)
    requires
        frame.wf(),
        frame.complete(),
    ensures
        frame@.len() == frame.width() * frame.height(),
        frame.lines().len() == 3 + frame.width() * frame.height(),
        frame.lines()[0] == magic_line(),
        frame.lines()[1] == size_line(frame.width(), frame.height()),
        frame.lines()[2] == maximum_line(),
        forall|k: int| 0 <= k < frame@.len() ==> #[trigger] frame.lines()[3 + k] == pixel_line(frame@[k]),
{
    assert(frame.rows * frame.width == frame.width * frame.height) by (nonlinear_arith)
        requires
            frame.rows == frame.height,
    ;
}

/// In a complete image the pixel at a column and a row, the row counted from
/// the bottom, stands after the header and after every pixel of the rows
/// above it and every pixel to its left.
pub proof fn lemma_pixel_line_position(frame: Frame, column: nat, row: nat)
    requires
        frame.wf(),
        frame.complete(),
        column < frame.width(),
        row < frame.height(),
    ensures
        ({
            let k = (frame.height() - 1 - row) * frame.width() + column;
            0 <= k < frame@.len() && frame.lines()[3 + k] == pixel_line(frame@[k])
        }),
{
    let w = frame.width as int;
    let h = frame.height as int;
    let a = h - 1 - row;
    assert(0 <= a * w && a * w + w <= h * w) by (nonlinear_arith)
        requires
            0 <= a < h,
            0 <= w,
    ;
}

/// Every channel written for a pixel lies between 0 and 255, whatever the
/// scaled values were.
pub proof fn lemma_channel_in_range(scaled: int)
    ensures
        0 <= channel_spec(scaled) <= 255,
        0 <= scaled <= 255 ==> channel_spec(scaled) == scaled,
{
}

} // verus!
