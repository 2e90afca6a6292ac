//! Raster buffer for a binary pixmap image.
//!
//! A `PPM` value holds a width, a height, and a `3 * width * height` byte
//! buffer of RGB pixels. `to_bytes` lays the buffer out as the bytes of a
//! binary pixmap file: the textual header `P6 <width> <height> 255\n`
//! followed by the raw pixel bytes. Writing those bytes to disk is left to
//! the caller.

use vstd::prelude::*;

verus! {

/// Decimal digit bytes of `n`, most significant first, no leading zeros
/// (the single digit `0` for `n == 0`).
pub open spec fn dec_digits(n: nat) -> Seq<u8>
    decreases n,
{
    if n < 10 {
        seq![(48 + n) as u8]
    } else {
        dec_digits(n / 10).push((48 + n % 10) as u8)
    }
}

/// The bytes `P6 <w> <h> 255\n` that open a binary pixmap file.
pub open spec fn ppm_header(w: nat, h: nat) -> Seq<u8> {
    seq![80u8, 54u8, 32u8] + dec_digits(w) + seq![32u8] + dec_digits(h) + seq![
        32u8,
        50u8,
        53u8,
        53u8,
        10u8,
    ]
}

/// A pixel colour: three channel bytes.
pub struct Color {
    pub r: u8,
    pub g: u8,
    pub b: u8,
}

impl Color {
    pub fn new(r: u8, g: u8, b: u8) -> (c: Color)
        ensures
            c.r == r,
            c.g == g,
            c.b == b,
    {
        Color { r, g, b }
    }
}

/// A width x height RGB byte buffer.
pub struct PPM {
    width: u32,
    height: u32,
    data: Vec<u8>,
}

impl PPM {
    pub closed spec fn spec_width(self) -> u32 {
        self.width
    }

    pub closed spec fn spec_height(self) -> u32 {
        self.height
    }

    /// The pixel bytes, three per pixel, row-major.
    pub closed spec fn spec_data(self) -> Seq<u8> {
        self.data@
    }

    /// The buffer always holds exactly three bytes per pixel.
    pub open spec fn wf(self) -> bool {
        self.spec_data().len() == 3 * self.spec_width() * self.spec_height()
    }

    /// A fresh all-black image.
    pub fn new(width: u32, height: u32) -> (img: PPM)
        requires
            3 * width * height <= u32::MAX,
        ensures
            img.wf(),
            img.spec_width() == width,
            img.spec_height() == height,
            img.spec_data() =~= Seq::new((3 * width * height) as nat, |i: int| 0u8),
    {
        let n: u32 = (3u64 * width as u64 * height as u64) as u32;
        let mut data: Vec<u8> = Vec::new();
        let mut i: u32 = 0;
        while i < n
            invariant
                i <= n,
                data@ =~= Seq::new(i as nat, |k: int| 0u8),
            decreases n - i,
        {
            data.push(0u8);
            i = i + 1;
        }
        PPM { width, height, data }
    }

    /// Write one colour at byte offset `o` (so `o` is three times the
    /// pixel index for a pixel-aligned write).
    pub fn set_pixel_direct(&mut self, o: usize, c: Color)
        requires
            o + 2 < old(self).spec_data().len(),
        ensures
            final(self).spec_width() == old(self).spec_width(),
            final(self).spec_height() == old(self).spec_height(),
            final(self).spec_data() =~= old(self).spec_data().update(o as int, c.r).update(
                o + 1,
                c.g,
            ).update(o + 2, c.b),
    {
        let len = self.data.len();
        assert(o + 2 < len);
        self.data.set(o, c.r);
        self.data.set(o + 1, c.g);
        self.data.set(o + 2, c.b);
    }

    /// The full file image: header bytes, then the pixel bytes.
    pub fn to_bytes(&self) -> (bytes: Vec<u8>)
        ensures
            bytes@ =~= ppm_header(self.spec_width() as nat, self.spec_height() as nat)
                + self.spec_data(),
    {
        let mut bytes: Vec<u8> = Vec::new();
        bytes.push(80u8);
        bytes.push(54u8);
        bytes.push(32u8);
        let w_digits = u32_to_decimal(self.width);
        append_bytes(&mut bytes, &w_digits);
        bytes.push(32u8);
        let h_digits = u32_to_decimal(self.height);
        append_bytes(&mut bytes, &h_digits);
        bytes.push(32u8);
        bytes.push(50u8);
        bytes.push(53u8);
        bytes.push(53u8);
        bytes.push(10u8);
        append_bytes(&mut bytes, &self.data);
        bytes
    }
}

/// Append every byte of `src` to `out`, in order.
fn append_bytes(out: &mut Vec<u8>, src: &Vec<u8>)
    ensures
        final(out)@ =~= old(out)@ + src@,
{
    let mut i: usize = 0;
    while i < src.len()
        invariant
            i <= src@.len(),
            out@ =~= old(out)@ + src@.take(i as int),
        decreases src@.len() - i,
    {
        out.push(src[i]);
        i = i + 1;
    }
}

/// The decimal digits of `n`, most significant first, as bytes.
pub fn u32_to_decimal(n: u32) -> (digits: Vec<u8>)
    ensures
        digits@ == dec_digits(n as nat),
{
    let mut rev: Vec<u8> = Vec::new();
    rev.push((n % 10) as u8 + 48);
    let mut m: u32 = n / 10;
    proof {
        assert(dec_digits(n as nat) =~= if m == 0 {
            rev@.reverse()
        } else {
            dec_digits(m as nat) + rev@.reverse()
        });
    }
    while m > 0
        invariant
            rev@.len() >= 1,
            dec_digits(n as nat) =~= (if m == 0 {
                rev@.reverse()
            } else {
                dec_digits(m as nat) + rev@.reverse()
            }),
        decreases m,
    {
        let ghost old_rev = rev@;
        rev.push((m % 10) as u8 + 48);
        proof {
            assert(rev@.reverse() =~= seq![(48 + m as nat % 10) as u8] + old_rev.reverse());
        }
        m = m / 10;
    }
    let mut digits: Vec<u8> = Vec::new();
    let mut i: usize = rev.len();
    while i > 0
        invariant
            i <= rev@.len(),
            digits@ =~= rev@.skip(i as int).reverse(),
        decreases i,
    {
        i = i - 1;
        digits.push(rev[i]);
        proof {
            assert(rev@.skip(i as int) =~= seq![rev@[i as int]] + rev@.skip(i as int + 1));
            assert(rev@.skip(i as int).reverse() =~= rev@.skip(i as int + 1).reverse().push(
                rev@[i as int],
            ));
        }
    }
    proof {
        assert(rev@.skip(0).reverse() =~= rev@.reverse());
    }
    digits
}

} // verus!
