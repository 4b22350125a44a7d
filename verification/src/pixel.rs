//! Pixel samples and their encodings.  An image reports a color layout
//! (`ColorKind`); of those, four 8-bit layouts are supported
//! (`PixelFormat`).  A decoded sample is a closed tagged variant
//! (`DynamicPixel`), and every variant converts to the common
//! three-channel form.  The spec functions at the end give the meaning
//! of summing the red, green and blue channels of a raw pixel stream.

use vstd::prelude::*;

verus! {

/// The color layout an image reports, one variant for each layout the
/// decoder can name, plus `Other` for anything beyond those.
#[derive(Clone, Copy, Debug, PartialEq, Eq, Structural)]
pub enum ColorKind {
    L8,
    La8,
    Rgb8,
    Rgba8,
    L16,
    La16,
    Rgb16,
    Rgba16,
    Bgr8,
    Bgra8,
    Other,
}

/// The four supported pixel encodings, each 8 bits per channel.
#[derive(Clone, Copy, Debug, PartialEq, Eq, Structural)]
pub enum PixelFormat {
    Rgb8,
    Rgba8,
    Gray8,
    Bgr8,
}

/// One decoded pixel sample, tagged with its encoding.
#[derive(Clone, Copy, Debug, PartialEq, Eq, Structural)]
pub enum DynamicPixel {
    Rgb8(u8, u8, u8),
    Rgba8(u8, u8, u8, u8),
    Luma8(u8),
    Bgr8(u8, u8, u8),
}

/// Why a strategy failed.
#[derive(Clone, Copy, Debug, PartialEq, Eq, Structural)]
pub enum PixelError {
    /// The source bytes could not be decoded, or the decoded stream
    /// ended before the last expected pixel record was complete.
    DecodeFailed,
    /// The image reports a color layout outside the four supported
    /// encodings.
    UnsupportedEncoding,
    /// The image's actual layout does not match the layout a strategy
    /// assumes.
    EncodingMismatch,
}

/// How many bytes one pixel record of an image with color layout `c`
/// occupies in the decoded stream.
pub open spec fn bytes_of_color(c: ColorKind) -> nat {
    match c {
        ColorKind::L8 => 1,
        ColorKind::La8 => 2,
        ColorKind::Rgb8 => 3,
        ColorKind::Rgba8 => 4,
        ColorKind::L16 => 2,
        ColorKind::La16 => 4,
        ColorKind::Rgb16 => 6,
        ColorKind::Rgba16 => 8,
        ColorKind::Bgr8 => 3,
        ColorKind::Bgra8 => 4,
        ColorKind::Other => 0,
    }
}

/// Whether a reported color layout stores one byte per channel.  (The
/// remaining layouts store two, in the stream's own byte order.)
pub open spec fn eight_bit(c: ColorKind) -> bool {
    match c {
        ColorKind::L8 => true,
        ColorKind::La8 => true,
        ColorKind::Rgb8 => true,
        ColorKind::Rgba8 => true,
        ColorKind::Bgr8 => true,
        ColorKind::Bgra8 => true,
        _ => false,
    }
}

/// The supported encoding a reported color layout corresponds to, if any.
pub open spec fn format_of_color(c: ColorKind) -> Option<PixelFormat> {
    match c {
        ColorKind::Rgb8 => Some(PixelFormat::Rgb8),
        ColorKind::Rgba8 => Some(PixelFormat::Rgba8),
        ColorKind::L8 => Some(PixelFormat::Gray8),
        ColorKind::Bgr8 => Some(PixelFormat::Bgr8),
        _ => None,
    }
}

/// How many bytes one record of a supported encoding occupies.
pub open spec fn bytes_of_format(f: PixelFormat) -> nat {
    match f {
        PixelFormat::Rgb8 => 3,
        PixelFormat::Rgba8 => 4,
        PixelFormat::Gray8 => 1,
        PixelFormat::Bgr8 => 3,
    }
}

/// The sample encoded by one record `rec` (of length `bytes_of_format(f)`).
pub open spec fn spec_sample(f: PixelFormat, rec: Seq<u8>) -> DynamicPixel {
    match f {
        PixelFormat::Rgb8 => DynamicPixel::Rgb8(rec[0], rec[1], rec[2]),
        PixelFormat::Rgba8 => DynamicPixel::Rgba8(rec[0], rec[1], rec[2], rec[3]),
        PixelFormat::Gray8 => DynamicPixel::Luma8(rec[0]),
        PixelFormat::Bgr8 => DynamicPixel::Bgr8(rec[0], rec[1], rec[2]),
    }
}

/// The common three-channel (red, green, blue) form of a sample: alpha
/// is dropped, a gray level is replicated, swapped channel order is
/// put right.
pub open spec fn spec_to_rgb(p: DynamicPixel) -> (u8, u8, u8) {
    match p {
        DynamicPixel::Rgb8(r, g, b) => (r, g, b),
        DynamicPixel::Rgba8(r, g, b, _a) => (r, g, b),
        DynamicPixel::Luma8(l) => (l, l, l),
        DynamicPixel::Bgr8(b, g, r) => (r, g, b),
    }
}

/// The `i`-th pixel record of a raw decoded stream under format `f`.
pub open spec fn record_at(data: Seq<u8>, f: PixelFormat, i: int) -> Seq<u8> {
    data.subrange(i * (bytes_of_format(f) as int), (i + 1) * (bytes_of_format(f) as int))
}

/// The per-channel totals of the first `n` pixel records of `data`
/// under format `f`, every record converted to the common form first.
pub open spec fn spec_channel_sums(data: Seq<u8>, f: PixelFormat, n: nat) -> (int, int, int)
    decreases n,
{
    if n == 0 {
        (0, 0, 0)
    } else {
        let prev = spec_channel_sums(data, f, (n - 1) as nat);
        let rgb = spec_to_rgb(spec_sample(f, record_at(data, f, n - 1)));
        (prev.0 + rgb.0, prev.1 + rgb.1, prev.2 + rgb.2)
    }
}

/// Running totals of the red, green and blue channels.
#[derive(Clone, Copy, Debug, PartialEq, Eq, Structural)]
pub struct RgbTotals {
    pub red: u128,
    pub green: u128,
    pub blue: u128,
}

impl RgbTotals {
    /// The totals as a mathematical triple.
    pub open spec fn as_triple(self) -> (int, int, int) {
        (self.red as int, self.green as int, self.blue as int)
    }

    /// All three totals start at zero.
    pub fn new() -> (t: RgbTotals)
        ensures
            t.as_triple() == (0int, 0int, 0int),
    {
        RgbTotals { red: 0, green: 0, blue: 0 }
    }

    /// Add one converted sample to the totals.
    pub fn add_rgb(&mut self, rgb: (u8, u8, u8))
        requires
            old(self).red + rgb.0 <= u128::MAX,
            old(self).green + rgb.1 <= u128::MAX,
            old(self).blue + rgb.2 <= u128::MAX,
        ensures
            final(self).as_triple() == (
                old(self).red + rgb.0,
                old(self).green + rgb.1,
                old(self).blue + rgb.2,
            ),
    {
        self.red = self.red + rgb.0 as u128;
        self.green = self.green + rgb.1 as u128;
        self.blue = self.blue + rgb.2 as u128;
    }
}

impl PixelFormat {
    /// The supported encoding behind a reported color layout; the
    /// channel-size lookup fails here, fatally for the caller, on any
    /// layout outside the four supported ones.
    pub fn from_color(c: &ColorKind) -> (r: Result<PixelFormat, PixelError>)
        ensures
            r is Ok <==> format_of_color(*c) is Some,
            r is Ok ==> Some(r->Ok_0) == format_of_color(*c),
            r is Err ==> r->Err_0 == PixelError::UnsupportedEncoding,
    {
        match c {
            ColorKind::Rgb8 => Ok(PixelFormat::Rgb8),
            ColorKind::Rgba8 => Ok(PixelFormat::Rgba8),
            ColorKind::L8 => Ok(PixelFormat::Gray8),
            ColorKind::Bgr8 => Ok(PixelFormat::Bgr8),
            _ => Err(PixelError::UnsupportedEncoding),
        }
    }
}

impl DynamicPixel {
    /// How many bytes one record of format `f` occupies.
    pub fn bytes(f: &PixelFormat) -> (r: u8)
        ensures
            r == bytes_of_format(*f),
    {
        match f {
            PixelFormat::Rgb8 => 3,
            PixelFormat::Rgba8 => 4,
            PixelFormat::Gray8 => 1,
            PixelFormat::Bgr8 => 3,
        }
    }

    /// Parse one pixel record into a tagged sample, reading the first
    /// `bytes(f)` bytes of `rec` and copying them out.
    pub fn from_slice(f: &PixelFormat, rec: &Vec<u8>) -> (p: DynamicPixel)
        requires
            rec@.len() >= bytes_of_format(*f),
        ensures
            p == spec_sample(*f, rec@),
    {
        match f {
            PixelFormat::Rgb8 => DynamicPixel::Rgb8(rec[0], rec[1], rec[2]),
            PixelFormat::Rgba8 => DynamicPixel::Rgba8(rec[0], rec[1], rec[2], rec[3]),
            PixelFormat::Gray8 => DynamicPixel::Luma8(rec[0]),
            PixelFormat::Bgr8 => DynamicPixel::Bgr8(rec[0], rec[1], rec[2]),
        }
    }

    /// Convert the sample to the common three-channel form.
    pub fn to_rgb(&self) -> (r: (u8, u8, u8))
        ensures
            r == spec_to_rgb(*self),
    {
        match self {
            DynamicPixel::Rgb8(r, g, b) => (*r, *g, *b),
            DynamicPixel::Rgba8(r, g, b, _a) => (*r, *g, *b),
            DynamicPixel::Luma8(l) => (*l, *l, *l),
            DynamicPixel::Bgr8(b, g, r) => (*r, *g, *b),
        }
    }
}

} // verus!
