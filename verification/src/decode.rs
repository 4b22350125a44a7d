//! The image-decoder collaborator.  A PNG held as plain bytes is
//! decoded by the `image` crate; everything the logic learns from it
//! goes through the trusted wrappers here.  The decoded results are
//! functions of the file bytes alone, so each gets a name: `png_dims`,
//! `png_color`, `png_data` and the success flags.  On top of the
//! wrappers stand the two verified sequential readers, one fixed to
//! three-byte records and one sized by the image's reported layout.

use vstd::prelude::*;

use crate::pixel::{
    bytes_of_color, bytes_of_format, eight_bit, format_of_color, spec_sample, ColorKind,
    DynamicPixel, PixelError, PixelFormat,
};
use image::ImageDecoder;

verus! {

/// Holds the decoder of the `image` crate; its type carries a trait
/// bound Verus refuses to declare, so the whole handle is opaque.
#[verifier::external_body]
struct DecoderHandle {
    dec: image::codecs::png::PngDecoder<std::io::Cursor<Vec<u8>>>,
}

/// Holds the sequential reader of the `image` crate, opaque for the
/// same reason as `DecoderHandle`.
#[verifier::external_body]
struct ReaderHandle {
    rd: image::codecs::png::PngReader<std::io::Cursor<Vec<u8>>>,
}

/// Whether the decoder accepts the file's header and color layout.
pub uninterp spec fn png_ok(file: Seq<u8>) -> bool;

/// The width and height the file's header reports.
pub uninterp spec fn png_dims(file: Seq<u8>) -> (u32, u32);

/// The color layout the file's header reports.
pub uninterp spec fn png_color(file: Seq<u8>) -> ColorKind;

/// Whether a sequential reader over the decoded bytes can be set up.
pub uninterp spec fn png_reader_ok(file: Seq<u8>) -> bool;

/// Whether the whole image decodes without error.
pub uninterp spec fn png_complete(file: Seq<u8>) -> bool;

/// The decoded pixel bytes of the file, in scanline order: everything
/// a sequential reader over the file will ever yield.
pub uninterp spec fn png_data(file: Seq<u8>) -> Seq<u8>;

/// The decoded size the header promises: width times height times
/// bytes per pixel record.
pub open spec fn spec_total_bytes(file: Seq<u8>) -> int {
    (png_dims(file).0 as int) * (png_dims(file).1 as int) * (bytes_of_color(
        png_color(file),
    ) as int)
}

/// An open decoder, remembering (in ghost form) the file bytes it was
/// opened on.
pub struct PngSource {
    dec: DecoderHandle,
    file: Ghost<Seq<u8>>,
}

impl PngSource {
    /// The file bytes this decoder was opened on.
    pub closed spec fn file(self) -> Seq<u8> {
        self.file@
    }
}

/// Relies on `image::codecs::png::PngDecoder::new`: parses the PNG
/// header from an in-memory stream, failing on malformed headers and
/// on color layouts the decoder does not produce.
#[verifier::external_body]
pub(crate) fn png_open(bytes: &Vec<u8>) -> (r: Result<PngSource, PixelError>)
    ensures
        r is Ok <==> png_ok(bytes@),
        r is Ok ==> (r->Ok_0).file() == bytes@,
        r is Err ==> r->Err_0 == PixelError::DecodeFailed,
{
    match image::codecs::png::PngDecoder::new(std::io::Cursor::new(bytes.clone())) {
        Ok(dec) => Ok(PngSource { dec: DecoderHandle { dec }, file: Ghost(Seq::empty()) }),
        Err(_) => Err(PixelError::DecodeFailed),
    }
}

/// Relies on `ImageDecoder::dimensions` for `PngDecoder`: the width
/// and height from the image header.
#[verifier::external_body]
pub(crate) fn png_dimensions(src: &PngSource) -> (r: (u32, u32))
    ensures
        r == png_dims(src.file()),
{
    src.dec.dec.dimensions()
}

/// Relies on `ImageDecoder::color_type` for `PngDecoder`: the color
/// layout of the decoded stream; each variant is carried over one for
/// one.
#[verifier::external_body]
pub(crate) fn png_color_kind(src: &PngSource) -> (r: ColorKind)
    ensures
        r == png_color(src.file()),
{
    match src.dec.dec.color_type() {
        image::ColorType::L8 => ColorKind::L8,
        image::ColorType::La8 => ColorKind::La8,
        image::ColorType::Rgb8 => ColorKind::Rgb8,
        image::ColorType::Rgba8 => ColorKind::Rgba8,
        image::ColorType::L16 => ColorKind::L16,
        image::ColorType::La16 => ColorKind::La16,
        image::ColorType::Rgb16 => ColorKind::Rgb16,
        image::ColorType::Rgba16 => ColorKind::Rgba16,
        image::ColorType::Bgr8 => ColorKind::Bgr8,
        image::ColorType::Bgra8 => ColorKind::Bgra8,
        _ => ColorKind::Other,
    }
}

/// A sequential reader over the decoded pixel bytes, remembering (in
/// ghost form) the file bytes and how many decoded bytes were already
/// consumed.
pub struct PixelReader {
    rd: ReaderHandle,
    file: Ghost<Seq<u8>>,
    pos: Ghost<int>,
    failed: Ghost<bool>,
}

impl PixelReader {
    /// The file bytes the reader decodes.
    pub closed spec fn file(self) -> Seq<u8> {
        self.file@
    }

    /// How many decoded bytes were consumed so far.
    pub closed spec fn pos(self) -> int {
        self.pos@
    }

    /// Whether a read on this reader has ever failed.  After a
    /// failure the decoder may skip damaged rows, so nothing more is
    /// promised of later reads.
    pub closed spec fn failed(self) -> bool {
        self.failed@
    }
}

/// Relies on `ImageDecoder::into_reader` for `PngDecoder`: a reader
/// yielding, in scanline order, the same decoded bytes the bulk decode
/// returns, and never more than the size the header promises.
#[verifier::external_body]
pub(crate) fn png_into_reader(src: PngSource) -> (r: Result<PixelReader, PixelError>)
    ensures
        r is Ok <==> png_reader_ok(src.file()),
        r is Ok ==> ((r->Ok_0).file() == src.file() && (r->Ok_0).pos() == 0 && !(r->Ok_0).failed()
            && png_data(src.file()).len() <= spec_total_bytes(src.file())),
        r is Err ==> r->Err_0 == PixelError::DecodeFailed,
{
    match src.dec.dec.into_reader() {
        Ok(rd) => Ok(PixelReader {
            rd: ReaderHandle { rd },
            file: Ghost(Seq::empty()),
            pos: Ghost(0),
            failed: Ghost(false),
        }),
        Err(_) => Err(PixelError::DecodeFailed),
    }
}

/// Relies on `std::io::Read::read_exact` over the PNG reader: until
/// a read has failed, it fills `buf` with the next `buf.len()`
/// decoded bytes, and fails exactly when the decodable stream cannot
/// supply that many.  A failure may leave the decoder past damaged
/// rows, so once one read has failed nothing more is promised of the
/// position or of later reads.
#[verifier::external_body]
pub(crate) fn read_pixel_record(rd: &mut PixelReader, buf: &mut Vec<u8>) -> (r: bool)
    ensures
        final(rd).file() == old(rd).file(),
        final(buf)@.len() == old(buf)@.len(),
        !old(rd).failed() ==> (r <==> old(rd).pos() + old(buf)@.len() <= png_data(
            old(rd).file(),
        ).len()),
        !old(rd).failed() && r ==> (!final(rd).failed() && final(rd).pos() == old(rd).pos() + old(
            buf,
        )@.len()),
        !old(rd).failed() && r ==> final(buf)@ == png_data(old(rd).file()).subrange(
            old(rd).pos(),
            final(rd).pos(),
        ),
        !old(rd).failed() && !r ==> (final(rd).failed() && old(rd).pos() <= final(rd).pos()
            <= png_data(old(rd).file()).len()),
{
    let ok = std::io::Read::read_exact(&mut rd.rd.rd, buf.as_mut_slice()).is_ok();
    if !ok {
        rd.failed = Ghost(true);
    }
    ok
}

/// Relies on `ImageDecoder::read_image` for `PngDecoder`: decodes the
/// whole image at once into one buffer of exactly the size the header
/// promises (`ImageDecoder::total_bytes` supplies that size).  For a
/// one-byte-per-channel layout the buffer holds the decoded stream as
/// is; a two-byte-per-channel sample is reordered to the machine's
/// own byte order, so only the length is promised there.
#[verifier::external_body]
pub(crate) fn png_read_all(src: PngSource) -> (r: Result<Vec<u8>, PixelError>)
    ensures
        r is Ok <==> (png_complete(src.file()) && png_data(src.file()).len() <= usize::MAX),
        r is Ok ==> ((r->Ok_0)@.len() == spec_total_bytes(src.file()) && (eight_bit(
            png_color(src.file()),
        ) ==> (r->Ok_0)@ == png_data(src.file()))),
        r is Err ==> r->Err_0 == PixelError::DecodeFailed,
{
    let total = src.dec.dec.total_bytes();
    let fits: Result<usize, _> = std::convert::TryFrom::try_from(total);
    match fits {
        Ok(n) => {
            let mut buf = vec![0u8; n];
            match src.dec.dec.read_image(&mut buf) {
                Ok(()) => Ok(buf),
                Err(_) => Err(PixelError::DecodeFailed),
            }
        },
        Err(_) => Err(PixelError::DecodeFailed),
    }
}

/// The incremental reader of the static strategy: three bytes per
/// record, the layout assumed, never checked here.
pub struct PixelsRGB8 {
    reader: PixelReader,
}

impl PixelsRGB8 {
    /// The file bytes the reader decodes.
    pub closed spec fn file(self) -> Seq<u8> {
        self.reader.file()
    }

    /// How many decoded bytes were consumed so far.
    pub closed spec fn pos(self) -> int {
        self.reader.pos()
    }

    /// Whether a read on the underlying reader has ever failed.
    pub closed spec fn failed(self) -> bool {
        self.reader.failed()
    }

    /// Yield the next three-byte record as a (red, green, blue)
    /// triple, or nothing once the stream cannot supply a whole one.
    pub fn next(&mut self) -> (r: Option<(u8, u8, u8)>)
        requires
            0 <= old(self).pos(),
            !old(self).failed(),
        ensures
            final(self).file() == old(self).file(),
            r is Some <==> old(self).pos() + 3 <= png_data(old(self).file()).len(),
            r is Some ==> (!final(self).failed() && final(self).pos() == old(self).pos() + 3),
            r is Some ==> {
                let rec = png_data(old(self).file()).subrange(
                    old(self).pos(),
                    old(self).pos() + 3,
                );
                r->0 == (rec[0], rec[1], rec[2])
            },
            r is None ==> old(self).pos() <= final(self).pos() <= png_data(
                old(self).file(),
            ).len(),
    {
        let mut buffer: Vec<u8> = vec![0u8, 0u8, 0u8];
        if read_pixel_record(&mut self.reader, &mut buffer) {
            Some((buffer[0], buffer[1], buffer[2]))
        } else {
            None
        }
    }
}

/// Wrap a fresh reader for the static strategy.
pub fn pixels_rgb8(reader: PixelReader) -> (px: PixelsRGB8)
    ensures
        px.file() == reader.file(),
        px.pos() == reader.pos(),
        px.failed() == reader.failed(),
{
    PixelsRGB8 { reader }
}

/// The incremental reader of the dynamic strategy: one record at a
/// time, sized by the image's reported layout, each tagged with its
/// encoding.
pub struct PixelsDynamic {
    reader: PixelReader,
    buffer: Vec<u8>,
    format: PixelFormat,
}

impl PixelsDynamic {
    /// The file bytes the reader decodes.
    pub closed spec fn file(self) -> Seq<u8> {
        self.reader.file()
    }

    /// How many decoded bytes were consumed so far.
    pub closed spec fn pos(self) -> int {
        self.reader.pos()
    }

    /// The supported encoding the records are read under.
    pub closed spec fn format(self) -> PixelFormat {
        self.format
    }

    /// Whether a read on the underlying reader has ever failed.
    pub closed spec fn failed(self) -> bool {
        self.reader.failed()
    }

    /// The reusable record buffer holds exactly one record.
    pub closed spec fn wf(self) -> bool {
        self.buffer@.len() == bytes_of_format(self.format)
    }

    /// Yield the next record as a tagged sample, or nothing once the
    /// stream cannot supply a whole one.
    pub fn next(&mut self) -> (r: Option<DynamicPixel>)
        requires
            old(self).wf(),
            0 <= old(self).pos(),
            !old(self).failed(),
        ensures
            final(self).wf(),
            final(self).file() == old(self).file(),
            final(self).format() == old(self).format(),
            r is Some <==> old(self).pos() + bytes_of_format(old(self).format()) <= png_data(
                old(self).file(),
            ).len(),
            r is Some ==> (!final(self).failed() && final(self).pos() == old(self).pos()
                + bytes_of_format(old(self).format())),
            r is Some ==> r->0 == spec_sample(
                old(self).format(),
                png_data(old(self).file()).subrange(
                    old(self).pos(),
                    old(self).pos() + bytes_of_format(old(self).format()),
                ),
            ),
            r is None ==> old(self).pos() <= final(self).pos() <= png_data(
                old(self).file(),
            ).len(),
    {
        if read_pixel_record(&mut self.reader, &mut self.buffer) {
            Some(DynamicPixel::from_slice(&self.format, &self.buffer))
        } else {
            None
        }
    }
}

/// Set up the dynamic strategy's reader: look the record size up from
/// the reported layout (failing on an unsupported one), then turn the
/// decoder into a sequential reader.
pub fn pixels_dynamic(src: PngSource) -> (r: Result<PixelsDynamic, PixelError>)
    ensures
        r is Ok <==> format_of_color(png_color(src.file())) is Some && png_reader_ok(src.file()),
        r is Ok ==> {
            let px = r->Ok_0;
            &&& px.file() == src.file()
            &&& px.pos() == 0
            &&& !px.failed()
            &&& Some(px.format()) == format_of_color(png_color(src.file()))
            &&& px.wf()
        },
        r is Ok ==> png_data(src.file()).len() <= spec_total_bytes(src.file()),
        format_of_color(png_color(src.file())) is None ==> r == Err::<
            PixelsDynamic,
            PixelError,
        >(PixelError::UnsupportedEncoding),
        format_of_color(png_color(src.file())) is Some && !png_reader_ok(src.file()) ==> r
            == Err::<PixelsDynamic, PixelError>(PixelError::DecodeFailed),
{
    let color = png_color_kind(&src);
    let format = match PixelFormat::from_color(&color) {
        Ok(f) => f,
        Err(e) => {
            return Err(e);
        },
    };
    let size = DynamicPixel::bytes(&format);
    let mut buffer: Vec<u8> = Vec::new();
    let mut i: u8 = 0;
    while i < size
        invariant
            i <= size,
            buffer@.len() == i as int,
        decreases size - i,
    {
        buffer.push(0u8);
        i = i + 1;
    }
    let reader = match png_into_reader(src) {
        Ok(rd) => rd,
        Err(e) => {
            return Err(e);
        },
    };
    Ok(PixelsDynamic { reader, buffer, format })
}

} // verus!
