//! The three pixel-access strategies.  Each one decodes the same file
//! independently and sums the red, green and blue channels of every
//! pixel; they differ only in how the decoded bytes are obtained.  All
//! three are proved to return `spec_channel_sums` over the decoded
//! stream, so agreement between them is a theorem, stated at the end
//! together with the two rejection laws.

use vstd::prelude::*;

use crate::decode::{
    png_color, png_color_kind, png_complete, png_data, png_dimensions, png_dims, png_into_reader,
    png_ok, png_open, png_read_all, png_reader_ok, pixels_dynamic, pixels_rgb8, spec_total_bytes,
    PixelsDynamic, PixelsRGB8,
};
use crate::pixel::{
    bytes_of_color, bytes_of_format, format_of_color, record_at, spec_channel_sums, spec_sample,
    spec_to_rgb, ColorKind, PixelError, PixelFormat, RgbTotals,
};

verus! {

/// The number of pixels the file's header promises.
pub open spec fn spec_pixel_count(file: Seq<u8>) -> int {
    (png_dims(file).0 as int) * (png_dims(file).1 as int)
}

/// What the buffered strategy returns when it succeeds.
pub open spec fn spec_buffer_sums(file: Seq<u8>) -> (int, int, int) {
    spec_channel_sums(png_data(file), PixelFormat::Rgb8, spec_pixel_count(file) as nat)
}

/// What the static strategy returns when it succeeds.
pub open spec fn spec_static_sums(file: Seq<u8>) -> (int, int, int) {
    spec_channel_sums(png_data(file), PixelFormat::Rgb8, spec_pixel_count(file) as nat)
}

/// What the dynamic strategy returns when it succeeds.
pub open spec fn spec_dynamic_sums(file: Seq<u8>) -> (int, int, int) {
    spec_channel_sums(
        png_data(file),
        format_of_color(png_color(file))->0,
        spec_pixel_count(file) as nat,
    )
}

/// When the buffered strategy succeeds: the file opens, reports one
/// of the four supported layouts, decodes whole, and the buffer holds
/// exactly three bytes per promised pixel.
pub open spec fn buffer_ok(file: Seq<u8>) -> bool {
    &&& png_ok(file)
    &&& format_of_color(png_color(file)) is Some
    &&& png_complete(file)
    &&& png_data(file).len() <= usize::MAX
    &&& png_data(file).len() == 3 * spec_pixel_count(file)
}

/// When the static strategy succeeds: the file opens, reports exactly
/// the assumed three-channel layout, and yields a whole record for
/// every promised pixel.
pub open spec fn static_ok(file: Seq<u8>) -> bool {
    &&& png_ok(file)
    &&& png_color(file) == ColorKind::Rgb8
    &&& png_reader_ok(file)
    &&& 3 * spec_pixel_count(file) <= png_data(file).len()
}

/// When the dynamic strategy succeeds: the file opens, reports one of
/// the four supported layouts, and yields a whole record for every
/// promised pixel.
pub open spec fn dynamic_ok(file: Seq<u8>) -> bool {
    &&& png_ok(file)
    &&& format_of_color(png_color(file)) is Some
    &&& png_reader_ok(file)
    &&& bytes_of_color(png_color(file)) * spec_pixel_count(file) <= png_data(file).len()
}

/// Sum the channels of every whole three-byte record the stream can
/// supply, by repeatedly pulling records from the static reader.
/// Returns the totals and how many records were read.
pub fn pixel_sum(px: &mut PixelsRGB8) -> (r: (RgbTotals, u64))
    requires
        old(px).pos() == 0,
        !old(px).failed(),
        png_data(old(px).file()).len() <= 3 * 0xffff_ffff * 0xffff_ffff,
    ensures
        final(px).file() == old(px).file(),
        3 * r.1 <= png_data(old(px).file()).len() < 3 * r.1 + 3,
        r.0.as_triple() == spec_channel_sums(
            png_data(old(px).file()),
            PixelFormat::Rgb8,
            r.1 as nat,
        ),
{
    let ghost file0 = px.file();
    let ghost data = png_data(file0);
    let mut totals = RgbTotals::new();
    let mut count: u64 = 0;
    let mut done: bool = false;
    while !done
        invariant
            px.file() == file0,
            data == png_data(file0),
            data.len() <= 3 * 0xffff_ffff * 0xffff_ffff,
            0 <= px.pos() <= data.len(),
            !done ==> (px.pos() == 3 * count && !px.failed()),
            done ==> (3 * count <= data.len() < 3 * count + 3),
            3 * count <= data.len(),
            totals.red <= 255 * count,
            totals.green <= 255 * count,
            totals.blue <= 255 * count,
            totals.as_triple() == spec_channel_sums(data, PixelFormat::Rgb8, count as nat),
        decreases data.len() - px.pos() + (if done { 0int } else { 1int }),
    {
        match px.next() {
            Some(p) => {
                proof {
                    let rec = record_at(data, PixelFormat::Rgb8, count as int);
                    assert(rec == data.subrange(3 * count, 3 * count + 3));
                    assert(spec_channel_sums(data, PixelFormat::Rgb8, (count + 1) as nat)
                        == (
                        spec_channel_sums(data, PixelFormat::Rgb8, count as nat).0 + spec_to_rgb(
                            spec_sample(PixelFormat::Rgb8, rec),
                        ).0,
                        spec_channel_sums(data, PixelFormat::Rgb8, count as nat).1 + spec_to_rgb(
                            spec_sample(PixelFormat::Rgb8, rec),
                        ).1,
                        spec_channel_sums(data, PixelFormat::Rgb8, count as nat).2 + spec_to_rgb(
                            spec_sample(PixelFormat::Rgb8, rec),
                        ).2,
                    ));
                }
                totals.add_rgb(p);
                count = count + 1;
            },
            None => {
                done = true;
            },
        }
    }
    (totals, count)
}

/// Sum the channels of every whole record the stream can supply,
/// converting each tagged sample to the common three-channel form
/// first.  Returns the totals and how many records were read.
pub fn pixel_sum_dynamic(px: &mut PixelsDynamic) -> (r: (RgbTotals, u64))
    requires
        old(px).wf(),
        old(px).pos() == 0,
        !old(px).failed(),
        png_data(old(px).file()).len() <= bytes_of_format(old(px).format()) * 0xffff_ffff
            * 0xffff_ffff,
    ensures
        final(px).file() == old(px).file(),
        final(px).format() == old(px).format(),
        bytes_of_format(old(px).format()) * r.1 <= png_data(old(px).file()).len()
            < bytes_of_format(old(px).format()) * r.1 + bytes_of_format(old(px).format()),
        r.0.as_triple() == spec_channel_sums(
            png_data(old(px).file()),
            old(px).format(),
            r.1 as nat,
        ),
{
    let ghost file0 = px.file();
    let ghost data = png_data(file0);
    let ghost fmt = px.format();
    let ghost bpf = bytes_of_format(fmt) as int;
    let mut totals = RgbTotals::new();
    let mut count: u64 = 0;
    let mut done: bool = false;
    proof {
        assert(1 <= bpf <= 4);
    }
    while !done
        invariant
            px.wf(),
            px.file() == file0,
            px.format() == fmt,
            data == png_data(file0),
            bpf == bytes_of_format(fmt) as int,
            1 <= bpf <= 4,
            data.len() <= bpf * 0xffff_ffff * 0xffff_ffff,
            0 <= px.pos() <= data.len(),
            !done ==> (px.pos() == bpf * count && !px.failed()),
            done ==> (bpf * count <= data.len() < bpf * count + bpf),
            bpf * count <= data.len(),
            totals.red <= 255 * count,
            totals.green <= 255 * count,
            totals.blue <= 255 * count,
            totals.as_triple() == spec_channel_sums(data, fmt, count as nat),
        decreases data.len() - px.pos() + (if done { 0int } else { 1int }),
    {
        match px.next() {
            Some(p) => {
                proof {
                    let rec = record_at(data, fmt, count as int);
                    assert(rec == data.subrange(bpf * count, bpf * count + bpf));
                    assert(p == spec_sample(fmt, rec));
                    assert(spec_channel_sums(data, fmt, (count + 1) as nat) == (
                        spec_channel_sums(data, fmt, count as nat).0 + spec_to_rgb(
                            spec_sample(fmt, rec),
                        ).0,
                        spec_channel_sums(data, fmt, count as nat).1 + spec_to_rgb(
                            spec_sample(fmt, rec),
                        ).1,
                        spec_channel_sums(data, fmt, count as nat).2 + spec_to_rgb(
                            spec_sample(fmt, rec),
                        ).2,
                    ));
                    assert(count + 1 <= 0xffff_ffff * 0xffff_ffff) by (nonlinear_arith)
                        requires
                            bpf * (count + 1) <= data.len(),
                            data.len() <= bpf * 0xffff_ffff * 0xffff_ffff,
                            1 <= bpf,
                    ;
                }
                let rgb = p.to_rgb();
                totals.add_rgb(rgb);
                count = count + 1;
            },
            None => {
                done = true;
            },
        }
    }
    (totals, count)
}

/// Sum the channels of a whole decoded buffer, three bytes per pixel,
/// read in place by reference.
pub fn pixel_sum_borrowed(data: &Vec<u8>) -> (r: RgbTotals)
    requires
        data@.len() % 3 == 0,
    ensures
        r.as_triple() == spec_channel_sums(data@, PixelFormat::Rgb8, (data@.len() / 3) as nat),
{
    let n: usize = data.len() / 3;
    proof {
        assert(data@.len() == 3 * (data@.len() / 3) + data@.len() % 3) by {
            vstd::arithmetic::div_mod::lemma_fundamental_div_mod(data@.len() as int, 3);
        };
    }
    let mut totals = RgbTotals::new();
    let mut i: usize = 0;
    while i < n
        invariant
            n == data@.len() / 3,
            data@.len() % 3 == 0,
            data@.len() == 3 * n,
            data@.len() <= usize::MAX,
            i <= n,
            totals.red <= 255 * i,
            totals.green <= 255 * i,
            totals.blue <= 255 * i,
            totals.as_triple() == spec_channel_sums(data@, PixelFormat::Rgb8, i as nat),
        decreases n - i,
    {
        let base: usize = 3 * i;
        let red = data[base];
        let green = data[base + 1];
        let blue = data[base + 2];
        proof {
            let rec = record_at(data@, PixelFormat::Rgb8, i as int);
            assert(rec == data@.subrange(3 * i, 3 * i + 3));
            assert(rec[0] == data@[3 * i] && rec[1] == data@[3 * i + 1] && rec[2] == data@[3 * i
                + 2]);
            assert(spec_channel_sums(data@, PixelFormat::Rgb8, (i + 1) as nat) == (
                spec_channel_sums(data@, PixelFormat::Rgb8, i as nat).0 + spec_to_rgb(
                    spec_sample(PixelFormat::Rgb8, rec),
                ).0,
                spec_channel_sums(data@, PixelFormat::Rgb8, i as nat).1 + spec_to_rgb(
                    spec_sample(PixelFormat::Rgb8, rec),
                ).1,
                spec_channel_sums(data@, PixelFormat::Rgb8, i as nat).2 + spec_to_rgb(
                    spec_sample(PixelFormat::Rgb8, rec),
                ).2,
            ));
        }
        totals.add_rgb((red, green, blue));
        i = i + 1;
    }
    totals
}

/// The buffered-eager strategy: decode the whole image into one
/// contiguous buffer up front, then iterate three-byte windows over
/// it by reference.  A layout outside the four supported encodings is
/// rejected before anything is decoded; after that the buffer is
/// accepted only when it holds exactly three bytes per promised
/// pixel, as the three-channel container demands.
pub fn load_image_buffer(file: &Vec<u8>) -> (r: Result<RgbTotals, PixelError>)
    ensures
        r is Ok <==> buffer_ok(file@),
        r is Ok ==> (r->Ok_0).as_triple() == spec_buffer_sums(file@),
        !png_ok(file@) ==> r == Err::<RgbTotals, PixelError>(PixelError::DecodeFailed),
        png_ok(file@) && format_of_color(png_color(file@)) is None ==> r == Err::<
            RgbTotals,
            PixelError,
        >(PixelError::UnsupportedEncoding),
        png_ok(file@) && format_of_color(png_color(file@)) is Some && !(png_complete(file@)
            && png_data(file@).len() <= usize::MAX) ==> r == Err::<RgbTotals, PixelError>(
            PixelError::DecodeFailed,
        ),
        png_ok(file@) && format_of_color(png_color(file@)) is Some && png_complete(file@)
            && png_data(file@).len() <= usize::MAX && png_data(file@).len() != 3
            * spec_pixel_count(file@) ==> r == Err::<RgbTotals, PixelError>(
            PixelError::EncodingMismatch,
        ),
{
    let src = match png_open(file) {
        Ok(s) => s,
        Err(e) => {
            return Err(e);
        },
    };
    let dims = png_dimensions(&src);
    let color = png_color_kind(&src);
    match PixelFormat::from_color(&color) {
        Ok(_) => {},
        Err(e) => {
            return Err(e);
        },
    };
    proof {
        assert(crate::pixel::eight_bit(png_color(file@)));
    }
    let data = match png_read_all(src) {
        Ok(d) => d,
        Err(e) => {
            return Err(e);
        },
    };
    proof {
        assert((dims.0 as int) * (dims.1 as int) <= 0xffff_ffff * 0xffff_ffff)
            by (nonlinear_arith)
            requires
                dims.0 <= 0xffff_ffff,
                dims.1 <= 0xffff_ffff,
        ;
    }
    let n_pixels: u64 = (dims.0 as u64) * (dims.1 as u64);
    if (data.len() as u128) == (n_pixels as u128) * 3 {
        proof {
            assert(data@.len() % 3 == 0);
            assert(data@.len() / 3 == n_pixels as int);
        }
        let totals = pixel_sum_borrowed(&data);
        Ok(totals)
    } else {
        Err(PixelError::EncodingMismatch)
    }
}

/// The incremental-static strategy: check that the image reports the
/// three-channel layout assumed at build time, then read one
/// three-byte record at a time from the decode stream, never holding
/// more than one record.  A stream that ends before every promised
/// pixel was read is a decode failure.
pub fn load_image_incremental_static(file: &Vec<u8>) -> (r: Result<RgbTotals, PixelError>)
    ensures
        r is Ok <==> static_ok(file@),
        r is Ok ==> (r->Ok_0).as_triple() == spec_static_sums(file@),
        !png_ok(file@) ==> r == Err::<RgbTotals, PixelError>(PixelError::DecodeFailed),
        png_ok(file@) && png_color(file@) != ColorKind::Rgb8 ==> r == Err::<
            RgbTotals,
            PixelError,
        >(PixelError::EncodingMismatch),
        png_ok(file@) && png_color(file@) == ColorKind::Rgb8 && !png_reader_ok(file@) ==> r
            == Err::<RgbTotals, PixelError>(PixelError::DecodeFailed),
        png_ok(file@) && png_color(file@) == ColorKind::Rgb8 && png_reader_ok(file@) && png_data(
            file@,
        ).len() < 3 * spec_pixel_count(file@) ==> r == Err::<RgbTotals, PixelError>(
            PixelError::DecodeFailed,
        ),
{
    let src = match png_open(file) {
        Ok(s) => s,
        Err(e) => {
            return Err(e);
        },
    };
    let dims = png_dimensions(&src);
    let color = png_color_kind(&src);
    if !(color == ColorKind::Rgb8) {
        return Err(PixelError::EncodingMismatch);
    }
    let reader = match png_into_reader(src) {
        Ok(rd) => rd,
        Err(e) => {
            return Err(e);
        },
    };
    let mut px = pixels_rgb8(reader);
    proof {
        assert((dims.0 as int) * (dims.1 as int) <= 0xffff_ffff * 0xffff_ffff)
            by (nonlinear_arith)
            requires
                dims.0 <= 0xffff_ffff,
                dims.1 <= 0xffff_ffff,
        ;
        assert(spec_total_bytes(file@) == 3 * spec_pixel_count(file@));
    }
    let (totals, count) = pixel_sum(&mut px);
    proof {
        assert((dims.0 as int) * (dims.1 as int) * 3 == 3 * ((dims.0 as int) * (dims.1 as int)));
    }
    let n_pixels: u64 = (dims.0 as u64) * (dims.1 as u64);
    if count == n_pixels {
        Ok(totals)
    } else {
        Err(PixelError::DecodeFailed)
    }
}

/// The incremental-dynamic strategy: size each record by the layout
/// the image actually reports (rejecting the unsupported ones), tag
/// every sample with its encoding, and convert each to the common
/// three-channel form before accumulating.  A stream that ends before
/// every promised pixel was read is a decode failure.
pub fn load_image_incremental_dynamic(file: &Vec<u8>) -> (r: Result<RgbTotals, PixelError>)
    ensures
        r is Ok <==> dynamic_ok(file@),
        r is Ok ==> (r->Ok_0).as_triple() == spec_dynamic_sums(file@),
        !png_ok(file@) ==> r == Err::<RgbTotals, PixelError>(PixelError::DecodeFailed),
        png_ok(file@) && format_of_color(png_color(file@)) is None ==> r == Err::<
            RgbTotals,
            PixelError,
        >(PixelError::UnsupportedEncoding),
        png_ok(file@) && format_of_color(png_color(file@)) is Some && !png_reader_ok(file@) ==> r
            == Err::<RgbTotals, PixelError>(PixelError::DecodeFailed),
        png_ok(file@) && format_of_color(png_color(file@)) is Some && png_reader_ok(file@)
            && png_data(file@).len() < bytes_of_color(png_color(file@)) * spec_pixel_count(file@)
            ==> r == Err::<RgbTotals, PixelError>(PixelError::DecodeFailed),
{
    let src = match png_open(file) {
        Ok(s) => s,
        Err(e) => {
            return Err(e);
        },
    };
    let dims = png_dimensions(&src);
    let mut px = match pixels_dynamic(src) {
        Ok(p) => p,
        Err(e) => {
            return Err(e);
        },
    };
    let ghost fmt = px.format();
    let ghost bpf = bytes_of_format(fmt) as int;
    proof {
        assert(bytes_of_color(png_color(file@)) == bytes_of_format(fmt));
        assert((dims.0 as int) * (dims.1 as int) <= 0xffff_ffff * 0xffff_ffff)
            by (nonlinear_arith)
            requires
                dims.0 <= 0xffff_ffff,
                dims.1 <= 0xffff_ffff,
        ;
        assert(spec_total_bytes(file@) == (dims.0 as int) * (dims.1 as int) * bpf);
        assert(png_data(file@).len() <= bpf * 0xffff_ffff * 0xffff_ffff) by (nonlinear_arith)
            requires
                png_data(file@).len() <= (dims.0 as int) * (dims.1 as int) * bpf,
                (dims.0 as int) * (dims.1 as int) <= 0xffff_ffff * 0xffff_ffff,
                0 <= bpf,
        ;
    }
    let (totals, count) = pixel_sum_dynamic(&mut px);
    let n_pixels: u64 = (dims.0 as u64) * (dims.1 as u64);
    proof {
        assert(png_data(file@).len() <= bpf * (n_pixels as int)) by (nonlinear_arith)
            requires
                png_data(file@).len() <= (dims.0 as int) * (dims.1 as int) * bpf,
                n_pixels == (dims.0 as int) * (dims.1 as int),
        ;
        if count == n_pixels {
            assert(bpf * (n_pixels as int) <= png_data(file@).len());
        } else {
            assert(!(bpf * (n_pixels as int) <= png_data(file@).len())) by (nonlinear_arith)
                requires
                    count != n_pixels,
                    bpf * (count as int) <= png_data(file@).len() < bpf * (count as int) + bpf,
                    png_data(file@).len() <= bpf * (n_pixels as int),
                    1 <= bpf,
            ;
        }
        assert(bytes_of_color(png_color(file@)) * spec_pixel_count(file@) == bpf * (
        n_pixels as int));
    }
    if count == n_pixels {
        Ok(totals)
    } else {
        Err(PixelError::DecodeFailed)
    }
}

/// Cross-strategy equivalence: on a file whose reported layout is the
/// three-channel one, the three strategies' result specifications
/// coincide, so any two strategies that succeed on such a file return
/// the same totals.  (On a channel-swapped file the buffered
/// strategy, which never examines the layout, would read the channels
/// in file order, so the law is stated for the three-channel layout.)
pub proof fn lemma_cross_strategy_equivalence(file: Seq<u8>)
    requires
        png_color(file) == ColorKind::Rgb8,
    ensures
        spec_buffer_sums(file) == spec_static_sums(file),
        spec_static_sums(file) == spec_dynamic_sums(file),
{
}

/// Unsupported-encoding rejection: an image whose reported layout is
/// outside the four supported encodings is rejected by every
/// strategy, whatever the decoded bytes hold: each strategy's success
/// condition demands a supported layout.
pub proof fn lemma_unsupported_encoding_rejected(file: Seq<u8>)
    requires
        format_of_color(png_color(file)) is None,
    ensures
        !buffer_ok(file),
        !static_ok(file),
        !dynamic_ok(file),
{
}

/// Static/actual mismatch rejection: the static strategy never
/// succeeds on an image whose reported layout is not the assumed
/// three-channel one.
pub proof fn lemma_static_mismatch_rejected(file: Seq<u8>)
    requires
        png_color(file) != ColorKind::Rgb8,
    ensures
        !static_ok(file),
{
}

} // verus!
