//! QR rendering: the symbol encoder is an outside capability that turns a
//! string into a square matrix of dark and light modules; this module
//! renders that matrix as a monospace text grid or as a monochrome raster
//! scaled to a requested minimum pixel size and encoded as PNG.

use vstd::prelude::*;

use crate::error::Error;

verus! {

/// The error type of the QR symbol encoder.
#[verifier::external_type_specification]
#[verifier::external_body]
pub struct ExQrError(qrcode::types::QrError);

/// The module matrix the QR symbol encoder produces for the given text:
/// a square matrix of rows, `true` for a dark module. The matrix is a
/// function of the encoded text alone.
pub uninterp spec fn qr_modules_of(data: Seq<char>) -> Seq<Seq<bool>>;

/// Whether the QR symbol encoder accepts the given text. Like the matrix
/// itself this is a function of the text alone: encoding fails exactly
/// when the data fits no supported symbol version, never by chance.
pub uninterp spec fn qr_encodable(data: Seq<char>) -> bool;

/// The PNG encoding of a monochrome raster with the given dimensions and
/// one byte per pixel, row-major. The bytes are a function of the
/// dimensions and pixel values alone.
pub uninterp spec fn png_encoding_of(width: nat, height: nat, pixels: Seq<u8>) -> Seq<u8>;

/// Relies on `qrcode::QrCode::new` and `QrCode::to_colors`: whether
/// encoding succeeds, and what it yields, depend on the input bytes
/// alone. It succeeds only with a normal (non-micro) QR version, whose
/// width is between 21 and 177 modules, and yields one color per module
/// of a square matrix, row-major.
#[verifier::external_body]
fn qr_encode(data: &str) -> (r: Result<Vec<Vec<bool>>, qrcode::types::QrError>)
    ensures
        r is Ok <==> qr_encodable(data@),
        r matches Ok(m) ==> {
            &&& m.deep_view() == qr_modules_of(data@)
            &&& 21 <= m@.len() <= 177
            &&& forall|i: int| 0 <= i < m@.len() ==> (#[trigger] m@[i])@.len() == m@.len()
        },
{
    match qrcode::QrCode::new(data.as_bytes()) {
        Ok(code) => {
            let w = code.width();
            let colors = code.to_colors();
            let mut rows: Vec<Vec<bool>> = Vec::with_capacity(w);
            for chunk in colors.chunks(w) {
                rows.push(chunk.iter().map(|c| *c == qrcode::Color::Dark).collect());
            }
            Ok(rows)
        },
        Err(e) => Err(e),
    }
}

/// Relies on `image::ImageBuffer::from_raw` and `ImageBuffer::write_to`
/// with the PNG format: the buffer holds exactly one byte per pixel of
/// an 8-bit grayscale image with nonzero dimensions and is written to an
/// in-memory buffer, so construction and encoding cannot fail, and the
/// encoded PNG bytes depend on the dimensions and pixels alone.
#[verifier::external_body]
fn png_encode(width: u32, height: u32, pixels: Vec<u8>) -> (r: Vec<u8>)
    requires
        pixels@.len() == width * height,
        1 <= width,
        1 <= height,
    ensures
        r@ == png_encoding_of(width as nat, height as nat, pixels@),
{
    let img: image::GrayImage = image::ImageBuffer::from_raw(width, height, pixels).unwrap();
    let mut buffer = std::io::Cursor::new(Vec::new());
    img.write_to(&mut buffer, image::ImageFormat::Png).unwrap();
    buffer.into_inner()
}

/// The two characters one module occupies in the text grid.
pub open spec fn spec_module_chars(dark: bool) -> Seq<char> {
    if dark {
        seq!['\u{2588}', '\u{2588}']
    } else {
        seq![' ', ' ']
    }
}

/// One module row as a row of text: two characters per module.
pub open spec fn spec_ascii_row(row: Seq<bool>) -> Seq<char>
    decreases row.len(),
{
    if row.len() == 0 {
        Seq::empty()
    } else {
        spec_module_chars(row[0]) + spec_ascii_row(row.skip(1))
    }
}

/// The whole matrix as a text grid: one text row per module row, joined
/// by single newlines, with no quiet zone and no trailing newline.
pub open spec fn spec_ascii_grid(m: Seq<Seq<bool>>) -> Seq<char>
    decreases m.len(),
{
    if m.len() == 0 {
        Seq::empty()
    } else if m.len() == 1 {
        spec_ascii_row(m[0])
    } else {
        spec_ascii_row(m[0]) + seq!['\n'] + spec_ascii_grid(m.skip(1))
    }
}

fn push_ascii_row(out: &mut String, row: &Vec<bool>, j: usize)
    requires
        j <= row@.len(),
    ensures
        final(out)@ == old(out)@ + spec_ascii_row(row@.skip(j as int)),
    decreases row@.len() - j,
{
    if j == row.len() {
        proof {
            assert(row@.skip(j as int) =~= Seq::<bool>::empty());
            assert(out@ =~= old(out)@ + spec_ascii_row(row@.skip(j as int)));
        }
        return ;
    }
    let c: char = if row[j] {
        '\u{2588}'
    } else {
        ' '
    };
    crate::text::push_char(out, c);
    crate::text::push_char(out, c);
    push_ascii_row(out, row, j + 1);
    proof {
        assert(row@.skip(j as int)[0] == row@[j as int]);
        assert(row@.skip(j as int).skip(1) =~= row@.skip(j as int + 1));
        assert(out@ =~= old(out)@ + spec_ascii_row(row@.skip(j as int)));
    }
}

fn push_ascii_grid(out: &mut String, m: &Vec<Vec<bool>>, i: usize)
    requires
        i <= m@.len(),
    ensures
        final(out)@ == old(out)@ + spec_ascii_grid(m.deep_view().skip(i as int)),
    decreases m@.len() - i,
{
    if i == m.len() {
        proof {
            assert(m.deep_view().skip(i as int) =~= Seq::<Seq<bool>>::empty());
            assert(out@ =~= old(out)@ + spec_ascii_grid(m.deep_view().skip(i as int)));
        }
        return ;
    }
    push_ascii_row(out, &m[i], 0);
    proof {
        assert(m@[i as int]@.skip(0) =~= m@[i as int]@);
        assert(m@[i as int].deep_view() =~= m@[i as int]@);
        assert(m.deep_view().skip(i as int)[0] == m.deep_view()[i as int]);
    }
    if i + 1 == m.len() {
        proof {
            assert(m.deep_view().skip(i as int).len() == 1);
            assert(out@ =~= old(out)@ + spec_ascii_grid(m.deep_view().skip(i as int)));
        }
        return ;
    }
    crate::text::push_char(out, '\n');
    push_ascii_grid(out, m, i + 1);
    proof {
        assert(m.deep_view().skip(i as int).skip(1) =~= m.deep_view().skip(i as int + 1));
        assert(m.deep_view().skip(i as int).len() >= 2);
        assert(out@ =~= old(out)@ + spec_ascii_grid(m.deep_view().skip(i as int)));
    }
}

/// Renders a module matrix as a monospace text grid: one text row per
/// module row, two characters per module, no quiet zone.
pub fn ascii_grid(m: &Vec<Vec<bool>>) -> (r: String)
    ensures
        r@ == spec_ascii_grid(m.deep_view()),
{
    let mut out = String::new();
    push_ascii_grid(&mut out, m, 0);
    proof {
        assert(m.deep_view().skip(0) =~= m.deep_view());
        assert(out@ =~= spec_ascii_grid(m.deep_view()));
    }
    out
}

/// The per-module pixel size that makes `w` modules reach at least
/// `size` pixels: the quotient of `size` by `w`, rounded up.
pub open spec fn spec_scale(w: nat, size: nat) -> nat
    recommends
        1 <= w,
{
    ((size + w - 1) / (w as int)) as nat
}

/// The pixel width and height of the raster: every module becomes a
/// square of `spec_scale` pixels a side.
pub open spec fn spec_out_dim(w: nat, size: nat) -> nat
    recommends
        1 <= w,
{
    w * spec_scale(w, size)
}

/// The monochrome raster of a module matrix, row-major, one byte per
/// pixel: 0 for a dark module, 255 for a light one.
pub open spec fn spec_raster(m: Seq<Seq<bool>>, size: nat) -> Seq<u8> {
    let scale = spec_scale(m.len(), size) as int;
    let d = spec_out_dim(m.len(), size) as int;
    Seq::new(
        (d * d) as nat,
        |k: int|
            if m[(k / d) / scale][(k % d) / scale] {
                0u8
            } else {
                255u8
            },
    )
}

/// The raster covers the requested size: with at least one module a side
/// and a positive requested size, the output dimension -- the module
/// count times the rounded-up per-module pixel size -- is at least the
/// requested size, and overshoots it by less than one module row.
pub proof fn lemma_raster_covers_requested_size(w: nat, size: nat)
    requires
        1 <= w,
        1 <= size,
    ensures
        size <= spec_out_dim(w, size) <= size + w - 1,
        1 <= spec_scale(w, size),
{
    let x = (size + w - 1) as int;
    let wi = w as int;
    vstd::arithmetic::div_mod::lemma_fundamental_div_mod(x, wi);
    vstd::arithmetic::div_mod::lemma_mod_division_less_than_divisor(x, wi);
    assert(wi * (x / wi) == x - x % wi);
    if x / wi < 1 {
        assert(wi * (x / wi) <= 0) by (nonlinear_arith)
            requires
                wi >= 1 && x / wi <= 0,
        ;
    }
}

fn build_raster(m: &Vec<Vec<bool>>, size: u32) -> (r: (u32, Vec<u8>))
    requires
        1 <= m@.len() <= 177,
        forall|i: int| 0 <= i < m@.len() ==> (#[trigger] m@[i])@.len() == m@.len(),
        1 <= size <= MAX_QR_SIZE,
    ensures
        r.0 == spec_out_dim(m.deep_view().len(), size as nat),
        size <= r.0,
        r.1@ == spec_raster(m.deep_view(), size as nat),
{
    let ghost g = m.deep_view();
    let w = m.len();
    let size_us = size as usize;
    let scale = (size_us + w - 1) / w;
    proof {
        assert(g.len() == w);
        lemma_raster_covers_requested_size(w as nat, size as nat);
        assert(scale == spec_scale(w as nat, size as nat));
    }
    let d = w * scale;
    proof {
        assert(d == spec_out_dim(w as nat, size as nat));
        assert(size <= d <= 8368);
    }
    let ghost target = spec_raster(g, size as nat);
    let mut pixels: Vec<u8> = Vec::new();
    let mut y: usize = 0;
    while y < d
        invariant
            g == m.deep_view(),
            g.len() == w,
            forall|i: int| 0 <= i < g.len() ==> (#[trigger] g[i]).len() == w,
            1 <= w <= 177,
            1 <= scale,
            d == w * scale,
            d <= 8368,
            scale == spec_scale(w as nat, size as nat),
            d == spec_out_dim(w as nat, size as nat),
            target == spec_raster(g, size as nat),
            target.len() == d * d,
            y <= d,
            pixels@.len() == y * d,
            forall|k: int| 0 <= k < y * d ==> pixels@[k] == target[k],
        decreases d - y,
    {
        let mut x: usize = 0;
        proof {
            assert(y * d + x == y * d);
        }
        while x < d
            invariant
                g == m.deep_view(),
                g.len() == w,
                forall|i: int| 0 <= i < g.len() ==> (#[trigger] g[i]).len() == w,
                1 <= w <= 177,
                1 <= scale,
                d == w * scale,
                d <= 8368,
                scale == spec_scale(w as nat, size as nat),
                d == spec_out_dim(w as nat, size as nat),
                target == spec_raster(g, size as nat),
                target.len() == d * d,
                y < d,
                x <= d,
                pixels@.len() == y * d + x,
                forall|k: int| 0 <= k < y * d + x ==> pixels@[k] == target[k],
            decreases d - x,
        {
            proof {
                assert(y / scale < w) by {
                    vstd::arithmetic::div_mod::lemma_multiply_divide_lt(
                        y as int,
                        scale as int,
                        w as int,
                    );
                }
                assert(x / scale < w) by {
                    vstd::arithmetic::div_mod::lemma_multiply_divide_lt(
                        x as int,
                        scale as int,
                        w as int,
                    );
                }
            }
            let my = y / scale;
            let mx = x / scale;
            proof {
                assert(g[my as int] == m@[my as int].deep_view());
                assert(m@[my as int].deep_view() =~= m@[my as int]@);
                assert(g[my as int].len() == w);
                assert(m@[my as int]@.len() == w);
            }
            let dark = m[my][mx];
            proof {
                assert(g[my as int][mx as int] == m@[my as int]@[mx as int]);
            }
            let v: u8 = if dark {
                0
            } else {
                255
            };
            let ghost k0 = (y * d + x) as int;
            pixels.push(v);
            proof {
                vstd::arithmetic::div_mod::lemma_fundamental_div_mod_converse(
                    k0,
                    d as int,
                    y as int,
                    x as int,
                );
                assert(k0 < d * d) by (nonlinear_arith)
                    requires
                        k0 == y * d + x && 0 <= y < d && 0 <= x < d,
                ;
                assert(target[k0] == v);
                assert(forall|k: int| 0 <= k < y * d + x + 1 ==> pixels@[k] == target[k]);
            }
            x = x + 1;
        }
        y = y + 1;
        proof {
            assert(y * d == (y - 1) * d + d) by (nonlinear_arith);
        }
    }
    proof {
        assert(pixels@.len() == d * d) by (nonlinear_arith)
            requires
                pixels@.len() == y * d && y == d,
        ;
        assert(pixels@ =~= target);
        assert(d <= u32::MAX);
    }
    (d as u32, pixels)
}

/// One module row of text holds exactly two characters per module and
/// never a newline.
pub proof fn lemma_ascii_row_shape(row: Seq<bool>)
    ensures
        spec_ascii_row(row).len() == 2 * row.len(),
        forall|k: int|
            0 <= k < spec_ascii_row(row).len() ==> #[trigger] spec_ascii_row(row)[k] != '\n',
    decreases row.len(),
{
    if row.len() > 0 {
        lemma_ascii_row_shape(row.skip(1));
    }
}

/// One text row per module row: in the grid of a matrix whose rows all
/// hold `w` modules, each module row occupies one run of `2 * w`
/// non-newline characters, the runs are separated by single newlines,
/// and the run of row `i` is exactly that row's text.
pub proof fn lemma_ascii_grid_shape(m: Seq<Seq<bool>>, w: nat)
    requires
        1 <= m.len(),
        forall|i: int| 0 <= i < m.len() ==> (#[trigger] m[i]).len() == w,
    ensures
        spec_ascii_grid(m).len() == m.len() * (2 * w + 1) - 1,
        forall|i: int|
            0 <= i < m.len() ==> spec_ascii_grid(m).subrange(
                i * (2 * w + 1),
                i * (2 * w + 1) + 2 * w,
            ) == spec_ascii_row(m[i]),
        forall|i: int|
            1 <= i < m.len() ==> spec_ascii_grid(m)[#[trigger] (i * (2 * w + 1)) - 1] == '\n',
    decreases m.len(),
{
    let g = spec_ascii_grid(m);
    let stride = 2 * w + 1;
    lemma_ascii_row_shape(m[0]);
    if m.len() == 1 {
        assert(g.subrange(0, 2 * w as int) =~= spec_ascii_row(m[0]));
    } else {
        let rest = m.skip(1);
        assert(forall|i: int| 0 <= i < rest.len() ==> (#[trigger] rest[i]).len() == w);
        lemma_ascii_grid_shape(rest, w);
        let grest = spec_ascii_grid(rest);
        assert(g == spec_ascii_row(m[0]) + seq!['\n'] + grest);
        assert(spec_ascii_row(m[0]).len() == 2 * w);
        assert(g.len() == 2 * w + 1 + grest.len());
        assert(g.len() == m.len() * stride - 1) by (nonlinear_arith)
            requires
                g.len() == 2 * w + 1 + grest.len(),
                grest.len() == rest.len() * stride - 1,
                rest.len() == m.len() - 1,
                stride == 2 * w + 1,
                m.len() >= 2,
        ;
        assert(g.subrange(0, 2 * w as int) =~= spec_ascii_row(m[0]));
        assert forall|i: int| 1 <= i < m.len() implies g.subrange(
            i * stride,
            i * stride + 2 * w,
        ) == spec_ascii_row(m[i]) by {
            assert((i - 1) * stride == i * stride - stride) by (nonlinear_arith);
            assert(stride <= i * stride) by (nonlinear_arith)
                requires
                    1 <= i && stride >= 1,
            ;
            assert(i * stride <= rest.len() * stride) by (nonlinear_arith)
                requires
                    i <= rest.len() && stride >= 1,
            ;
            assert(grest.subrange((i - 1) * stride, (i - 1) * stride + 2 * w)
                == spec_ascii_row(rest[i - 1]));
            assert(rest[i - 1] == m[i]);
            assert(g.subrange(i * stride, i * stride + 2 * w) =~= grest.subrange(
                (i - 1) * stride,
                (i - 1) * stride + 2 * w,
            ));
        }
        assert forall|i: int| 1 <= i < m.len() implies g[#[trigger] (i * stride) - 1]
            == '\n' by {
            assert((i - 1) * stride == i * stride - stride) by (nonlinear_arith);
            assert(stride <= i * stride) by (nonlinear_arith)
                requires
                    1 <= i && stride >= 1,
            ;
            assert(i * stride <= rest.len() * stride) by (nonlinear_arith)
                requires
                    i <= rest.len() && stride >= 1,
            ;
            if i == 1 {
                assert(g[2 * w as int] == '\n');
            } else {
                assert(grest[((i - 1) * stride) - 1] == '\n');
                assert(g[(i * stride) - 1] == grest[((i - 1) * stride) - 1]);
            }
        }
    }
}

/// How a QR code is asked for: as a text grid or as a PNG raster.
pub enum QrFormat {
    Ascii,
    Raster,
}

/// A rendered QR code: a text grid, or the bytes of a PNG image.
#[derive(Debug)]
pub enum QrOutput {
    Ascii(String),
    Png(Vec<u8>),
}

impl QrOutput {
    /// The content type a response carrying this output declares.
    pub fn content_type(&self) -> (r: &'static str)
        ensures
            self is Ascii ==> r@ == "text/plain"@,
            self is Png ==> r@ == "image/png"@,
    {
        match self {
            QrOutput::Ascii(_) => "text/plain",
            QrOutput::Png(_) => "image/png",
        }
    }
}

/// The largest raster size a request may ask for; anything above it is
/// rejected so the pixel buffer stays of modest memory size.
pub const MAX_QR_SIZE: u32 = 8192;

/// Renders the QR code for `url`: the result is the text grid or the
/// PNG raster (at least `size` pixels in both axes) of the encoded
/// module matrix. Rendering succeeds exactly when the symbol encoder
/// accepts the text; a text too long for any symbol version surfaces as
/// `RenderFailure`.
pub fn render_qr(url: &str, size: u32, format: QrFormat) -> (r: Result<QrOutput, Error>)
    requires
        1 <= size <= MAX_QR_SIZE,
    ensures
        r is Ok <==> qr_encodable(url@),
        r is Ok ==> {
            let m = qr_modules_of(url@);
            &&& 21 <= m.len() <= 177
            &&& forall|i: int| 0 <= i < m.len() ==> (#[trigger] m[i]).len() == m.len()
        },
        match r {
            Ok(out) => match out {
                QrOutput::Ascii(s) => format is Ascii && s@ == spec_ascii_grid(
                    qr_modules_of(url@),
                ),
                QrOutput::Png(b) => {
                    let m = qr_modules_of(url@);
                    let d = spec_out_dim(m.len(), size as nat);
                    &&& format is Raster
                    &&& size <= d
                    &&& b@ == png_encoding_of(d, d, spec_raster(m, size as nat))
                },
            },
            Err(e) => e is RenderFailure,
        },
{
    let modules = match qr_encode(url) {
        Ok(m) => m,
        Err(_) => {
            return Err(Error::RenderFailure("QR code generation failed".to_owned()));
        },
    };
    proof {
        let name = qr_modules_of(url@);
        assert(name.len() == modules@.len());
        assert forall|i: int| 0 <= i < name.len() implies (#[trigger] name[i]).len()
            == name.len() by {
            assert(name[i] == modules@[i].deep_view());
            assert(modules@[i].deep_view().len() == modules@[i]@.len());
        }
    }
    match format {
        QrFormat::Ascii => Ok(QrOutput::Ascii(ascii_grid(&modules))),
        QrFormat::Raster => {
            let (d, pixels) = build_raster(&modules, size);
            Ok(QrOutput::Png(png_encode(d, d, pixels)))
        },
    }
}

} // verus!
