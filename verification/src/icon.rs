//! The favicon of a Java server: its `data:` URL decoded to PNG bytes, the
//! PNG decoded to RGBA pixels, scaled to a square grid and drawn as colored
//! half-block characters.
use vstd::prelude::*;

use base64::Engine;

use crate::text::{
    chars_of, decimal, lemma_decimal_digits, push_decimal, push_str_chars, slice_chars, starts_with_str,
    string_from_chars,
};

verus! {

/// The prefix of a favicon `data:` URL.
pub const DATA_URL_PREFIX: &'static str = "data:image/png;base64,";

/// The size of the rendered favicon grid.
pub const DEFAULT_SIZE: u32 = 32;

// ---------------------------------------------------------------------------
// Decoding
// ---------------------------------------------------------------------------

/// What the `base64` crate's standard engine decodes from `input`
/// (`None` when `input` is not valid standard Base64).
pub uninterp spec fn base64_standard_decode(input: Seq<char>) -> Option<Seq<u8>>;

/// Decodes standard Base64 (`base64::engine::general_purpose::STANDARD.decode`).
/// The contract claims only that the result is a function of the input,
/// named `base64_standard_decode`.
#[verifier::external_body]
fn base64_decode(input: &str) -> (r: Option<Vec<u8>>)
    ensures
        match r {
            Some(v) => base64_standard_decode(input@) == Some(v@),
            None => base64_standard_decode(input@) is None,
        },
{
    base64::engine::general_purpose::STANDARD.decode(input).ok()
}

/// The bytes that a favicon `data:` URL carries: the Base64 text after the
/// PNG data-URL prefix, decoded (`None` without the prefix or when the text
/// does not decode).
pub open spec fn data_url_bytes(data_url: Seq<char>) -> Option<Seq<u8>> {
    let prefix = DATA_URL_PREFIX@;
    if prefix.len() <= data_url.len() && data_url.take(prefix.len() as int) == prefix {
        base64_standard_decode(data_url.skip(prefix.len() as int))
    } else {
        None
    }
}

/// Decodes a favicon `data:` URL to PNG bytes.
pub fn decode_png(data_url: &str) -> (r: Result<Vec<u8>, ()>)
    ensures
        match r {
            Ok(v) => data_url_bytes(data_url@) == Some(v@),
            Err(()) => data_url_bytes(data_url@) is None,
        },
{
    let url = chars_of(data_url);
    if !starts_with_str(url.as_slice(), DATA_URL_PREFIX) {
        return Err(());
    }
    let plen = chars_of(DATA_URL_PREFIX).len();
    let rest = slice_chars(url.as_slice(), plen, url.len());
    assert(rest@ == data_url@.skip(DATA_URL_PREFIX@.len() as int));
    let b64 = string_from_chars(rest.as_slice());
    match base64_decode(b64.as_str()) {
        Some(v) => Ok(v),
        None => Err(()),
    }
}

/// The color type of a decoded PNG frame.
#[derive(PartialEq, Eq, Structural, Debug, Clone, Copy)]
pub enum PngColor {
    Grayscale,
    Rgb,
    Indexed,
    GrayscaleAlpha,
    Rgba,
}

/// A decoded PNG frame: its size, color type and 8-bit samples.
pub struct PngFrame {
    pub width: u32,
    pub height: u32,
    pub color: PngColor,
    pub data: Vec<u8>,
}

impl View for PngFrame {
    type V = (u32, u32, PngColor, Seq<u8>);

    open spec fn view(&self) -> (u32, u32, PngColor, Seq<u8>) {
        (self.width, self.height, self.color, self.data@)
    }
}

/// What the `png` crate decodes from `png_bytes` with palette and gray
/// expansion and 16-bit stripping: the first frame's width, height, color
/// type and samples (`None` when decoding fails).
pub uninterp spec fn png_first_frame(png_bytes: Seq<u8>) -> Option<(u32, u32, PngColor, Seq<u8>)>;

/// Decodes the first frame of a PNG with the `png` crate (`Decoder::new`,
/// `set_transformations(EXPAND | STRIP_16)`, `read_info`,
/// `output_buffer_size`, `next_frame`, `OutputInfo::buffer_size`): the
/// samples are the first `buffer_size()` bytes of the output buffer.  The
/// contract claims only that the result is a function of the input, named
/// `png_first_frame`.
#[verifier::external_body]
fn png_decode_frame(png_bytes: &[u8]) -> (r: Option<PngFrame>)
    ensures
        match r {
            Some(f) => png_first_frame(png_bytes@) == Some(f@),
            None => png_first_frame(png_bytes@) is None,
        },
{
    let mut decoder = png::Decoder::new(std::io::Cursor::new(png_bytes));
    decoder.set_transformations(png::Transformations::EXPAND | png::Transformations::STRIP_16);
    let mut reader = decoder.read_info().ok()?;
    let mut data = vec![0; reader.output_buffer_size()?];
    let info = reader.next_frame(&mut data).ok()?;
    data.truncate(info.buffer_size());
    let color = match info.color_type {
        png::ColorType::Grayscale => PngColor::Grayscale,
        png::ColorType::Rgb => PngColor::Rgb,
        png::ColorType::Indexed => PngColor::Indexed,
        png::ColorType::GrayscaleAlpha => PngColor::GrayscaleAlpha,
        png::ColorType::Rgba => PngColor::Rgba,
    };
    Some(PngFrame { width: info.width, height: info.height, color, data })
}

/// RGB samples widened to RGBA (opaque), for the first `n` whole pixels.
pub open spec fn rgb_to_rgba(d: Seq<u8>, n: nat) -> Seq<u8>
    decreases n,
{
    if n == 0 {
        Seq::empty()
    } else {
        let i = 3 * (n - 1);
        rgb_to_rgba(d, (n - 1) as nat) + seq![d[i], d[i + 1], d[i + 2], 255u8]
    }
}

/// Gray samples widened to RGBA (opaque), for the first `n` pixels.
pub open spec fn gray_to_rgba(d: Seq<u8>, n: nat) -> Seq<u8>
    decreases n,
{
    if n == 0 {
        Seq::empty()
    } else {
        let v = d[n - 1];
        gray_to_rgba(d, (n - 1) as nat) + seq![v, v, v, 255u8]
    }
}

/// Gray-and-alpha samples widened to RGBA, for the first `n` whole pixels.
pub open spec fn gray_alpha_to_rgba(d: Seq<u8>, n: nat) -> Seq<u8>
    decreases n,
{
    if n == 0 {
        Seq::empty()
    } else {
        let i = 2 * (n - 1);
        gray_alpha_to_rgba(d, (n - 1) as nat) + seq![d[i], d[i], d[i], d[i + 1]]
    }
}

/// The RGBA samples of a frame's samples (trailing partial pixels are
/// dropped; indexed frames have none).
pub open spec fn rgba_of(color: PngColor, d: Seq<u8>) -> Option<Seq<u8>> {
    match color {
        PngColor::Rgba => Some(d),
        PngColor::Rgb => Some(rgb_to_rgba(d, d.len() / 3)),
        PngColor::Grayscale => Some(gray_to_rgba(d, d.len())),
        PngColor::GrayscaleAlpha => Some(gray_alpha_to_rgba(d, d.len() / 2)),
        PngColor::Indexed => None,
    }
}

/// The width, height and RGBA samples of a PNG's first frame.
pub open spec fn decoded_rgba(png_bytes: Seq<u8>) -> Option<(u32, u32, Seq<u8>)> {
    match png_first_frame(png_bytes) {
        Some((w, h, color, d)) => match rgba_of(color, d) {
            Some(rgba) => Some((w, h, rgba)),
            None => None,
        },
        None => None,
    }
}

/// The four bytes of pixel `p` of RGBA samples.
pub open spec fn rgba_pixel(x: Seq<u8>, p: int) -> Seq<u8> {
    x.subrange(4 * p, 4 * p + 4)
}

/// Widening RGB samples keeps every whole pixel: pixel `p` is red, green and
/// blue from bytes `3p`, `3p + 1`, `3p + 2`, with alpha 255.
pub proof fn lemma_rgb_widening(d: Seq<u8>, n: nat)
    requires
        3 * n <= d.len(),
    ensures
        rgb_to_rgba(d, n).len() == 4 * n,
        forall|p: int|
            0 <= p < n ==> #[trigger] rgba_pixel(rgb_to_rgba(d, n), p) == seq![
                d[3 * p],
                d[3 * p + 1],
                d[3 * p + 2],
                255u8,
            ],
    decreases n,
{
    if n > 0 {
        let m = (n - 1) as nat;
        lemma_rgb_widening(d, m);
        let x = rgb_to_rgba(d, n);
        let y = rgb_to_rgba(d, m);
        assert forall|p: int| 0 <= p < n implies #[trigger] rgba_pixel(x, p) == seq![
            d[3 * p],
            d[3 * p + 1],
            d[3 * p + 2],
            255u8,
        ] by {
            if p < m {
                assert(rgba_pixel(x, p) =~= rgba_pixel(y, p));
            } else {
                assert(rgba_pixel(x, p) =~= seq![d[3 * p], d[3 * p + 1], d[3 * p + 2], 255u8]);
            }
        }
    }
}

/// Widening gray samples keeps every pixel: pixel `p` is byte `p` in all
/// three colors, with alpha 255.
pub proof fn lemma_gray_widening(d: Seq<u8>, n: nat)
    requires
        n <= d.len(),
    ensures
        gray_to_rgba(d, n).len() == 4 * n,
        forall|p: int|
            0 <= p < n ==> #[trigger] rgba_pixel(gray_to_rgba(d, n), p) == seq![
                d[p],
                d[p],
                d[p],
                255u8,
            ],
    decreases n,
{
    if n > 0 {
        let m = (n - 1) as nat;
        lemma_gray_widening(d, m);
        let x = gray_to_rgba(d, n);
        let y = gray_to_rgba(d, m);
        assert forall|p: int| 0 <= p < n implies #[trigger] rgba_pixel(x, p) == seq![
            d[p],
            d[p],
            d[p],
            255u8,
        ] by {
            if p < m {
                assert(rgba_pixel(x, p) =~= rgba_pixel(y, p));
            } else {
                assert(rgba_pixel(x, p) =~= seq![d[p], d[p], d[p], 255u8]);
            }
        }
    }
}

/// Widening gray-and-alpha samples keeps every whole pixel: pixel `p` is
/// byte `2p` in all three colors, with byte `2p + 1` as its alpha.
pub proof fn lemma_gray_alpha_widening(d: Seq<u8>, n: nat)
    requires
        2 * n <= d.len(),
    ensures
        gray_alpha_to_rgba(d, n).len() == 4 * n,
        forall|p: int|
            0 <= p < n ==> #[trigger] rgba_pixel(gray_alpha_to_rgba(d, n), p) == seq![
                d[2 * p],
                d[2 * p],
                d[2 * p],
                d[2 * p + 1],
            ],
    decreases n,
{
    if n > 0 {
        let m = (n - 1) as nat;
        lemma_gray_alpha_widening(d, m);
        let x = gray_alpha_to_rgba(d, n);
        let y = gray_alpha_to_rgba(d, m);
        assert forall|p: int| 0 <= p < n implies #[trigger] rgba_pixel(x, p) == seq![
            d[2 * p],
            d[2 * p],
            d[2 * p],
            d[2 * p + 1],
        ] by {
            if p < m {
                assert(rgba_pixel(x, p) =~= rgba_pixel(y, p));
            } else {
                assert(rgba_pixel(x, p) =~= seq![d[2 * p], d[2 * p], d[2 * p], d[2 * p + 1]]);
            }
        }
    }
}

/// The RGBA samples of a frame: RGBA samples as they are; RGB, gray and
/// gray-and-alpha samples widened pixel by pixel (one pixel per 3, 1 and 2
/// bytes, trailing partial pixels dropped); indexed frames have none.
pub proof fn lemma_rgba_of(color: PngColor, d: Seq<u8>)
    ensures
        color == PngColor::Rgba ==> rgba_of(color, d) == Some(d),
        color == PngColor::Indexed ==> rgba_of(color, d) is None,
        color == PngColor::Rgb ==> ({
            let x = rgba_of(color, d)->Some_0;
            &&& rgba_of(color, d) is Some
            &&& x.len() == 4 * (d.len() / 3)
            &&& forall|p: int|
                0 <= p < d.len() / 3 ==> #[trigger] rgba_pixel(x, p) == seq![
                    d[3 * p],
                    d[3 * p + 1],
                    d[3 * p + 2],
                    255u8,
                ]
        }),
        color == PngColor::Grayscale ==> ({
            let x = rgba_of(color, d)->Some_0;
            &&& rgba_of(color, d) is Some
            &&& x.len() == 4 * d.len()
            &&& forall|p: int|
                0 <= p < d.len() ==> #[trigger] rgba_pixel(x, p) == seq![d[p], d[p], d[p], 255u8]
        }),
        color == PngColor::GrayscaleAlpha ==> ({
            let x = rgba_of(color, d)->Some_0;
            &&& rgba_of(color, d) is Some
            &&& x.len() == 4 * (d.len() / 2)
            &&& forall|p: int|
                0 <= p < d.len() / 2 ==> #[trigger] rgba_pixel(x, p) == seq![
                    d[2 * p],
                    d[2 * p],
                    d[2 * p],
                    d[2 * p + 1],
                ]
        }),
{
    lemma_rgb_widening(d, d.len() / 3);
    lemma_gray_widening(d, d.len());
    lemma_gray_alpha_widening(d, d.len() / 2);
}

fn expand_rgb(d: &[u8]) -> (out: Vec<u8>)
    ensures
        out@ == rgb_to_rgba(d@, d@.len() / 3),
{
    let n = d.len() / 3;
    let mut out: Vec<u8> = Vec::new();
    let mut k: usize = 0;
    while k < n
        invariant
            n == d.len() / 3,
            0 <= k <= n,
            out@ == rgb_to_rgba(d@, k as nat),
        decreases n - k,
    {
        let i = 3 * k;
        out.push(d[i]);
        out.push(d[i + 1]);
        out.push(d[i + 2]);
        out.push(255);
        k = k + 1;
        assert(out@ =~= rgb_to_rgba(d@, k as nat));
    }
    out
}

fn expand_gray(d: &[u8]) -> (out: Vec<u8>)
    ensures
        out@ == gray_to_rgba(d@, d@.len()),
{
    let mut out: Vec<u8> = Vec::new();
    let mut k: usize = 0;
    while k < d.len()
        invariant
            0 <= k <= d.len(),
            out@ == gray_to_rgba(d@, k as nat),
        decreases d.len() - k,
    {
        let v = d[k];
        out.push(v);
        out.push(v);
        out.push(v);
        out.push(255);
        k = k + 1;
        assert(out@ =~= gray_to_rgba(d@, k as nat));
    }
    out
}

fn expand_gray_alpha(d: &[u8]) -> (out: Vec<u8>)
    ensures
        out@ == gray_alpha_to_rgba(d@, d@.len() / 2),
{
    let n = d.len() / 2;
    let mut out: Vec<u8> = Vec::new();
    let mut k: usize = 0;
    while k < n
        invariant
            n == d.len() / 2,
            0 <= k <= n,
            out@ == gray_alpha_to_rgba(d@, k as nat),
        decreases n - k,
    {
        let i = 2 * k;
        out.push(d[i]);
        out.push(d[i]);
        out.push(d[i]);
        out.push(d[i + 1]);
        k = k + 1;
        assert(out@ =~= gray_alpha_to_rgba(d@, k as nat));
    }
    out
}

/// Decodes a PNG to its width, height and RGBA samples (`Err` when the PNG
/// does not decode or is indexed).
pub fn decode_rgba(png_bytes: &[u8]) -> (r: Result<(u32, u32, Vec<u8>), ()>)
    ensures
        match r {
            Ok((w, h, rgba)) => decoded_rgba(png_bytes@) == Some((w, h, rgba@)),
            Err(()) => decoded_rgba(png_bytes@) is None,
        },
{
    let frame = match png_decode_frame(png_bytes) {
        Some(f) => f,
        None => return Err(()),
    };
    let d = frame.data.as_slice();
    let rgba = match frame.color {
        PngColor::Rgba => frame.data.clone(),
        PngColor::Rgb => expand_rgb(d),
        PngColor::Grayscale => expand_gray(d),
        PngColor::GrayscaleAlpha => expand_gray_alpha(d),
        PngColor::Indexed => return Err(()),
    };
    Ok((frame.width, frame.height, rgba))
}

// ---------------------------------------------------------------------------
// Scaling
// ---------------------------------------------------------------------------

/// The index in a `sw`×`sh` RGBA image of the pixel that nearest-neighbour
/// scaling to `dw`×`dh` draws at `(x, y)`.
pub open spec fn source_index(sw: int, sh: int, dw: int, dh: int, x: int, y: int) -> int {
    ((y * sh / dh) * sw + x * sw / dw) * 4
}

/// The `sw`×`sh` RGBA image `src` scaled to `dw`×`dh` by nearest neighbour:
/// byte `c` of pixel `(x, y)` is byte `c` of the source pixel at
/// `(x * sw / dw, y * sh / dh)`.
pub open spec fn resized(src: Seq<u8>, sw: u32, sh: u32, dw: u32, dh: u32) -> Seq<u8> {
    Seq::new(
        (dw * dh * 4) as nat,
        |i: int| src[source_index(sw as int, sh as int, dw as int, dh as int, (i / 4) % (dw as int), (i / 4) / (dw as int)) + i % 4],
    )
}

/// Scaling `src` (of `src_len` bytes) stays within 32-bit arithmetic and
/// within the source: the inputs on which scaling runs without a panic.
pub open spec fn resize_ok(src_len: int, sw: u32, sh: u32, dw: u32, dh: u32) -> bool {
    &&& dw * dh * 4 <= u32::MAX
    &&& dh > 0 ==> (dh - 1) * sh <= u32::MAX
    &&& (dw > 0 && dh > 0) ==> {
        &&& (dw - 1) * sw <= u32::MAX
        &&& source_index(sw as int, sh as int, dw as int, dh as int, dw - 1, dh - 1) <= u32::MAX
        &&& source_index(sw as int, sh as int, dw as int, dh as int, dw - 1, dh - 1) + 4 <= src_len
    }
}

proof fn lemma_index_split(q: int, d: int, r: int)
    requires
        0 < d,
        0 <= r < d,
    ensures
        (q * d + r) / d == q,
        (q * d + r) % d == r,
{
    vstd::arithmetic::div_mod::lemma_fundamental_div_mod_converse(q * d + r, d, q, r);
}

proof fn lemma_row_bounds(sh: int, dh: int, y: int)
    requires
        0 <= sh,
        0 <= y < dh,
    ensures
        0 <= y * sh <= (dh - 1) * sh,
{
    assert(0 <= y * sh <= (dh - 1) * sh) by (nonlinear_arith)
        requires
            0 <= y <= dh - 1,
            sh >= 0,
    ;
}

proof fn lemma_source_bounds(sw: int, sh: int, dw: int, dh: int, x: int, y: int)
    requires
        0 <= sw,
        0 <= sh,
        0 <= x < dw,
        0 <= y < dh,
    ensures
        y * sh <= (dh - 1) * sh,
        x * sw <= (dw - 1) * sw,
        (y * sh / dh) * sw + x * sw / dw <= ((dh - 1) * sh / dh) * sw + (dw - 1) * sw / dw,
        0 <= (y * sh / dh) * sw,
        0 <= x * sw / dw,
{
    assert(y * sh <= (dh - 1) * sh) by (nonlinear_arith)
        requires
            y <= dh - 1,
            sh >= 0,
    ;
    assert(x * sw <= (dw - 1) * sw) by (nonlinear_arith)
        requires
            x <= dw - 1,
            sw >= 0,
    ;
    assert(0 <= y * sh) by (nonlinear_arith)
        requires
            0 <= y,
            0 <= sh,
    ;
    assert(0 <= x * sw) by (nonlinear_arith)
        requires
            0 <= x,
            0 <= sw,
    ;
    vstd::arithmetic::div_mod::lemma_div_is_ordered(y * sh, (dh - 1) * sh, dh);
    vstd::arithmetic::div_mod::lemma_div_is_ordered(x * sw, (dw - 1) * sw, dw);
    vstd::arithmetic::div_mod::lemma_div_pos_is_pos(y * sh, dh);
    vstd::arithmetic::div_mod::lemma_div_pos_is_pos(x * sw, dw);
    let sy = y * sh / dh;
    let my = (dh - 1) * sh / dh;
    assert(sy * sw <= my * sw) by (nonlinear_arith)
        requires
            sy <= my,
            sw >= 0,
    ;
    assert(0 <= sy * sw) by (nonlinear_arith)
        requires
            0 <= sy,
            sw >= 0,
    ;
}

/// Scaling an image to its own size leaves it as it is.
pub proof fn lemma_resize_same_size(src: Seq<u8>, w: u32, h: u32)
    requires
        src.len() == w * h * 4,
    ensures
        resized(src, w, h, w, h) == src,
{
    let r = resized(src, w, h, w, h);
    assert forall|i: int| 0 <= i < r.len() implies r[i] == src[i] by {
        let wi = w as int;
        let hi = h as int;
        let p = i / 4;
        let x = p % wi;
        let y = p / wi;
        assert(wi > 0 && hi > 0) by (nonlinear_arith)
            requires
                0 <= i < wi * hi * 4,
                wi >= 0,
                hi >= 0,
        ;
        vstd::arithmetic::div_mod::lemma_fundamental_div_mod(i, 4);
        vstd::arithmetic::div_mod::lemma_fundamental_div_mod(p, wi);
        lemma_index_split(y, hi, 0);
        lemma_index_split(x, wi, 0);
        assert(y * hi / hi == y);
        assert(x * wi / wi == x);
        assert(source_index(wi, hi, wi, hi, x, y) + i % 4 == i) by (nonlinear_arith)
            requires
                source_index(wi, hi, wi, hi, x, y) == ((y * hi / hi) * wi + x * wi / wi) * 4,
                y * hi / hi == y,
                x * wi / wi == x,
                p == wi * y + x,
                i == 4 * p + i % 4,
        ;
    }
    assert(r =~= src);
}

/// Scales the `sw`×`sh` RGBA image `src` to `dw`×`dh` by nearest neighbour.
pub fn resize_nearest(src: &[u8], sw: u32, sh: u32, dw: u32, dh: u32) -> (out: Vec<u8>)
    requires
        resize_ok(src@.len() as int, sw, sh, dw, dh),
    ensures
        out@ == resized(src@, sw, sh, dw, dh),
{
    let ghost target = resized(src@, sw, sh, dw, dh);
    let mut out: Vec<u8> = Vec::new();
    let mut y: u32 = 0;
    while y < dh
        invariant
            resize_ok(src@.len() as int, sw, sh, dw, dh),
            target == resized(src@, sw, sh, dw, dh),
            y <= dh,
            out@ == target.take(y * dw * 4),
        decreases dh - y,
    {
        proof {
            lemma_row_bounds(sh as int, dh as int, y as int);
        }
        let sy = y * sh / dh;
        let mut x: u32 = 0;
        while x < dw
            invariant
                resize_ok(src@.len() as int, sw, sh, dw, dh),
                target == resized(src@, sw, sh, dw, dh),
                y < dh,
                x <= dw,
                sy as int == (y as int) * (sh as int) / (dh as int),
                out@ == target.take((y * dw + x) * 4),
            decreases dw - x,
        {
            proof {
                lemma_source_bounds(sw as int, sh as int, dw as int, dh as int, x as int, y as int);
            }
            let sx = x * sw / dw;
            let si = ((sy * sw + sx) * 4) as usize;
            let ghost k = (y * dw + x) * 4;
            proof {
                assert(k + 4 <= dw * dh * 4) by (nonlinear_arith)
                    requires
                        k == (y * dw + x) * 4,
                        x < dw,
                        y < dh,
                ;
                lemma_index_split(y as int, dw as int, x as int);
                lemma_index_split(y * dw + x, 4, 0);
                lemma_index_split(y * dw + x, 4, 1);
                lemma_index_split(y * dw + x, 4, 2);
                lemma_index_split(y * dw + x, 4, 3);
                assert(target[k] == src@[si as int]);
                assert(target[k + 1] == src@[si + 1]);
                assert(target[k + 2] == src@[si + 2]);
                assert(target[k + 3] == src@[si + 3]);
            }
            out.push(src[si]);
            out.push(src[si + 1]);
            out.push(src[si + 2]);
            out.push(src[si + 3]);
            assert(out@ =~= target.take(k + 4));
            x = x + 1;
        }
        assert((y * dw + dw) * 4 == (y + 1) * dw * 4) by (nonlinear_arith);
        y = y + 1;
    }
    proof {
        assert(target.len() == dh * dw * 4) by (nonlinear_arith)
            requires
                target.len() == dw * dh * 4,
        ;
    }
    assert(out@ =~= target);
    out
}

// ---------------------------------------------------------------------------
// Drawing
// ---------------------------------------------------------------------------

/// Resets colors and styles.
pub const RESET: &'static str = "\x1b[0m";

/// Starts a 24-bit foreground color.
pub const FG_PREFIX: &'static str = "\x1b[38;2;";

/// Starts a 24-bit background color.
pub const BG_PREFIX: &'static str = "\x1b[48;2;";

/// Ends a row of the grid.
pub const ROW_END: &'static str = "\x1b[0m\n";

/// The four bytes of pixel `(x, y)` of an RGBA image `w` pixels wide.
pub open spec fn pixel_at(rgba: Seq<u8>, w: int, x: int, y: int) -> Seq<u8> {
    rgba.subrange((y * w + x) * 4, (y * w + x) * 4 + 4)
}

/// The bytes of pixel `(x, y)` of an RGBA image `w` pixels wide.
pub fn pixel(rgba: &[u8], w: u32, x: u32, y: u32) -> (p: [u8; 4])
    requires
        (y * w + x) * 4 + 4 <= rgba@.len(),
        (y * w + x) * 4 <= u32::MAX,
    ensures
        p@ == pixel_at(rgba@, w as int, x as int, y as int),
{
    let i = ((y * w + x) * 4) as usize;
    let p = [rgba[i], rgba[i + 1], rgba[i + 2], rgba[i + 3]];
    assert(p@ =~= pixel_at(rgba@, w as int, x as int, y as int));
    p
}

/// `r;g;b` in decimal.
pub open spec fn rgb_text(r: u8, g: u8, b: u8) -> Seq<char> {
    decimal(r as nat) + seq![';'] + decimal(g as nat) + seq![';'] + decimal(b as nat)
}

/// Whether a pixel is drawn: its alpha is at least 16.
pub open spec fn visible(p: Seq<u8>) -> bool {
    p[3] >= 16
}

/// One character cell showing the pixel `top` over the pixel `bottom`: a
/// space when neither is visible; else an upper (`▀`) or lower (`▄`) half
/// block in the visible pixel's color, with the bottom pixel's color as the
/// background when both are visible; a reset after the glyph.
pub open spec fn half_block_text(top: Seq<u8>, bottom: Seq<u8>) -> Seq<char> {
    if !visible(top) && !visible(bottom) {
        seq![' ']
    } else if !visible(top) {
        FG_PREFIX@ + rgb_text(bottom[0], bottom[1], bottom[2]) + seq!['m', '▄'] + RESET@
    } else if !visible(bottom) {
        FG_PREFIX@ + rgb_text(top[0], top[1], top[2]) + seq!['m', '▀'] + RESET@
    } else {
        FG_PREFIX@ + rgb_text(top[0], top[1], top[2]) + seq!['m'] + BG_PREFIX@ + rgb_text(
            bottom[0],
            bottom[1],
            bottom[2],
        ) + seq!['m', '▀'] + RESET@
    }
}

fn push_rgb(out: &mut Vec<char>, r: u8, g: u8, b: u8)
    ensures
        final(out)@ == old(out)@ + rgb_text(r, g, b),
{
    push_decimal(out, r as u64);
    out.push(';');
    push_decimal(out, g as u64);
    out.push(';');
    push_decimal(out, b as u64);
    assert(out@ =~= old(out)@ + rgb_text(r, g, b));
}

fn push_half_block(out: &mut Vec<char>, top: [u8; 4], bottom: [u8; 4])
    ensures
        final(out)@ == old(out)@ + half_block_text(top@, bottom@),
{
    let ta = top[3];
    let ba = bottom[3];
    if ta < 16 && ba < 16 {
        out.push(' ');
        assert(out@ =~= old(out)@ + half_block_text(top@, bottom@));
        return;
    }
    push_str_chars(out, FG_PREFIX);
    if ta < 16 {
        push_rgb(out, bottom[0], bottom[1], bottom[2]);
        out.push('m');
        out.push('▄');
    } else if ba < 16 {
        push_rgb(out, top[0], top[1], top[2]);
        out.push('m');
        out.push('▀');
    } else {
        push_rgb(out, top[0], top[1], top[2]);
        out.push('m');
        push_str_chars(out, BG_PREFIX);
        push_rgb(out, bottom[0], bottom[1], bottom[2]);
        out.push('m');
        out.push('▀');
    }
    push_str_chars(out, RESET);
    assert(out@ =~= old(out)@ + half_block_text(top@, bottom@));
}

/// The half-block glyphs.
pub open spec fn is_glyph(c: char) -> bool {
    c == '▀' || c == '▄'
}

/// Text with no half-block glyph and no newline.
pub open spec fn plain_text(s: Seq<char>) -> bool {
    forall|i: int| 0 <= i < s.len() ==> !is_glyph(#[trigger] s[i]) && s[i] != '\n'
}

proof fn lemma_plain_concat(a: Seq<char>, b: Seq<char>)
    requires
        plain_text(a),
        plain_text(b),
    ensures
        plain_text(a + b),
{
    assert forall|i: int| 0 <= i < (a + b).len() implies !is_glyph(#[trigger] (a + b)[i]) && (a
        + b)[i] != '\n' by {
        if i < a.len() {
            assert((a + b)[i] == a[i]);
        } else {
            assert((a + b)[i] == b[i - a.len()]);
        }
    }
}

proof fn lemma_escapes_plain()
    ensures
        plain_text(FG_PREFIX@),
        plain_text(BG_PREFIX@),
        plain_text(RESET@),
        plain_text(seq!['m']),
{
    reveal_strlit("\x1b[38;2;");
    reveal_strlit("\x1b[48;2;");
    reveal_strlit("\x1b[0m");
    assert(plain_text(FG_PREFIX@));
    assert(plain_text(BG_PREFIX@));
    assert(plain_text(RESET@));
}

proof fn lemma_rgb_plain(r: u8, g: u8, b: u8)
    ensures
        plain_text(rgb_text(r, g, b)),
{
    lemma_decimal_digits(r as nat);
    lemma_decimal_digits(g as nat);
    lemma_decimal_digits(b as nat);
    assert(plain_text(decimal(r as nat)));
    assert(plain_text(decimal(g as nat)));
    assert(plain_text(decimal(b as nat)));
    assert(plain_text(seq![';']));
    lemma_plain_concat(decimal(r as nat), seq![';']);
    lemma_plain_concat(decimal(r as nat) + seq![';'], decimal(g as nat));
    lemma_plain_concat(decimal(r as nat) + seq![';'] + decimal(g as nat), seq![';']);
    lemma_plain_concat(
        decimal(r as nat) + seq![';'] + decimal(g as nat) + seq![';'],
        decimal(b as nat),
    );
}

/// A cell is a space exactly when neither pixel is visible; otherwise it is
/// one half-block glyph followed by a reset, with no other glyph and no
/// newline before it.
pub proof fn lemma_cell_shape(top: Seq<u8>, bottom: Seq<u8>)
    requires
        top.len() == 4,
        bottom.len() == 4,
    ensures
        (half_block_text(top, bottom) == seq![' ']) <==> (!visible(top) && !visible(bottom)),
        visible(top) || visible(bottom) ==> ({
            let t = half_block_text(top, bottom);
            let k = t.len() - RESET@.len() - 1;
            &&& 0 <= k
            &&& is_glyph(t[k])
            &&& t.skip(k + 1) == RESET@
            &&& plain_text(t.take(k))
            &&& plain_text(RESET@)
        }),
{
    lemma_escapes_plain();
    let t = half_block_text(top, bottom);
    let r = RESET@;
    if visible(top) || visible(bottom) {
        let (pre, g) = if !visible(top) {
            lemma_rgb_plain(bottom[0], bottom[1], bottom[2]);
            lemma_plain_concat(FG_PREFIX@, rgb_text(bottom[0], bottom[1], bottom[2]));
            (FG_PREFIX@ + rgb_text(bottom[0], bottom[1], bottom[2]) + seq!['m'], '▄')
        } else if !visible(bottom) {
            lemma_rgb_plain(top[0], top[1], top[2]);
            lemma_plain_concat(FG_PREFIX@, rgb_text(top[0], top[1], top[2]));
            (FG_PREFIX@ + rgb_text(top[0], top[1], top[2]) + seq!['m'], '▀')
        } else {
            lemma_rgb_plain(top[0], top[1], top[2]);
            lemma_rgb_plain(bottom[0], bottom[1], bottom[2]);
            let a = FG_PREFIX@ + rgb_text(top[0], top[1], top[2]) + seq!['m'];
            lemma_plain_concat(FG_PREFIX@, rgb_text(top[0], top[1], top[2]));
            lemma_plain_concat(FG_PREFIX@ + rgb_text(top[0], top[1], top[2]), seq!['m']);
            lemma_plain_concat(a, BG_PREFIX@);
            lemma_plain_concat(a + BG_PREFIX@, rgb_text(bottom[0], bottom[1], bottom[2]));
            (a + BG_PREFIX@ + rgb_text(bottom[0], bottom[1], bottom[2]) + seq!['m'], '▀')
        };
        lemma_plain_concat(pre.drop_last(), seq!['m']);
        assert(pre =~= pre.drop_last() + seq!['m']);
        assert(t =~= pre + seq![g] + r);
        let k = t.len() - r.len() - 1;
        assert(k == pre.len());
        assert(t.take(k) =~= pre);
        assert(t.skip(k + 1) =~= r);
        assert(t[k] == g);
        assert(t.len() > 1);
    } else {
        assert(t == seq![' ']);
    }
}

/// The color of a pixel that is not visible does not matter: cells that
/// differ only in an invisible top (or bottom) pixel are the same.
pub proof fn lemma_cell_ignores_invisible(
    top: Seq<u8>,
    top2: Seq<u8>,
    bottom: Seq<u8>,
    bottom2: Seq<u8>,
)
    requires
        top.len() == 4,
        top2.len() == 4,
        bottom.len() == 4,
        bottom2.len() == 4,
    ensures
        !visible(top) && !visible(top2) ==> half_block_text(top, bottom) == half_block_text(
            top2,
            bottom,
        ),
        !visible(bottom) && !visible(bottom2) ==> half_block_text(top, bottom) == half_block_text(
            top,
            bottom2,
        ),
{
}

/// The character cell for the pixel `top` over the pixel `bottom`.
pub fn half_block(top: [u8; 4], bottom: [u8; 4]) -> (s: String)
    ensures
        s@ == half_block_text(top@, bottom@),
{
    let mut out: Vec<char> = Vec::new();
    push_half_block(&mut out, top, bottom);
    assert(out@ =~= half_block_text(top@, bottom@));
    string_from_chars(out.as_slice())
}

/// The pixel under row `y` at column `x` (transparent black below the last
/// row).
pub open spec fn lower_pixel(img: Seq<u8>, w: int, h: int, x: int, y: int) -> Seq<u8> {
    if y + 1 < h {
        pixel_at(img, w, x, y + 1)
    } else {
        seq![0u8, 0u8, 0u8, 0u8]
    }
}

/// The first `n` cells of the character row drawn from image rows `y` and
/// `y + 1`.
pub open spec fn grid_row(img: Seq<u8>, w: int, h: int, y: int, n: nat) -> Seq<char>
    decreases n,
{
    if n == 0 {
        Seq::empty()
    } else {
        let x = n - 1;
        grid_row(img, w, h, y, (n - 1) as nat) + half_block_text(
            pixel_at(img, w, x, y),
            lower_pixel(img, w, h, x, y),
        )
    }
}

/// The first `k` character rows, each ending with a reset and a newline;
/// character row `j` shows image rows `2j` and `2j + 1`.
pub open spec fn grid_rows(img: Seq<u8>, w: int, h: int, k: nat) -> Seq<char>
    decreases k,
{
    if k == 0 {
        Seq::empty()
    } else {
        grid_rows(img, w, h, (k - 1) as nat) + grid_row(img, w, h, 2 * (k - 1), w as nat)
            + ROW_END@
    }
}

/// The half-block drawing of a `w`×`h` RGBA image: one character row per
/// two image rows, then a final reset.
pub open spec fn grid_text(img: Seq<u8>, w: int, h: int) -> Seq<char> {
    grid_rows(img, w, h, ((h + 1) / 2) as nat) + RESET@
}

/// Draws a `w`×`h` RGBA image as half-block characters.
fn render_grid(img: &[u8], w: u32, h: u32) -> (out: Vec<char>)
    requires
        img@.len() == w * h * 4,
        w * h * 4 <= u32::MAX,
        h < u32::MAX,
    ensures
        out@ == grid_text(img@, w as int, h as int),
{
    let mut out: Vec<char> = Vec::new();
    let mut y: u32 = 0;
    while y < h
        invariant
            img@.len() == w * h * 4,
            w * h * 4 <= u32::MAX,
            h < u32::MAX,
            y % 2 == 0,
            y <= h + 1,
            out@ == grid_rows(img@, w as int, h as int, (y / 2) as nat),
        decreases h + 1 - y,
    {
        let ghost row_start = out@;
        let mut x: u32 = 0;
        while x < w
            invariant
                img@.len() == w * h * 4,
                w * h * 4 <= u32::MAX,
                y < h,
                x <= w,
                out@ == row_start + grid_row(img@, w as int, h as int, y as int, x as nat),
            decreases w - x,
        {
            assert((y * w + x) * 4 + 4 <= w * h * 4) by (nonlinear_arith)
                requires
                    y < h,
                    x < w,
            ;
            let top = pixel(img, w, x, y);
            let bottom = if y + 1 < h {
                assert(((y + 1) * w + x) * 4 + 4 <= w * h * 4) by (nonlinear_arith)
                    requires
                        y + 1 < h,
                        x < w,
                ;
                pixel(img, w, x, y + 1)
            } else {
                [0u8, 0u8, 0u8, 0u8]
            };
            assert(bottom@ =~= lower_pixel(img@, w as int, h as int, x as int, y as int));
            push_half_block(&mut out, top, bottom);
            x = x + 1;
        }
        push_str_chars(&mut out, ROW_END);
        assert(out@ =~= grid_rows(img@, w as int, h as int, (y / 2 + 1) as nat));
        y = y + 2;
    }
    assert(y / 2 == (h + 1) / 2);
    push_str_chars(&mut out, RESET);
    out
}

/// Draws the `w0`×`h0` RGBA image `rgba` scaled to `size`×`size`.
pub fn render_rgba(rgba: &[u8], w0: u32, h0: u32, size: u32) -> (s: String)
    requires
        resize_ok(rgba@.len() as int, w0, h0, size, size),
    ensures
        s@ == grid_text(resized(rgba@, w0, h0, size, size), size as int, size as int),
{
    assert(size < 0x10000) by (nonlinear_arith)
        requires
            size * size * 4 <= u32::MAX,
    ;
    let img = resize_nearest(rgba, w0, h0, size, size);
    let out = render_grid(img.as_slice(), size, size);
    string_from_chars(out.as_slice())
}

/// Whether `resize_ok` holds.
pub fn resize_fits(src_len: usize, sw: u32, sh: u32, dw: u32, dh: u32) -> (r: bool)
    ensures
        r == resize_ok(src_len as int, sw, sh, dw, dh),
{
    let max: u128 = 0xffff_ffff;
    let (sw, sh, dw, dh) = (sw as u128, sh as u128, dw as u128, dh as u128);
    assert(dw * dh <= 0xffff_ffff * 0xffff_ffff) by (nonlinear_arith)
        requires
            dw <= 0xffff_ffff,
            dh <= 0xffff_ffff,
    ;
    if dw * dh * 4 > max {
        return false;
    }
    if dh == 0 {
        return true;
    }
    assert((dh - 1) * sh <= 0xffff_ffff * 0xffff_ffff) by (nonlinear_arith)
        requires
            dh <= 0xffff_ffff,
            sh <= 0xffff_ffff,
    ;
    if (dh - 1) * sh > max {
        return false;
    }
    if dw == 0 {
        return true;
    }
    assert((dw - 1) * sw <= 0xffff_ffff * 0xffff_ffff) by (nonlinear_arith)
        requires
            dw <= 0xffff_ffff,
            sw <= 0xffff_ffff,
    ;
    if (dw - 1) * sw > max {
        return false;
    }
    let my = (dh - 1) * sh / dh;
    let mx = (dw - 1) * sw / dw;
    assert(my * sw <= 0xffff_ffff * 0xffff_ffff) by (nonlinear_arith)
        requires
            my <= 0xffff_ffff,
            sw <= 0xffff_ffff,
    ;
    let last = (my * sw + mx) * 4;
    last <= max && last + 4 <= src_len as u128
}

/// What drawing a PNG scaled to `size`×`size` gives: `None` when it does not
/// decode to RGBA, or when scaling it would leave 32-bit arithmetic or the
/// decoded samples (see `resize_ok`).
pub open spec fn render_text(png_bytes: Seq<u8>, size: u32) -> Option<Seq<char>> {
    match decoded_rgba(png_bytes) {
        Some((w, h, rgba)) => if resize_ok(rgba.len() as int, w, h, size, size) {
            Some(grid_text(resized(rgba, w, h, size, size), size as int, size as int))
        } else {
            None
        },
        None => None,
    }
}

/// Draws a PNG scaled to `size`×`size` as half-block characters.
pub fn render(png_bytes: &[u8], size: u32) -> (r: Result<String, ()>)
    ensures
        match r {
            Ok(s) => render_text(png_bytes@, size) == Some(s@),
            Err(()) => render_text(png_bytes@, size) is None,
        },
{
    let (w0, h0, rgba) = decode_rgba(png_bytes)?;
    if !resize_fits(rgba.len(), w0, h0, size, size) {
        return Err(());
    }
    Ok(render_rgba(rgba.as_slice(), w0, h0, size))
}

} // verus!
