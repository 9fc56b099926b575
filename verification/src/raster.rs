use vstd::prelude::*;
use crate::classify::subvec;

verus! {

/// Why the raster pipeline can fail: malformed source dimensions, or a
/// failure reported by the resampling backend.
#[derive(Clone, Copy, Debug, PartialEq, Eq, Structural)]
pub enum RasterFailure {
    BadDimensions,
    ResampleFailed,
}

/// The resampler state of the outside resizing backend, held by the caller
/// and threaded through the pipeline.
#[verifier::external_type_specification]
#[verifier::external_body]
pub struct ExResizer(fast_image_resize::Resizer);

/// A finished pixel buffer with its dimensions.
pub struct RasterImage {
    pub data: Vec<u8>,
    pub width: u32,
    pub height: u32,
}

/// The value of one hex digit.
pub open spec fn spec_hex_val(c: u8) -> Option<u8> {
    if 65 <= c <= 70 {
        Some((c - 65 + 10) as u8)
    } else if 97 <= c <= 102 {
        Some((c - 97 + 10) as u8)
    } else if 48 <= c <= 57 {
        Some((c - 48) as u8)
    } else {
        None
    }
}

/// Hex decoding of an even run of digits, two digits to a byte, high digit
/// first; an odd length or a stray character decodes to nothing.
pub open spec fn spec_hex_pairs(s: Seq<u8>) -> Option<Seq<u8>>
    decreases s.len(),
{
    if s.len() == 0 {
        Some(Seq::empty())
    } else if s.len() == 1 {
        None
    } else {
        match (spec_hex_val(s[0]), spec_hex_val(s[1]), spec_hex_pairs(s.skip(2))) {
            (Some(hi), Some(lo), Some(rest)) => Some(seq![(hi * 16 + lo) as u8] + rest),
            _ => None,
        }
    }
}

/// The hex decoding of a byte run.
pub open spec fn spec_hex_decode(s: Seq<u8>) -> Option<Seq<u8>> {
    if s.len() % 2 != 0 {
        None
    } else {
        spec_hex_pairs(s)
    }
}

/// Relies on hex::decode: each pair of hex digits, upper or lower case,
/// becomes one byte, high digit first; an odd length or a character outside
/// the hex alphabet is an error, surfaced here as nothing.
#[verifier::external_body]
fn hex_decode(s: &Vec<u8>) -> (r: Option<Vec<u8>>)
    ensures
        match r {
            Some(v) => spec_hex_decode(s@) == Some(v@),
            None => spec_hex_decode(s@) is None,
        },
{
    hex::decode(s.as_slice()).ok()
}

/// One channel scaled by alpha over 255, with the rounding the rasterizer's
/// color type uses.
pub open spec fn spec_premul_u8(c: u8, a: u8) -> u8 {
    let prod: u32 = (c as u32 * a as u32 + 128) as u32;
    ((((prod >> 8) + prod) as u32) >> 8) as u8
}

/// A straight color premultiplied: channels scaled by alpha, an opaque color
/// untouched.
pub open spec fn spec_premul_color(r: u8, g: u8, b: u8, a: u8) -> (u8, u8, u8, u8) {
    if a == 255 {
        (r, g, b, a)
    } else {
        (spec_premul_u8(r, a), spec_premul_u8(g, a), spec_premul_u8(b, a), a)
    }
}

/// Relies on tiny_skia::ColorU8::premultiply: each color channel becomes
/// round(channel * alpha / 255), computed as (c*a+128 plus its high byte)
/// shifted down, and an opaque color is returned unchanged.
#[verifier::external_body]
fn premultiply_color(r: u8, g: u8, b: u8, a: u8) -> (o: (u8, u8, u8, u8))
    ensures
        o == spec_premul_color(r, g, b, a),
{
    let p = tiny_skia::ColorU8::from_rgba(r, g, b, a).premultiply();
    (p.red(), p.green(), p.blue(), p.alpha())
}

/// The fill color a hex string selects: the string must be nonempty, its tail
/// after the leading marker must decode to at least four bytes, and the
/// alpha byte must be nonzero; anything else means no fill.
pub open spec fn spec_fill_color(fill: Seq<u8>) -> Option<(u8, u8, u8, u8)> {
    if fill.len() == 0 {
        None
    } else {
        match spec_hex_decode(fill.skip(1)) {
            Some(d) => if d.len() >= 4 && d[3] != 0 {
                Some((d[0], d[1], d[2], d[3]))
            } else {
                None
            },
            None => None,
        }
    }
}

/// A buffer with every fully transparent pixel replaced by the premultiplied
/// fill color; every other byte is untouched.
pub open spec fn spec_filled(p: Seq<u8>, pm: (u8, u8, u8, u8)) -> Seq<u8> {
    Seq::new(
        p.len(),
        |i: int|
            {
                let base = 4 * (i / 4);
                if base + 3 < p.len() && p[base + 3] == 0 {
                    if i % 4 == 0 {
                        pm.0
                    } else if i % 4 == 1 {
                        pm.1
                    } else if i % 4 == 2 {
                        pm.2
                    } else {
                        pm.3
                    }
                } else {
                    p[i]
                }
            },
    )
}

/// What background filling does to a buffer: nothing without a usable fill
/// color, and otherwise each fully transparent pixel painted over.
pub open spec fn spec_fill(p: Seq<u8>, fill: Seq<u8>) -> Seq<u8> {
    match spec_fill_color(fill) {
        Some(c) => spec_filled(p, spec_premul_color(c.0, c.1, c.2, c.3)),
        None => p,
    }
}

/// Paints the fill color behind an otherwise transparent canvas: every pixel
/// whose alpha is zero becomes the premultiplied fill color; pixels holding
/// any content are untouched. An unusable fill string is tolerated silently.
pub fn apply_fill(pix: &mut Vec<u8>, fill: &Vec<u8>)
    ensures
        final(pix)@ == spec_fill(old(pix)@, fill@),
{
    if fill.len() == 0 {
        return ;
    }
    let tail = subvec(fill, 1, fill.len());
    assert(tail@ == fill@.skip(1));
    let decoded = match hex_decode(&tail) {
        Some(d) => d,
        None => {
            return ;
        },
    };
    if decoded.len() < 4 {
        return ;
    }
    let a = decoded[3];
    if a == 0 {
        return ;
    }
    let col = premultiply_color(decoded[0], decoded[1], decoded[2], a);
    let ghost orig = pix@;
    let ghost target = spec_filled(orig, col);
    let n = pix.len();
    let count = n / 4;
    let mut j: usize = 0;
    while j < count
        invariant
            count == n / 4,
            n == pix@.len(),
            n == orig.len(),
            target == spec_filled(orig, col),
            target.len() == n,
            0 <= j <= count,
            forall|i: int| 0 <= i < 4 * j ==> pix@[i] == target[i],
            forall|i: int| 4 * j <= i < n ==> pix@[i] == orig[i],
        decreases count - j,
    {
        proof {
            assert(4 * j + 3 < n) by (nonlinear_arith)
                requires
                    j < count,
                    count == n / 4,
            ;
        }
        let base = 4 * j;
        if pix[base + 3] == 0 {
            let s0 = &mut pix[base];
            *s0 = col.0;
            let s1 = &mut pix[base + 1];
            *s1 = col.1;
            let s2 = &mut pix[base + 2];
            *s2 = col.2;
            let s3 = &mut pix[base + 3];
            *s3 = col.3;
        }
        proof {
            assert forall|i: int| 4 * j <= i < 4 * (j + 1) implies pix@[i] == target[i] by {
                assert(i / 4 == j) by (nonlinear_arith)
                    requires
                        4 * j <= i < 4 * (j + 1),
                ;
                assert(4 * (i / 4) == 4 * j);
            }
        }
        j += 1;
    }
    proof {
        assert forall|i: int| 0 <= i < n implies pix@[i] == target[i] by {
            if i >= 4 * count {
                assert(4 * (i / 4) + 3 >= n) by (nonlinear_arith)
                    requires
                        4 * count <= i < n,
                        count == n / 4,
                ;
            }
        }
        assert(pix@ =~= target);
    }
}

/// The destination dimensions of a resize: the side the flag selects is set
/// to the requested size, the other side scaled to keep the source aspect
/// ratio, truncated; dimensions that vanish or do not fit are refused.
pub open spec fn spec_dims(w: u32, h: u32, size: u32, display: bool) -> Option<(int, int)> {
    if w == 0 || h == 0 {
        None
    } else {
        let dw: int = if display {
            size as int
        } else {
            (size as int * w as int) / (h as int)
        };
        let dh: int = if display {
            (size as int * h as int) / (w as int)
        } else {
            size as int
        };
        if 0 < dw <= 0xffff_ffff && 0 < dh <= 0xffff_ffff {
            Some((dw, dh))
        } else {
            None
        }
    }
}

/// Computes the destination dimensions of a resize.
pub fn output_dims(w: u32, h: u32, size: u32, display: bool) -> (r: Result<
    (u32, u32),
    RasterFailure,
>)
    ensures
        match r {
            Ok(d) => spec_dims(w, h, size, display) == Some((d.0 as int, d.1 as int)),
            Err(f) => spec_dims(w, h, size, display) is None && f == RasterFailure::BadDimensions,
        },
{
    if w == 0 || h == 0 {
        return Err(RasterFailure::BadDimensions);
    }
    proof {
        assert((size as int) * (w as int) <= 0xffff_ffff * 0xffff_ffff) by (nonlinear_arith)
            requires
                size as int <= 0xffff_ffff,
                w as int <= 0xffff_ffff,
        ;
        assert((size as int) * (h as int) <= 0xffff_ffff * 0xffff_ffff) by (nonlinear_arith)
            requires
                size as int <= 0xffff_ffff,
                h as int <= 0xffff_ffff,
        ;
    }
    let dw64: u64 = if display {
        size as u64
    } else {
        (size as u64 * w as u64) / (h as u64)
    };
    let dh64: u64 = if display {
        (size as u64 * h as u64) / (w as u64)
    } else {
        size as u64
    };
    if dw64 == 0 || dw64 > 0xffff_ffff || dh64 == 0 || dh64 > 0xffff_ffff {
        return Err(RasterFailure::BadDimensions);
    }
    Ok((dw64 as u32, dh64 as u32))
}

/// Relies on fast_image_resize::MulDiv::multiply_alpha_inplace: every color
/// channel becomes exactly its pixel's alpha scaling with the shared
/// rounding formula (the scalar and vector kernels compute the same values),
/// and the alpha bytes are kept. On a buffer of exactly 4*w*h bytes the call
/// succeeds; a larger buffer would leave its tail untouched, so it is
/// excluded here. Transparent pixels zero out and opaque pixels pass through,
/// which the formula also gives, stated here for direct use.
#[verifier::external_body]
fn multiply_alpha(buf: Vec<u8>, w: u32, h: u32) -> (r: Result<Vec<u8>, RasterFailure>)
    requires
        buf@.len() == 4 * (w as int) * (h as int),
    ensures
        r is Ok,
        match r {
            Ok(v) => v@.len() == buf@.len() && (forall|i: int|
                0 <= i < buf@.len() && i % 4 == 3 ==> v@[i] == buf@[i]) && (forall|i: int|
                0 <= i < buf@.len() && i % 4 != 3 && 4 * (i / 4) + 3 < buf@.len() ==> v@[i]
                    == spec_premul_u8(buf@[i], buf@[4 * (i / 4) + 3])) && (forall|i: int|
                0 <= i < buf@.len() && 4 * (i / 4) + 3 < buf@.len() && buf@[4 * (i / 4) + 3] == 0
                    ==> v@[i] == 0) && (forall|i: int|
                0 <= i < buf@.len() && 4 * (i / 4) + 3 < buf@.len() && buf@[4 * (i / 4) + 3] == 255
                    ==> v@[i] == buf@[i]),
            Err(f) => f == RasterFailure::ResampleFailed,
        },
{
    let pt = fast_image_resize::PixelType::U8x4;
    let made = fast_image_resize::images::Image::from_vec_u8(w, h, buf, pt);
    let mut image = match made { Ok(i) => i, Err(_) => return Err(RasterFailure::ResampleFailed) };
    match fast_image_resize::MulDiv::default().multiply_alpha_inplace(&mut image) {
        Ok(()) => Ok(image.into_vec()),
        Err(_) => Err(RasterFailure::ResampleFailed),
    }
}

/// Relies on fast_image_resize::MulDiv::divide_alpha_inplace: every color
/// channel has its pixel's alpha divided back out, with rounding and
/// clipping. On a buffer of exactly 4*w*h bytes the call succeeds, the
/// length and the alpha bytes are kept, a fully transparent pixel becomes
/// zero (the zero reciprocal), and a fully opaque pixel is unchanged (the
/// unit reciprocal), in the scalar and vector kernels alike. A larger buffer
/// would leave its tail untouched, so it is excluded here.
#[verifier::external_body]
fn divide_alpha(buf: Vec<u8>, w: u32, h: u32) -> (r: Result<Vec<u8>, RasterFailure>)
    requires
        buf@.len() == 4 * (w as int) * (h as int),
    ensures
        r is Ok,
        match r {
            Ok(v) => v@.len() == buf@.len() && (forall|i: int|
                0 <= i < buf@.len() && i % 4 == 3 ==> v@[i] == buf@[i]) && (forall|i: int|
                0 <= i < buf@.len() && 4 * (i / 4) + 3 < buf@.len() && buf@[4 * (i / 4) + 3] == 0
                    ==> v@[i] == 0) && (forall|i: int|
                0 <= i < buf@.len() && 4 * (i / 4) + 3 < buf@.len() && buf@[4 * (i / 4) + 3] == 255
                    ==> v@[i] == buf@[i]),
            Err(f) => f == RasterFailure::ResampleFailed,
        },
{
    let pt = fast_image_resize::PixelType::U8x4;
    let made = fast_image_resize::images::Image::from_vec_u8(w, h, buf, pt);
    let mut image = match made { Ok(i) => i, Err(_) => return Err(RasterFailure::ResampleFailed) };
    match fast_image_resize::MulDiv::default().divide_alpha_inplace(&mut image) {
        Ok(()) => Ok(image.into_vec()),
        Err(_) => Err(RasterFailure::ResampleFailed),
    }
}

/// Relies on fast_image_resize::Resizer::resize: the source buffer is
/// resampled into a destination of the given dimensions with the same pixel
/// layout, so the destination holds exactly 4*dw*dh bytes. Buffers of
/// exactly 4*w*h bytes are accepted, zero sizes included, and with the
/// default options a destination of the source's own dimensions is a
/// verbatim copy.
#[verifier::external_body]
fn resample(
    resizer: &mut fast_image_resize::Resizer,
    buf: Vec<u8>,
    w: u32,
    h: u32,
    dw: u32,
    dh: u32,
) -> (r: Result<Vec<u8>, RasterFailure>)
    ensures
        buf@.len() == 4 * (w as int) * (h as int) ==> r is Ok,
        match r {
            Ok(v) => v@.len() == 4 * (dw as int) * (dh as int) && (buf@.len() == 4 * (w as int)
                * (h as int) && dw == w && dh == h ==> v@ == buf@),
            Err(f) => f == RasterFailure::ResampleFailed,
        },
{
    let pt = fast_image_resize::PixelType::U8x4;
    let made = fast_image_resize::images::Image::from_vec_u8(w, h, buf, pt);
    let src = match made { Ok(i) => i, Err(_) => return Err(RasterFailure::ResampleFailed) };
    let mut dst = fast_image_resize::images::Image::new(dw, dh, pt);
    match resizer.resize(&src, &mut dst, None) {
        Ok(()) => Ok(dst.into_vec()),
        Err(_) => Err(RasterFailure::ResampleFailed),
    }
}

/// Relies on fast_image_resize::Resizer::new for the resampler state the
/// pipeline is driven with.
#[verifier::external_body]
pub fn resizer_new() -> fast_image_resize::Resizer {
    fast_image_resize::Resizer::new()
}

/// Whether a source buffer fits its declared dimensions and the requested
/// resize is meaningful.
pub open spec fn spec_raster_ok(pixlen: int, w: u32, h: u32, size: u32, display: bool) -> bool {
    pixlen == 4 * (w as int) * (h as int) && spec_dims(w, h, size, display) is Some
}

/// The raster pipeline behind a rendered page: paint the fill behind
/// transparent pixels, premultiply, resample to the destination dimensions,
/// divide the alpha back out, and return the buffer with its dimensions.
/// Malformed source dimensions are refused; a backend failure is passed on.
pub fn to_image_buffer(
    resizer: &mut fast_image_resize::Resizer,
    pix: Vec<u8>,
    w: u32,
    h: u32,
    fill: &Vec<u8>,
    size: u32,
    display: bool,
) -> (r: Result<RasterImage, RasterFailure>)
    ensures
        spec_raster_ok(pix@.len() as int, w, h, size, display) ==> r is Ok,
        match r {
            Ok(img) => spec_raster_ok(pix@.len() as int, w, h, size, display) && spec_dims(
                w,
                h,
                size,
                display,
            ) == Some((img.width as int, img.height as int)) && img.data@.len() == 4 * (
            img.width as int) * (img.height as int) && (spec_dims(w, h, size, display) == Some(
                (w as int, h as int),
            ) ==> (forall|i: int|
                0 <= i < img.data@.len() && spec_fill(pix@, fill@)[4 * (i / 4) + 3] == 255
                    ==> img.data@[i] == spec_fill(pix@, fill@)[i])),
            Err(RasterFailure::BadDimensions) => !spec_raster_ok(
                pix@.len() as int,
                w,
                h,
                size,
                display,
            ),
            Err(RasterFailure::ResampleFailed) => true,
        },
{
    let ghost pix0 = pix@;
    proof {
        assert((w as int) * (h as int) <= 0xffff_ffff * 0xffff_ffff) by (nonlinear_arith)
            requires
                w as int <= 0xffff_ffff,
                h as int <= 0xffff_ffff,
        ;
    }
    let wh: u64 = (w as u64) * (h as u64);
    let len = pix.len();
    let quarter = len / 4;
    let rem = len % 4;
    proof {
        vstd::arithmetic::div_mod::lemma_fundamental_div_mod(len as int, 4);
        assert((4 * ((w as int) * (h as int))) % 4 == 0) by (nonlinear_arith);
        assert(4 * ((w as int) * (h as int)) == 4 * (w as int) * (h as int)) by (nonlinear_arith);
    }
    if rem != 0 {
        return Err(RasterFailure::BadDimensions);
    }
    if quarter as u64 != wh {
        return Err(RasterFailure::BadDimensions);
    }
    assert(len as int == 4 * (w as int) * (h as int));
    let dims = match output_dims(w, h, size, display) {
        Ok(d) => d,
        Err(f) => {
            return Err(f);
        },
    };
    let mut canvas = pix;
    apply_fill(&mut canvas, fill);
    assert(canvas@.len() == 4 * (w as int) * (h as int));
    let ghost cvv = canvas@;
    let pre = match multiply_alpha(canvas, w, h) {
        Ok(v) => v,
        Err(f) => {
            return Err(f);
        },
    };
    let ghost prev = pre@;
    let resized = match resample(resizer, pre, w, h, dims.0, dims.1) {
        Ok(v) => v,
        Err(f) => {
            return Err(f);
        },
    };
    let ghost rsv = resized@;
    let out = match divide_alpha(resized, dims.0, dims.1) {
        Ok(v) => v,
        Err(f) => {
            return Err(f);
        },
    };
    proof {
        // On a same-size resize, fully opaque pixels of the filled canvas
        // pass through the whole pipeline byte-identically.
        if dims.0 == w && dims.1 == h {
            assert(rsv == prev);
            assert forall|i: int|
                0 <= i < out@.len() && cvv[4 * (i / 4) + 3] == 255 implies out@[i] == cvv[i] by {
                let p = 4 * (i / 4) + 3;
                assert(p % 4 == 3) by (nonlinear_arith)
                    requires
                        p == 4 * (i / 4) + 3,
                        i >= 0,
                ;
                assert(p < cvv.len()) by (nonlinear_arith)
                    requires
                        0 <= i < cvv.len(),
                        cvv.len() % 4 == 0,
                        p == 4 * (i / 4) + 3,
                ;
                assert(prev[p] == cvv[p]);
                assert(prev[i] == cvv[i]);
                assert(out@[i] == rsv[i]);
            }
            assert(cvv == spec_fill(pix0, fill@));
        }
    }
    Ok(RasterImage { data: out, width: dims.0, height: dims.1 })
}

} // verus!
