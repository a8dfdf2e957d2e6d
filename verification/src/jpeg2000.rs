//! The pixel codec boundary.
//!
//! Turning a tile's compressed bytes into a raster is delegated to the
//! JPEG 2000 codec; everything after that call — sizing the pixel buffer and
//! interleaving the per-component sample vectors into one flat, pixel-major
//! buffer — is the library's own verified logic.

use vstd::arithmetic::div_mod::lemma_fundamental_div_mod_converse;
use vstd::prelude::*;

use crate::error::SvsError;

verus! {

/// Plain-value form of a decoded tile: the raster geometry and one sample
/// vector per colour component, each sample already narrowed to a byte.
pub struct DecodedImage {
    pub width: u32,
    pub height: u32,
    pub components: Vec<Vec<u8>>,
}

/// Mathematical model of a decoded tile.
pub struct DecodedImageModel {
    pub width: u32,
    pub height: u32,
    pub components: Seq<Seq<u8>>,
}

impl View for DecodedImage {
    type V = DecodedImageModel;

    open spec fn view(&self) -> DecodedImageModel {
        DecodedImageModel {
            width: self.width,
            height: self.height,
            components: self.components@.map_values(|c: Vec<u8>| c@),
        }
    }
}

/// The decoded form of a JPEG 2000 codestream, or nothing when the bytes do
/// not decode.  Decoding is a function of the bytes alone, so the result can
/// be given a name even though stating it would take pages.
pub uninterp spec fn jp2_of(bytes: Seq<u8>) -> Option<DecodedImageModel>;

/// Relies on jpeg2k: `Image::from_bytes_with` (with `DecodeParameters::default()`)
/// decodes a JPEG 2000 codestream deterministically from the bytes alone, and
/// `width()`, `height()`, `components()` and `ImageComponent::data()` read the
/// decoded raster's geometry and per-component samples.
#[verifier::external_body]
fn jp2_decode(bytes: &[u8]) -> (r: Option<DecodedImage>)
    ensures
        match r {
            Some(img) => jp2_of(bytes@) == Some(img@),
            None => jp2_of(bytes@) is None,
        },
{
    let image = match jpeg2k::Image::from_bytes_with(bytes, jpeg2k::DecodeParameters::default()) {
        Ok(image) => image,
        Err(_) => return None,
    };
    let components = image
        .components()
        .iter()
        .map(|c| c.data().iter().map(|v| *v as u8).collect())
        .collect();
    Some(DecodedImage { width: image.width(), height: image.height(), components })
}

/// Number of samples each component of the raster must hold.
pub open spec fn spec_pixel_count(m: DecodedImageModel) -> int {
    m.width * m.height
}

/// Component-interleaved pixel buffer of a decoded raster: a flat sequence
/// of length `height * width * num_components`, pixel-major with the
/// components of one pixel adjacent.  A raster whose component vectors do
/// not all hold exactly `height * width` samples, or whose buffer length
/// does not fit the machine, is a codec failure.
pub open spec fn spec_interleave(m: DecodedImageModel) -> Result<Seq<u8>, SvsError> {
    let n = m.components.len() as int;
    let hw = spec_pixel_count(m);
    if !(forall|i: int| 0 <= i < n ==> #[trigger] m.components[i].len() == hw) {
        Err(SvsError::CodecError)
    } else if hw * n > usize::MAX {
        Err(SvsError::CodecError)
    } else {
        Ok(Seq::new((hw * n) as nat, |k: int| m.components[k % n][k / n]))
    }
}

/// Decoding then interleaving: what a tile's compressed bytes turn into.
pub open spec fn spec_decode(bytes: Seq<u8>) -> Result<Seq<u8>, SvsError> {
    match jp2_of(bytes) {
        None => Err(SvsError::CodecError),
        Some(m) => spec_interleave(m),
    }
}

/// Interleaves the per-component sample vectors of a decoded raster into
/// one flat, pixel-major buffer.
pub fn interleave_components(img: &DecodedImage) -> (r: Result<Vec<u8>, SvsError>)
    ensures
        match r {
            Ok(v) => spec_interleave(img@) == Ok::<Seq<u8>, SvsError>(v@),
            Err(e) => spec_interleave(img@) == Err::<Seq<u8>, SvsError>(e),
        },
{
    let w = img.width;
    let h = img.height;
    proof {
        assert((w as int) * (h as int) <= 0xffff_ffff_0000_0001int) by (nonlinear_arith)
            requires
                w as int <= 0xffff_ffffint,
                h as int <= 0xffff_ffffint,
        ;
    }
    let hw64 = (w as u64) * (h as u64);
    let n = img.components.len();
    let ghost hw = spec_pixel_count(img@);
    let mut i: usize = 0;
    while i < n
        invariant
            i <= n,
            n == img@.components.len(),
            hw64 == spec_pixel_count(img@),
            hw == spec_pixel_count(img@),
            forall|j: int| 0 <= j < i ==> #[trigger] img@.components[j].len() == hw,
        decreases n - i,
    {
        proof {
            assert(img@.components[i as int] == img.components@[i as int]@);
        }
        if img.components[i].len() as u64 != hw64 {
            proof {
                assert(img@.components[i as int].len() != hw);
            }
            return Err(SvsError::CodecError);
        }
        i = i + 1;
    }
    if n == 0 {
        proof {
            let m = img@;
            let nn = m.components.len() as int;
            assert(spec_pixel_count(m) * nn == 0) by (nonlinear_arith)
                requires
                    nn == 0,
            ;
            assert(Seq::<u8>::empty() =~= Seq::new(
                (spec_pixel_count(m) * nn) as nat,
                |k: int| m.components[k % nn][k / nn],
            ));
        }
        return Ok(Vec::new());
    }
    proof {
        assert(img@.components[0].len() == hw);
    }
    let hwu = img.components[0].len();
    let total = match hwu.checked_mul(n) {
        None => {
            return Err(SvsError::CodecError);
        },
        Some(t) => t,
    };
    let mut buf: Vec<u8> = Vec::with_capacity(total);
    let mut j: usize = 0;
    while j < hwu
        invariant
            j <= hwu,
            1 <= n,
            n == img@.components.len(),
            hwu == spec_pixel_count(img@),
            total == hwu * n,
            forall|t: int| 0 <= t < n ==> #[trigger] img@.components[t].len() == hwu,
            buf@.len() == j * n,
            forall|k: int|
                0 <= k < j * n ==> #[trigger] buf@[k] == img@.components[k % (n as int)][k / (
                n as int)],
        decreases hwu - j,
    {
        let mut i2: usize = 0;
        while i2 < n
            invariant
                i2 <= n,
                1 <= n,
                j < hwu,
                n == img@.components.len(),
                hwu == spec_pixel_count(img@),
                total == hwu * n,
                forall|t: int| 0 <= t < n ==> #[trigger] img@.components[t].len() == hwu,
                buf@.len() == j * n + i2,
                forall|k: int|
                    0 <= k < j * n + i2 ==> #[trigger] buf@[k] == img@.components[k % (n as int)][k
                        / (n as int)],
            decreases n - i2,
        {
            proof {
                assert(buf@.len() < total) by (nonlinear_arith)
                    requires
                        buf@.len() == j * n + i2,
                        total == hwu * n,
                        j < hwu,
                        i2 < n,
                        0 <= j,
                        0 <= i2,
                        1 <= n,
                ;
            }
            proof {
                assert(img@.components[i2 as int] == img.components@[i2 as int]@);
            }
            buf.push(img.components[i2][j]);
            proof {
                lemma_fundamental_div_mod_converse(
                    j * (n as int) + i2,
                    n as int,
                    j as int,
                    i2 as int,
                );
            }
            i2 = i2 + 1;
        }
        proof {
            assert((j as int + 1) * (n as int) == j * (n as int) + n) by (nonlinear_arith);
        }
        j = j + 1;
    }
    proof {
        let nn = n as int;
        assert(buf@ =~= Seq::new(
            (spec_pixel_count(img@) * nn) as nat,
            |k: int| img@.components[k % nn][k / nn],
        ));
    }
    Ok(buf)
}

/// Decodes a tile's compressed bytes into a freshly sized, component-
/// interleaved pixel buffer.
pub fn decode(bytes: &[u8]) -> (r: Result<Vec<u8>, SvsError>)
    ensures
        match r {
            Ok(v) => spec_decode(bytes@) == Ok::<Seq<u8>, SvsError>(v@),
            Err(e) => spec_decode(bytes@) == Err::<Seq<u8>, SvsError>(e),
        },
{
    match jp2_decode(bytes) {
        None => Err(SvsError::CodecError),
        Some(img) => interleave_components(&img),
    }
}

/// Decodes a tile's compressed bytes into the front of a caller-supplied
/// buffer, leaving the bytes past the pixel data as they were.  A buffer
/// shorter than the pixel data is a codec failure and leaves the buffer
/// untouched, as does any decode failure.
pub fn decode_into_buffer(bytes: &[u8], buf: &mut Vec<u8>) -> (r: Result<(), SvsError>)
    ensures
        match spec_decode(bytes@) {
            Err(e) => r == Err::<(), SvsError>(e) && final(buf)@ == old(buf)@,
            Ok(px) => if px.len() <= old(buf)@.len() {
                r == Ok::<(), SvsError>(()) && final(buf)@ == px + old(buf)@.skip(px.len() as int)
            } else {
                r == Err::<(), SvsError>(SvsError::CodecError) && final(buf)@ == old(buf)@
            },
        },
{
    let px = match decode(bytes) {
        Err(e) => {
            return Err(e);
        },
        Ok(v) => v,
    };
    if px.len() > buf.len() {
        return Err(SvsError::CodecError);
    }
    let pxlen = px.len();
    let mut out = px;
    let mut k: usize = pxlen;
    while k < buf.len()
        invariant
            pxlen <= k <= buf@.len(),
            out@.len() == k,
            buf@ == old(buf)@,
            spec_decode(bytes@) matches Ok(p) && p == out@.subrange(0, pxlen as int),
            out@.subrange(0, pxlen as int) + buf@.subrange(pxlen as int, k as int) =~= out@,
        decreases buf@.len() - k,
    {
        let b = buf[k];
        out.push(b);
        proof {
            assert(out@.subrange(0, pxlen as int) + buf@.subrange(pxlen as int, k as int + 1)
                =~= out@);
        }
        k = k + 1;
    }
    proof {
        assert(buf@.subrange(pxlen as int, buf@.len() as int) =~= buf@.skip(pxlen as int));
    }
    *buf = out;
    Ok(())
}

} // verus!
