use crate::support::brender::pixelmap::{PixelMap, PixelMapView};
use crate::support::Error;
use image::codecs::png::PngEncoder;
use image::{ExtendedColorType, ImageEncoder, ImageError};
use vstd::prelude::*;

verus! {

/// The RGB bytes of unit `i` of a pixelmap: for one byte per unit, the
/// colour of the palette entry that the byte indexes (the entry's bytes 1 to
/// 3); for three or four bytes per unit, the unit's first three bytes.
pub open spec fn rgb_unit(p: PixelMapView, palette: PixelMapView, i: int) -> Seq<u8> {
    if p.unit_bytes == 1 {
        let b = p.data[i] as int * palette.unit_bytes as int;
        seq![palette.data[b + 1], palette.data[b + 2], palette.data[b + 3]]
    } else {
        let b = i * p.unit_bytes as int;
        seq![p.data[b], p.data[b + 1], p.data[b + 2]]
    }
}

/// RGB bytes of the first `n` units.
pub open spec fn rgb_units(p: PixelMapView, palette: PixelMapView, n: nat) -> Seq<u8>
    decreases n,
{
    if n == 0 {
        Seq::empty()
    } else {
        rgb_units(p, palette, (n - 1) as nat) + rgb_unit(p, palette, n - 1)
    }
}

/// The pixelmap has one, three or four bytes per unit, and every byte that
/// `rgb_remapped_via` reads is there, at 32-bit offsets that do not overflow.
pub open spec fn rgb_remap_fits(p: PixelMapView, palette: PixelMapView) -> bool {
    if p.unit_bytes == 1 {
        &&& p.units <= p.data.len()
        &&& forall|i: int|
            0 <= i < p.units ==> #[trigger] p.data[i] as int * palette.unit_bytes as int + 3
                < palette.data.len() && p.data[i] as int * palette.unit_bytes as int + 3
                <= u32::MAX
    } else if p.unit_bytes == 3 || p.unit_bytes == 4 {
        forall|i: int|
            0 <= i < p.units ==> #[trigger] (i * p.unit_bytes as int) + 2 < p.data.len() && i
                * p.unit_bytes as int + 2 <= u32::MAX
    } else {
        false
    }
}

impl PixelMap {
    /// Whether `rgb_remapped_via` can read everything it needs (its condition).
    pub fn rgb_remap_fits(&self, palette: &PixelMap) -> (b: bool)
        ensures
            b == rgb_remap_fits(self@, palette@),
    {
        let ub = self.unit_bytes;
        if ub == 1 {
            if self.units as usize > self.data.len() {
                return false;
            }
            let mut i: u32 = 0;
            while i < self.units
                invariant
                    ub == self.unit_bytes == 1,
                    i <= self.units <= self.data@.len(),
                    forall|j: int|
                        0 <= j < i ==> #[trigger] self.data@[j] as int * palette.unit_bytes as int
                            + 3 < palette.data@.len() && self.data@[j] as int
                            * palette.unit_bytes as int + 3 <= u32::MAX,
                decreases self.units - i,
            {
                let c = self.data[i as usize];
                let pb = palette.unit_bytes;
                assert(c as int * pb as int <= 0xff * 0xffff_ffff) by (nonlinear_arith)
                    requires
                        c <= 0xff,
                        pb <= 0xffff_ffff,
                ;
                let wide = c as u64 * pb as u64 + 3;
                if wide > 0xffff_ffff || wide >= palette.data.len() as u64 {
                    return false;
                }
                i = i + 1;
            }
            true
        } else if ub == 3 || ub == 4 {
            let mut i: u32 = 0;
            while i < self.units
                invariant
                    ub == self.unit_bytes,
                    ub == 3 || ub == 4,
                    i <= self.units,
                    forall|j: int|
                        0 <= j < i ==> #[trigger] (j * ub as int) + 2 < self.data@.len() && j
                            * ub as int + 2 <= u32::MAX,
                decreases self.units - i,
            {
                assert(i as int * ub as int <= 0xffff_ffff * 4) by (nonlinear_arith)
                    requires
                        i <= 0xffff_ffff,
                        ub <= 4,
                ;
                let wide = i as u64 * ub as u64 + 2;
                if wide > 0xffff_ffff || wide >= self.data.len() as u64 {
                    return false;
                }
                i = i + 1;
            }
            true
        } else {
            false
        }
    }

    /// The RGB bytes of the pixelmap, read through `palette` when it holds
    /// one byte per unit. These are the pixels written out as a PNG image.
    pub fn rgb_remapped_via(&self, palette: &PixelMap) -> (data: Vec<u8>)
        requires
            rgb_remap_fits(self@, palette@),
        ensures
            data@ == rgb_units(self@, palette@, self.units as nat),
    {
        let mut data: Vec<u8> = Vec::new();
        let ub = self.unit_bytes;
        let mut i: u32 = 0;
        while i < self.units
            invariant
                rgb_remap_fits(self@, palette@),
                ub == self.unit_bytes,
                i <= self.units,
                data@ == rgb_units(self@, palette@, i as nat),
            decreases self.units - i,
        {
            let ghost before = data@;
            if ub == 1 {
                let c = self.data[i as usize];
                assert(self@.data[i as int] == c);
                let b = c as u32 * palette.unit_bytes;
                data.push(palette.data[(b + 1) as usize]);
                data.push(palette.data[(b + 2) as usize]);
                data.push(palette.data[(b + 3) as usize]);
            } else {
                assert((i as int * ub as int) + 2 < self.data@.len());
                let b = i * ub;
                data.push(self.data[b as usize]);
                data.push(self.data[(b + 1) as usize]);
                data.push(self.data[(b + 2) as usize]);
            }
            proof {
                assert(data@ =~= before + rgb_unit(self@, palette@, i as int));
            }
            i = i + 1;
        }
        data
    }

    /// The pixelmap as an RGB PNG image, its indexed pixels looked up in
    /// `palette`: the bytes of the image file. An image without pixels (zero
    /// width or height) is refused by the encoder.
    pub fn png_remapped_via(&self, palette: &PixelMap) -> (r: Result<Vec<u8>, Error>)
        requires
            rgb_remap_fits(self@, palette@),
            self.units as int == self.width as int * self.height as int,
        ensures
            r matches Ok(png) ==> png@ == png_rgb8(
                self.width as u32,
                self.height as u32,
                rgb_units(self@, palette@, self.units as nat),
            ),
            r matches Err(e) ==> e is Image,
            r is Ok <==> self.width > 0 && self.height > 0,
    {
        let data = self.rgb_remapped_via(palette);
        proof {
            lemma_rgb_units_len(self@, palette@, self.units as nat);
            let (w, h, u) = (self.width as int, self.height as int, self.units as int);
            assert(3 * u == 3 * w * h) by (nonlinear_arith)
                requires
                    u == w * h,
            ;
        }
        match encode_png_rgb8(data.as_slice(), self.width as u32, self.height as u32) {
            Ok(png) => Ok(png),
            Err(e) => Err(Error::Image(e)),
        }
    }
}

/// Each unit gives three RGB bytes.
pub proof fn lemma_rgb_units_len(p: PixelMapView, palette: PixelMapView, n: nat)
    ensures
        rgb_units(p, palette, n).len() == 3 * n,
    decreases n,
{
    if n > 0 {
        lemma_rgb_units_len(p, palette, (n - 1) as nat);
    }
}

/// The RGB bytes hold three bytes per unit, in unit order: for a pixelmap
/// of three or four bytes per unit, unit `k` gives its own bytes 0, 1 and 2
/// (red, green, blue) in that order; for one byte per unit, it gives bytes
/// 1, 2 and 3 of the palette entry that its byte indexes.
pub proof fn lemma_rgb_units_layout(p: PixelMapView, palette: PixelMapView, n: nat)
    ensures
        rgb_units(p, palette, n).len() == 3 * n,
        forall|k: int, j: int|
            #![trigger rgb_units(p, palette, n)[3 * k + j]]
            0 <= k < n && 0 <= j < 3 ==> {
                let out = rgb_units(p, palette, n);
                &&& (p.unit_bytes == 3 || p.unit_bytes == 4) ==> out[3 * k + j] == p.data[k
                    * p.unit_bytes as int + j]
                &&& p.unit_bytes == 1 ==> out[3 * k + j] == palette.data[p.data[k] as int
                    * palette.unit_bytes as int + 1 + j]
            },
    decreases n,
{
    if n > 0 {
        lemma_rgb_units_layout(p, palette, (n - 1) as nat);
        let out = rgb_units(p, palette, n);
        let prev = rgb_units(p, palette, (n - 1) as nat);
        assert forall|k: int, j: int| 0 <= k < n && 0 <= j < 3 implies {
            &&& (p.unit_bytes == 3 || p.unit_bytes == 4) ==> #[trigger] out[3 * k + j] == p.data[k
                * p.unit_bytes as int + j]
            &&& p.unit_bytes == 1 ==> out[3 * k + j] == palette.data[p.data[k] as int
                * palette.unit_bytes as int + 1 + j]
        } by {
            if k < n - 1 {
                assert(out[3 * k + j] == prev[3 * k + j]);
            }
        }
    }
}

#[verifier::external_type_specification]
#[verifier::external_body]
pub struct ExImageError(ImageError);

/// The bytes that `image`'s PNG encoder, with its default compression and
/// filter, writes for an RGB image of `width` by `height` pixels whose bytes
/// are `rgb`, row by row.
pub uninterp spec fn png_rgb8(width: u32, height: u32, rgb: Seq<u8>) -> Seq<u8>;

/// `image`'s `PngEncoder::write_image` with 8-bit RGB colour, writing into a
/// byte vector. It asserts that the buffer holds exactly three bytes for
/// each of the `width` by `height` pixels (which `requires` states); what it
/// writes is named `png_rgb8`. It fails exactly when the width or the height
/// is zero (the `png` crate's writer refuses those; writing into a vector
/// does not fail otherwise).
#[verifier::external_body]
fn encode_png_rgb8(rgb: &[u8], width: u32, height: u32) -> (r: Result<Vec<u8>, ImageError>)
    requires
        rgb@.len() == 3 * width * height,
    ensures
        r matches Ok(png) ==> png@ == png_rgb8(width, height, rgb@),
        r is Ok ==> width > 0 && height > 0,
        r is Err ==> width == 0 || height == 0,
{
    let mut png: Vec<u8> = Vec::new();
    match PngEncoder::new(&mut png).write_image(rgb, width, height, ExtendedColorType::Rgb8) {
        Ok(()) => Ok(png),
        Err(e) => Err(e),
    }
}

} // verus!
