//! Palette remapping and raster export: an indexed image is translated
//! through a palette — index in, color out — and encoded as a binary PPM
//! raster of identical dimensions. Also the extension filter that decides
//! which files a batch conversion touches.
use vstd::prelude::*;
use crate::Error;
use crate::pixelmap::{Pix, PixModel};

verus! {

/// Bytes per color entry of a palette: red, green, blue.
pub const PALETTE_UNIT: u32 = 3;

/// How many index→color entries the palette supplies.
pub open spec fn palette_entries(p: PixModel) -> int {
    (p.width as int) * (p.height as int)
}

/// A usable palette: well formed, with three-byte color cells.
pub open spec fn palette_wf(p: PixModel) -> bool {
    p.wf() && p.unit_bytes == PALETTE_UNIT
}

/// A remappable image: well formed, with single-byte index cells.
pub open spec fn image_wf(p: PixModel) -> bool {
    p.wf() && p.unit_bytes == 1
}

/// Every index byte of the image names an entry the palette supplies.
pub open spec fn indices_in_range(img: PixModel, pal: PixModel) -> bool {
    forall|i: int| 0 <= i < img.data.len() ==> (img.data[i] as int) < palette_entries(pal)
}

/// The remapped true-color raster: the color at pixel `k` is exactly the
/// palette's entry for index `img.data[k]`, three bytes per pixel, pixels
/// in image order.
pub open spec fn spec_remap(img: PixModel, pal: PixModel) -> Seq<u8> {
    Seq::new(img.data.len() * 3, |j: int| pal.data[3 * (img.data[j / 3] as int) + j % 3])
}

/// The decimal ASCII digits of `n`, most significant first.
pub open spec fn dec_digits(n: int) -> Seq<u8>
    recommends
        0 <= n,
    decreases n,
{
    if n < 10 {
        seq![(48 + n) as u8]
    } else {
        dec_digits(n / 10) + seq![(48 + n % 10) as u8]
    }
}

/// The encoded raster file: the binary PPM magic, the image's own width
/// and height in decimal, the 255 sample maximum, then the RGB bytes.
pub open spec fn spec_ppm(width: u32, height: u32, rgb: Seq<u8>) -> Seq<u8> {
    seq![80u8, 54u8, 10u8] + dec_digits(width as int) + seq![32u8] + dec_digits(height as int)
        + seq![10u8, 50u8, 53u8, 53u8, 10u8] + rgb
}

/// Appends the decimal digits of `n`.
fn push_decimal(out: &mut Vec<u8>, n: u32)
    ensures
        final(out)@ == old(out)@ + dec_digits(n as int),
    decreases n,
{
    if n < 10 {
        out.push(48 + n as u8);
        proof {
            assert(out@ =~= old(out)@ + dec_digits(n as int));
        }
    } else {
        push_decimal(out, n / 10);
        out.push(48 + (n % 10) as u8);
        proof {
            assert(out@ =~= old(out)@ + dec_digits(n as int));
        }
    }
}

impl Pix {
    /// Looks every index byte of this image up in `palette` and returns the
    /// raw RGB raster, three bytes per pixel in image order. An index the
    /// palette does not supply is `PaletteIndexOutOfRange` — never clamped,
    /// and nothing is returned for the image.
    pub fn remap_via(&self, palette: &Pix) -> (res: Result<Vec<u8>, Error>)
        requires
            image_wf(self@),
            palette_wf(palette@),
        ensures
            indices_in_range(self@, palette@) ==> (res matches Ok(v) && v@ == spec_remap(
                self@,
                palette@,
            )),
            !indices_in_range(self@, palette@) ==> (res matches Err(e) && e
                == Error::PaletteIndexOutOfRange),
    {
        proof {
            assert((palette.width as int) * (palette.height as int) <= 0xffffffff * 0xffffffff)
                by (nonlinear_arith)
                requires
                    0 <= palette.width as int <= 0xffffffff,
                    0 <= palette.height as int <= 0xffffffff,
            ;
        }
        let entries: u64 = (palette.width as u64) * (palette.height as u64);
        let mut out: Vec<u8> = Vec::new();
        let mut k: usize = 0;
        let len: usize = self.data.len();
        let plen: usize = palette.data.len();
        while k < len
            invariant
                image_wf(self@),
                palette_wf(palette@),
                len == self@.data.len(),
                plen == palette@.data.len(),
                entries == palette_entries(palette@),
                k <= len,
                forall|i: int| 0 <= i < k ==> (self@.data[i] as int) < palette_entries(palette@),
                out@.len() == 3 * k,
                forall|j: int|
                    0 <= j < 3 * k ==> out@[j] == palette@.data[3 * (self@.data[j / 3] as int) + j
                        % 3],
            decreases len - k,
        {
            let v = self.data[k];
            if v as u64 >= entries {
                proof {
                    assert(!indices_in_range(self@, palette@)) by {
                        assert((self@.data[k as int] as int) >= palette_entries(palette@));
                    }
                }
                return Err(Error::PaletteIndexOutOfRange);
            }
            let idx: usize = 3 * (v as usize);
            out.push(palette.data[idx]);
            out.push(palette.data[idx + 1]);
            out.push(palette.data[idx + 2]);
            k = k + 1;
        }
        proof {
            assert(out@ =~= spec_remap(self@, palette@));
        }
        Ok(out)
    }

    /// Remaps this image through `palette` and encodes the result as a
    /// binary PPM raster whose dimensions equal this image's exactly. On an
    /// index the palette does not supply, `PaletteIndexOutOfRange` and no
    /// output at all.
    pub fn write_remapped_via(&self, palette: &Pix) -> (res: Result<Vec<u8>, Error>)
        requires
            image_wf(self@),
            palette_wf(palette@),
        ensures
            indices_in_range(self@, palette@) ==> (res matches Ok(v) && v@ == spec_ppm(
                self.width,
                self.height,
                spec_remap(self@, palette@),
            )),
            !indices_in_range(self@, palette@) ==> (res matches Err(e) && e
                == Error::PaletteIndexOutOfRange),
    {
        let mut rgb = self.remap_via(palette)?;
        let mut out: Vec<u8> = Vec::new();
        out.push(80);
        out.push(54);
        out.push(10);
        push_decimal(&mut out, self.width);
        out.push(32);
        push_decimal(&mut out, self.height);
        out.push(10);
        out.push(50);
        out.push(53);
        out.push(53);
        out.push(10);
        out.append(&mut rgb);
        proof {
            assert(out@ =~= spec_ppm(self.width, self.height, spec_remap(self@, palette@)));
        }
        Ok(out)
    }
}

/// One encoded output per input image: in file order, the image's own name
/// beside its raster bytes — the per-file work of a batch conversion, with
/// one palette shared by every image of the file. The first image whose
/// indices the palette does not cover aborts the whole file.
pub fn convert_pixmaps(pixmaps: &Vec<Pix>, palette: &Pix) -> (res: Result<
    Vec<(Vec<u8>, Vec<u8>)>,
    Error,
>)
    requires
        palette_wf(palette@),
        forall|i: int| 0 <= i < pixmaps@.len() ==> image_wf((#[trigger] pixmaps@[i])@),
    ensures
        match res {
            Ok(v) => v@.len() == pixmaps@.len() && (forall|i: int|
                0 <= i < pixmaps@.len() ==> indices_in_range((#[trigger] pixmaps@[i])@, palette@))
                && (forall|i: int|
                0 <= i < pixmaps@.len() ==> (#[trigger] v@[i]).0@ == pixmaps@[i]@.name
                    && v@[i].1@ == spec_ppm(
                    pixmaps@[i]@.width,
                    pixmaps@[i]@.height,
                    spec_remap(pixmaps@[i]@, palette@),
                )),
            Err(e) => e == Error::PaletteIndexOutOfRange && (exists|i: int|
                0 <= i < pixmaps@.len() && !indices_in_range(
                    (#[trigger] pixmaps@[i])@,
                    palette@,
                )),
        },
{
    let mut out: Vec<(Vec<u8>, Vec<u8>)> = Vec::new();
    let mut k: usize = 0;
    let n: usize = pixmaps.len();
    while k < n
        invariant
            palette_wf(palette@),
            n == pixmaps@.len(),
            forall|i: int| 0 <= i < pixmaps@.len() ==> image_wf((#[trigger] pixmaps@[i])@),
            k <= n,
            out@.len() == k,
            forall|i: int|
                0 <= i < k ==> indices_in_range((#[trigger] pixmaps@[i])@, palette@),
            forall|i: int|
                0 <= i < k ==> (#[trigger] out@[i]).0@ == pixmaps@[i]@.name && out@[i].1@
                    == spec_ppm(
                    pixmaps@[i]@.width,
                    pixmaps@[i]@.height,
                    spec_remap(pixmaps@[i]@, palette@),
                ),
        decreases n - k,
    {
        let pix = &pixmaps[k];
        let encoded = match pix.write_remapped_via(palette) {
            Ok(v) => v,
            Err(e) => {
                return Err(e);
            },
        };
        let mut name: Vec<u8> = Vec::new();
        let mut j: usize = 0;
        let nl: usize = pix.name.len();
        while j < nl
            invariant
                nl == pix.name@.len(),
                j <= nl,
                name@ == pix.name@.take(j as int),
            decreases nl - j,
        {
            let b = pix.name[j];
            name.push(b);
            proof {
                assert(pix.name@.take(j as int + 1) =~= pix.name@.take(j as int).push(
                    pix.name@[j as int],
                ));
            }
            j = j + 1;
        }
        proof {
            assert(pix.name@.take(nl as int) =~= pix.name@);
        }
        out.push((name, encoded));
        k = k + 1;
    }
    Ok(out)
}

/// Whether a file name carries the indexed-image extension the batch
/// conversion looks for: it ends in `.PIX`.
pub open spec fn spec_has_pix_ext(name: Seq<u8>) -> bool {
    name.len() >= 4 && name.subrange(name.len() - 4, name.len() as int) == seq![
        46u8,
        80u8,
        73u8,
        88u8,
    ]
}

/// The batch conversion's filter: exactly the names ending in `.PIX` pass.
pub fn has_pix_extension(name: &[u8]) -> (r: bool)
    ensures
        r == spec_has_pix_ext(name@),
{
    let n: usize = name.len();
    if n < 4 {
        return false;
    }
    let r = name[n - 4] == 46 && name[n - 3] == 80 && name[n - 2] == 73 && name[n - 1] == 88;
    proof {
        if r {
            assert(name@.subrange(name@.len() - 4, name@.len() as int) =~= seq![
                46u8,
                80u8,
                73u8,
                88u8,
            ]);
        } else {
            assert(name@.subrange(name@.len() - 4, name@.len() as int) != seq![
                46u8,
                80u8,
                73u8,
                88u8,
            ]) by {
                let sub = name@.subrange(name@.len() - 4, name@.len() as int);
                assert(sub[0] == name@[name@.len() - 4]);
                assert(sub[1] == name@[name@.len() - 3]);
                assert(sub[2] == name@[name@.len() - 2]);
                assert(sub[3] == name@[name@.len() - 1]);
            }
        }
    }
    r
}

} // verus!
