//! The pixel-map file: an ordered sequence of named indexed-color images
//! decoded in one pass. Insertion order is meaningful — when a file serves
//! as a palette source, its first image is the color table.
use vstd::prelude::*;
use crate::Error;
use crate::chunk::{Chunk, ChunkModel, spec_parse_chunk, spec_parse_chunks};
use crate::chunk::lemma_parse_chunk_len;
use crate::reader::ByteReader;

verus! {

/// The file-type discriminator a pixel-map file's header must carry.
pub const PIXELMAP_FILE_TYPE: u32 = 2;

/// The mathematical shape of one indexed image.
pub struct PixModel {
    pub name: Seq<u8>,
    pub width: u32,
    pub height: u32,
    pub unit_bytes: u32,
    pub data: Seq<u8>,
}

impl PixModel {
    /// The pixel data is exactly as large as the declared dimensions say.
    pub open spec fn wf(self) -> bool {
        self.data.len() == (self.width as int) * (self.height as int) * (self.unit_bytes as int)
    }
}

/// One named image: a `width × height` grid of cells of `unit_bytes` bytes
/// each, row-major. An image of single-byte palette indices has unit size
/// one; a color table has the unit size of one color entry. Immutable once
/// decoded.
#[derive(Debug)]
pub struct Pix {
    pub name: Vec<u8>,
    pub width: u32,
    pub height: u32,
    pub unit_bytes: u32,
    pub data: Vec<u8>,
}

impl View for Pix {
    type V = PixModel;

    open spec fn view(&self) -> PixModel {
        PixModel {
            name: self.name@,
            width: self.width,
            height: self.height,
            unit_bytes: self.unit_bytes,
            data: self.data@,
        }
    }
}

/// The images of a sequence of `Pix`, in order.
pub open spec fn pix_views(v: Seq<Pix>) -> Seq<PixModel> {
    Seq::new(v.len(), |i: int| v[i]@)
}

/// What folding the chunk stream at the front of `s` over the already
/// decoded images `acc` yields: the images in file order once the `Null`
/// terminator is read, or the first error. A file header whose type is not
/// the pixel-map constant is `InvalidFormat`; a material chunk or a bare
/// reference does not belong in a pixel-map stream and is `Malformed`.
pub open spec fn spec_load_pixelmaps(s: Seq<u8>, acc: Seq<PixModel>) -> Result<
    Seq<PixModel>,
    Error,
>
    decreases s.len(),
    via spec_load_pixelmaps_decreases
{
    match spec_parse_chunk(s) {
        Err(e) => Err(e),
        Ok((c, n)) => match c {
            ChunkModel::Null => Ok(acc),
            ChunkModel::FileHeader { file_type } => if file_type != PIXELMAP_FILE_TYPE {
                Err(Error::InvalidFormat)
            } else {
                spec_load_pixelmaps(s.skip(n), acc)
            },
            ChunkModel::Pixelmap { name, width, height, unit_bytes, data } => spec_load_pixelmaps(
                s.skip(n),
                acc.push(PixModel { name, width, height, unit_bytes, data }),
            ),
            ChunkModel::MaterialDesc { name, params } => Err(Error::Malformed),
            ChunkModel::PixelmapRef { name } => Err(Error::Malformed),
            ChunkModel::RenderTabRef { name } => Err(Error::Malformed),
        },
    }
}

#[via_fn]
proof fn spec_load_pixelmaps_decreases(s: Seq<u8>, acc: Seq<PixModel>) {
    lemma_parse_chunk_len(s);
}

/// Decodes a whole pixel-map stream: reads chunks until the `Null`
/// terminator and collects the images in file order. Every returned image
/// is well formed — its data matches its declared dimensions. On any error
/// no images are returned: a failure aborts the whole file, since the
/// stream cannot resynchronize past a bad chunk.
pub fn load_pixelmaps(r: &mut ByteReader) -> (res: Result<Vec<Pix>, Error>)
    requires
        old(r).wf(),
    ensures
        final(r).wf(),
        final(r).data@ == old(r).data@,
        match spec_load_pixelmaps(old(r).remaining(), Seq::empty()) {
            Ok(ps) => res matches Ok(v) && pix_views(v@) == ps && (forall|i: int|
                0 <= i < v@.len() ==> (#[trigger] v@[i])@.wf()),
            Err(e) => res matches Err(e2) && e2 == e,
        },
        res is Ok ==> spec_parse_chunks(old(r).remaining()) is Ok && final(r).pos == old(r).pos
            + spec_parse_chunks(old(r).remaining())->Ok_0.1,
{
    let mut out: Vec<Pix> = Vec::new();
    proof {
        assert(pix_views(out@) =~= Seq::<PixModel>::empty());
    }
    loop
        invariant
            r.wf(),
            r.data@ == old(r).data@,
            spec_load_pixelmaps(old(r).remaining(), Seq::empty()) == spec_load_pixelmaps(
                r.remaining(),
                pix_views(out@),
            ),
            forall|i: int| 0 <= i < out@.len() ==> (#[trigger] out@[i])@.wf(),
            spec_parse_chunks(r.remaining()) is Ok ==> spec_parse_chunks(
                old(r).remaining(),
            ) is Ok && old(r).pos + spec_parse_chunks(old(r).remaining())->Ok_0.1 == r.pos
                + spec_parse_chunks(r.remaining())->Ok_0.1,
        decreases r.remaining().len(),
    {
        let ghost pre = *r;
        let c = Chunk::load(r)?;
        proof {
            lemma_parse_chunk_len(pre.remaining());
            let (cm, n) = spec_parse_chunk(pre.remaining())->Ok_0;
            assert(r.remaining() =~= pre.remaining().skip(n));
        }
        match c {
            Chunk::Null => {
                return Ok(out);
            },
            Chunk::FileHeader { file_type } => {
                if file_type != PIXELMAP_FILE_TYPE {
                    return Err(Error::InvalidFormat);
                }
            },
            Chunk::Pixelmap { name, width, height, unit_bytes, data } => {
                let p = Pix { name, width, height, unit_bytes, data };
                proof {
                    assert(p@.wf());
                    assert(pix_views(out@.push(p)) =~= pix_views(out@).push(p@));
                }
                out.push(p);
            },
            Chunk::MaterialDesc { name, params } => {
                return Err(Error::Malformed);
            },
            Chunk::PixelmapRef { name } => {
                return Err(Error::Malformed);
            },
            Chunk::RenderTabRef { name } => {
                return Err(Error::Malformed);
            },
        }
    }
}

} // verus!
