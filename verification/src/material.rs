//! The material record: shading parameters, the referenced texture name and
//! the referenced render-table name, folded from a chunk stream. The stream
//! is read chunk by chunk until the `Null` terminator; each chunk kind
//! initializes its part of the record, a file header with the wrong type
//! aborts the decode, and any chunk outside the material's closed set is an
//! error.
use vstd::prelude::*;
use crate::Error;
use crate::chunk::{Chunk, ChunkModel, MATERIAL_PARAM_COUNT, spec_parse_chunk, spec_parse_chunks};
use crate::chunk::lemma_parse_chunk_len;
use crate::reader::ByteReader;

verus! {

/// The file-type discriminator a material file's header must carry.
pub const MATERIAL_FILE_TYPE: u32 = 5;

/// The mathematical shape of a material record.
pub struct MaterialModel {
    pub name: Seq<u8>,
    pub params: Seq<u32>,
    pub pixelmap_name: Seq<u8>,
    pub rendertab_name: Seq<u8>,
}

/// A material: an index of the material's internal name, the referenced
/// pixel-map (texture) name and the referenced render-table name, with
/// twelve shading parameters kept as the stored four-byte bit patterns.
/// The two names are unresolved references: looking the assets up is the
/// caller's business.
#[derive(Debug)]
pub struct Material {
    pub name: Vec<u8>,
    pub params: Vec<u32>,
    pub pixelmap_name: Vec<u8>,
    pub rendertab_name: Vec<u8>,
}

impl View for Material {
    type V = MaterialModel;

    open spec fn view(&self) -> MaterialModel {
        MaterialModel {
            name: self.name@,
            params: self.params@,
            pixelmap_name: self.pixelmap_name@,
            rendertab_name: self.rendertab_name@,
        }
    }
}

/// The record a decode starts from: empty names, all parameters zero.
pub open spec fn material_default() -> MaterialModel {
    MaterialModel {
        name: Seq::empty(),
        params: Seq::new(MATERIAL_PARAM_COUNT as nat, |i: int| 0u32),
        pixelmap_name: Seq::empty(),
        rendertab_name: Seq::empty(),
    }
}

impl Default for Material {
    /// The empty record: no names, all twelve parameters zero.
    fn default() -> (r: Material)
        ensures
            r@ == material_default(),
    {
        let mut params: Vec<u32> = Vec::new();
        let mut k: usize = 0;
        while k < MATERIAL_PARAM_COUNT
            invariant
                k <= MATERIAL_PARAM_COUNT,
                params@.len() == k,
                forall|i: int| 0 <= i < k ==> params@[i] == 0u32,
            decreases MATERIAL_PARAM_COUNT - k,
        {
            params.push(0);
            k = k + 1;
        }
        let r = Material { name: Vec::new(), params, pixelmap_name: Vec::new(), rendertab_name:
            Vec::new() };
        proof {
            assert(r@.params =~= material_default().params);
            assert(r@.name =~= material_default().name);
            assert(r@.pixelmap_name =~= material_default().pixelmap_name);
            assert(r@.rendertab_name =~= material_default().rendertab_name);
        }
        r
    }
}

/// What folding the chunk stream at the front of `s` over the record `acc`
/// yields: the finished material once the `Null` terminator is read, or the
/// first error. A later `MaterialDesc` overwrites name and parameters
/// (last writer wins); a file header whose type is not the material constant
/// is `InvalidFormat`; a pixel-map chunk does not belong in a material
/// stream and is `Malformed`.
pub open spec fn spec_load_material(s: Seq<u8>, acc: MaterialModel) -> Result<
    MaterialModel,
    Error,
>
    decreases s.len(),
    via spec_load_material_decreases
{
    match spec_parse_chunk(s) {
        Err(e) => Err(e),
        Ok((c, n)) => match c {
            ChunkModel::Null => Ok(acc),
            ChunkModel::FileHeader { file_type } => if file_type != MATERIAL_FILE_TYPE {
                Err(Error::InvalidFormat)
            } else {
                spec_load_material(s.skip(n), acc)
            },
            ChunkModel::MaterialDesc { name, params } => spec_load_material(
                s.skip(n),
                MaterialModel {
                    name,
                    params,
                    pixelmap_name: acc.pixelmap_name,
                    rendertab_name: acc.rendertab_name,
                },
            ),
            ChunkModel::PixelmapRef { name } => spec_load_material(
                s.skip(n),
                MaterialModel {
                    name: acc.name,
                    params: acc.params,
                    pixelmap_name: name,
                    rendertab_name: acc.rendertab_name,
                },
            ),
            ChunkModel::RenderTabRef { name } => spec_load_material(
                s.skip(n),
                MaterialModel {
                    name: acc.name,
                    params: acc.params,
                    pixelmap_name: acc.pixelmap_name,
                    rendertab_name: name,
                },
            ),
            ChunkModel::Pixelmap { name, width, height, unit_bytes, data } => Err(
                Error::Malformed,
            ),
        },
    }
}

#[via_fn]
proof fn spec_load_material_decreases(s: Seq<u8>, acc: MaterialModel) {
    lemma_parse_chunk_len(s);
}

/// A stream whose first chunk is a file header carrying any type other than
/// the material constant always fails with `InvalidFormat`, whatever record
/// was accumulated and whatever bytes follow.
pub proof fn lemma_bad_header_rejected(s: Seq<u8>, acc: MaterialModel)
    requires
        spec_parse_chunk(s) matches Ok((c, n)) && c matches ChunkModel::FileHeader { file_type }
            && file_type != MATERIAL_FILE_TYPE,
    ensures
        spec_load_material(s, acc) == Err::<MaterialModel, Error>(Error::InvalidFormat),
{
}

impl Material {
    /// Decodes one material record: reads chunks until the `Null`
    /// terminator and folds them as `spec_load_material` says. On any
    /// error nothing usable is returned — there is no partial record.
    /// The read is bounded by the bytes behind the reader, so the decode
    /// always terminates.
    pub fn load(r: &mut ByteReader) -> (res: Result<Material, Error>)
        requires
            old(r).wf(),
        ensures
            final(r).wf(),
            final(r).data@ == old(r).data@,
            match spec_load_material(old(r).remaining(), material_default()) {
                Ok(m) => res matches Ok(mat) && mat@ == m,
                Err(e) => res matches Err(e2) && e2 == e,
            },
            res is Ok ==> spec_parse_chunks(old(r).remaining()) is Ok && final(r).pos == old(
                r,
            ).pos + spec_parse_chunks(old(r).remaining())->Ok_0.1,
    {
        let mut mat = Material::default();
        loop
            invariant
                r.wf(),
                r.data@ == old(r).data@,
                spec_load_material(old(r).remaining(), material_default()) == spec_load_material(
                    r.remaining(),
                    mat@,
                ),
                spec_parse_chunks(r.remaining()) is Ok ==> spec_parse_chunks(
                    old(r).remaining(),
                ) is Ok && old(r).pos + spec_parse_chunks(old(r).remaining())->Ok_0.1 == r.pos
                    + spec_parse_chunks(r.remaining())->Ok_0.1,
            decreases r.remaining().len(),
        {
            let ghost pre = *r;
            let c = Chunk::load(r)?;
            proof {
                lemma_parse_chunk_len(pre.remaining());
                let (cm, n) = spec_parse_chunk(pre.remaining())->Ok_0;
                assert(r.remaining() =~= pre.remaining().skip(n));
            }
            match c {
                Chunk::MaterialDesc { name, params } => {
                    mat.name = name;
                    mat.params = params;
                },
                Chunk::PixelmapRef { name } => {
                    mat.pixelmap_name = name;
                },
                Chunk::RenderTabRef { name } => {
                    mat.rendertab_name = name;
                },
                Chunk::Null => {
                    return Ok(mat);
                },
                Chunk::FileHeader { file_type } => {
                    if file_type != MATERIAL_FILE_TYPE {
                        return Err(Error::InvalidFormat);
                    }
                },
                Chunk::Pixelmap { name, width, height, unit_bytes, data } => {
                    return Err(Error::Malformed);
                },
            }
        }
    }
}

} // verus!
