//! The chunk stream: tagged, self-delimiting records. Every record starts
//! with a four-byte big-endian tag; the tag alone determines the payload
//! shape, so a tag outside the recognized set is a hard error — its payload
//! size cannot be derived, and skipping it would desynchronize the stream.
//!
//! Wire layout, per tag:
//! - `Null`: no payload; terminates a logical record.
//! - `FileHeader`: a four-byte file-type discriminator.
//! - `MaterialDesc`: a four-byte name length, the name bytes, then twelve
//!   four-byte shading parameters (stored as raw bit patterns).
//! - `PixelmapRef` / `RenderTabRef`: a four-byte name length, then the name.
//! - `Pixelmap`: a four-byte name length, the name, four-byte width, height
//!   and unit size, then `width * height * unit_bytes` bytes of pixel data.
use vstd::prelude::*;
use crate::Error;
use crate::reader::{be_u32_at, ByteReader};

verus! {

pub const TAG_NULL: u32 = 0;
pub const TAG_PIXELMAP: u32 = 3;
pub const TAG_MATERIAL_DESC: u32 = 4;
pub const TAG_FILE_HEADER: u32 = 18;
pub const TAG_PIXELMAP_REF: u32 = 28;
pub const TAG_RENDERTAB_REF: u32 = 31;

/// Number of shading parameters a material description carries.
pub const MATERIAL_PARAM_COUNT: usize = 12;

/// One decoded record. Shading parameters are kept as the raw bit patterns
/// of the stored four-byte values; names are kept as the raw bytes read from
/// the stream.
#[derive(Debug)]
pub enum Chunk {
    FileHeader { file_type: u32 },
    MaterialDesc { name: Vec<u8>, params: Vec<u32> },
    PixelmapRef { name: Vec<u8> },
    RenderTabRef { name: Vec<u8> },
    Pixelmap { name: Vec<u8>, width: u32, height: u32, unit_bytes: u32, data: Vec<u8> },
    Null,
}

/// The mathematical shape of a decoded record.
pub enum ChunkModel {
    FileHeader { file_type: u32 },
    MaterialDesc { name: Seq<u8>, params: Seq<u32> },
    PixelmapRef { name: Seq<u8> },
    RenderTabRef { name: Seq<u8> },
    Pixelmap { name: Seq<u8>, width: u32, height: u32, unit_bytes: u32, data: Seq<u8> },
    Null,
}

impl View for Chunk {
    type V = ChunkModel;

    open spec fn view(&self) -> ChunkModel {
        match self {
            Chunk::FileHeader { file_type } => ChunkModel::FileHeader { file_type: *file_type },
            Chunk::MaterialDesc { name, params } => ChunkModel::MaterialDesc {
                name: name@,
                params: params@,
            },
            Chunk::PixelmapRef { name } => ChunkModel::PixelmapRef { name: name@ },
            Chunk::RenderTabRef { name } => ChunkModel::RenderTabRef { name: name@ },
            Chunk::Pixelmap { name, width, height, unit_bytes, data } => ChunkModel::Pixelmap {
                name: name@,
                width: *width,
                height: *height,
                unit_bytes: *unit_bytes,
                data: data@,
            },
            Chunk::Null => ChunkModel::Null,
        }
    }
}

/// The twelve parameter values stored big-endian from offset `off` of `s`.
pub open spec fn params_at(s: Seq<u8>, off: int) -> Seq<u32> {
    Seq::new(MATERIAL_PARAM_COUNT as nat, |i: int| be_u32_at(s, off + 4 * i) as u32)
}

/// What decoding one chunk from the front of `s` yields: the record and the
/// exact number of bytes it occupies, or the error that aborts the decode.
/// Error precedence: a stream too short for the tag or for a fixed-width
/// field is `Truncated`; a name length that exceeds the bytes remaining
/// behind it is `Malformed`; a tag outside the recognized set is
/// `UnknownTag`.
pub open spec fn spec_parse_chunk(s: Seq<u8>) -> Result<(ChunkModel, int), Error> {
    if s.len() < 4 {
        Err(Error::Truncated)
    } else {
        let tag = be_u32_at(s, 0);
        if tag == TAG_NULL {
            Ok((ChunkModel::Null, 4))
        } else if tag == TAG_FILE_HEADER {
            if s.len() < 8 {
                Err(Error::Truncated)
            } else {
                Ok((ChunkModel::FileHeader { file_type: be_u32_at(s, 4) as u32 }, 8))
            }
        } else if tag == TAG_MATERIAL_DESC {
            if s.len() < 8 {
                Err(Error::Truncated)
            } else {
                let nlen = be_u32_at(s, 4);
                if nlen > s.len() - 8 {
                    Err(Error::Malformed)
                } else if s.len() - 8 - nlen < 48 {
                    Err(Error::Truncated)
                } else {
                    Ok(
                        (
                            ChunkModel::MaterialDesc {
                                name: s.subrange(8, 8 + nlen),
                                params: params_at(s, 8 + nlen),
                            },
                            8 + nlen + 48,
                        ),
                    )
                }
            }
        } else if tag == TAG_PIXELMAP_REF || tag == TAG_RENDERTAB_REF {
            if s.len() < 8 {
                Err(Error::Truncated)
            } else {
                let nlen = be_u32_at(s, 4);
                if nlen > s.len() - 8 {
                    Err(Error::Malformed)
                } else if tag == TAG_PIXELMAP_REF {
                    Ok((ChunkModel::PixelmapRef { name: s.subrange(8, 8 + nlen) }, 8 + nlen))
                } else {
                    Ok((ChunkModel::RenderTabRef { name: s.subrange(8, 8 + nlen) }, 8 + nlen))
                }
            }
        } else if tag == TAG_PIXELMAP {
            if s.len() < 8 {
                Err(Error::Truncated)
            } else {
                let nlen = be_u32_at(s, 4);
                if nlen > s.len() - 8 {
                    Err(Error::Malformed)
                } else if s.len() - 8 - nlen < 12 {
                    Err(Error::Truncated)
                } else {
                    let width = be_u32_at(s, 8 + nlen);
                    let height = be_u32_at(s, 8 + nlen + 4);
                    let unit_bytes = be_u32_at(s, 8 + nlen + 8);
                    let need = width * height * unit_bytes;
                    if s.len() - 8 - nlen - 12 < need {
                        Err(Error::Truncated)
                    } else {
                        Ok(
                            (
                                ChunkModel::Pixelmap {
                                    name: s.subrange(8, 8 + nlen),
                                    width: width as u32,
                                    height: height as u32,
                                    unit_bytes: unit_bytes as u32,
                                    data: s.subrange(8 + nlen + 12, 8 + nlen + 12 + need),
                                },
                                8 + nlen + 12 + need,
                            ),
                        )
                    }
                }
            }
        } else {
            Err(Error::UnknownTag)
        }
    }
}

/// Every successfully parsed chunk occupies at least its four tag bytes and
/// no more than the whole stream.
pub proof fn lemma_parse_chunk_len(s: Seq<u8>)
    ensures
        spec_parse_chunk(s) matches Ok((c, n)) ==> 4 <= n <= s.len(),
{
    if spec_parse_chunk(s) is Ok {
        let tag = be_u32_at(s, 0);
        if tag == TAG_PIXELMAP && s.len() >= 8 {
            let nlen = be_u32_at(s, 4);
            if nlen <= s.len() - 8 && s.len() - 8 - nlen >= 12 {
                let width = be_u32_at(s, 8 + nlen);
                let height = be_u32_at(s, 8 + nlen + 4);
                let unit_bytes = be_u32_at(s, 8 + nlen + 8);
                assert(width * height * unit_bytes >= 0) by (nonlinear_arith)
                    requires
                        width >= 0,
                        height >= 0,
                        unit_bytes >= 0,
                ;
            }
        }
    }
}

impl Chunk {
    /// Decodes exactly one chunk from the reader. On success the cursor
    /// advances by exactly the bytes of that chunk; on failure it does not
    /// move, so no chunk is ever partially consumed.
    pub fn load(r: &mut ByteReader) -> (res: Result<Chunk, Error>)
        requires
            old(r).wf(),
        ensures
            final(r).wf(),
            final(r).data@ == old(r).data@,
            match spec_parse_chunk(old(r).remaining()) {
                Ok((c, n)) => res matches Ok(ck) && ck@ == c && final(r).pos == old(r).pos + n,
                Err(e) => res matches Err(e2) && e2 == e && final(r).pos == old(r).pos,
            },
    {
        let ghost s = r.remaining();
        let left = r.left();
        if left < 4 {
            return Err(Error::Truncated);
        }
        let tag = r.peek_u32_at(0);
        if tag == TAG_NULL {
            r.advance(4);
            return Ok(Chunk::Null);
        }
        if tag == TAG_FILE_HEADER {
            if left < 8 {
                return Err(Error::Truncated);
            }
            let file_type = r.peek_u32_at(4);
            r.advance(8);
            return Ok(Chunk::FileHeader { file_type });
        }
        if tag == TAG_MATERIAL_DESC {
            if left < 8 {
                return Err(Error::Truncated);
            }
            let nlen32 = r.peek_u32_at(4);
            if nlen32 as u64 > (left - 8) as u64 {
                return Err(Error::Malformed);
            }
            let nlen = nlen32 as usize;
            if left - 8 - nlen < 48 {
                return Err(Error::Truncated);
            }
            let name = r.peek_bytes_at(8, nlen);
            let mut params: Vec<u32> = Vec::new();
            let mut k: usize = 0;
            while k < MATERIAL_PARAM_COUNT
                invariant
                    k <= MATERIAL_PARAM_COUNT,
                    r == old(r),
                    r.wf(),
                    s == r.remaining(),
                    nlen + 56 <= s.len() <= usize::MAX,
                    nlen == be_u32_at(s, 4),
                    params@.len() == k,
                    forall|i: int|
                        0 <= i < k ==> params@[i] == be_u32_at(s, 8 + nlen + 4 * i) as u32,
                decreases MATERIAL_PARAM_COUNT - k,
            {
                let p = r.peek_u32_at(8 + nlen + 4 * k);
                params.push(p);
                k = k + 1;
            }
            proof {
                assert(params@ =~= params_at(s, 8 + nlen as int));
            }
            r.advance(8 + nlen + 48);
            proof {
                assert(name@ =~= s.subrange(8, 8 + nlen as int));
            }
            return Ok(Chunk::MaterialDesc { name, params });
        }
        if tag == TAG_PIXELMAP_REF || tag == TAG_RENDERTAB_REF {
            if left < 8 {
                return Err(Error::Truncated);
            }
            let nlen32 = r.peek_u32_at(4);
            if nlen32 as u64 > (left - 8) as u64 {
                return Err(Error::Malformed);
            }
            let nlen = nlen32 as usize;
            let name = r.peek_bytes_at(8, nlen);
            r.advance(8 + nlen);
            if tag == TAG_PIXELMAP_REF {
                return Ok(Chunk::PixelmapRef { name });
            } else {
                return Ok(Chunk::RenderTabRef { name });
            }
        }
        if tag == TAG_PIXELMAP {
            if left < 8 {
                return Err(Error::Truncated);
            }
            let nlen32 = r.peek_u32_at(4);
            if nlen32 as u64 > (left - 8) as u64 {
                return Err(Error::Malformed);
            }
            let nlen = nlen32 as usize;
            if left - 8 - nlen < 12 {
                return Err(Error::Truncated);
            }
            let width = r.peek_u32_at(8 + nlen);
            let height = r.peek_u32_at(8 + nlen + 4);
            let unit_bytes = r.peek_u32_at(8 + nlen + 8);
            proof {
                assert((width as int) * (height as int) <= 0xffffffff * 0xffffffff)
                    by (nonlinear_arith)
                    requires
                        0 <= width as int <= 0xffffffff,
                        0 <= height as int <= 0xffffffff,
                ;
                assert((width as int) * (height as int) * (unit_bytes as int) <= 0xffffffff
                    * 0xffffffff * 0xffffffff) by (nonlinear_arith)
                    requires
                        0 <= width as int * height as int <= 0xffffffff * 0xffffffff,
                        0 <= unit_bytes as int <= 0xffffffff,
                ;
            }
            let need: u128 = (width as u128) * (height as u128) * (unit_bytes as u128);
            let avail: u128 = (left - 8 - nlen - 12) as u128;
            if avail < need {
                return Err(Error::Truncated);
            }
            let dlen: usize = need as usize;
            let name = r.peek_bytes_at(8, nlen);
            let data = r.peek_bytes_at(8 + nlen + 12, dlen);
            r.advance(8 + nlen + 12 + dlen);
            return Ok(Chunk::Pixelmap { name, width, height, unit_bytes, data });
        }
        Err(Error::UnknownTag)
    }
}

/// The four big-endian bytes of the value `v`.
pub open spec fn u32_be(v: int) -> Seq<u8> {
    seq![
        ((v / 0x1000000) % 0x100) as u8,
        ((v / 0x10000) % 0x100) as u8,
        ((v / 0x100) % 0x100) as u8,
        (v % 0x100) as u8,
    ]
}

/// Reading four bytes big-endian and writing the value back gives the same
/// four bytes.
pub proof fn lemma_u32_be_at(s: Seq<u8>, i: int)
    requires
        0 <= i,
        i + 4 <= s.len(),
    ensures
        u32_be(be_u32_at(s, i)) == s.subrange(i, i + 4),
        0 <= be_u32_at(s, i) <= u32::MAX,
{
    let a = s[i] as int;
    let b = s[i + 1] as int;
    let c = s[i + 2] as int;
    let d = s[i + 3] as int;
    let v = be_u32_at(s, i);
    vstd::arithmetic::div_mod::lemma_fundamental_div_mod_converse(
        v,
        0x1000000,
        a,
        b * 0x10000 + c * 0x100 + d,
    );
    vstd::arithmetic::div_mod::lemma_fundamental_div_mod_converse(
        v,
        0x10000,
        a * 0x100 + b,
        c * 0x100 + d,
    );
    vstd::arithmetic::div_mod::lemma_fundamental_div_mod_converse(
        v,
        0x100,
        a * 0x10000 + b * 0x100 + c,
        d,
    );
    vstd::arithmetic::div_mod::lemma_fundamental_div_mod_converse(a, 0x100, 0, a);
    vstd::arithmetic::div_mod::lemma_fundamental_div_mod_converse(a * 0x100 + b, 0x100, a, b);
    vstd::arithmetic::div_mod::lemma_fundamental_div_mod_converse(
        a * 0x10000 + b * 0x100 + c,
        0x100,
        a * 0x100 + b,
        c,
    );
    assert(u32_be(v) =~= s.subrange(i, i + 4));
}

/// The concatenated big-endian encodings of a parameter list.
pub open spec fn spec_encode_params(params: Seq<u32>) -> Seq<u8>
    decreases params.len(),
{
    if params.len() == 0 {
        Seq::empty()
    } else {
        u32_be(params[0] as int) + spec_encode_params(params.drop_first())
    }
}

/// Appending one parameter appends its four bytes to the encoding.
pub proof fn lemma_encode_params_push(params: Seq<u32>, x: u32)
    ensures
        spec_encode_params(params.push(x)) == spec_encode_params(params) + u32_be(x as int),
    decreases params.len(),
{
    if params.len() == 0 {
        assert(params =~= Seq::<u32>::empty());
        assert(params.push(x).drop_first() =~= Seq::<u32>::empty());
        assert(params.push(x)[0] == x);
        assert(spec_encode_params(Seq::<u32>::empty()) == Seq::<u8>::empty());
        assert(spec_encode_params(params.push(x)) =~= spec_encode_params(params) + u32_be(
            x as int,
        ));
    } else {
        assert(params.push(x).drop_first() =~= params.drop_first().push(x));
        lemma_encode_params_push(params.drop_first(), x);
        assert(params.push(x)[0] == params[0]);
        assert(spec_encode_params(params.push(x)) == u32_be(params[0] as int)
            + spec_encode_params(params.drop_first().push(x)));
        assert(spec_encode_params(params.drop_first().push(x)) == spec_encode_params(
            params.drop_first(),
        ) + u32_be(x as int));
        assert(spec_encode_params(params.push(x)) =~= spec_encode_params(params) + u32_be(
            x as int,
        ));
    }
}

/// Parameters decoded from `s` re-encode to the very bytes they came from.
pub proof fn lemma_params_encode(s: Seq<u8>, off: int, k: int)
    requires
        0 <= off,
        0 <= k,
        off + 4 * k <= s.len(),
    ensures
        spec_encode_params(Seq::new(k as nat, |i: int| be_u32_at(s, off + 4 * i) as u32))
            == s.subrange(off, off + 4 * k),
    decreases k,
{
    let ps = Seq::new(k as nat, |i: int| be_u32_at(s, off + 4 * i) as u32);
    if k == 0 {
        assert(spec_encode_params(ps) =~= s.subrange(off, off));
    } else {
        lemma_u32_be_at(s, off);
        let tail = Seq::new((k - 1) as nat, |i: int| be_u32_at(s, off + 4 + 4 * i) as u32);
        assert(ps.drop_first() =~= tail);
        lemma_params_encode(s, off + 4, k - 1);
        assert(ps[0] as int == be_u32_at(s, off));
        assert(spec_encode_params(ps) =~= s.subrange(off, off + 4 * k));
    }
}

impl ChunkModel {
    /// Internal consistency: length fields fit their four bytes, a material
    /// carries its full parameter list, and pixel data matches the declared
    /// dimensions. Every chunk the decoder yields satisfies this.
    pub open spec fn wf(self) -> bool {
        match self {
            ChunkModel::FileHeader { file_type } => true,
            ChunkModel::MaterialDesc { name, params } => name.len() <= u32::MAX && params.len()
                == MATERIAL_PARAM_COUNT,
            ChunkModel::PixelmapRef { name } => name.len() <= u32::MAX,
            ChunkModel::RenderTabRef { name } => name.len() <= u32::MAX,
            ChunkModel::Pixelmap { name, width, height, unit_bytes, data } => name.len()
                <= u32::MAX && data.len() == (width as int) * (height as int) * (
            unit_bytes as int),
            ChunkModel::Null => true,
        }
    }
}

/// The bytes that carry the given record: the tag, then the payload in the
/// wire layout.
pub open spec fn spec_encode_chunk(c: ChunkModel) -> Seq<u8> {
    match c {
        ChunkModel::Null => u32_be(TAG_NULL as int),
        ChunkModel::FileHeader { file_type } => u32_be(TAG_FILE_HEADER as int) + u32_be(
            file_type as int,
        ),
        ChunkModel::MaterialDesc { name, params } => u32_be(TAG_MATERIAL_DESC as int) + u32_be(
            name.len() as int,
        ) + name + spec_encode_params(params),
        ChunkModel::PixelmapRef { name } => u32_be(TAG_PIXELMAP_REF as int) + u32_be(
            name.len() as int,
        ) + name,
        ChunkModel::RenderTabRef { name } => u32_be(TAG_RENDERTAB_REF as int) + u32_be(
            name.len() as int,
        ) + name,
        ChunkModel::Pixelmap { name, width, height, unit_bytes, data } => u32_be(
            TAG_PIXELMAP as int,
        ) + u32_be(name.len() as int) + name + u32_be(width as int) + u32_be(height as int)
            + u32_be(unit_bytes as int) + data,
    }
}

/// Decode-then-reencode is the identity on the bytes of any chunk the
/// decoder accepts: encoding the decoded record reproduces exactly the bytes
/// it was read from.
#[verifier::rlimit(100)]
pub proof fn lemma_chunk_round_trip(s: Seq<u8>)
    ensures
        spec_parse_chunk(s) matches Ok((c, n)) ==> c.wf() && spec_encode_chunk(c) == s.subrange(
            0,
            n,
        ),
{
    if spec_parse_chunk(s) is Ok {
        let (c, n) = spec_parse_chunk(s)->Ok_0;
        lemma_parse_chunk_len(s);
        let tag = be_u32_at(s, 0);
        lemma_u32_be_at(s, 0);
        if tag == TAG_NULL {
            assert(spec_encode_chunk(c) =~= s.subrange(0, n));
        } else if tag == TAG_FILE_HEADER {
            lemma_u32_be_at(s, 4);
            assert(spec_encode_chunk(c) =~= s.subrange(0, n));
        } else if tag == TAG_MATERIAL_DESC {
            lemma_u32_be_at(s, 4);
            let nlen = be_u32_at(s, 4);
            lemma_params_encode(s, 8 + nlen, MATERIAL_PARAM_COUNT as int);
            assert(spec_encode_chunk(c) =~= s.subrange(0, n));
        } else if tag == TAG_PIXELMAP_REF || tag == TAG_RENDERTAB_REF {
            lemma_u32_be_at(s, 4);
            assert(spec_encode_chunk(c) =~= s.subrange(0, n));
        } else {
            let nlen = be_u32_at(s, 4);
            lemma_u32_be_at(s, 4);
            lemma_u32_be_at(s, 8 + nlen);
            lemma_u32_be_at(s, 8 + nlen + 4);
            lemma_u32_be_at(s, 8 + nlen + 8);
            assert(spec_encode_chunk(c) =~= s.subrange(0, n));
        }
    }
}

/// Cutting a stream anywhere inside its first chunk never yields a record:
/// the decoder fails on every proper prefix of the chunk's bytes
/// (`Truncated` where a fixed-width field or the payload runs short,
/// `Malformed` where the cut leaves a name length pointing past the end),
/// so no partial chunk is ever consumed as a whole one.
#[verifier::rlimit(100)]
pub proof fn lemma_truncated_prefix_fails(s: Seq<u8>, k: int)
    requires
        spec_parse_chunk(s) is Ok,
        0 <= k < spec_parse_chunk(s)->Ok_0.1,
    ensures
        spec_parse_chunk(s.take(k)) is Err,
{
    let t = s.take(k);
    let (c, n) = spec_parse_chunk(s)->Ok_0;
    lemma_parse_chunk_len(s);
    if k >= 4 {
        assert(be_u32_at(t, 0) == be_u32_at(s, 0));
        let tag = be_u32_at(s, 0);
        if tag == TAG_NULL {
            assert(false);
        } else if tag == TAG_FILE_HEADER {
            assert(k < 8);
        } else if k >= 8 {
            assert(be_u32_at(t, 4) == be_u32_at(s, 4));
            let nlen = be_u32_at(s, 4);
            if nlen <= k - 8 {
                if tag == TAG_MATERIAL_DESC {
                    assert(k - 8 - nlen < 48);
                } else if tag == TAG_PIXELMAP_REF || tag == TAG_RENDERTAB_REF {
                    assert(false);
                } else {
                    assert(tag == TAG_PIXELMAP);
                    if k - 8 - nlen >= 12 {
                        assert(be_u32_at(t, 8 + nlen) == be_u32_at(s, 8 + nlen));
                        assert(be_u32_at(t, 8 + nlen + 4) == be_u32_at(s, 8 + nlen + 4));
                        assert(be_u32_at(t, 8 + nlen + 8) == be_u32_at(s, 8 + nlen + 8));
                        assert(k - 8 - nlen - 12 < be_u32_at(s, 8 + nlen) * be_u32_at(
                            s,
                            8 + nlen + 4,
                        ) * be_u32_at(s, 8 + nlen + 8));
                    }
                }
            }
        }
    }
}

/// What decoding chunks from the front of `s` until a `Null` terminator
/// yields: the records in stream order (the terminator included) and the
/// exact number of bytes they occupy, or the first error met. A stream with
/// no reachable terminator within its bytes ends in an error: decoding never
/// runs forever.
pub open spec fn spec_parse_chunks(s: Seq<u8>) -> Result<(Seq<ChunkModel>, int), Error>
    decreases s.len(),
    via spec_parse_chunks_decreases
{
    match spec_parse_chunk(s) {
        Err(e) => Err(e),
        Ok((c, n)) => if c is Null {
            Ok((seq![c], n))
        } else {
            match spec_parse_chunks(s.skip(n)) {
                Err(e) => Err(e),
                Ok((cs, m)) => Ok((seq![c] + cs, n + m)),
            }
        },
    }
}

#[via_fn]
proof fn spec_parse_chunks_decreases(s: Seq<u8>) {
    lemma_parse_chunk_len(s);
}

/// The concatenated encodings of a sequence of records.
pub open spec fn spec_encode_chunks(cs: Seq<ChunkModel>) -> Seq<u8>
    decreases cs.len(),
{
    if cs.len() == 0 {
        Seq::empty()
    } else {
        spec_encode_chunk(cs[0]) + spec_encode_chunks(cs.drop_first())
    }
}

/// Decode-then-reencode is the identity on every well-formed chunk stream:
/// re-encoding the records decoded up to and including the `Null` terminator
/// reproduces byte-for-byte the bytes they were read from.
#[verifier::rlimit(100)]
pub proof fn lemma_stream_round_trip(s: Seq<u8>)
    ensures
        spec_parse_chunks(s) matches Ok((cs, n)) ==> 4 <= n <= s.len() && spec_encode_chunks(cs)
            == s.subrange(0, n),
    decreases s.len(),
{
    if spec_parse_chunks(s) is Ok {
        let (cs, n) = spec_parse_chunks(s)->Ok_0;
        let (c, n1) = spec_parse_chunk(s)->Ok_0;
        lemma_parse_chunk_len(s);
        lemma_chunk_round_trip(s);
        if c is Null {
            assert(seq![c].drop_first() =~= Seq::<ChunkModel>::empty());
            assert(spec_encode_chunks(Seq::<ChunkModel>::empty()) == Seq::<u8>::empty());
            assert(spec_encode_chunks(cs) =~= s.subrange(0, n));
        } else {
            let rest = s.skip(n1);
            lemma_stream_round_trip(rest);
            let (cs2, m) = spec_parse_chunks(rest)->Ok_0;
            assert((seq![c] + cs2).drop_first() =~= cs2);
            assert((seq![c] + cs2)[0] == c);
            assert(spec_encode_chunks(cs) == spec_encode_chunk(c) + spec_encode_chunks(cs2));
            assert(spec_encode_chunks(cs2) == rest.subrange(0, m));
            assert(rest.subrange(0, m) =~= s.subrange(n1, n1 + m));
            assert(spec_encode_chunks(cs) =~= s.subrange(0, n));
        }
    }
}

/// Appends the four big-endian bytes of `v`.
fn push_u32_be(out: &mut Vec<u8>, v: u32)
    ensures
        final(out)@ == old(out)@ + u32_be(v as int),
{
    proof {
        vstd::arithmetic::div_mod::lemma_fundamental_div_mod_converse(
            v as int,
            0x1000000,
            v as int / 0x1000000,
            v as int % 0x1000000,
        );
    }
    out.push((v / 0x1000000 % 0x100) as u8);
    out.push((v / 0x10000 % 0x100) as u8);
    out.push((v / 0x100 % 0x100) as u8);
    out.push((v % 0x100) as u8);
    proof {
        assert(final(out)@ =~= old(out)@ + u32_be(v as int));
    }
}

impl Chunk {
    /// Appends this record's wire bytes — the tag, then the payload — to
    /// `out`.
    pub fn encode(&self, out: &mut Vec<u8>)
        requires
            self@.wf(),
        ensures
            final(out)@ == old(out)@ + spec_encode_chunk(self@),
    {
        match self {
            Chunk::Null => {
                push_u32_be(out, TAG_NULL);
            },
            Chunk::FileHeader { file_type } => {
                push_u32_be(out, TAG_FILE_HEADER);
                push_u32_be(out, *file_type);
            },
            Chunk::MaterialDesc { name, params } => {
                push_u32_be(out, TAG_MATERIAL_DESC);
                push_u32_be(out, name.len() as u32);
                push_bytes(out, name);
                let ghost mid = out@;
                let mut k: usize = 0;
                while k < params.len()
                    invariant
                        k <= params@.len() == MATERIAL_PARAM_COUNT,
                        out@ == mid + spec_encode_params(params@.take(k as int)),
                    decreases params@.len() - k,
                {
                    push_u32_be(out, params[k]);
                    proof {
                        lemma_encode_params_push(params@.take(k as int), params@[k as int]);
                        assert(params@.take(k as int).push(params@[k as int]) =~= params@.take(
                            k as int + 1,
                        ));
                    }
                    k = k + 1;
                }
                proof {
                    assert(params@.take(params@.len() as int) =~= params@);
                }
            },
            Chunk::PixelmapRef { name } => {
                push_u32_be(out, TAG_PIXELMAP_REF);
                push_u32_be(out, name.len() as u32);
                push_bytes(out, name);
            },
            Chunk::RenderTabRef { name } => {
                push_u32_be(out, TAG_RENDERTAB_REF);
                push_u32_be(out, name.len() as u32);
                push_bytes(out, name);
            },
            Chunk::Pixelmap { name, width, height, unit_bytes, data } => {
                push_u32_be(out, TAG_PIXELMAP);
                push_u32_be(out, name.len() as u32);
                push_bytes(out, name);
                push_u32_be(out, *width);
                push_u32_be(out, *height);
                push_u32_be(out, *unit_bytes);
                push_bytes(out, data);
            },
        }
        proof {
            assert(final(out)@ =~= old(out)@ + spec_encode_chunk(self@));
        }
    }
}

/// Appends a copy of `src`.
fn push_bytes(out: &mut Vec<u8>, src: &Vec<u8>)
    ensures
        final(out)@ == old(out)@ + src@,
{
    let mut k: usize = 0;
    while k < src.len()
        invariant
            k <= src@.len(),
            out@ == old(out)@ + src@.take(k as int),
        decreases src@.len() - k,
    {
        let b = src[k];
        out.push(b);
        proof {
            assert(old(out)@ + src@.take(k as int + 1) =~= (old(out)@ + src@.take(k as int)).push(
                src@[k as int],
            ));
        }
        k = k + 1;
    }
    proof {
        assert(src@.take(src@.len() as int) =~= src@);
    }
}

} // verus!
