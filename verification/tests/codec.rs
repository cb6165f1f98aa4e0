use chunkpix::chunk::Chunk;
use chunkpix::material::{Material, MATERIAL_FILE_TYPE};
use chunkpix::pixelmap::{load_pixelmaps, PIXELMAP_FILE_TYPE};
use chunkpix::reader::ByteReader;
use chunkpix::Error;

fn be(v: u32) -> Vec<u8> {
    vec![
        (v >> 24) as u8,
        (v >> 16) as u8,
        (v >> 8) as u8,
        v as u8,
    ]
}

const TAG_NULL: u32 = 0;
const TAG_PIXELMAP: u32 = 3;
const TAG_MATERIAL_DESC: u32 = 4;
const TAG_FILE_HEADER: u32 = 18;
const TAG_PIXELMAP_REF: u32 = 28;
const TAG_RENDERTAB_REF: u32 = 31;

fn file_header(file_type: u32) -> Vec<u8> {
    let mut out = be(TAG_FILE_HEADER);
    out.extend(be(file_type));
    out
}

fn material_desc(name: &[u8], params: &[u32; 12]) -> Vec<u8> {
    let mut out = be(TAG_MATERIAL_DESC);
    out.extend(be(name.len() as u32));
    out.extend_from_slice(name);
    for p in params.iter() {
        out.extend(be(*p));
    }
    out
}

fn name_ref(tag: u32, name: &[u8]) -> Vec<u8> {
    let mut out = be(tag);
    out.extend(be(name.len() as u32));
    out.extend_from_slice(name);
    out
}

fn pixelmap_chunk(name: &[u8], width: u32, height: u32, unit_bytes: u32, data: &[u8]) -> Vec<u8> {
    let mut out = be(TAG_PIXELMAP);
    out.extend(be(name.len() as u32));
    out.extend_from_slice(name);
    out.extend(be(width));
    out.extend(be(height));
    out.extend(be(unit_bytes));
    out.extend_from_slice(data);
    out
}

#[test]
fn null_chunk_decodes_and_advances() {
    let bytes = be(TAG_NULL);
    let mut r = ByteReader::new(bytes.as_slice());
    let c = Chunk::load(&mut r).unwrap();
    assert!(matches!(c, Chunk::Null));
    assert_eq!(r.pos, 4);
}

#[test]
fn file_header_chunk_decodes() {
    let bytes = file_header(7);
    let mut r = ByteReader::new(bytes.as_slice());
    let c = Chunk::load(&mut r).unwrap();
    match c {
        Chunk::FileHeader { file_type } => assert_eq!(file_type, 7),
        _ => panic!("wrong variant"),
    }
    assert_eq!(r.pos, 8);
}

#[test]
fn short_input_is_truncated_and_consumes_nothing() {
    let bytes = vec![0u8, 0, 0];
    let mut r = ByteReader::new(bytes.as_slice());
    assert_eq!(Chunk::load(&mut r).unwrap_err(), Error::Truncated);
    assert_eq!(r.pos, 0);
}

#[test]
fn truncated_payload_is_truncated_and_consumes_nothing() {
    let mut bytes = material_desc(b"engine", &[0u32; 12]);
    bytes.truncate(bytes.len() - 1);
    let mut r = ByteReader::new(bytes.as_slice());
    assert_eq!(Chunk::load(&mut r).unwrap_err(), Error::Truncated);
    assert_eq!(r.pos, 0);
}

#[test]
fn overlong_name_length_is_malformed() {
    let mut bytes = be(TAG_PIXELMAP_REF);
    bytes.extend(be(100));
    bytes.extend_from_slice(b"abc");
    let mut r = ByteReader::new(bytes.as_slice());
    assert_eq!(Chunk::load(&mut r).unwrap_err(), Error::Malformed);
    assert_eq!(r.pos, 0);
}

#[test]
fn unknown_tag_is_rejected() {
    let bytes = be(999);
    let mut r = ByteReader::new(bytes.as_slice());
    assert_eq!(Chunk::load(&mut r).unwrap_err(), Error::UnknownTag);
    assert_eq!(r.pos, 0);
}

#[test]
fn chunk_stream_reencodes_byte_for_byte() {
    let mut bytes = file_header(MATERIAL_FILE_TYPE);
    bytes.extend(material_desc(b"engine", &[1, 2, 3, 4, 5, 6, 7, 8, 9, 10, 11, 12]));
    bytes.extend(name_ref(TAG_PIXELMAP_REF, b"eng_tex"));
    bytes.extend(name_ref(TAG_RENDERTAB_REF, b"eng_tab"));
    bytes.extend(pixelmap_chunk(b"img", 2, 2, 1, &[9, 8, 7, 6]));
    bytes.extend(be(TAG_NULL));
    let mut r = ByteReader::new(bytes.as_slice());
    let mut reencoded: Vec<u8> = Vec::new();
    loop {
        let c = Chunk::load(&mut r).unwrap();
        c.encode(&mut reencoded);
        if matches!(c, Chunk::Null) {
            break;
        }
    }
    assert_eq!(reencoded, bytes);
}

#[test]
fn material_scenario_decodes_fully() {
    let mut bytes = file_header(MATERIAL_FILE_TYPE);
    bytes.extend(material_desc(b"engine", &[0u32; 12]));
    bytes.extend(name_ref(TAG_PIXELMAP_REF, b"eng_tex"));
    bytes.extend(be(TAG_NULL));
    let mut r = ByteReader::new(bytes.as_slice());
    let mat = Material::load(&mut r).unwrap();
    assert_eq!(mat.name, b"engine".to_vec());
    assert_eq!(mat.params, vec![0u32; 12]);
    assert_eq!(mat.pixelmap_name, b"eng_tex".to_vec());
    assert_eq!(mat.rendertab_name, Vec::<u8>::new());
}

#[test]
fn material_wrong_file_type_is_invalid_format() {
    let mut bytes = file_header(MATERIAL_FILE_TYPE + 1);
    bytes.extend(material_desc(b"engine", &[0u32; 12]));
    bytes.extend(be(TAG_NULL));
    let mut r = ByteReader::new(bytes.as_slice());
    assert_eq!(Material::load(&mut r).unwrap_err(), Error::InvalidFormat);
}

#[test]
fn material_last_writer_wins() {
    let mut bytes = material_desc(b"first", &[1u32; 12]);
    bytes.extend(material_desc(b"second", &[2u32; 12]));
    bytes.extend(be(TAG_NULL));
    let mut r = ByteReader::new(bytes.as_slice());
    let mat = Material::load(&mut r).unwrap();
    assert_eq!(mat.name, b"second".to_vec());
    assert_eq!(mat.params, vec![2u32; 12]);
}

#[test]
fn material_rejects_pixelmap_chunk() {
    let mut bytes = pixelmap_chunk(b"img", 1, 1, 1, &[0]);
    bytes.extend(be(TAG_NULL));
    let mut r = ByteReader::new(bytes.as_slice());
    assert_eq!(Material::load(&mut r).unwrap_err(), Error::Malformed);
}

#[test]
fn material_propagates_truncation() {
    let bytes = file_header(MATERIAL_FILE_TYPE);
    let mut r = ByteReader::new(bytes.as_slice());
    assert_eq!(Material::load(&mut r).unwrap_err(), Error::Truncated);
}

#[test]
fn material_load_stops_after_terminator() {
    let mut bytes = file_header(MATERIAL_FILE_TYPE);
    bytes.extend(be(TAG_NULL));
    bytes.extend_from_slice(b"trailing");
    let mut r = ByteReader::new(bytes.as_slice());
    Material::load(&mut r).unwrap();
    assert_eq!(r.pos, 12);
}

#[test]
fn pixelmap_load_stops_after_terminator() {
    let mut bytes = file_header(PIXELMAP_FILE_TYPE);
    bytes.extend(pixelmap_chunk(b"a", 1, 1, 1, &[0]));
    bytes.extend(be(TAG_NULL));
    let used = bytes.len();
    bytes.extend_from_slice(b"xyz");
    let mut r = ByteReader::new(bytes.as_slice());
    load_pixelmaps(&mut r).unwrap();
    assert_eq!(r.pos, used);
}

#[test]
fn pixelmap_file_decodes_in_order() {
    let mut bytes = file_header(PIXELMAP_FILE_TYPE);
    bytes.extend(pixelmap_chunk(b"one", 2, 1, 1, &[5, 6]));
    bytes.extend(pixelmap_chunk(b"two", 1, 2, 3, &[1, 2, 3, 4, 5, 6]));
    bytes.extend(be(TAG_NULL));
    let mut r = ByteReader::new(bytes.as_slice());
    let pixes = load_pixelmaps(&mut r).unwrap();
    assert_eq!(pixes.len(), 2);
    assert_eq!(pixes[0].name, b"one".to_vec());
    assert_eq!(pixes[0].width, 2);
    assert_eq!(pixes[0].height, 1);
    assert_eq!(pixes[0].unit_bytes, 1);
    assert_eq!(pixes[0].data, vec![5, 6]);
    assert_eq!(pixes[1].name, b"two".to_vec());
    assert_eq!(pixes[1].data, vec![1, 2, 3, 4, 5, 6]);
}

#[test]
fn pixelmap_wrong_file_type_is_invalid_format() {
    let mut bytes = file_header(MATERIAL_FILE_TYPE);
    bytes.extend(be(TAG_NULL));
    let mut r = ByteReader::new(bytes.as_slice());
    assert_eq!(load_pixelmaps(&mut r).unwrap_err(), Error::InvalidFormat);
}

#[test]
fn pixelmap_rejects_material_chunk() {
    let mut bytes = file_header(PIXELMAP_FILE_TYPE);
    bytes.extend(material_desc(b"engine", &[0u32; 12]));
    bytes.extend(be(TAG_NULL));
    let mut r = ByteReader::new(bytes.as_slice());
    assert_eq!(load_pixelmaps(&mut r).unwrap_err(), Error::Malformed);
}

#[test]
fn pixelmap_data_shorter_than_dimensions_is_truncated() {
    let mut bytes = be(TAG_PIXELMAP);
    bytes.extend(be(3));
    bytes.extend_from_slice(b"img");
    bytes.extend(be(4));
    bytes.extend(be(4));
    bytes.extend(be(1));
    bytes.extend_from_slice(&[0u8; 15]);
    let mut r = ByteReader::new(bytes.as_slice());
    assert_eq!(Chunk::load(&mut r).unwrap_err(), Error::Truncated);
    assert_eq!(r.pos, 0);
}
