use chunkpix::export::{convert_pixmaps, has_pix_extension};
use chunkpix::pixelmap::{load_pixelmaps, Pix, PIXELMAP_FILE_TYPE};
use chunkpix::reader::ByteReader;
use chunkpix::Error;

fn be(v: u32) -> Vec<u8> {
    vec![
        (v >> 24) as u8,
        (v >> 16) as u8,
        (v >> 8) as u8,
        v as u8,
    ]
}

fn pix(name: &[u8], width: u32, height: u32, unit_bytes: u32, data: Vec<u8>) -> Pix {
    Pix {
        name: name.to_vec(),
        width,
        height,
        unit_bytes,
        data,
    }
}

fn grey_palette_256() -> Pix {
    let mut data = Vec::new();
    for i in 0..256u32 {
        data.push(i as u8);
        data.push(i as u8);
        data.push(i as u8);
    }
    pix(b"pal", 16, 16, 3, data)
}

#[test]
fn remapped_color_is_exact_palette_lookup() {
    let palette = grey_palette_256();
    let image = pix(b"img", 2, 2, 1, vec![0, 10, 200, 255]);
    let rgb = image.remap_via(&palette).unwrap();
    assert_eq!(
        rgb,
        vec![0, 0, 0, 10, 10, 10, 200, 200, 200, 255, 255, 255]
    );
}

#[test]
fn out_of_range_index_yields_error_and_no_output() {
    let palette = pix(b"pal", 2, 2, 3, vec![0u8; 12]);
    let image = pix(b"img", 2, 1, 1, vec![1, 7]);
    assert_eq!(
        image.remap_via(&palette).unwrap_err(),
        Error::PaletteIndexOutOfRange
    );
    assert_eq!(
        image.write_remapped_via(&palette).unwrap_err(),
        Error::PaletteIndexOutOfRange
    );
}

#[test]
fn ppm_output_has_exact_header_and_dimensions() {
    let palette = grey_palette_256();
    let image = pix(b"img", 12, 3, 1, vec![9u8; 36]);
    let out = image.write_remapped_via(&palette).unwrap();
    let mut expected = b"P6\n12 3\n255\n".to_vec();
    expected.extend(vec![9u8; 108]);
    assert_eq!(out, expected);
}

#[test]
fn end_to_end_palette_export_scenario() {
    // A palette file whose first record is a 16x16 color table mapping
    // index 7 to (200, 150, 100), and a target file holding one 4x4 image
    // of all-index-7 pixels.
    let mut pal_data = vec![0u8; 768];
    pal_data[21] = 200;
    pal_data[22] = 150;
    pal_data[23] = 100;
    let mut pal_bytes = be(18);
    pal_bytes.extend(be(PIXELMAP_FILE_TYPE));
    pal_bytes.extend(be(3));
    pal_bytes.extend(be(3));
    pal_bytes.extend_from_slice(b"pal");
    pal_bytes.extend(be(16));
    pal_bytes.extend(be(16));
    pal_bytes.extend(be(3));
    pal_bytes.extend_from_slice(&pal_data);
    pal_bytes.extend(be(0));

    let mut img_bytes = be(18);
    img_bytes.extend(be(PIXELMAP_FILE_TYPE));
    img_bytes.extend(be(3));
    img_bytes.extend(be(3));
    img_bytes.extend_from_slice(b"img");
    img_bytes.extend(be(4));
    img_bytes.extend(be(4));
    img_bytes.extend(be(1));
    img_bytes.extend_from_slice(&[7u8; 16]);
    img_bytes.extend(be(0));

    let mut pr = ByteReader::new(pal_bytes.as_slice());
    let pal_file = load_pixelmaps(&mut pr).unwrap();
    let palette = &pal_file[0];

    let mut ir = ByteReader::new(img_bytes.as_slice());
    let img_file = load_pixelmaps(&mut ir).unwrap();

    let outputs = convert_pixmaps(&img_file, palette).unwrap();
    assert_eq!(outputs.len(), 1);
    assert_eq!(outputs[0].0, b"img".to_vec());
    let mut expected = b"P6\n4 4\n255\n".to_vec();
    for _ in 0..16 {
        expected.extend_from_slice(&[200, 150, 100]);
    }
    assert_eq!(outputs[0].1, expected);
}

#[test]
fn conversion_aborts_on_first_bad_image() {
    let palette = pix(b"pal", 2, 2, 3, vec![0u8; 12]);
    let good = pix(b"good", 1, 1, 1, vec![0]);
    let bad = pix(b"bad", 1, 1, 1, vec![200]);
    let pixmaps = vec![good, bad];
    assert_eq!(
        convert_pixmaps(&pixmaps, &palette).unwrap_err(),
        Error::PaletteIndexOutOfRange
    );
}

#[test]
fn conversion_names_every_output_after_its_image() {
    let palette = grey_palette_256();
    let a = pix(b"first", 1, 1, 1, vec![3]);
    let b = pix(b"second", 1, 2, 1, vec![4, 5]);
    let pixmaps = vec![a, b];
    let outputs = convert_pixmaps(&pixmaps, &palette).unwrap();
    assert_eq!(outputs.len(), 2);
    assert_eq!(outputs[0].0, b"first".to_vec());
    assert_eq!(outputs[1].0, b"second".to_vec());
    let mut first = b"P6\n1 1\n255\n".to_vec();
    first.extend_from_slice(&[3, 3, 3]);
    assert_eq!(outputs[0].1, first);
}

#[test]
fn pix_extension_filter_matches_exactly() {
    assert!(has_pix_extension(b"EAGYELE.PIX"));
    assert!(has_pix_extension(b"a/b/c.PIX"));
    assert!(!has_pix_extension(b"eagyele.pix"));
    assert!(!has_pix_extension(b"README.TXT"));
    assert!(!has_pix_extension(b"PIX"));
    assert!(!has_pix_extension(b""));
}
