use atlas_extract::errors::Error;
use atlas_extract::mapping::AtlasMapping;
use atlas_extract::pos::AtlasPos;
use atlas_extract::raster::slice_atlas;

/// A PNG whose 16x16 cells each carry a distinct solid color: cell (cx, cy)
/// is [cx * 16, cy * 16, 7, 255].
fn checkered_png(width: u32, height: u32) -> Vec<u8> {
    let mut img = image::RgbaImage::new(width, height);
    for y in 0..height {
        for x in 0..width {
            let cx = (x / 16) as u8;
            let cy = (y / 16) as u8;
            img.put_pixel(x, y, image::Rgba([cx * 16, cy * 16, 7, 255]));
        }
    }
    let mut buf = std::io::Cursor::new(Vec::new());
    img.write_to(&mut buf, image::ImageFormat::Png).unwrap();
    buf.into_inner()
}

#[test]
fn slices_named_cells_with_their_colors() {
    let bytes = checkered_png(256, 256);
    let mut mapping = AtlasMapping::new();
    mapping.insert(AtlasPos::parse("00").unwrap(), "origin".to_string());
    mapping.insert(AtlasPos::parse("ff").unwrap(), "corner".to_string());
    let slices = slice_atlas(&bytes, &mapping).unwrap();
    assert_eq!(slices.len(), 2);
    assert_eq!(slices[0].0, "origin");
    assert_eq!(slices[1].0, "corner");
    for (name, img) in &slices {
        assert_eq!(img.width, 16);
        assert_eq!(img.height, 16);
        assert_eq!(img.pixels.len(), 1024);
        let expected: [u8; 4] = if name == "origin" {
            [0, 0, 7, 255]
        } else {
            [240, 240, 7, 255]
        };
        for px in img.pixels.chunks(4) {
            assert_eq!(px, expected);
        }
    }
}

#[test]
fn small_source_image_is_out_of_bounds() {
    let bytes = checkered_png(64, 64);
    let mut mapping = AtlasMapping::new();
    mapping.insert(AtlasPos::parse("ff").unwrap(), "corner".to_string());
    assert_eq!(
        slice_atlas(&bytes, &mapping),
        Err(Error::OutOfBounds(AtlasPos::parse("ff").unwrap()))
    );
}

#[test]
fn first_offending_coordinate_is_reported() {
    let bytes = checkered_png(64, 64);
    let mut mapping = AtlasMapping::new();
    mapping.insert(AtlasPos::parse("00").unwrap(), "origin".to_string());
    mapping.insert(AtlasPos::parse("4f").unwrap(), "right".to_string());
    mapping.insert(AtlasPos::parse("f0").unwrap(), "bottom".to_string());
    assert_eq!(
        slice_atlas(&bytes, &mapping),
        Err(Error::OutOfBounds(AtlasPos::parse("4f").unwrap()))
    );
}

#[test]
fn invalid_bytes_are_a_decode_error() {
    let mut mapping = AtlasMapping::new();
    mapping.insert(AtlasPos::parse("00").unwrap(), "origin".to_string());
    assert_eq!(slice_atlas(&[1, 2, 3, 4], &mapping), Err(Error::Decode));
}

#[test]
fn in_bounds_cells_of_a_small_image_still_slice() {
    let bytes = checkered_png(64, 64);
    let mut mapping = AtlasMapping::new();
    mapping.insert(AtlasPos::parse("11").unwrap(), "one".to_string());
    let slices = slice_atlas(&bytes, &mapping).unwrap();
    assert_eq!(slices.len(), 1);
    assert_eq!(slices[0].0, "one");
    for px in slices[0].1.pixels.chunks(4) {
        assert_eq!(px, [16, 16, 7, 255]);
    }
}
