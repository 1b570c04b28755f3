use pathtracer::texture::{ImageTexture, UVTexture};

fn checker_raster() -> ImageTexture {
    // 3 texels wide, 2 texels high, row-major, RGB.
    let bytes: Vec<u8> = vec![
        1, 2, 3, 4, 5, 6, 7, 8, 9, //
        10, 11, 12, 13, 14, 15, 16, 17, 18,
    ];
    ImageTexture::new(bytes, 3, 2)
}

#[test]
fn image_texture_keeps_its_dimensions() {
    let texture = checker_raster();
    assert_eq!(texture.width(), 3);
    assert_eq!(texture.height(), 2);
}

#[test]
fn texel_reads_three_bytes_in_row_major_order() {
    let texture = checker_raster();
    assert_eq!(texture.texel(0, 0), [1, 2, 3]);
    assert_eq!(texture.texel(1, 0), [4, 5, 6]);
    assert_eq!(texture.texel(2, 0), [7, 8, 9]);
    assert_eq!(texture.texel(0, 1), [10, 11, 12]);
    assert_eq!(texture.texel(1, 1), [13, 14, 15]);
    assert_eq!(texture.texel(2, 1), [16, 17, 18]);
}

#[test]
fn texel_of_a_single_texel_raster() {
    let texture = ImageTexture::new(vec![200, 100, 50], 1, 1);
    assert_eq!(texture.texel(0, 0), [200, 100, 50]);
}

#[test]
fn empty_raster_is_accepted() {
    let texture = ImageTexture::new(Vec::new(), 0, 4);
    assert_eq!(texture.width(), 0);
    assert_eq!(texture.height(), 4);
}

#[test]
fn cloned_texture_reads_the_same() {
    let texture = checker_raster();
    let copy = texture.clone();
    assert_eq!(copy.width(), 3);
    assert_eq!(copy.height(), 2);
    let mut y: usize = 0;
    while y < 2 {
        let mut x: usize = 0;
        while x < 3 {
            assert_eq!(copy.texel(x, y), texture.texel(x, y));
            x += 1;
        }
        y += 1;
    }
}

#[test]
fn uv_texture_is_a_copyable_marker() {
    let texture = UVTexture;
    let copy = texture;
    assert_eq!(format!("{:?}", texture), format!("{:?}", copy));
}
