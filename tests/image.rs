use mesh_scene::image::{Image, ImageError};

fn encode(width: u32, height: u32, color: png::ColorType, data: &[u8]) -> Vec<u8> {
    let mut out: Vec<u8> = Vec::new();
    {
        let mut enc = png::Encoder::new(&mut out, width, height);
        enc.set_color(color);
        enc.set_depth(png::BitDepth::Eight);
        let mut w = enc.write_header().unwrap();
        w.write_image_data(data).unwrap();
    }
    out
}

#[test]
fn from_vec_keeps_pixels() {
    let img = Image::from_vec(vec![1, 2, 3, 4, 5, 6], 2, 1);
    assert_eq!(img.data, vec![1, 2, 3, 4, 5, 6]);
    assert_eq!(img.width, 2);
    assert_eq!(img.height, 1);
}

#[test]
fn from_pixels_checks_rgb_layout() {
    let ok = Image::from_pixels(vec![0; 12], 2, 2).unwrap();
    assert_eq!((ok.width, ok.height, ok.data.len()), (2, 2, 12));
    assert_eq!(Image::from_pixels(vec![0; 16], 2, 2).err(), Some(ImageError::NotRgb));
    assert_eq!(Image::from_pixels(vec![], 0, 5).map(|i| i.data.len()).ok(), Some(0));
}

#[test]
fn from_png_decodes_rgb() {
    let pixels = [255u8, 0, 0, 0, 255, 0, 0, 0, 255, 9, 8, 7];
    let bytes = encode(2, 2, png::ColorType::RGB, &pixels);
    let img = Image::from_png(&bytes).unwrap();
    assert_eq!(img.width, 2);
    assert_eq!(img.height, 2);
    assert_eq!(img.data, pixels.to_vec());
}

#[test]
fn from_png_refuses_rgba() {
    let pixels = [1u8, 2, 3, 4];
    let bytes = encode(1, 1, png::ColorType::RGBA, &pixels);
    assert_eq!(Image::from_png(&bytes).err(), Some(ImageError::NotRgb));
}

#[test]
fn from_png_refuses_garbage() {
    assert_eq!(Image::from_png(&[1, 2, 3, 4]).err(), Some(ImageError::Undecodable));
    assert_eq!(Image::from_png(&[]).err(), Some(ImageError::Undecodable));
}
