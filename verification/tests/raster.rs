use energy::energy::{energy_combined_rgb, linear_byte};
use energy::raster::pixel_field;
use image::{DynamicImage, ImageBuffer};

#[test]
fn pixels_of_an_rgba_image_come_row_by_row() {
    let bytes: Vec<u8> = (0..24u8).collect();
    let image = DynamicImage::ImageRgba8(ImageBuffer::from_raw(3, 2, bytes).unwrap());
    let field = pixel_field(&image);
    assert_eq!(field.width(), 3);
    assert_eq!(field.height(), 2);
    assert_eq!(field.data.len(), 6);
    assert_eq!(field.at(0, 0), [0, 1, 2, 3]);
    assert_eq!(field.at(2, 0), [8, 9, 10, 11]);
    assert_eq!(field.at(0, 1), [12, 13, 14, 15]);
    assert_eq!(field.at(2, 1), [20, 21, 22, 23]);
}

#[test]
fn pixels_of_an_rgb_image_are_opaque() {
    let image = DynamicImage::ImageRgb8(ImageBuffer::from_raw(1, 2, vec![1, 2, 3, 4, 5, 6]).unwrap());
    let field = pixel_field(&image);
    assert_eq!(field.data, vec![[1, 2, 3, 255], [4, 5, 6, 255]]);
}

#[test]
fn pixels_of_a_grey_image_repeat_the_sample() {
    let image = DynamicImage::ImageLuma8(ImageBuffer::from_raw(2, 1, vec![7, 250]).unwrap());
    let field = pixel_field(&image);
    assert_eq!(field.data, vec![[7, 7, 7, 255], [250, 250, 250, 255]]);
}

#[test]
fn image_without_columns_gives_an_empty_field() {
    let image = DynamicImage::ImageRgba8(ImageBuffer::from_raw(0, 5, Vec::new()).unwrap());
    let field = pixel_field(&image);
    assert_eq!(field.width(), 0);
    assert_eq!(field.height(), 5);
    assert!(field.data.is_empty());
    let image = DynamicImage::ImageRgba8(ImageBuffer::from_raw(4, 0, Vec::new()).unwrap());
    let field = pixel_field(&image);
    assert_eq!(field.width(), 4);
    assert_eq!(field.height(), 0);
    assert!(field.data.is_empty());
}

#[test]
fn picture_of_a_decoded_image() {
    let mut bytes: Vec<u8> = Vec::new();
    for v in [0u8, 100, 50, 200] {
        bytes.push(v);
        bytes.push(v);
        bytes.push(v);
    }
    let image = DynamicImage::ImageRgb8(ImageBuffer::from_raw(2, 2, bytes).unwrap());
    let out = energy_combined_rgb(&pixel_field(&image), linear_byte);
    assert_eq!(out, vec![98, 156, 196, 255]);
}
