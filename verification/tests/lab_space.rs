use energy::energy::{energy_combined_rgb, energy_component_rgb, linear_byte};
use energy::field::{convert_field, gradient_field, PixelField};
use energy::normalize::{running_max, running_max_each, write_scalars, write_triples};

fn exceeds(v: f32, m: f32) -> bool {
    v > m
}

fn is_zero(m: f32) -> bool {
    m == 0.0
}

fn straight(v: f32, m: f32) -> u8 {
    ((v / m) * 255.0) as u8
}

fn lab_field(pixels: &Vec<[u8; 4]>, width: u32, height: u32) -> PixelField<lab::Lab> {
    let field = PixelField::new(width, height, pixels.clone()).unwrap();
    convert_field(&field, |sample: [u8; 4]| lab::Lab::from_rgba(&sample))
}

fn combined_lab_picture(pixels: &Vec<[u8; 4]>, width: u32, height: u32) -> Vec<u8> {
    let field = lab_field(pixels, width, height);
    let raw: Vec<f32> = gradient_field(&field, |a: lab::Lab, b: lab::Lab, c: lab::Lab, d: lab::Lab| {
        a.squared_distance(&b).abs() + c.squared_distance(&d).abs()
    });
    let max = running_max(&raw, f32::MIN, exceeds);
    write_scalars(&raw, max, is_zero, straight)
}

fn component_lab_picture(pixels: &Vec<[u8; 4]>, width: u32, height: u32) -> Vec<u8> {
    let field = lab_field(pixels, width, height);
    let raw: Vec<[f32; 3]> = gradient_field(&field, |a: lab::Lab, b: lab::Lab, c: lab::Lab, d: lab::Lab| {
        [
            (a.l - b.l).abs() + (c.l - d.l).abs(),
            (a.a - b.a).abs() + (c.a - d.a).abs(),
            (a.b - b.b).abs() + (c.b - d.b).abs(),
        ]
    });
    let max = running_max_each(&raw, f32::MIN, exceeds);
    write_triples(&raw, max, is_zero, straight)
}

fn colourful() -> Vec<[u8; 4]> {
    vec![
        [255, 0, 0, 255],
        [0, 255, 0, 255],
        [0, 0, 255, 255],
        [10, 10, 10, 255],
        [200, 180, 40, 255],
        [90, 0, 160, 255],
    ]
}

#[test]
fn rgb_and_lab_pictures_have_the_same_size() {
    let pixels = colourful();
    let field = PixelField::new(3, 2, pixels.clone()).unwrap();
    let rgb = energy_combined_rgb(&field, linear_byte);
    let lab = combined_lab_picture(&pixels, 3, 2);
    assert_eq!(rgb.len(), 6);
    assert_eq!(lab.len(), rgb.len());
    assert_ne!(lab, rgb);
    let rgb3 = energy_component_rgb(&field, linear_byte);
    let lab3 = component_lab_picture(&pixels, 3, 2);
    assert_eq!(rgb3.len(), 18);
    assert_eq!(lab3.len(), rgb3.len());
    assert_ne!(lab3, rgb3);
}

#[test]
fn largest_lab_energy_is_written_as_255() {
    let lab = combined_lab_picture(&colourful(), 3, 2);
    assert!(lab.contains(&255));
    let lab3 = component_lab_picture(&colourful(), 3, 2);
    for c in 0..3 {
        assert!((0..6).any(|i| lab3[3 * i + c] == 255));
    }
}

#[test]
fn uniform_image_is_black_in_lab_space() {
    let pixels: Vec<[u8; 4]> = vec![[12, 99, 200, 255]; 6];
    assert_eq!(combined_lab_picture(&pixels, 2, 3), vec![0; 6]);
    assert_eq!(component_lab_picture(&pixels, 2, 3), vec![0; 18]);
}

#[test]
fn lab_pictures_do_not_change_between_runs() {
    let pixels = colourful();
    assert_eq!(combined_lab_picture(&pixels, 3, 2), combined_lab_picture(&pixels, 3, 2));
    assert_eq!(component_lab_picture(&pixels, 2, 3), component_lab_picture(&pixels, 2, 3));
}

#[test]
fn conversion_keeps_the_shape_and_the_order() {
    let field = PixelField::new(3, 2, vec![1u8, 2, 3, 4, 5, 6]).unwrap();
    let doubled = convert_field(&field, |v: u8| v as u16 * 2);
    assert_eq!(doubled.width(), 3);
    assert_eq!(doubled.height(), 2);
    assert_eq!(doubled.data, vec![2u16, 4, 6, 8, 10, 12]);
    let empty: PixelField<u8> = PixelField::new(0, 0, Vec::new()).unwrap();
    assert!(convert_field(&empty, |v: u8| v).data.is_empty());
}

#[test]
fn running_maximum_starts_from_the_lowest() {
    assert_eq!(running_max(&vec![], f32::MIN, exceeds), f32::MIN);
    assert_eq!(running_max(&vec![0.5, 2.5, 1.0], f32::MIN, exceeds), 2.5);
    assert_eq!(running_max(&vec![-3.0, -7.0], f32::MIN, exceeds), -3.0);
    assert_eq!(running_max(&vec![1, 2, 3], 10, |a: i32, b: i32| a > b), 10);
    assert_eq!(
        running_max_each(&vec![[1.0, 9.0, 0.0], [4.0, 2.0, 0.0]], f32::MIN, exceeds),
        [4.0, 9.0, 0.0]
    );
    assert_eq!(running_max_each(&vec![], 7u8, |a: u8, b: u8| a > b), [7, 7, 7]);
}

#[test]
fn running_maximum_keeps_the_first_of_equals() {
    let first = running_max(&vec![(5, 'a'), (5, 'b'), (3, 'c')], (0, '-'), |a: (i32, char), b: (i32, char)| {
        a.0 > b.0
    });
    assert_eq!(first, (5, 'a'));
}

#[test]
fn writers_ask_the_curve_only_for_a_largest_energy_other_than_zero() {
    let never = |_v: f32, _m: f32| -> u8 { panic!("asked for a largest energy of zero") };
    assert_eq!(write_scalars(&vec![0.0, 0.0], 0.0, is_zero, never), vec![0, 0]);
    assert_eq!(write_scalars(&vec![1.0, 4.0, 2.0], 4.0, is_zero, straight), vec![63, 255, 127]);
    let out = write_triples(&vec![[1.0, 0.0, 8.0], [2.0, 0.0, 4.0]], [2.0, 0.0, 8.0], is_zero, straight);
    assert_eq!(out, vec![127, 0, 255, 255, 0, 127]);
}
