use image_convolution::raster::Image;

#[test]
fn new_image_is_black() {
    let image = Image::new(3, 2).unwrap();
    assert_eq!(image.dimensions(), (3, 2));
    for y in 0..2 {
        for x in 0..3 {
            assert_eq!(image.get_pixel(x, y), (0, 0, 0));
        }
    }
    assert_eq!(image.to_pixels(), vec![(0, 0, 0); 6]);
}

#[test]
fn new_image_may_be_empty() {
    let image = Image::new(0, 0).unwrap();
    assert_eq!(image.dimensions(), (0, 0));
    assert!(image.to_pixels().is_empty());
    let flat = Image::new(5, 0).unwrap();
    assert_eq!(flat.dimensions(), (5, 0));
    assert!(flat.to_pixels().is_empty());
    let thin = Image::new(0, 7).unwrap();
    assert_eq!(thin.dimensions(), (0, 7));
    assert!(thin.to_pixels().is_empty());
}

#[test]
fn new_image_refuses_a_size_no_vector_can_hold() {
    assert!(Image::new(u32::MAX, u32::MAX).is_none());
}

#[test]
fn put_pixel_changes_one_pixel_only() {
    let mut image = Image::new(3, 3).unwrap();
    image.put_pixel(2, 1, (10, 20, 30));
    assert_eq!(image.dimensions(), (3, 3));
    for y in 0..3 {
        for x in 0..3 {
            let expected = if (x, y) == (2, 1) { (10, 20, 30) } else { (0, 0, 0) };
            assert_eq!(image.get_pixel(x, y), expected);
        }
    }
    image.put_pixel(2, 1, (1, 2, 3));
    assert_eq!(image.get_pixel(2, 1), (1, 2, 3));
}

#[test]
fn from_pixels_lays_rows_out_from_the_top() {
    let pixels = vec![(1, 2, 3), (4, 5, 6), (7, 8, 9), (10, 11, 12), (13, 14, 15), (16, 17, 18)];
    let image = Image::from_pixels(3, 2, &pixels).unwrap();
    assert_eq!(image.dimensions(), (3, 2));
    assert_eq!(image.get_pixel(0, 0), (1, 2, 3));
    assert_eq!(image.get_pixel(1, 0), (4, 5, 6));
    assert_eq!(image.get_pixel(2, 0), (7, 8, 9));
    assert_eq!(image.get_pixel(0, 1), (10, 11, 12));
    assert_eq!(image.get_pixel(1, 1), (13, 14, 15));
    assert_eq!(image.get_pixel(2, 1), (16, 17, 18));
    assert_eq!(image.to_pixels(), pixels);
}

#[test]
fn from_pixels_refuses_a_wrong_count() {
    let pixels = vec![(0, 0, 0); 5];
    assert!(Image::from_pixels(3, 2, &pixels).is_none());
    assert!(Image::from_pixels(2, 2, &pixels).is_none());
    assert!(Image::from_pixels(0, 0, &pixels).is_none());
    assert!(Image::from_pixels(5, 1, &pixels).is_some());
    assert!(Image::from_pixels(1, 5, &pixels).is_some());
}

#[test]
fn from_pixels_accepts_an_empty_image() {
    let image = Image::from_pixels(0, 4, &vec![]).unwrap();
    assert_eq!(image.dimensions(), (0, 4));
    assert!(image.to_pixels().is_empty());
}
