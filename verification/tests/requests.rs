use image_convolution::request::{
    blur_strength, blurred_name, decimal_text, is_jpeg_extension, parse_choice, sharpened_name,
    Filter, DEFAULT_BLUR_STRENGTH,
};

#[test]
fn choice_one_is_blur_and_two_is_sharpen() {
    assert_eq!(parse_choice("1"), Some(Filter::Blur));
    assert_eq!(parse_choice("2"), Some(Filter::Sharpen));
}

#[test]
fn any_other_choice_selects_nothing() {
    for answer in ["", "0", "3", "11", "12", "21", " 1", "1 ", "blur", "one", "²"] {
        assert_eq!(parse_choice(answer), None, "{:?}", answer);
    }
}

#[test]
fn unreadable_strength_defaults_to_five() {
    assert_eq!(DEFAULT_BLUR_STRENGTH, 5);
    assert_eq!(blur_strength(None), 5);
}

#[test]
fn even_strength_becomes_the_next_odd_number() {
    assert_eq!(blur_strength(Some(0)), 1);
    assert_eq!(blur_strength(Some(1)), 1);
    assert_eq!(blur_strength(Some(2)), 3);
    assert_eq!(blur_strength(Some(3)), 3);
    assert_eq!(blur_strength(Some(10)), 11);
    assert_eq!(blur_strength(Some(usize::MAX)), usize::MAX);
}

#[test]
fn only_jpg_and_jpeg_are_input_extensions() {
    assert!(is_jpeg_extension("jpg"));
    assert!(is_jpeg_extension("jpeg"));
    for extension in ["", "JPG", "Jpeg", "png", "jpe", "jpgg", "jpegs", "jp", "gpj", "jpag"] {
        assert!(!is_jpeg_extension(extension), "{:?}", extension);
    }
}

#[test]
fn numbers_are_written_in_decimal() {
    assert_eq!(decimal_text(0), "0");
    assert_eq!(decimal_text(7), "7");
    assert_eq!(decimal_text(10), "10");
    assert_eq!(decimal_text(101), "101");
    assert_eq!(decimal_text(1234567890), "1234567890");
    assert_eq!(decimal_text(usize::MAX), format!("{}", usize::MAX));
}

#[test]
fn blurred_output_is_named_after_stem_and_strength() {
    assert_eq!(blurred_name("cat", 5), "images/cat_blurred_5.jpg");
    assert_eq!(blurred_name("my photo", 11), "images/my photo_blurred_11.jpg");
    assert_eq!(blurred_name("", 1), "images/_blurred_1.jpg");
}

#[test]
fn sharpened_output_is_named_after_stem() {
    assert_eq!(sharpened_name("cat"), "images/cat_sharpened.jpg");
    assert_eq!(sharpened_name("a.b"), "images/a.b_sharpened.jpg");
}
