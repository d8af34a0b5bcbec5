use mnist_net::mnist::{image_span, RawMnist, FILE_LEN, IMAGES_PER_FILE, IMAGE_SIZE, NUM_DIGITS};

fn file_for(digit: u8) -> Vec<u8> {
    (0..FILE_LEN).map(|k| ((k / IMAGE_SIZE) as u8).wrapping_add(digit)).collect()
}

#[test]
fn constants_describe_the_file_format() {
    assert_eq!(IMAGE_SIZE, 28 * 28);
    assert_eq!(FILE_LEN, IMAGES_PER_FILE * IMAGE_SIZE);
    assert_eq!(NUM_DIGITS, 10);
}

#[test]
fn empty_set_has_no_image() {
    let raw = RawMnist::new();
    assert_eq!(raw.len(), 0);
    assert!(raw.pixels().is_empty());
    assert!(raw.labels().is_empty());
}

#[test]
fn appending_a_file_adds_a_thousand_labelled_images() {
    let mut raw = RawMnist::new();
    let bytes = file_for(4);
    assert_eq!(raw.append_digit_file(4, &bytes), Ok(()));
    assert_eq!(raw.len(), 1000);
    assert_eq!(raw.pixels(), &bytes[..]);
    assert!(raw.labels().iter().all(|&l| l == 4));
}

#[test]
fn file_of_wrong_length_is_refused_and_set_unchanged() {
    let mut raw = RawMnist::new();
    let good = file_for(0);
    assert_eq!(raw.append_digit_file(0, &good), Ok(()));
    let short = vec![0u8; FILE_LEN - 1];
    assert_eq!(raw.append_digit_file(1, &short), Err(FILE_LEN - 1));
    let long = vec![0u8; FILE_LEN + 784];
    assert_eq!(raw.append_digit_file(1, &long), Err(FILE_LEN + 784));
    assert_eq!(raw.append_digit_file(1, &[]), Err(0));
    assert_eq!(raw.len(), 1000);
    assert_eq!(raw.pixels(), &good[..]);
    assert!(raw.labels().iter().all(|&l| l == 0));
}

#[test]
fn labels_follow_file_order() {
    let mut raw = RawMnist::new();
    for digit in 0..3u8 {
        assert_eq!(raw.append_digit_file(digit, &file_for(digit)), Ok(()));
    }
    assert_eq!(raw.len(), 3000);
    for (k, &label) in raw.labels().iter().enumerate() {
        assert_eq!(label as usize, k / 1000);
    }
    // image 1500 is image 500 of the file of digit 1
    let (start, end) = image_span(1500).unwrap();
    let image = &raw.pixels()[start..end];
    assert!(image.iter().all(|&p| p == (500usize as u8).wrapping_add(1)));
}

#[test]
fn into_parts_returns_pixels_and_labels() {
    let mut raw = RawMnist::new();
    let bytes = file_for(7);
    raw.append_digit_file(7, &bytes).unwrap();
    let (pixels, labels) = raw.into_parts();
    assert_eq!(pixels, bytes);
    assert_eq!(labels, vec![7u8; 1000]);
}

#[test]
fn image_span_values() {
    assert_eq!(image_span(0), Some((0, 784)));
    assert_eq!(image_span(1), Some((784, 1568)));
    assert_eq!(image_span(9999), Some((7_839_216, 7_840_000)));
}

#[test]
fn image_span_overflow_is_none() {
    assert_eq!(image_span(usize::MAX), None);
    assert_eq!(image_span(usize::MAX / 784), None);
    let last = (usize::MAX - 784) / 784;
    assert_eq!(image_span(last), Some((last * 784, last * 784 + 784)));
}
