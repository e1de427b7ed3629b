use sepia::fingerprint::{difference, distance, fingerprint, Fingerprint, Raster, FINGERPRINT_BYTES};

fn uniform(width: u32, height: u32, level: u8) -> Raster {
    let mut pixels = Vec::new();
    for _ in 0..(width * height) {
        pixels.extend_from_slice(&[level, level, level, 255]);
    }
    Raster::new(width, height, pixels).unwrap()
}

fn ramp(width: u32, height: u32, rising: bool) -> Raster {
    let mut pixels = Vec::new();
    for _ in 0..height {
        for x in 0..width {
            let column = if rising { x } else { width - 1 - x };
            let level = (column * 25) as u8;
            pixels.extend_from_slice(&[level, level, level, 255]);
        }
    }
    Raster::new(width, height, pixels).unwrap()
}

fn print(bytes: [u8; 8]) -> Fingerprint {
    Fingerprint::from_bytes(bytes.to_vec()).unwrap()
}

#[test]
fn raster_needs_matching_data() {
    assert!(Raster::new(2, 2, vec![0; 16]).is_some());
    assert!(Raster::new(2, 2, vec![0; 15]).is_none());
    assert!(Raster::new(2, 2, vec![0; 17]).is_none());
    assert!(Raster::new(2, 2, vec![0; 20]).is_none());
    assert!(Raster::new(0, 2, vec![]).is_none());
    assert!(Raster::new(2, 0, vec![]).is_none());
    assert!(Raster::new(1, 1, vec![1, 2, 3, 4]).is_some());
}

#[test]
fn raster_hands_back_what_it_was_given() {
    let picture = Raster::new(1, 2, vec![1, 2, 3, 4, 5, 6, 7, 8]).unwrap();
    assert_eq!(picture.width(), 1);
    assert_eq!(picture.height(), 2);
    assert_eq!(picture.pixels(), &vec![1, 2, 3, 4, 5, 6, 7, 8]);
}

#[test]
fn fingerprint_needs_eight_bytes() {
    assert_eq!(FINGERPRINT_BYTES, 8);
    assert!(Fingerprint::from_bytes(vec![0; 8]).is_some());
    assert!(Fingerprint::from_bytes(vec![0; 7]).is_none());
    assert!(Fingerprint::from_bytes(vec![0; 9]).is_none());
    assert!(Fingerprint::from_bytes(vec![]).is_none());
    assert_eq!(print([1, 2, 3, 4, 5, 6, 7, 8]).as_bytes(), &vec![1, 2, 3, 4, 5, 6, 7, 8]);
}

#[test]
fn fingerprint_of_flat_picture_has_no_bit_set() {
    let print = fingerprint(&uniform(18, 16, 0));
    assert_eq!(print.as_bytes(), &vec![0u8; 8]);
}

#[test]
fn fingerprint_of_rising_ramp_has_every_bit_set() {
    let print = fingerprint(&ramp(9, 8, true));
    assert_eq!(print.as_bytes(), &vec![255u8; 8]);
    let print = fingerprint(&ramp(9, 8, false));
    assert_eq!(print.as_bytes(), &vec![0u8; 8]);
}

#[test]
fn fingerprint_is_a_function_of_the_picture() {
    let first = fingerprint(&ramp(9, 8, true));
    let second = fingerprint(&ramp(9, 8, true));
    assert_eq!(first, second);
    assert_eq!(distance(&first, &second), 0);
}

#[test]
fn distance_counts_differing_bits() {
    let zero = print([0; 8]);
    assert_eq!(distance(&zero, &print([1, 0, 0, 0, 0, 0, 0, 0])), 1);
    assert_eq!(distance(&zero, &print([0, 0, 0, 0, 0, 0, 0, 0x80])), 1);
    assert_eq!(distance(&zero, &print([0xff, 0, 0, 0x0f, 0, 0, 0, 0])), 12);
    assert_eq!(distance(&zero, &print([0xff; 8])), 64);
    assert_eq!(distance(&print([0xf0; 8]), &print([0x0f; 8])), 64);
    assert_eq!(distance(&print([0xaa, 1, 2, 3, 4, 5, 6, 7]), &print([0xab, 1, 2, 3, 4, 5, 6, 7])), 1);
}

#[test]
fn distance_is_symmetric() {
    let a = print([1, 2, 3, 4, 5, 6, 7, 8]);
    let b = print([8, 7, 6, 5, 4, 3, 2, 1]);
    assert_eq!(distance(&a, &b), distance(&b, &a));
    assert_eq!(distance(&a, &b), 14);
}

#[test]
fn distance_is_zero_only_between_equal_fingerprints() {
    let a = print([9, 9, 9, 9, 9, 9, 9, 9]);
    assert_eq!(distance(&a, &a.clone()), 0);
    assert_ne!(distance(&a, &print([9, 9, 9, 9, 9, 9, 9, 8])), 0);
}

#[test]
fn difference_of_pictures() {
    assert_eq!(difference(&uniform(18, 16, 0), &uniform(18, 16, 0)), 0);
    assert_eq!(difference(&ramp(9, 8, true), &ramp(9, 8, false)), 64);
    assert_eq!(difference(&ramp(9, 8, true), &uniform(9, 8, 0)), 64);
}

#[test]
fn fingerprint_of_small_pictures_has_eight_bytes() {
    for (width, height) in [(1u32, 1u32), (1, 7), (5, 1), (3, 5), (640, 2)] {
        let print = fingerprint(&uniform(width, height, 0));
        assert_eq!(print.as_bytes().len(), 8);
        assert_eq!(print.as_bytes(), &vec![0u8; 8]);
    }
}

#[test]
fn clones_are_equal() {
    let picture = ramp(9, 8, true);
    let copy = picture.clone();
    assert_eq!(copy.width(), 9);
    assert_eq!(copy.height(), 8);
    assert_eq!(copy.pixels(), picture.pixels());
    let a = print([1, 2, 3, 4, 5, 6, 7, 8]);
    assert_eq!(a.clone(), a);
}
