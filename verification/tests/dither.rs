use not_pong::dither::{apply, threshold_at};

#[test]
fn thresholds_repeat_every_eight_pixels() {
    assert_eq!(threshold_at(0, 0), 3);
    assert_eq!(threshold_at(1, 0), 35);
    assert_eq!(threshold_at(7, 0), 45);
    assert_eq!(threshold_at(0, 1), 51);
    assert_eq!(threshold_at(7, 7), 24);
    assert_eq!(threshold_at(0, 7), 66);
    assert_eq!(threshold_at(8, 0), 3);
    assert_eq!(threshold_at(9, 8), 35);
    assert_eq!(threshold_at(15, 23), 24);
}

#[test]
fn dither_cuts_each_colour_channel_at_its_threshold() {
    // one row of three pixels: thresholds 3, 35, 11
    let mut data = vec![3, 4, 200, 77, 35, 36, 0, 1, 12, 11, 255, 254];
    apply(&mut data, 3, 1);
    assert_eq!(data, vec![0, 255, 255, 77, 0, 255, 0, 1, 255, 0, 255, 254]);
}

#[test]
fn dither_uses_the_row_of_each_pixel() {
    // two rows of one pixel: thresholds 3 and 51
    let mut data = vec![50, 51, 52, 9, 50, 51, 52, 8];
    apply(&mut data, 1, 2);
    assert_eq!(data, vec![255, 255, 255, 9, 0, 0, 255, 8]);
}

#[test]
fn dither_of_an_empty_image_does_nothing() {
    let mut data: Vec<u8> = Vec::new();
    apply(&mut data, 0, 0);
    assert!(data.is_empty());
    apply(&mut data, 5, 0);
    assert!(data.is_empty());
    apply(&mut data, 0, 5);
    assert!(data.is_empty());
}

#[test]
fn dither_is_idempotent() {
    let mut data: Vec<u8> = (0..4 * 10 * 9).map(|i| (i * 7 % 256) as u8).collect();
    apply(&mut data, 10, 9);
    let once = data.clone();
    apply(&mut data, 10, 9);
    assert_eq!(data, once);
    for (i, v) in once.iter().enumerate() {
        if i % 4 != 3 {
            assert!(*v == 0 || *v == 255);
        } else {
            assert_eq!(*v, (i * 7 % 256) as u8);
        }
    }
}
