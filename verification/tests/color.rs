use rainbow_ls::color::{floor_seed, RgbColor};

fn padded(red: usize, green: usize, blue: usize, min_sum: usize) -> (usize, usize, usize) {
    let mut color = RgbColor { red, green, blue };
    color.pad_lowest(min_sum);
    color.as_tuple()
}

#[test]
fn derive_splits_the_hash_in_base_255() {
    // 2 * 114 * 115 = 26220 = 102 * 255 + 210
    assert_eq!(RgbColor::derive(2, b"rs").as_tuple(), (0, 102, 210));
    // 2 * 116 * 120 * 116 = 3229440 = (49 * 255 + 169) * 255 + 120
    assert_eq!(RgbColor::derive(2, b"txt").as_tuple(), (49, 169, 120));
}

#[test]
fn derive_gives_the_same_colour_twice() {
    let first = RgbColor::derive(977, b"tar.gz");
    let second = RgbColor::derive(977, b"tar.gz");
    assert_eq!(first, second);
}

#[test]
fn derive_tells_extensions_apart() {
    assert_ne!(RgbColor::derive(2, b"rs"), RgbColor::derive(2, b"txt"));
}

#[test]
fn derive_of_an_empty_key_is_the_seed_itself() {
    assert_eq!(RgbColor::derive(255 * 255 * 7 + 255 * 3 + 9, b"").as_tuple(), (7, 3, 9));
}

#[test]
fn derive_wraps_at_the_machine_word() {
    let mut acc: usize = 3;
    for byte in b"a-rather-long-file-name.extension" {
        acc = acc.wrapping_mul(*byte as usize);
    }
    let expected = ((acc / 255 / 255) % 255, (acc / 255) % 255, acc % 255);
    assert_eq!(RgbColor::derive(3, b"a-rather-long-file-name.extension").as_tuple(), expected);
}

#[test]
fn derive_under_a_zero_seed_is_black() {
    assert_eq!(RgbColor::derive(0, b"anything").as_tuple(), (0, 0, 0));
}

#[test]
fn floor_seed_lifts_small_seeds() {
    assert_eq!(floor_seed(0), 2);
    assert_eq!(floor_seed(1), 2);
    assert_eq!(floor_seed(2), 2);
    assert_eq!(floor_seed(12345), 12345);
}

#[test]
fn get_components_sum_adds_the_channels() {
    assert_eq!(RgbColor { red: 1, green: 20, blue: 255 }.get_components_sum(), 276);
}

#[test]
fn pad_lowest_lifts_a_dark_colour_evenly() {
    assert_eq!(padded(10, 10, 10, 300), (100, 100, 100));
}

#[test]
fn pad_lowest_saturates_to_white() {
    assert_eq!(padded(0, 0, 0, 765), (255, 255, 255));
    assert_eq!(padded(0, 0, 0, 5000), (255, 255, 255));
    assert_eq!(padded(250, 250, 250, 765), (255, 255, 255));
}

#[test]
fn pad_lowest_leaves_a_bright_colour() {
    assert_eq!(padded(200, 100, 50, 300), (200, 100, 50));
}

#[test]
fn pad_lowest_at_the_threshold_adds_nothing() {
    assert_eq!(padded(100, 100, 100, 300), (100, 100, 100));
}

#[test]
fn pad_lowest_rounds_the_even_share_down() {
    // 291 are missing; each channel gets 97
    assert_eq!(padded(10, 10, 10, 321), (107, 107, 107));
    // 271 are missing; each channel gets 90 and one is lost
    assert_eq!(padded(10, 10, 10, 301), (100, 100, 100));
}

#[test]
fn pad_lowest_fills_the_darkest_channel_first() {
    assert_eq!(padded(0, 0, 255, 300), (45, 0, 255));
    assert_eq!(padded(0, 102, 210, 512), (200, 102, 210));
    assert_eq!(padded(39, 234, 135, 512), (143, 234, 135));
}

#[test]
fn pad_lowest_spills_into_the_next_channel() {
    // blue is the darkest: it takes 255, and green takes the 45 that are left
    assert_eq!(padded(255, 100, 0, 655), (255, 145, 255));
    // both dark channels fill up, the rest goes to the brightest
    assert_eq!(padded(250, 0, 0, 764), (254, 255, 255));
}

#[test]
fn pad_lowest_never_dims_and_stays_in_range() {
    for red in [0usize, 1, 127, 254, 255] {
        for green in [0usize, 3, 128, 255] {
            for blue in [0usize, 64, 255] {
                for min_sum in [0usize, 1, 299, 300, 511, 512, 764, 765, 766] {
                    let (r, g, b) = padded(red, green, blue, min_sum);
                    assert!(r <= 255 && g <= 255 && b <= 255);
                    assert!(r >= red && g >= green && b >= blue);
                    assert!(r + g + b + 2 >= min_sum.min(765) || (r, g, b) == (255, 255, 255));
                }
            }
        }
    }
}
