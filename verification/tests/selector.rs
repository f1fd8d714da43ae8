use soundboard::freq::{bin_matches, ApplyKind, Bin, BinTransform, FreqError, Frequencies};
use soundboard::filter::GAIN_UNIT;

fn window(n: usize) -> Vec<Bin> {
    (0..n as i64).map(|i| Bin { re: 1000 + i, im: -2000 - i }).collect()
}

// sample_rate 8000 Hz over 8 bins: bin i sits at i * 1000 Hz.
const SR: usize = 8000;
const BS: usize = 8;

#[test]
fn greater_eq_zeroes_high_bins_only() {
    let mut f = Frequencies::new(window(BS), SR, BS).unwrap();
    f.apply(ApplyKind::GreaterEq, 2_000_000, BinTransform::Zero);
    let bins = f.bins();
    // Bins 0 and 1 (0 Hz, 1000 Hz) are untouched.
    assert_eq!(bins[0], Bin { re: 1000, im: -2000 });
    assert_eq!(bins[1], Bin { re: 1001, im: -2001 });
    // Bins at and above 2000 Hz are silenced.
    for i in 2..BS {
        assert_eq!(bins[i], Bin { re: 0, im: 0 });
    }
}

#[test]
fn less_and_less_eq_differ_exactly_at_the_target() {
    for i in 0..BS {
        assert_eq!(bin_matches(i, SR, BS, ApplyKind::Less, 1_000_000), i < 1);
        assert_eq!(bin_matches(i, SR, BS, ApplyKind::LessEq, 1_000_000), i <= 1);
        assert_eq!(bin_matches(i, SR, BS, ApplyKind::Greater, 1_000_000), i > 1);
        assert_eq!(bin_matches(i, SR, BS, ApplyKind::GreaterEq, 1_000_000), i >= 1);
    }
}

#[test]
fn approx_eq_matches_an_open_band() {
    // 1500 Hz tolerance around 2000 Hz: centers 1000, 2000 and 3000 match;
    // 500 Hz tolerance with the bound strict: only 2000 Hz itself.
    for i in 0..BS {
        assert_eq!(
            bin_matches(i, SR, BS, ApplyKind::ApproxEq(1_500_000), 2_000_000),
            i == 1 || i == 2 || i == 3
        );
        assert_eq!(
            bin_matches(i, SR, BS, ApplyKind::ApproxEq(1_000_000), 2_000_000),
            i == 2
        );
    }
}

#[test]
fn fractional_centers_compare_exactly() {
    // 44100 Hz over 1024 bins: bin 23 sits at 990.6... Hz, below 991 Hz but
    // not below 990 Hz.
    assert!(bin_matches(23, 44100, 1024, ApplyKind::Less, 991_000));
    assert!(!bin_matches(23, 44100, 1024, ApplyKind::Less, 990_000));
}

#[test]
fn scale_halves_both_components_of_matching_bins() {
    let bins = vec![Bin { re: 800, im: -600 }, Bin { re: 801, im: -601 }];
    let mut f = Frequencies::new(bins, 8000, 2).unwrap();
    // Bin 0 at 0 Hz, bin 1 at 4000 Hz; halve everything under 1000 Hz.
    f.apply(ApplyKind::Less, 1_000_000, BinTransform::Scale(GAIN_UNIT / 2));
    assert_eq!(f.bins()[0], Bin { re: 400, im: -300 });
    assert_eq!(f.bins()[1], Bin { re: 801, im: -601 });
}

#[test]
fn offset_shifts_both_components_independently() {
    let bins = vec![Bin { re: 10, im: 20 }];
    let mut f = Frequencies::new(bins, 8000, 1).unwrap();
    f.apply(ApplyKind::GreaterEq, 0, BinTransform::Offset(5));
    assert_eq!(f.bins()[0], Bin { re: 15, im: 25 });
}

#[test]
fn wrong_window_length_is_rejected() {
    assert!(matches!(
        Frequencies::new(window(4), SR, BS),
        Err(FreqError::WrongLength)
    ));
}

#[test]
fn oversized_component_is_rejected() {
    let bins = vec![Bin { re: i64::MAX, im: 0 }];
    assert!(matches!(
        Frequencies::new(bins, 8000, 1),
        Err(FreqError::ComponentOutOfRange)
    ));
}
