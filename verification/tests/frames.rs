use smyx::visualizer::{
    neighbours, precompute_band_ranges, SampleClock, SampleStep, FFT_SIZE, HOP_SIZE, NUM_BANDS,
};

fn natural_edges(num_bins: usize, num_bands: usize) -> Vec<usize> {
    (0..=num_bands)
        .map(|i| (num_bins as f64).powf(i as f64 / num_bands as f64) as usize)
        .collect()
}

#[test]
fn bands_cover_the_bins_in_order() {
    let bins = FFT_SIZE / 2;
    let ranges = precompute_band_ranges(bins, &natural_edges(bins, NUM_BANDS));
    assert_eq!(ranges.len(), NUM_BANDS);
    assert_eq!(ranges[0], (1, 2));
    assert_eq!(ranges[1], (2, 3));
    assert_eq!(ranges[NUM_BANDS - 1].1, bins);
    for (a, b) in &ranges {
        assert!(a < b && *b <= bins);
    }
    for w in ranges.windows(2) {
        assert_eq!(w[0].1, w[1].0);
    }
}

#[test]
fn the_last_bin_serves_where_none_is_left() {
    assert_eq!(
        precompute_band_ranges(4, &[1, 1, 1, 1, 2, 4]),
        vec![(1, 2), (2, 3), (3, 4), (3, 4), (3, 4)]
    );
    assert_eq!(precompute_band_ranges(8, &[1, 3, 9]), vec![(1, 3), (3, 8)]);
    assert_eq!(precompute_band_ranges(1, &[1, 1]), vec![(0, 1)]);
    assert_eq!(precompute_band_ranges(5, &[9, 2]), vec![(4, 5)]);
    assert_eq!(precompute_band_ranges(5, &[3]), vec![]);
}

#[test]
fn neighbours_stop_at_the_ends() {
    assert_eq!(neighbours(0, 5), (0, 1));
    assert_eq!(neighbours(2, 5), (1, 3));
    assert_eq!(neighbours(4, 5), (3, 4));
    assert_eq!(neighbours(0, 1), (0, 0));
}

#[test]
fn a_frame_comes_with_every_hop() {
    let mut clock = SampleClock::new();
    let mut frames = 0;
    for n in 1..5000usize {
        match clock.process_sample(1) {
            SampleStep::Frame => frames += 1,
            SampleStep::Mixed => {}
            SampleStep::Waiting => panic!(),
        }
        let want = if n < FFT_SIZE { 0 } else { (n - FFT_SIZE) / HOP_SIZE + 1 };
        assert_eq!(frames, want);
    }
}

#[test]
fn channels_are_gathered() {
    let mut clock = SampleClock::new();
    assert_eq!(clock.process_sample(2), SampleStep::Waiting);
    assert_eq!(clock.process_sample(2), SampleStep::Mixed);
    assert_eq!(clock.process_sample(0), SampleStep::Mixed);
    assert_eq!(clock, SampleClock { gathered: 0, buffered: 2 });
}
