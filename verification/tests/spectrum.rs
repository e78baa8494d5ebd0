use audio_2_dmx::spectrum::{bins_width, cum_sum_terms, SliceTerms};

fn slice_sum(cum: &[f32], a: usize, b: usize) -> f32 {
    match cum_sum_terms(cum.len(), a, b) {
        SliceTerms::Zero => 0.0,
        SliceTerms::Prefix(hi) => cum[hi],
        SliceTerms::Difference(hi, lo) => cum[hi] - cum[lo],
    }
}

#[test]
fn cum_sum_terms_cases() {
    assert_eq!(cum_sum_terms(0, 0, 0), SliceTerms::Zero);
    assert_eq!(cum_sum_terms(4, 2, 1), SliceTerms::Zero);
    assert_eq!(cum_sum_terms(4, 1, 4), SliceTerms::Zero);
    assert_eq!(cum_sum_terms(4, 0, 3), SliceTerms::Prefix(3));
    assert_eq!(cum_sum_terms(4, 2, 3), SliceTerms::Difference(3, 1));
    assert_eq!(cum_sum_terms(4, 3, 3), SliceTerms::Difference(3, 2));
}

#[test]
fn slices_of_prefix_sums_are_bin_sums() {
    let bins = [1.0f32, 2.0, 3.0, 4.0, 5.0];
    let mut cum = Vec::new();
    let mut running = 0.0f32;
    for b in bins {
        running += b;
        cum.push(running);
    }
    assert_eq!(slice_sum(&cum, 0, 4), 15.0);
    assert_eq!(slice_sum(&cum, 1, 3), 9.0);
    assert_eq!(slice_sum(&cum, 4, 4), 5.0);
    assert_eq!(slice_sum(&cum, 3, 5), 0.0);
}

#[test]
fn bins_width_adds_slice_widths() {
    assert_eq!(bins_width(&vec![]), 0);
    assert_eq!(bins_width(&vec![(0, 0)]), 1);
    assert_eq!(bins_width(&vec![(0, 12), (13, 25), (40, 40)]), 27);
    assert_eq!(bins_width(&vec![(1, usize::MAX), (0, usize::MAX - 1)]), 2 * (usize::MAX as u128));
}
