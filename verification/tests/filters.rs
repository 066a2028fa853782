use sensor_pipeline::cascade::Cascade;
use sensor_pipeline::filter::{Filter, FilterChain};
use sensor_pipeline::geometric::{GeometricFilter, GEOMETRIC_MULTIPLIER};
use sensor_pipeline::hysteresis::HysteresisBounds;
use sensor_pipeline::moving_average::MovingAverage;

#[test]
fn moving_average_is_default_while_empty() {
    let filter = MovingAverage::<4>::new(7);
    assert_eq!(filter.average(), 7);
}

#[test]
fn moving_average_of_partial_window_is_mean_of_all_samples() {
    let mut filter = MovingAverage::<4>::new(0);
    assert_eq!(filter.add(10), None);
    assert_eq!(filter.average(), 10);
    assert_eq!(filter.add(20), None);
    assert_eq!(filter.average(), 15);
    assert_eq!(filter.add(31), None);
    // (10 + 20 + 31) / 3 = 20.33..
    assert_eq!(filter.average(), 20);
}

#[test]
fn moving_average_of_full_window_is_mean_of_last_samples() {
    let mut filter = MovingAverage::<3>::new(0);
    let inputs: [u16; 7] = [5, 1000, 7, 9, 11, 65535, 65535];
    let mut outputs = Vec::new();
    for sample in inputs {
        filter.add(sample);
        outputs.push(filter.average());
    }
    assert_eq!(outputs, vec![5, 502, 337, 338, 9, 21851, 43693]);
}

#[test]
fn moving_average_rounds_down() {
    let mut filter = MovingAverage::<2>::new(0);
    filter.add(1);
    filter.add(2);
    assert_eq!(filter.average(), 1);
}

#[test]
fn moving_average_gives_up_its_oldest_sample() {
    let mut filter = MovingAverage::<2>::new(0);
    assert_eq!(filter.add(10), None);
    assert_eq!(filter.add(20), None);
    assert_eq!(filter.add(30), Some(10));
    assert_eq!(filter.add(40), Some(20));
    assert_eq!(filter.add(50), Some(30));
}

#[test]
fn moving_average_with_window_of_one_follows_the_input() {
    let mut filter = MovingAverage::<1>::new(3);
    assert_eq!(filter.average(), 3);
    assert_eq!(filter.add(9), None);
    assert_eq!(filter.average(), 9);
    assert_eq!(filter.add(4), Some(9));
    assert_eq!(filter.average(), 4);
}

#[test]
fn moving_average_of_constant_input_is_the_constant() {
    let mut filter = MovingAverage::<8>::new(0);
    for sample in [4000u16, 3, 77] {
        filter.add(sample);
    }
    for _ in 0..8 {
        filter.add(100);
    }
    assert_eq!(filter.average(), 100);
}

#[test]
fn moving_average_holds_largest_samples() {
    let mut filter = MovingAverage::<16>::new(0);
    for _ in 0..40 {
        filter.add(u16::MAX);
    }
    assert_eq!(filter.average(), u16::MAX);
}

#[test]
fn weight_from_ratio_rounds_to_nearest() {
    assert_eq!(GeometricFilter::weight_from_ratio(1, 10000), 429_497);
    assert_eq!(GeometricFilter::weight_from_ratio(1, 2), 2_147_483_648);
    assert_eq!(GeometricFilter::weight_from_ratio(1, 3), 1_431_655_765);
    assert_eq!(GeometricFilter::weight_from_ratio(3, 4), 3_221_225_471);
    assert_eq!(GeometricFilter::weight_from_ratio(1, 7), 613_566_756);
    assert_eq!(
        GeometricFilter::weight_from_ratio(u32::MAX - 1, u32::MAX),
        GEOMETRIC_MULTIPLIER - 1
    );
}

#[test]
fn geometric_filter_starts_at_its_initial_value() {
    assert_eq!(GeometricFilter::new(429_496, 0).get_average(), 0);
    assert_eq!(GeometricFilter::new(429_496, 1234).get_average(), 1234);
    assert_eq!(GeometricFilter::new(0, u16::MAX).get_average(), u16::MAX);
}

#[test]
fn geometric_filter_blends_by_its_weight() {
    let mut filter = GeometricFilter::new(GeometricFilter::weight_from_ratio(1, 2), 0);
    filter.add(100);
    assert_eq!(filter.get_average(), 50);
    filter.add(100);
    assert_eq!(filter.get_average(), 75);
}

#[test]
fn geometric_filter_with_full_weight_follows_the_input() {
    let mut filter = GeometricFilter::new(GEOMETRIC_MULTIPLIER, 5);
    filter.add(9);
    assert_eq!(filter.get_average(), 9);
    filter.add(u16::MAX);
    assert_eq!(filter.get_average(), u16::MAX);
    filter.add(0);
    assert_eq!(filter.get_average(), 0);
}

#[test]
fn geometric_filter_with_no_weight_keeps_its_value() {
    let mut filter = GeometricFilter::new(0, 321);
    filter.add(u16::MAX);
    filter.add(0);
    assert_eq!(filter.get_average(), 321);
}

#[test]
fn geometric_filter_keeps_the_fraction_between_samples() {
    // One ten-thousandth of 4095 is less than one, and is not lost.
    let mut filter = GeometricFilter::new(429_496, 0);
    filter.add(4095);
    assert_eq!(filter.get_average(), 0);
    for _ in 0..3 {
        filter.add(4095);
    }
    assert_eq!(filter.get_average(), 1);
}

#[test]
fn geometric_filter_settles_from_above_without_overshoot() {
    let mut filter = GeometricFilter::new(GeometricFilter::weight_from_ratio(1, 4), 1000);
    let mut outputs = Vec::new();
    for _ in 0..60 {
        filter.add(100);
        outputs.push(filter.get_average());
    }
    assert_eq!(&outputs[..6], &[774, 606, 479, 384, 313, 260]);
    for pair in outputs.windows(2) {
        assert!(pair[0] >= pair[1]);
        assert!(pair[1] >= 100);
    }
    assert_eq!(outputs[59], 100);
    // 64 periods of four updates are more than enough.
    for _ in 0..(64 * 4) {
        filter.add(100);
    }
    assert_eq!(filter.get_average(), 100);
}

#[test]
fn geometric_filter_settles_from_below_without_overshoot() {
    let mut filter = GeometricFilter::new(GeometricFilter::weight_from_ratio(1, 4), 0);
    let mut outputs = Vec::new();
    for _ in 0..(64 * 4) {
        filter.add(100);
        outputs.push(filter.get_average());
    }
    assert_eq!(&outputs[..8], &[25, 43, 57, 68, 76, 82, 86, 89]);
    for pair in outputs.windows(2) {
        assert!(pair[0] <= pair[1]);
        assert!(pair[1] <= 100);
    }
    // Rounding down stops the level three parts in 65536 under the target.
    assert_eq!(outputs[64 * 4 - 1], 99);
}

#[test]
fn hysteresis_keeps_the_settled_value_inside_the_band() {
    let mut bounds = HysteresisBounds::new(5, 0, 4095);
    assert_eq!(bounds.apply(100), 100);
    for sample in 95..=105u16 {
        assert_eq!(bounds.apply(sample), 100);
    }
    assert_eq!(bounds.value(), 100);
}

#[test]
fn hysteresis_takes_over_a_sample_outside_the_band() {
    let mut bounds = HysteresisBounds::new(5, 0, 4095);
    assert_eq!(bounds.apply(100), 100);
    assert_eq!(bounds.apply(106), 106);
    assert_eq!(bounds.apply(101), 106);
    assert_eq!(bounds.apply(100), 100);
    assert_eq!(bounds.apply(94), 94);
    assert_eq!(bounds.value(), 94);
}

#[test]
fn hysteresis_clamps_into_the_hard_bounds() {
    let mut bounds = HysteresisBounds::new(5, 10, 200);
    assert_eq!(bounds.value(), 10);
    assert_eq!(bounds.apply(5000), 200);
    assert_eq!(bounds.apply(0), 10);
    assert_eq!(bounds.apply(u16::MAX), 200);
}

#[test]
fn hysteresis_judges_the_clamped_sample() {
    let mut bounds = HysteresisBounds::new(10, 0, 105);
    assert_eq!(bounds.apply(100), 100);
    // 200 is clamped to 105, which is inside 90..=110.
    assert_eq!(bounds.apply(200), 100);
}

#[test]
fn hysteresis_band_wraps_near_zero() {
    let mut bounds = HysteresisBounds::new(5, 0, 4095);
    // Settled on 0 the band runs from 65531 to 5: nothing is inside it.
    assert_eq!(bounds.apply(3), 3);
    // Settled on 3 the band runs from 65534 to 8.
    assert_eq!(bounds.apply(4), 4);
    assert_eq!(bounds.apply(2), 2);
    // From 5 on the band is whole again.
    assert_eq!(bounds.apply(5), 5);
    assert_eq!(bounds.apply(0), 5);
    assert_eq!(bounds.apply(10), 5);
    assert_eq!(bounds.apply(11), 11);
}

#[test]
fn hysteresis_band_wraps_at_the_top() {
    let mut bounds = HysteresisBounds::new(10, 0, u16::MAX);
    assert_eq!(bounds.apply(65530), 65530);
    // Settled on 65530 the band runs from 65520 to 4.
    assert_eq!(bounds.apply(65529), 65529);
    assert_eq!(bounds.apply(65525), 65525);
    assert_eq!(bounds.apply(65524), 65525);
}

#[test]
fn cascade_feeds_its_second_stage_with_evicted_samples() {
    let mut cascade = Cascade::<2>::new(0);
    assert_eq!(cascade.average(), 0);
    // First stage [10], second stage empty.
    cascade.add(10);
    assert_eq!(cascade.average(), 5);
    // First stage [10, 20], second stage empty.
    cascade.add(20);
    assert_eq!(cascade.average(), 7);
    // First stage [20, 30], second stage [10].
    cascade.add(30);
    assert_eq!(cascade.average(), 17);
    // First stage [30, 40], second stage [10, 20].
    cascade.add(40);
    assert_eq!(cascade.average(), 25);
}

#[test]
fn cascade_second_stage_slides_too() {
    let mut cascade = Cascade::<2>::new(0);
    for sample in [10u16, 20, 30, 40, 50, 60] {
        cascade.add(sample);
    }
    // First stage [50, 60], second stage [30, 40].
    assert_eq!(cascade.average(), 45);
}

#[test]
fn cascade_uses_its_default_for_an_empty_stage() {
    let mut cascade = Cascade::<3>::new(100);
    assert_eq!(cascade.average(), 100);
    cascade.add(50);
    assert_eq!(cascade.average(), 75);
}

#[test]
fn filter_is_any_of_the_strategies() {
    let mut filters: Vec<Filter<2>> = vec![
        Filter::MovingAverage(MovingAverage::new(0)),
        Filter::Exponential(GeometricFilter::new(GeometricFilter::weight_from_ratio(1, 2), 0)),
        Filter::Hysteresis(HysteresisBounds::new(5, 0, 4095)),
        Filter::Cascade(Cascade::new(0)),
    ];
    let mut outputs = Vec::new();
    for filter in filters.iter_mut() {
        filter.add(100);
        filter.add(104);
        filter.add(108);
        outputs.push(filter.output());
    }
    // Mean of the last two; 50, 77, 92.5; 100 kept until 108 leaves the band;
    // mean of the means of [104, 108] and [100].
    assert_eq!(outputs, vec![106, 92, 108, 103]);
}

#[test]
fn filter_chain_hands_each_output_to_the_next_stage() {
    let mut chain = FilterChain::new([
        Filter::<2>::MovingAverage(MovingAverage::new(0)),
        Filter::<2>::Hysteresis(HysteresisBounds::new(5, 0, 4095)),
    ]);
    chain.add(100);
    assert_eq!(chain.output(), 100);
    // The moving average puts out 102, which is inside 95..=105.
    chain.add(104);
    assert_eq!(chain.output(), 100);
    // The moving average puts out 112.
    chain.add(120);
    assert_eq!(chain.output(), 112);
}

#[test]
fn filter_chain_of_one_stage_is_that_stage() {
    let mut chain = FilterChain::new([Filter::<3>::MovingAverage(MovingAverage::new(9))]);
    assert_eq!(chain.output(), 9);
    chain.add(30);
    chain.add(60);
    assert_eq!(chain.output(), 45);
}
