use sensor_pipeline::filter::{Filter, FilterChain};
use sensor_pipeline::geometric::GeometricFilter;
use sensor_pipeline::hysteresis::HysteresisBounds;
use sensor_pipeline::moving_average::MovingAverage;
use sensor_pipeline::normalize::Normalizer;
use sensor_pipeline::recovery::{recover, Failure, Recovery};
use sensor_pipeline::sampler::{Sampler, Snapshot};
use sensor_pipeline::shared::SharedState;

#[test]
fn normalize_maps_the_end_points_exactly() {
    let normalizer = Normalizer::new(40, 3900, 10000);
    assert_eq!(normalizer.normalize(40), 0);
    assert_eq!(normalizer.normalize(3900), 10000);
}

#[test]
fn normalize_clamps_before_it_scales() {
    let normalizer = Normalizer::new(40, 3900, 10000);
    assert_eq!(normalizer.normalize(0), 0);
    assert_eq!(normalizer.normalize(39), 0);
    assert_eq!(normalizer.normalize(3901), 10000);
    assert_eq!(normalizer.normalize(4095), 10000);
    assert_eq!(normalizer.normalize(u32::MAX), 10000);
}

#[test]
fn normalize_scales_linearly_and_rounds_down() {
    let normalizer = Normalizer::new(40, 3900, 10000);
    // (2000 - 40) * 10000 / 3860 = 5077.7..
    assert_eq!(normalizer.normalize(2000), 5077);
    assert_eq!(normalizer.normalize(100), 155);
    assert_eq!(normalizer.normalize(41), 2);
    let wide = Normalizer::new(40, 3700, 65535);
    assert_eq!(wide.normalize(100), 1074);
}

#[test]
fn normalize_holds_the_widest_ranges() {
    let normalizer = Normalizer::new(0, u32::MAX, u32::MAX);
    assert_eq!(normalizer.normalize(0), 0);
    assert_eq!(normalizer.normalize(123_456_789), 123_456_789);
    assert_eq!(normalizer.normalize(u32::MAX), u32::MAX);
    let narrow = Normalizer::new(u32::MAX - 1, u32::MAX, u32::MAX);
    assert_eq!(narrow.normalize(u32::MAX - 1), 0);
    assert_eq!(narrow.normalize(u32::MAX), u32::MAX);
}

#[test]
fn normalize_never_decreases() {
    let normalizer = Normalizer::new(40, 3900, 10000);
    let mut last = 0;
    for filtered in 0..4200u32 {
        let value = normalizer.normalize(filtered);
        assert!(value >= last);
        assert!(value <= 10000);
        last = value;
    }
}

#[test]
fn sampler_publishes_zero_before_the_first_reading() {
    let chain = FilterChain::new([Filter::<4>::MovingAverage(MovingAverage::new(0))]);
    let mut sampler = Sampler::new(chain, Normalizer::new(40, 3900, 10000));
    assert_eq!(sampler.current(), Snapshot { raw: 0, filtered: 0, normalized: 0 });
    assert_eq!(sampler.step(None), Snapshot { raw: 0, filtered: 0, normalized: 0 });
}

#[test]
fn sampler_settles_on_a_constant_reading() {
    let chain = FilterChain::new([Filter::<4>::MovingAverage(MovingAverage::new(0))]);
    let mut sampler = Sampler::new(chain, Normalizer::new(40, 3900, 10000));
    for sample in [4000u16, 0, 2500] {
        sampler.step(Some(sample));
    }
    let mut published = sampler.current();
    for _ in 0..4 {
        published = sampler.step(Some(100));
    }
    assert_eq!(published, Snapshot { raw: 100, filtered: 100, normalized: 155 });
    for _ in 0..10 {
        assert_eq!(
            sampler.step(Some(100)),
            Snapshot { raw: 100, filtered: 100, normalized: 155 }
        );
    }
}

#[test]
fn sampler_settles_on_a_constant_reading_with_the_wide_range() {
    let chain = FilterChain::new([Filter::<4>::MovingAverage(MovingAverage::new(0))]);
    let mut sampler = Sampler::new(chain, Normalizer::new(40, 3700, 65535));
    let mut published = sampler.current();
    for _ in 0..4 {
        published = sampler.step(Some(100));
    }
    assert_eq!(published, Snapshot { raw: 100, filtered: 100, normalized: 1074 });
}

#[test]
fn sampler_keeps_its_state_when_a_reading_fails() {
    let chain = FilterChain::new([Filter::<2>::MovingAverage(MovingAverage::new(0))]);
    let mut sampler = Sampler::new(chain, Normalizer::new(40, 3900, 10000));
    sampler.step(Some(1000));
    let before = sampler.step(Some(3000));
    assert_eq!(before, Snapshot { raw: 3000, filtered: 2000, normalized: 5077 });
    assert_eq!(sampler.step(None), before);
    assert_eq!(sampler.step(None), before);
    // The failed readings were not fed: the window still holds 1000 and 3000.
    assert_eq!(
        sampler.step(Some(3000)),
        Snapshot { raw: 3000, filtered: 3000, normalized: 7668 }
    );
}

#[test]
fn sampler_runs_the_exponential_smoother() {
    let smoother = GeometricFilter::new(429_496, 0);
    let chain = FilterChain::new([Filter::<1>::Exponential(smoother)]);
    let mut sampler = Sampler::new(chain, Normalizer::new(40, 3900, 10000));
    let mut published = sampler.current();
    for _ in 0..20000 {
        published = sampler.step(Some(4095));
    }
    // 4095 * (1 - (1 - 1/10000)^20000) = 3540.8..
    assert_eq!(published.raw, 4095);
    assert_eq!(published.filtered, 3540);
    assert_eq!(published.normalized, (3540 - 40) * 10000 / 3860);
}

#[test]
fn sampler_holds_the_filtered_value_inside_the_dead_band() {
    let chain = FilterChain::new([
        Filter::<2>::MovingAverage(MovingAverage::new(0)),
        Filter::<2>::Hysteresis(HysteresisBounds::new(20, 40, 3900)),
    ]);
    let mut sampler = Sampler::new(chain, Normalizer::new(40, 3900, 10000));
    assert_eq!(
        sampler.step(Some(2000)),
        Snapshot { raw: 2000, filtered: 2000, normalized: 5077 }
    );
    // The moving average moves to 2010, inside 1980..=2020.
    assert_eq!(
        sampler.step(Some(2020)),
        Snapshot { raw: 2020, filtered: 2000, normalized: 5077 }
    );
    // The moving average moves to 2060, outside 1980..=2020.
    assert_eq!(
        sampler.step(Some(2100)),
        Snapshot { raw: 2100, filtered: 2060, normalized: 5233 }
    );
}

#[test]
fn shared_state_starts_at_zero() {
    let shared = SharedState::new();
    assert_eq!(shared.load(), Snapshot { raw: 0, filtered: 0, normalized: 0 });
}

#[test]
fn shared_state_shows_what_was_published_last() {
    let shared = SharedState::new();
    shared.publish(Snapshot { raw: 1, filtered: 2, normalized: 3 });
    assert_eq!(shared.load(), Snapshot { raw: 1, filtered: 2, normalized: 3 });
    shared.publish(Snapshot { raw: 4095, filtered: 4000, normalized: 10000 });
    shared.publish(Snapshot { raw: u32::MAX, filtered: 7, normalized: 0 });
    assert_eq!(shared.load(), Snapshot { raw: u32::MAX, filtered: 7, normalized: 0 });
    assert_eq!(shared.load(), Snapshot { raw: u32::MAX, filtered: 7, normalized: 0 });
}

#[test]
fn shared_state_is_shared_by_reference() {
    let shared = SharedState::new();
    let producer: &SharedState = &shared;
    let consumer: &SharedState = &shared;
    let chain = FilterChain::new([Filter::<4>::MovingAverage(MovingAverage::new(0))]);
    let mut sampler = Sampler::new(chain, Normalizer::new(40, 3900, 10000));
    for _ in 0..4 {
        producer.publish(sampler.step(Some(100)));
    }
    assert_eq!(consumer.load(), Snapshot { raw: 100, filtered: 100, normalized: 155 });
}

#[test]
fn recovery_goes_by_the_kind_of_failure() {
    assert_eq!(recover(Failure::Sample), Recovery::KeepLastValue);
    assert_eq!(recover(Failure::Launch), Recovery::Reset);
    assert_eq!(recover(Failure::Peripheral), Recovery::Halt);
}

#[test]
fn snapshot_keeps_each_value_in_the_field_of_its_stage() {
    assert_eq!(
        Snapshot::new(1, 2, 3),
        Snapshot { raw: 1, filtered: 2, normalized: 3 }
    );
    assert_eq!(
        Snapshot::new(u32::MAX, 0, 7),
        Snapshot { raw: u32::MAX, filtered: 0, normalized: 7 }
    );
}
