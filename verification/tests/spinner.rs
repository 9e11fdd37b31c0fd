use iot_driver::settings::Precision;
use iot_driver::spinner::{
    debounce_spinner, fn_layer_spinner, level_spinner, os_mode_spinner, rgb_spinner,
    rt_stability_spinner, sleep_time_spinner, SpinnerConfig,
};

fn mm_to_raw(precision: Precision, mm: f64) -> u16 {
    (mm * f64::from(precision.units_per_mm())).round() as u16
}

/// A travel spinner whose bounds are given in millimetres.
fn travel_mm(min: f64, max: f64, step: f64, coarse: f64, precision: Precision) -> SpinnerConfig {
    SpinnerConfig::travel(
        mm_to_raw(precision, min),
        mm_to_raw(precision, max),
        mm_to_raw(precision, step),
        mm_to_raw(precision, coarse),
        precision,
    )
}

#[test]
fn travel_edits_are_lossless() {
    for precision in [Precision::Coarse, Precision::Medium, Precision::Fine] {
        let cfg = travel_mm(0.1, 4.0, 0.05, 0.2, precision);
        for start in [cfg.min, 150, 204, 250, cfg.max / 2] {
            if start < cfg.min || start > cfg.max {
                continue;
            }
            for coarse in [false, true] {
                for steps in 1..=5 {
                    let mut v = start;
                    for _ in 0..steps {
                        v = cfg.increment(v, coarse);
                    }
                    for _ in 0..steps {
                        v = cfg.decrement(v, coarse);
                    }
                    assert_eq!(
                        v, start,
                        "{precision:?}: {steps}x +/- (coarse={coarse}) from {start} drifted"
                    );
                }
            }
        }
    }
}

#[test]
fn a_step_always_moves_the_value() {
    for precision in [Precision::Coarse, Precision::Medium, Precision::Fine] {
        let cfg = travel_mm(0.1, 4.0, 0.05, 0.2, precision);
        assert!(cfg.step >= 1, "{precision:?}: fine step rounds to nothing");
        assert!(
            cfg.step_coarse >= 1,
            "{precision:?}: coarse step rounds to nothing"
        );
        let mid = (cfg.min + cfg.max) / 2;
        assert!(cfg.increment(mid, false) > mid);
        assert!(cfg.decrement(mid, false) < mid);
    }
}

#[test]
fn stepping_saturates_at_the_bounds_without_wrapping() {
    let cfg = SpinnerConfig::integer(10, 25, 5, 100, "");
    assert_eq!(cfg.increment(24, false), 25);
    assert_eq!(cfg.increment(25, true), 25);
    assert_eq!(cfg.decrement(11, false), 10);
    // A coarse step wider than the whole range must clamp, not wrap.
    assert_eq!(cfg.decrement(12, true), 10);
}

#[test]
fn travel_bounds_come_from_the_mm_values() {
    // 0.1..4.0mm at 0.01mm/unit is 10..400 raw; the 0.05mm step is 5 units.
    let cfg = travel_mm(0.1, 4.0, 0.05, 0.2, Precision::Medium);
    assert_eq!(
        (cfg.min, cfg.max, cfg.step, cfg.step_coarse),
        (10, 400, 5, 20)
    );
    assert_eq!(cfg.format(204), "2.04");
    assert_eq!(cfg.unit(), "mm");
}

#[test]
fn the_settings_have_their_ranges() {
    assert_eq!(rgb_spinner().increment_u8(250, true), 255);
    assert_eq!(level_spinner().increment_u8(4, false), 4);
    assert_eq!(debounce_spinner().increment_u8(23, true), 25);
    assert_eq!(fn_layer_spinner().increment_u8(1, false), 1);
    assert_eq!(rt_stability_spinner().max, 5);
    assert_eq!(os_mode_spinner().max, 3);
    assert_eq!(sleep_time_spinner().decrement(60, true), 0);
    assert_eq!(sleep_time_spinner().unit(), "s");
    assert_eq!(debounce_spinner().format(7), "7");
    assert_eq!(rgb_spinner().decrement_u8(5, true), 0);
}
