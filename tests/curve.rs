use tt_riingd::config::CurveCfg;
use tt_riingd::curve::{bezier_speed, get_speed_for_temp, step_curve_speed, CurveError, CurveKind, FanCurve, Point};

#[test]
fn point_creation_from_tuple() {
    let point: Point = (25_500, 42_300).into();
    assert_eq!(point.x, 25_500);
    assert_eq!(point.y, 42_300);
}

#[test]
fn point_creation_direct() {
    let point = Point { x: 60_000, y: 85_000 };
    assert_eq!(point.x, 60_000);
    assert_eq!(point.y, 85_000);
}

#[test]
fn fan_curve_partial_eq_works() {
    let constant1 = FanCurve::Constant(50);
    let constant2 = FanCurve::Constant(75);
    let step_curve = FanCurve::StepCurve {
        temps: vec![30_000, 70_000],
        speeds: vec![30, 80],
    };
    assert_eq!(constant1, constant2);
    assert_ne!(constant1, step_curve);
}

#[test]
fn fan_curve_from_constant_config() {
    let config = CurveCfg::Constant {
        id: "test_constant".to_string(),
        speed: 65,
    };
    let curve = FanCurve::from(&config);
    match curve {
        FanCurve::Constant(speed) => assert_eq!(speed, 65),
        _ => panic!("Expected Constant curve"),
    }
}

#[test]
fn fan_curve_from_step_config() {
    let config = CurveCfg::StepCurve {
        id: "test_step".to_string(),
        tmps: vec![20_000, 40_000, 60_000, 80_000],
        spds: vec![20, 40, 70, 100],
    };
    let curve = FanCurve::from(&config);
    match curve {
        FanCurve::StepCurve { temps, speeds } => {
            assert_eq!(temps, vec![20_000, 40_000, 60_000, 80_000]);
            assert_eq!(speeds, vec![20, 40, 70, 100]);
        }
        _ => panic!("Expected StepCurve"),
    }
}

#[test]
fn fan_curve_from_bezier_config() {
    let points = vec![
        Point { x: 0, y: 0 },
        Point { x: 50_000, y: 50_000 },
        Point { x: 100_000, y: 100_000 },
    ];
    let config = CurveCfg::Bezier {
        id: "test_bezier".to_string(),
        points: points.clone(),
    };
    let curve = FanCurve::from(&config);
    match curve {
        FanCurve::BezierCurve { points: curve_points } => {
            assert_eq!(curve_points.len(), 3);
            assert_eq!(curve_points[0].x, 0);
            assert_eq!(curve_points[0].y, 0);
            assert_eq!(curve_points[2].x, 100_000);
            assert_eq!(curve_points[2].y, 100_000);
        }
        _ => panic!("Expected BezierCurve"),
    }
}

#[test]
fn fan_curve_debug_format() {
    let curve = FanCurve::Constant(75);
    let debug_output = format!("{:?}", curve);
    assert!(debug_output.contains("Constant"));
    assert!(debug_output.contains("75"));
}

#[test]
fn fan_curve_clone_works() {
    let original = FanCurve::StepCurve {
        temps: vec![25_000, 55_000],
        speeds: vec![35, 85],
    };
    let cloned = original.clone();
    match (&original, &cloned) {
        (FanCurve::StepCurve { temps: t1, speeds: s1 }, FanCurve::StepCurve { temps: t2, speeds: s2 }) => {
            assert_eq!(t1, t2);
            assert_eq!(s1, s2);
        }
        _ => panic!("Clone should preserve type and data"),
    }
}

#[test]
fn empty_step_curve_creation() {
    let curve = FanCurve::StepCurve { temps: vec![], speeds: vec![] };
    match curve {
        FanCurve::StepCurve { temps, speeds } => {
            assert!(temps.is_empty());
            assert!(speeds.is_empty());
        }
        _ => panic!("Expected empty StepCurve"),
    }
}

#[test]
fn empty_bezier_curve_creation() {
    let curve = FanCurve::BezierCurve { points: vec![] };
    match curve {
        FanCurve::BezierCurve { points } => assert!(points.is_empty()),
        _ => panic!("Expected empty BezierCurve"),
    }
}

#[test]
fn fan_curve_extreme_temperature_values() {
    let curve = FanCurve::StepCurve {
        temps: vec![-273_150, 0, 100_000, 1_000_000],
        speeds: vec![0, 25, 75, 255],
    };
    match curve {
        FanCurve::StepCurve { temps, speeds } => {
            assert_eq!(temps[0], -273_150);
            assert_eq!(temps[3], 1_000_000);
            assert_eq!(speeds[0], 0);
            assert_eq!(speeds[3], 255);
        }
        _ => panic!("Should handle extreme temperature values"),
    }
}

#[test]
fn max_speed_boundary_test() {
    match FanCurve::Constant(255) {
        FanCurve::Constant(speed) => assert_eq!(speed, 255),
        _ => panic!("Should handle maximum speed value"),
    }
}

#[test]
fn zero_speed_boundary_test() {
    match FanCurve::Constant(0) {
        FanCurve::Constant(speed) => assert_eq!(speed, 0),
        _ => panic!("Should handle zero speed value"),
    }
}

fn three_point_curve() -> FanCurve {
    FanCurve::StepCurve { temps: vec![30_000, 50_000, 70_000], speeds: vec![20, 60, 100] }
}

#[test]
fn step_curve_interpolates_between_points() {
    assert_eq!(three_point_curve().evaluate(40_000), Ok(40));
    assert_eq!(three_point_curve().evaluate(60_000), Ok(80));
}

#[test]
fn step_curve_hits_breakpoints() {
    assert_eq!(three_point_curve().evaluate(30_000), Ok(20));
    assert_eq!(three_point_curve().evaluate(50_000), Ok(60));
    assert_eq!(three_point_curve().evaluate(70_000), Ok(100));
}

#[test]
fn step_curve_outside_range_fails() {
    assert_eq!(three_point_curve().evaluate(29_900), Err(CurveError::TemperatureOutOfRange));
    assert_eq!(three_point_curve().evaluate(70_001), Err(CurveError::TemperatureOutOfRange));
}

#[test]
fn step_curve_rounds_half_away_from_zero() {
    // 20 + 40 * 1/80 = 20.5
    assert_eq!(step_curve_speed(&vec![0, 80], &vec![20, 60], 1), Ok(21));
    assert_eq!(step_curve_speed(&vec![0, 80_000], &vec![20, 60], 1_000), Ok(21));
    // 20.25 rounds down, 20.75 rounds up
    assert_eq!(step_curve_speed(&vec![0, 160_000], &vec![20, 60], 1_000), Ok(20));
    assert_eq!(step_curve_speed(&vec![0, 160_000], &vec![20, 60], 3_000), Ok(21));
}

#[test]
fn step_curve_clamps_to_one_hundred() {
    assert_eq!(step_curve_speed(&vec![0, 10_000], &vec![200, 255], 5_000), Ok(100));
}

#[test]
fn step_curve_with_one_point_has_no_interval() {
    assert_eq!(step_curve_speed(&vec![40_000], &vec![50], 40_000), Err(CurveError::TemperatureOutOfRange));
}

#[test]
fn step_curve_within_speed_bounds() {
    let c = FanCurve::StepCurve { temps: vec![0, 10_000, 20_000], speeds: vec![80, 30, 55] };
    for t in (0..=20_000).step_by(250) {
        let d = c.evaluate(t).unwrap();
        assert!((30..=80).contains(&d), "duty {} at {}", d, t);
    }
}

#[test]
fn constant_curve_ignores_temperature() {
    for t in [-40_000, 0, 55_000, 1_000_000] {
        assert_eq!(FanCurve::Constant(42).evaluate(t), Ok(42));
    }
}

fn linear_bezier() -> Vec<Point> {
    vec![
        Point { x: 0, y: 0 },
        Point { x: 33_333, y: 33_333 },
        Point { x: 66_667, y: 66_667 },
        Point { x: 100_000, y: 100_000 },
    ]
}

#[test]
fn bezier_on_a_straight_line() {
    let y = get_speed_for_temp(&linear_bezier(), 50_000);
    assert!((y - 50_000).abs() <= 2, "y = {}", y);
    assert_eq!(bezier_speed(&linear_bezier(), 50_000), 50);
    assert_eq!(bezier_speed(&linear_bezier(), 0), 0);
}

#[test]
fn bezier_duty_is_clamped() {
    let pts = vec![
        Point { x: 0, y: 150_000 },
        Point { x: 40_000, y: 150_000 },
        Point { x: 60_000, y: 150_000 },
        Point { x: 100_000, y: 150_000 },
    ];
    assert_eq!(bezier_speed(&pts, 50_000), 100);
    let low = vec![
        Point { x: 0, y: -5_000 },
        Point { x: 40_000, y: -5_000 },
        Point { x: 60_000, y: -5_000 },
        Point { x: 100_000, y: -5_000 },
    ];
    assert_eq!(bezier_speed(&low, 50_000), 0);
}

#[test]
fn bezier_default_shape_stays_in_range() {
    let pts = vec![
        Point { x: 0, y: 0 },
        Point { x: 40_000, y: 60_000 },
        Point { x: 60_000, y: 40_000 },
        Point { x: 100_000, y: 100_000 },
    ];
    let c = FanCurve::BezierCurve { points: pts };
    let mut last = 0;
    for t in (0..=100_000).step_by(5_000) {
        let d = c.evaluate(t).unwrap();
        assert!(d <= 100);
        assert!(d >= last);
        last = d;
    }
    assert_eq!(c.evaluate(0), Ok(0));
    assert_eq!(c.evaluate(50_000), Ok(50));
    assert_eq!(last, 99);
}

#[test]
fn bezier_needs_four_points() {
    let c = FanCurve::BezierCurve { points: vec![Point { x: 0, y: 0 }, Point { x: 100_000, y: 100_000 }] };
    assert_eq!(c.evaluate(50_000), Err(CurveError::BezierMustHaveFourPoints));
}

#[test]
fn curve_kind_follows_config_kind() {
    let cfgs = vec![
        (CurveCfg::Constant { id: "c".to_string(), speed: 1 }, CurveKind::Constant),
        (CurveCfg::StepCurve { id: "s".to_string(), tmps: vec![1], spds: vec![2] }, CurveKind::Step),
        (CurveCfg::Bezier { id: "b".to_string(), points: vec![] }, CurveKind::Bezier),
    ];
    for (cfg, kind) in cfgs {
        assert_eq!(FanCurve::from(&cfg).kind(), kind);
        assert_eq!(FanCurve::from_cfg(&cfg).kind(), kind);
    }
}

#[test]
fn duplicate_keeps_data() {
    let c = three_point_curve();
    match c.duplicate() {
        FanCurve::StepCurve { temps, speeds } => {
            assert_eq!(temps, vec![30_000, 50_000, 70_000]);
            assert_eq!(speeds, vec![20, 60, 100]);
        }
        _ => panic!("expected a step curve"),
    }
}
