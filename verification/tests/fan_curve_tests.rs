use tuxedo_control::fan_curve::{
    calculate_fan_speed, default_points, sorted_by_temp, validate_curve_points, CurveError, FanCurveEditor,
};
use tuxedo_control::fan_daemon::{apply_fan_curves, ControlInterface, FanCurveManager, FanDaemon};
use tuxedo_control::errors::ControlError;
use tuxedo_control::tuxedo_io::{HardwareInterface, TuxedoIo, WriteRequest};
use tuxedo_control::types::{FanCurve, FanSettings};

fn standard_points() -> Vec<(u8, u8)> {
    vec![(0, 0), (50, 50), (70, 75), (85, 100)]
}

#[test]
fn curve_without_points_gives_half_speed() {
    assert_eq!(calculate_fan_speed(&vec![], 70), 50);
}

#[test]
fn curve_with_one_point_gives_its_speed() {
    assert_eq!(calculate_fan_speed(&vec![(40, 30)], 0), 30);
    assert_eq!(calculate_fan_speed(&vec![(40, 30)], 90), 30);
}

#[test]
fn curve_interpolates_and_rounds_to_nearest() {
    let p = standard_points();
    assert_eq!(calculate_fan_speed(&p, 60), 63);
    assert_eq!(calculate_fan_speed(&p, 25), 25);
    assert_eq!(calculate_fan_speed(&p, 50), 50);
    assert_eq!(calculate_fan_speed(&p, 78), 88);
}

#[test]
fn curve_holds_its_end_speeds_outside_its_range() {
    let p = vec![(30, 20), (80, 90)];
    assert_eq!(calculate_fan_speed(&p, 10), 20);
    assert_eq!(calculate_fan_speed(&p, 95), 90);
}

#[test]
fn curve_sorts_points_before_interpolating() {
    let p = vec![(85, 100), (0, 0), (70, 75), (50, 50)];
    assert_eq!(calculate_fan_speed(&p, 60), 63);
    assert_eq!(sorted_by_temp(&p), standard_points());
}

#[test]
fn curve_speed_never_decreases_with_temperature() {
    let p = standard_points();
    let mut last = 0;
    for t in 0..=120u32 {
        let s = calculate_fan_speed(&p, t);
        assert!(s >= last);
        assert!(s <= 100);
        last = s;
    }
}

#[test]
fn validation_refuses_each_bad_curve() {
    assert_eq!(validate_curve_points(&vec![]), Err(CurveError::NoPoints));
    assert_eq!(validate_curve_points(&vec![(10, 10); 17]), Err(CurveError::TooManyPoints));
    assert_eq!(validate_curve_points(&vec![(10, 10), (101, 200)]), Err(CurveError::TemperatureOutOfRange));
    assert_eq!(validate_curve_points(&vec![(10, 10), (90, 101)]), Err(CurveError::SpeedOutOfRange));
    assert_eq!(validate_curve_points(&standard_points()), Ok(()));
    assert_eq!(validate_curve_points(&vec![(10, 10); 16]), Ok(()));
}

#[test]
fn control_interface_checks_and_reports_curves() {
    let c = ControlInterface::new();
    let curve = FanCurve { fan_id: 1, points: vec![] };
    assert_eq!(c.set_fan_curve(1, &curve), Err(CurveError::NoPoints));
    let good = FanCurve { fan_id: 1, points: standard_points() };
    assert_eq!(c.set_fan_curve(1, &good), Ok(()));
    let got = c.get_fan_curve(3);
    assert_eq!(got.fan_id, 3);
    assert!(got.points.is_empty());
    assert_eq!(c.test_fan_curve(0, 90), 50);
}

#[test]
fn editor_reset_restores_default_points() {
    let mut e = FanCurveEditor::new(2, FanCurve { fan_id: 2, points: vec![(10, 10)] });
    e.reset_to_default();
    let c = e.get_curve();
    assert_eq!(c.fan_id, 2);
    assert_eq!(c.points, default_points());
    assert_eq!(e.selected_point(), None);
}

#[test]
fn editor_interpolates_by_truncation() {
    let e = FanCurveEditor::new(0, FanCurve { fan_id: 0, points: standard_points() });
    assert_eq!(e.interpolate_speed(60), 62);
    assert_eq!(e.interpolate_speed(0), 0);
    assert_eq!(e.interpolate_speed(100), 100);
}

#[test]
fn editor_selection_and_removal() {
    let mut e = FanCurveEditor::new(0, FanCurve { fan_id: 0, points: standard_points() });
    e.select_point(1);
    assert_eq!(e.selected_point(), Some(1));
    e.remove_selected();
    assert_eq!(e.get_curve().points, vec![(0, 0), (70, 75), (85, 100)]);
    assert_eq!(e.selected_point(), None);
}

#[test]
fn editor_adds_a_point_in_the_widest_gap() {
    let mut e = FanCurveEditor::new(0, FanCurve { fan_id: 0, points: vec![(0, 0), (100, 100)] });
    e.add_point();
    let pts = e.get_curve().points;
    assert_eq!(pts.len(), 3);
    assert!(pts.contains(&(50, 50)));
}

#[test]
fn editor_takes_the_room_below_when_it_is_widest() {
    let mut e = FanCurveEditor::new(0, FanCurve { fan_id: 0, points: vec![(50, 50), (60, 60)] });
    e.add_point();
    assert_eq!(e.get_curve().points, vec![(50, 50), (60, 60), (25, 50)]);
    let mut f = FanCurveEditor::new(0, FanCurve { fan_id: 0, points: vec![(10, 20), (20, 30)] });
    f.add_point();
    assert_eq!(f.get_curve().points, vec![(10, 20), (20, 30), (60, 30)]);
}

#[test]
fn main_loop_targets_skip_missing_fans_and_unread_temperatures() {
    let settings = FanSettings {
        control_enabled: true,
        curves: vec![
            FanCurve { fan_id: 0, points: standard_points() },
            FanCurve { fan_id: 1, points: standard_points() },
            FanCurve { fan_id: 5, points: standard_points() },
        ],
    };
    let r = apply_fan_curves(&settings, 2, &vec![Some(60), None, Some(60)]);
    assert_eq!(r, vec![(0, 63)]);
}

#[test]
fn daemon_state_starts_stopped_and_takes_settings() {
    let mut d = FanDaemon::new();
    assert!(!d.running());
    assert!(d.active_settings().is_none());
    d.update_settings(FanSettings { control_enabled: true, curves: vec![] });
    assert!(d.active_settings().is_some());
    d.start();
    assert!(d.running());
    d.stop();
    assert!(!d.running());
}

#[test]
fn daemon_speed_rounds_toward_zero_and_keeps_point_order() {
    let d = FanDaemon::new();
    assert_eq!(d.calculate_fan_speed(60, &standard_points()), 62);
    assert_eq!(d.calculate_fan_speed(10, &vec![]), 50);
    assert_eq!(d.calculate_fan_speed(10, &vec![(20, 30), (40, 60)]), 30);
    assert_eq!(d.calculate_fan_speed(90, &vec![(20, 30), (40, 60)]), 60);
}

#[test]
fn daemon_round_reduces_temperatures_modulo_256() {
    let d = FanDaemon::new();
    let settings = FanSettings { control_enabled: true, curves: vec![FanCurve { fan_id: 0, points: standard_points() }] };
    assert_eq!(d.apply_fan_curves(&settings, true, &vec![Some(256 + 60)]), vec![(0, 62)]);
    assert!(d.apply_fan_curves(&settings, false, &vec![Some(60)]).is_empty());
}

#[test]
fn curve_manager_rounds_and_reports_each_state() {
    let io = TuxedoIo::new(HardwareInterface::Uniwill, 2);
    let mut m = FanCurveManager::new(Some(io));
    assert!(!m.is_enabled());
    assert_eq!(m.apply_curves(true, &vec![]), Ok(None));
    m.update_settings(FanSettings {
        control_enabled: true,
        curves: vec![FanCurve { fan_id: 0, points: standard_points() }, FanCurve { fan_id: 3, points: standard_points() }],
    });
    assert!(m.is_enabled());
    assert_eq!(m.apply_curves(false, &vec![Some(60), Some(60)]), Ok(None));
    assert_eq!(m.apply_curves(true, &vec![Some(60), Some(60)]), Ok(Some(vec![(0, 63)])));
    assert_eq!(m.auto_mode_write(), Ok(Some(WriteRequest::UniwillFanAuto(1))));
    m.set_auto_mode(true);
    assert!(!m.is_enabled());

    let mut none = FanCurveManager::new(None);
    none.update_settings(FanSettings { control_enabled: true, curves: vec![] });
    assert_eq!(none.apply_curves(true, &vec![]), Err(ControlError::FanControlUnavailable));
    assert_eq!(none.auto_mode_write(), Ok(None));
}

#[test]
fn manager_interpolates_like_the_daemon() {
    let m = FanCurveManager::new(None);
    let pts = vec![(70, 80), (30, 20), (50, 40)];
    assert_eq!(m.interpolate_fan_speed(&pts, 40), 30);
    assert_eq!(m.interpolate_fan_speed(&pts, 60), 60);
    assert_eq!(m.interpolate_fan_speed(&pts, 10), 20);
    assert_eq!(m.interpolate_fan_speed(&pts, 90), 80);
    assert_eq!(m.interpolate_fan_speed(&vec![], 90), 50);
    assert_eq!(m.interpolate_fan_speed(&vec![(40, 33)], 90), 33);
}

#[test]
fn editor_points_are_set_and_removed() {
    let mut e = FanCurveEditor::new(1, FanCurve { fan_id: 1, points: vec![(20, 10), (50, 50), (80, 90)] });
    e.set_point(1, 55, 60);
    assert_eq!(e.get_curve().points, vec![(20, 10), (55, 60), (80, 90)]);
    e.select_point(2);
    e.remove_point(0);
    assert_eq!(e.get_curve().points, vec![(55, 60), (80, 90)]);
    assert_eq!(e.selected_point(), Some(2));
    e.remove_point(1);
    assert_eq!(e.get_curve().points, vec![(55, 60), (80, 90)]);
    let mut f = FanCurveEditor::new(0, FanCurve { fan_id: 0, points: vec![(20, 10), (50, 50), (80, 90)] });
    f.select_point(1);
    f.remove_point(1);
    assert_eq!(f.selected_point(), None);
}

#[test]
fn point_order_does_not_change_the_speed() {
    let a = vec![(30, 20), (50, 40), (70, 80)];
    let b = vec![(70, 80), (30, 20), (50, 40)];
    for t in [0u32, 30, 41, 55, 69, 70, 100] {
        assert_eq!(calculate_fan_speed(&a, t), calculate_fan_speed(&b, t));
    }
}

#[test]
fn equal_temperature_points_rising_in_order_stay_monotone() {
    let pts = vec![(50, 10), (50, 90)];
    let mut last = 0;
    for t in 0u32..=100 {
        let v = calculate_fan_speed(&pts, t);
        assert!(v >= last);
        last = v;
    }
}
