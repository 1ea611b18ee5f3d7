use limb_controller::codec::{
    angle_to_servo, servo_to_angle, JointAngles, JointLimits, ServoLimits, DEFAULT_TRAVEL_MAX,
    SERVO_OFFSET, SERVO_TRAVEL_MAX,
};
use limb_controller::frame::ServoCommand;

fn limits(min: u16, max: u16) -> ServoLimits {
    ServoLimits::new(min, max).expect("limits are an interval")
}

#[test]
fn angle_zero_is_mid_travel() {
    let l = ServoLimits::default();
    assert_eq!(angle_to_servo(0, &l), 90);
    assert_eq!(SERVO_OFFSET, 90);
}

#[test]
fn angle_to_servo_adds_offset() {
    let l = limits(0, 180);
    assert_eq!(angle_to_servo(10, &l), 100);
    assert_eq!(angle_to_servo(-10, &l), 80);
    assert_eq!(angle_to_servo(-90, &l), 0);
    assert_eq!(angle_to_servo(90, &l), 180);
    assert_eq!(angle_to_servo(1, &l), 91);
}

#[test]
fn angle_to_servo_clamps_to_limits() {
    let l = limits(0, 180);
    assert_eq!(angle_to_servo(91, &l), 180);
    assert_eq!(angle_to_servo(-91, &l), 0);
    let narrow = limits(30, 120);
    assert_eq!(angle_to_servo(-70, &narrow), 30);
    assert_eq!(angle_to_servo(-60, &narrow), 30);
    assert_eq!(angle_to_servo(-59, &narrow), 31);
    assert_eq!(angle_to_servo(29, &narrow), 119);
    assert_eq!(angle_to_servo(30, &narrow), 120);
    assert_eq!(angle_to_servo(31, &narrow), 120);
    let wide = limits(0, 270);
    assert_eq!(angle_to_servo(180, &wide), 270);
    assert_eq!(angle_to_servo(181, &wide), 270);
}

#[test]
fn angle_to_servo_never_overflows() {
    let l = limits(5, 200);
    assert_eq!(angle_to_servo(i64::MAX, &l), 200);
    assert_eq!(angle_to_servo(i64::MIN, &l), 5);
    assert_eq!(angle_to_servo(65_535, &l), 200);
    assert_eq!(angle_to_servo(65_536 - 90, &l), 200);
    assert_eq!(angle_to_servo(-65_536, &l), 5);
}

#[test]
fn angle_to_servo_with_single_point_limits() {
    let l = limits(77, 77);
    assert_eq!(angle_to_servo(-1000, &l), 77);
    assert_eq!(angle_to_servo(-13, &l), 77);
    assert_eq!(angle_to_servo(1000, &l), 77);
}

#[test]
fn servo_to_angle_subtracts_offset() {
    assert_eq!(servo_to_angle(0), -90);
    assert_eq!(servo_to_angle(90), 0);
    assert_eq!(servo_to_angle(180), 90);
    assert_eq!(servo_to_angle(270), 180);
    assert_eq!(servo_to_angle(u16::MAX), 65_445);
}

#[test]
fn angle_round_trip_over_legal_range() {
    let l = limits(0, 180);
    for angle in -90..=90_i64 {
        assert_eq!(servo_to_angle(angle_to_servo(angle, &l)), angle);
    }
    let narrow = limits(45, 100);
    for angle in -45..=10_i64 {
        assert_eq!(servo_to_angle(angle_to_servo(angle, &narrow)), angle);
    }
}

#[test]
fn angle_outside_legal_range_does_not_round_trip() {
    let l = limits(0, 180);
    assert_eq!(servo_to_angle(angle_to_servo(91, &l)), 90);
    assert_eq!(servo_to_angle(angle_to_servo(-200, &l)), -90);
}

#[test]
fn servo_round_trip_over_limits() {
    let l = limits(0, 270);
    for servo in 0..=270_u16 {
        assert_eq!(angle_to_servo(servo_to_angle(servo), &l), servo);
    }
}

#[test]
fn limits_accept_intervals_inside_travel() {
    assert!(ServoLimits::new(0, 180).is_some());
    assert!(ServoLimits::new(0, 0).is_some());
    assert!(ServoLimits::new(270, 270).is_some());
    assert!(ServoLimits::new(0, SERVO_TRAVEL_MAX).is_some());
    let l = limits(12, 34);
    assert_eq!(l.min(), 12);
    assert_eq!(l.max(), 34);
}

#[test]
fn limits_reject_what_is_no_interval_inside_travel() {
    assert!(ServoLimits::new(10, 5).is_none());
    assert!(ServoLimits::new(0, 271).is_none());
    assert!(ServoLimits::new(271, 271).is_none());
    assert!(ServoLimits::new(181, 180).is_none());
    assert!(ServoLimits::new(u16::MAX, u16::MAX).is_none());
}

#[test]
fn default_limits_are_zero_to_180() {
    let l = ServoLimits::default();
    assert_eq!(l.min(), 0);
    assert_eq!(l.max(), 180);
    assert_eq!(DEFAULT_TRAVEL_MAX, 180);
    assert_eq!(ServoLimits::unconfigured(), l);
    let all = JointLimits::unconfigured();
    assert_eq!(all.top, l);
    assert_eq!(all.shoulder, l);
    assert_eq!(all.upper, l);
    assert_eq!(all.elbow, l);
    assert_eq!(all.lower, l);
}

#[test]
fn with_max_moves_upper_limit_inside_travel() {
    let l = limits(20, 180);
    assert_eq!(l.with_max(200), limits(20, 200));
    assert_eq!(l.with_max(270), limits(20, 270));
    assert_eq!(l.with_max(271), limits(20, 270));
    assert_eq!(l.with_max(i64::MAX), limits(20, 270));
    assert_eq!(l.with_max(20), limits(20, 20));
    assert_eq!(l.with_max(19), limits(20, 20));
    assert_eq!(l.with_max(-5), limits(20, 20));
    assert_eq!(l.with_max(i64::MIN), limits(20, 20));
}

#[test]
fn with_min_moves_lower_limit_below_upper() {
    let l = limits(20, 180);
    assert_eq!(l.with_min(0), limits(0, 180));
    assert_eq!(l.with_min(-1), limits(0, 180));
    assert_eq!(l.with_min(i64::MIN), limits(0, 180));
    assert_eq!(l.with_min(100), limits(100, 180));
    assert_eq!(l.with_min(180), limits(180, 180));
    assert_eq!(l.with_min(181), limits(180, 180));
    assert_eq!(l.with_min(i64::MAX), limits(180, 180));
}

#[test]
fn neutral_pose_is_the_home_position() {
    let pose = JointAngles::neutral();
    assert_eq!(
        pose,
        JointAngles { top: 5, shoulder: -50, upper: 0, elbow: -90, lower: 0 }
    );
    assert_eq!(
        pose.to_command(&JointLimits::unconfigured()),
        ServoCommand { top: 95, shoulder: 40, upper: 90, elbow: 0, lower: 90 }
    );
}

#[test]
fn command_is_built_joint_by_joint() {
    let joint_limits = JointLimits {
        top: limits(0, 180),
        shoulder: limits(40, 140),
        upper: limits(0, 270),
        elbow: limits(90, 90),
        lower: limits(10, 20),
    };
    let pose = JointAngles { top: 1, shoulder: -80, upper: 170, elbow: 33, lower: 1000 };
    assert_eq!(
        pose.to_command(&joint_limits),
        ServoCommand { top: 91, shoulder: 40, upper: 260, elbow: 90, lower: 20 }
    );
    let moved = JointAngles { top: 2, ..pose };
    assert_eq!(
        moved.to_command(&joint_limits),
        ServoCommand { top: 92, shoulder: 40, upper: 260, elbow: 90, lower: 20 }
    );
}

#[test]
fn angles_are_read_back_joint_by_joint() {
    let command = ServoCommand { top: 0, shoulder: 90, upper: 180, elbow: 270, lower: 65_535 };
    assert_eq!(
        JointAngles::from_command(&command),
        JointAngles { top: -90, shoulder: 0, upper: 90, elbow: 180, lower: 65_445 }
    );
}

#[test]
fn pose_round_trip_inside_limits() {
    let joint_limits = JointLimits::unconfigured();
    let pose = JointAngles { top: -90, shoulder: 90, upper: 0, elbow: 45, lower: -45 };
    assert_eq!(JointAngles::from_command(&pose.to_command(&joint_limits)), pose);
    let command = ServoCommand { top: 0, shoulder: 180, upper: 90, elbow: 135, lower: 45 };
    assert_eq!(JointAngles::from_command(&command).to_command(&joint_limits), command);
}
