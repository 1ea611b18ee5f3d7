//! Conversion between joint angles, in whole degrees, and servo units.
//!
//! A servo unit is the joint angle shifted by a fixed offset, so that angle 0
//! sits at mid-travel, and held inside the joint's configured travel limits.

use vstd::prelude::*;
use crate::frame::{decode_result, encoded, lemma_decode_encode, FrameError, ServoCommand};

verus! {

/// Servo unit that stands for a joint angle of 0 degrees.
pub const SERVO_OFFSET: u16 = 90;

/// Largest servo unit that any travel limit may reach.
pub const SERVO_TRAVEL_MAX: u16 = 270;

/// Upper travel limit of a joint that was never configured.
pub const DEFAULT_TRAVEL_MAX: u16 = 180;

/// `value` held inside `[lo, hi]`.
pub open spec fn clamp(value: int, lo: int, hi: int) -> int {
    if value < lo {
        lo
    } else if value > hi {
        hi
    } else {
        value
    }
}

/// The servo unit of a joint angle in whole degrees, inside `[lo, hi]`.
pub open spec fn servo_of_angle(angle: int, lo: int, hi: int) -> int {
    clamp(angle + SERVO_OFFSET, lo, hi)
}

/// The joint angle in whole degrees of a servo unit.
pub open spec fn angle_of_servo(servo: int) -> int {
    servo - SERVO_OFFSET
}

/// Travel limits of one joint, in servo units: a non-empty interval inside
/// `[0, SERVO_TRAVEL_MAX]`.
#[derive(Clone, Copy, Debug, PartialEq, Eq, Structural)]
pub struct ServoLimits {
    min: u16,
    max: u16,
}

impl ServoLimits {
    /// The limits are a non-empty interval inside `[0, SERVO_TRAVEL_MAX]`.
    #[verifier::type_invariant]
    pub closed spec fn well_formed(self) -> bool {
        self.min <= self.max && self.max <= SERVO_TRAVEL_MAX
    }

    /// Lower travel limit.
    pub closed spec fn lower(self) -> int {
        self.min as int
    }

    /// Upper travel limit.
    pub closed spec fn upper(self) -> int {
        self.max as int
    }

    /// The limits `[min, max]`, or `None` where they are no interval inside
    /// `[0, SERVO_TRAVEL_MAX]`.
    pub fn new(min: u16, max: u16) -> (limits: Option<ServoLimits>)
        ensures
            limits.is_some() <==> min <= max <= SERVO_TRAVEL_MAX,
            limits matches Some(l) ==> l.well_formed() && l.lower() == min && l.upper() == max,
    {
        if min <= max && max <= SERVO_TRAVEL_MAX {
            Some(ServoLimits { min, max })
        } else {
            None
        }
    }

    /// The limits of a joint that was never configured:
    /// `[0, DEFAULT_TRAVEL_MAX]`.
    pub fn unconfigured() -> (limits: ServoLimits)
        ensures
            limits.well_formed(),
            limits.lower() == 0,
            limits.upper() == DEFAULT_TRAVEL_MAX,
    {
        ServoLimits { min: 0, max: DEFAULT_TRAVEL_MAX }
    }

    /// These limits with the lower one moved to `value`, held inside
    /// `[0, upper]` so that the interval stays non-empty.
    pub fn with_min(self, value: i64) -> (limits: ServoLimits)
        ensures
            limits.well_formed(),
            limits.lower() == clamp(value as int, 0, self.upper()),
            limits.upper() == self.upper(),
    {
        proof {
            use_type_invariant(&self);
        }
        let min = if value < 0 {
            0
        } else if value > self.max as i64 {
            self.max
        } else {
            value as u16
        };
        ServoLimits { min, max: self.max }
    }

    /// These limits with the upper one moved to `value`, held inside
    /// `[lower, SERVO_TRAVEL_MAX]` so that the interval stays non-empty.
    pub fn with_max(self, value: i64) -> (limits: ServoLimits)
        ensures
            limits.well_formed(),
            limits.lower() == self.lower(),
            limits.upper() == clamp(value as int, self.lower(), SERVO_TRAVEL_MAX as int),
    {
        proof {
            use_type_invariant(&self);
        }
        let max = if value < self.min as i64 {
            self.min
        } else if value > SERVO_TRAVEL_MAX as i64 {
            SERVO_TRAVEL_MAX
        } else {
            value as u16
        };
        ServoLimits { min: self.min, max }
    }

    /// Whether a joint angle of `angle` whole degrees lies inside the travel
    /// that these limits leave, so that its servo unit is not clamped.
    pub open spec fn admits(self, angle: int) -> bool {
        self.lower() <= angle + SERVO_OFFSET <= self.upper()
    }

    /// Lower travel limit.
    pub fn min(&self) -> (min: u16)
        ensures
            min == self.lower(),
            min <= self.upper(),
    {
        proof {
            use_type_invariant(self);
        }
        self.min
    }

    /// Upper travel limit.
    pub fn max(&self) -> (max: u16)
        ensures
            max == self.upper(),
            self.lower() <= max <= SERVO_TRAVEL_MAX,
    {
        proof {
            use_type_invariant(self);
        }
        self.max
    }
}

/// The servo unit sent for a joint angle of `angle` whole degrees: the angle
/// plus the offset, held inside the joint's limits. No angle overflows, and
/// an angle inside the joint's travel can be read back from its servo unit.
pub fn angle_to_servo(angle: i64, limits: &ServoLimits) -> (servo: u16)
    ensures
        servo == servo_of_angle(angle as int, limits.lower(), limits.upper()),
        limits.lower() <= servo <= limits.upper(),
        limits.admits(angle as int) ==> angle_of_servo(servo as int) == angle,
{
    proof {
        use_type_invariant(limits);
    }
    let lo: i64 = limits.min as i64 - SERVO_OFFSET as i64;
    let hi: i64 = limits.max as i64 - SERVO_OFFSET as i64;
    if angle < lo {
        limits.min
    } else if angle > hi {
        limits.max
    } else {
        (angle + SERVO_OFFSET as i64) as u16
    }
}

/// The joint angle in whole degrees that a servo unit stands for.
pub fn servo_to_angle(servo: u16) -> (angle: i64)
    ensures
        angle == angle_of_servo(servo as int),
{
    servo as i64 - SERVO_OFFSET as i64
}

impl Default for ServoLimits {
    fn default() -> (limits: ServoLimits)
        ensures
            limits.well_formed(),
            limits.lower() == 0,
            limits.upper() == DEFAULT_TRAVEL_MAX,
    {
        ServoLimits::unconfigured()
    }
}

/// The travel limits of the five joints.
#[derive(Clone, Copy, Debug, PartialEq, Eq, Structural)]
pub struct JointLimits {
    pub top: ServoLimits,
    pub shoulder: ServoLimits,
    pub upper: ServoLimits,
    pub elbow: ServoLimits,
    pub lower: ServoLimits,
}

impl JointLimits {
    /// Each joint's limits are an interval inside `[0, SERVO_TRAVEL_MAX]`.
    pub open spec fn well_formed(self) -> bool {
        &&& self.top.well_formed()
        &&& self.shoulder.well_formed()
        &&& self.upper.well_formed()
        &&& self.elbow.well_formed()
        &&& self.lower.well_formed()
    }

    /// Every joint unconfigured.
    pub fn unconfigured() -> (limits: JointLimits)
        ensures
            limits.well_formed(),
            limits.top.lower() == 0 && limits.top.upper() == DEFAULT_TRAVEL_MAX,
            limits.shoulder.lower() == 0 && limits.shoulder.upper() == DEFAULT_TRAVEL_MAX,
            limits.upper.lower() == 0 && limits.upper.upper() == DEFAULT_TRAVEL_MAX,
            limits.elbow.lower() == 0 && limits.elbow.upper() == DEFAULT_TRAVEL_MAX,
            limits.lower.lower() == 0 && limits.lower.upper() == DEFAULT_TRAVEL_MAX,
    {
        JointLimits {
            top: ServoLimits::unconfigured(),
            shoulder: ServoLimits::unconfigured(),
            upper: ServoLimits::unconfigured(),
            elbow: ServoLimits::unconfigured(),
            lower: ServoLimits::unconfigured(),
        }
    }
}

/// The angles of the five joints, in whole degrees.
#[derive(Clone, Copy, Debug, PartialEq, Eq, Structural)]
pub struct JointAngles {
    /// Base tilt.
    pub top: i64,
    /// Base azimuth.
    pub shoulder: i64,
    /// Twist about the upper arm.
    pub upper: i64,
    /// Elbow flex.
    pub elbow: i64,
    /// Wrist.
    pub lower: i64,
}

/// The command that carries `angles` under `limits`, joint by joint.
pub open spec fn command_of(angles: JointAngles, limits: JointLimits) -> ServoCommand {
    ServoCommand {
        top: servo_of_angle(angles.top as int, limits.top.lower(), limits.top.upper()) as u16,
        shoulder: servo_of_angle(
            angles.shoulder as int,
            limits.shoulder.lower(),
            limits.shoulder.upper(),
        ) as u16,
        upper: servo_of_angle(
            angles.upper as int,
            limits.upper.lower(),
            limits.upper.upper(),
        ) as u16,
        elbow: servo_of_angle(
            angles.elbow as int,
            limits.elbow.lower(),
            limits.elbow.upper(),
        ) as u16,
        lower: servo_of_angle(
            angles.lower as int,
            limits.lower.lower(),
            limits.lower.upper(),
        ) as u16,
    }
}

/// The angles that `command` stands for, joint by joint.
pub open spec fn angles_of(command: ServoCommand) -> JointAngles {
    JointAngles {
        top: angle_of_servo(command.top as int) as i64,
        shoulder: angle_of_servo(command.shoulder as int) as i64,
        upper: angle_of_servo(command.upper as int) as i64,
        elbow: angle_of_servo(command.elbow as int) as i64,
        lower: angle_of_servo(command.lower as int) as i64,
    }
}

/// The arm's home position in servo units: top 95, shoulder 40, upper 90,
/// elbow 0, lower 90.
pub open spec fn home_command() -> ServoCommand {
    ServoCommand { top: 95, shoulder: 40, upper: 90, elbow: 0, lower: 90 }
}

/// Every joint of `angles` lies inside the travel that `limits` leave it.
pub open spec fn admitted(angles: JointAngles, limits: JointLimits) -> bool {
    &&& limits.top.admits(angles.top as int)
    &&& limits.shoulder.admits(angles.shoulder as int)
    &&& limits.upper.admits(angles.upper as int)
    &&& limits.elbow.admits(angles.elbow as int)
    &&& limits.lower.admits(angles.lower as int)
}

/// Every servo unit of `command` lies inside its joint's limits.
pub open spec fn within(command: ServoCommand, limits: JointLimits) -> bool {
    &&& limits.top.lower() <= command.top <= limits.top.upper()
    &&& limits.shoulder.lower() <= command.shoulder <= limits.shoulder.upper()
    &&& limits.upper.lower() <= command.upper <= limits.upper.upper()
    &&& limits.elbow.lower() <= command.elbow <= limits.elbow.upper()
    &&& limits.lower.lower() <= command.lower <= limits.lower.upper()
}

impl JointAngles {
    /// The pose at start: the arm's home position, `home_command`.
    pub fn neutral() -> (angles: JointAngles)
        ensures
            angles == angles_of(home_command()),
            angles.top == 5,
            angles.shoulder == -50,
            angles.upper == 0,
            angles.elbow == -90,
            angles.lower == 0,
    {
        JointAngles { top: 5, shoulder: -50, upper: 0, elbow: -90, lower: 0 }
    }

    /// The command to send for these angles: each joint's servo unit, held
    /// inside that joint's limits. No joint depends on another.
    pub fn to_command(&self, limits: &JointLimits) -> (command: ServoCommand)
        ensures
            command == command_of(*self, *limits),
            within(command, *limits),
    {
        ServoCommand {
            top: angle_to_servo(self.top, &limits.top),
            shoulder: angle_to_servo(self.shoulder, &limits.shoulder),
            upper: angle_to_servo(self.upper, &limits.upper),
            elbow: angle_to_servo(self.elbow, &limits.elbow),
            lower: angle_to_servo(self.lower, &limits.lower),
        }
    }

    /// The angles that a command stands for.
    pub fn from_command(command: &ServoCommand) -> (angles: JointAngles)
        ensures
            angles == angles_of(*command),
    {
        JointAngles {
            top: servo_to_angle(command.top),
            shoulder: servo_to_angle(command.shoulder),
            upper: servo_to_angle(command.upper),
            elbow: servo_to_angle(command.elbow),
            lower: servo_to_angle(command.lower),
        }
    }
}

/// An angle inside a joint's travel comes back unchanged from its servo
/// unit.
pub proof fn lemma_angle_round_trip(angle: int, limits: ServoLimits)
    requires
        limits.well_formed(),
        limits.admits(angle),
    ensures
        angle_of_servo(servo_of_angle(angle, limits.lower(), limits.upper())) == angle,
{
}

/// A servo unit inside a joint's limits comes back unchanged from its angle.
pub proof fn lemma_servo_round_trip(servo: int, limits: ServoLimits)
    requires
        limits.well_formed(),
        limits.lower() <= servo <= limits.upper(),
    ensures
        limits.admits(angle_of_servo(servo)),
        servo_of_angle(angle_of_servo(servo), limits.lower(), limits.upper()) == servo,
{
}

/// Whatever the angle, its servo unit lies inside the limits, and converting
/// the unit's angle again changes nothing.
pub proof fn lemma_servo_settles(angle: int, limits: ServoLimits)
    requires
        limits.well_formed(),
    ensures
        limits.lower() <= servo_of_angle(angle, limits.lower(), limits.upper()) <= limits.upper(),
        servo_of_angle(
            angle_of_servo(servo_of_angle(angle, limits.lower(), limits.upper())),
            limits.lower(),
            limits.upper(),
        ) == servo_of_angle(angle, limits.lower(), limits.upper()),
{
}

/// A pose inside every joint's travel comes back unchanged from its command.
pub proof fn lemma_pose_round_trip(angles: JointAngles, limits: JointLimits)
    requires
        limits.well_formed(),
        admitted(angles, limits),
    ensures
        within(command_of(angles, limits), limits),
        angles_of(command_of(angles, limits)) == angles,
{
}

/// A command inside every joint's limits comes back unchanged from its pose.
pub proof fn lemma_command_round_trip(command: ServoCommand, limits: JointLimits)
    requires
        limits.well_formed(),
        within(command, limits),
    ensures
        admitted(angles_of(command), limits),
        command_of(angles_of(command), limits) == command,
{
}

/// A pose inside every joint's travel survives the wire: the frame of its
/// command decodes to a command that stands for the same pose.
pub proof fn lemma_wire_round_trip(angles: JointAngles, limits: JointLimits)
    requires
        limits.well_formed(),
        admitted(angles, limits),
    ensures
        decode_result(encoded(command_of(angles, limits))) == Ok::<ServoCommand, FrameError>(
            command_of(angles, limits),
        ),
        angles_of(decode_result(encoded(command_of(angles, limits)))->Ok_0) == angles,
{
    lemma_decode_encode(command_of(angles, limits));
    lemma_pose_round_trip(angles, limits);
}

/// Well-formed limits are an interval inside `[0, SERVO_TRAVEL_MAX]`.
pub proof fn lemma_limits_bounds(limits: ServoLimits)
    requires
        limits.well_formed(),
    ensures
        0 <= limits.lower() <= limits.upper() <= SERVO_TRAVEL_MAX,
{
}

} // verus!
