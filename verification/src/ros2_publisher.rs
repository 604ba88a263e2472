//! Torque and limits of the robot's parts as messages to its joints.
use crate::text::same_text;
use vstd::prelude::*;

verus! {

/// How many messages the publisher keeps for those that have not got them yet.
pub const KEPT_MESSAGES: usize = 10;

/// How often the node spins after each command.
pub const SPINS: u32 = 3;

/// Milliseconds that each spin takes.
pub const SPIN_TIME: u64 = 10;

/// A command to the publishing thread. Limits are IEEE 754 binary64 patterns.
#[derive(Clone, Debug)]
pub enum Ros2Command {
    PublishTorque { part: String, enabled: bool },
    PublishTorqueLimit { part: String, value: u64 },
    PublishSpeedLimit { part: String, value: u64 },
}

/// Values for the interfaces of one joint, as IEEE 754 binary64 patterns.
#[derive(Debug)]
pub struct InterfaceValue {
    pub interface_names: Vec<String>,
    pub values: Vec<u64>,
}

/// A message to some joints, with the values for each of them.
#[derive(Debug)]
pub struct DynamicJointState {
    pub joint_names: Vec<String>,
    pub interface_values: Vec<InterfaceValue>,
}

/// What a command leads to.
#[derive(Debug)]
pub struct PublishStep {
    /// The message to publish, where the part is known.
    pub message: Option<DynamicJointState>,
    /// Milliseconds to wait after that.
    pub pause: u64,
}

/// What `InterfaceValue` says.
pub ghost struct InterfaceValueView {
    pub interface_names: Seq<Seq<char>>,
    pub values: Seq<u64>,
}

/// What `DynamicJointState` says.
pub ghost struct DynamicJointStateView {
    pub joint_names: Seq<Seq<char>>,
    pub interface_values: Seq<InterfaceValueView>,
}

impl DeepView for InterfaceValue {
    type V = InterfaceValueView;

    open spec fn deep_view(&self) -> InterfaceValueView {
        InterfaceValueView {
            interface_names: self.interface_names.deep_view(),
            values: self.values@,
        }
    }
}

impl DeepView for DynamicJointState {
    type V = DynamicJointStateView;

    open spec fn deep_view(&self) -> DynamicJointStateView {
        DynamicJointStateView {
            joint_names: self.joint_names.deep_view(),
            interface_values: self.interface_values.deep_view(),
        }
    }
}

/// The joints that take part in turning a part's torque on and off.
pub open spec fn torque_joints(part: Seq<char>) -> Option<Seq<Seq<char>>> {
    if part == "r_arm"@ {
        Some(seq!["r_shoulder"@, "r_elbow"@, "r_wrist"@])
    } else if part == "l_arm"@ {
        Some(seq!["l_shoulder"@, "l_elbow"@, "l_wrist"@])
    } else if part == "neck"@ || part == "head"@ {
        Some(seq!["neck"@])
    } else if part == "r_hand"@ {
        Some(seq!["r_hand"@])
    } else if part == "l_hand"@ {
        Some(seq!["l_hand"@])
    } else if part == "antenna_left"@ {
        Some(seq!["antenna_left"@])
    } else if part == "antenna_right"@ {
        Some(seq!["antenna_right"@])
    } else {
        None
    }
}

/// The motors that a limit of a part applies to.
pub open spec fn limit_joints(part: Seq<char>) -> Option<Seq<Seq<char>>> {
    if part == "r_arm"@ {
        Some(
            seq![
                "r_shoulder_raw_motor_1"@,
                "r_shoulder_raw_motor_2"@,
                "r_elbow_raw_motor_1"@,
                "r_elbow_raw_motor_2"@,
                "r_wrist_raw_motor_1"@,
                "r_wrist_raw_motor_2"@,
                "r_wrist_raw_motor_3"@,
            ],
        )
    } else if part == "l_arm"@ {
        Some(
            seq![
                "l_shoulder_raw_motor_1"@,
                "l_shoulder_raw_motor_2"@,
                "l_elbow_raw_motor_1"@,
                "l_elbow_raw_motor_2"@,
                "l_wrist_raw_motor_1"@,
                "l_wrist_raw_motor_2"@,
                "l_wrist_raw_motor_3"@,
            ],
        )
    } else if part == "neck"@ || part == "head"@ {
        Some(seq!["neck_raw_motor_1"@, "neck_raw_motor_2"@, "neck_raw_motor_3"@])
    } else if part == "r_hand"@ {
        Some(seq!["r_hand_raw_motor_1"@])
    } else if part == "l_hand"@ {
        Some(seq!["l_hand_raw_motor_1"@])
    } else if part == "antenna_left"@ {
        Some(seq!["antenna_left_raw_motor"@])
    } else if part == "antenna_right"@ {
        Some(seq!["antenna_right_raw_motor"@])
    } else {
        None
    }
}

/// One value for one interface of each of some joints.
pub open spec fn joint_message(joints: Seq<Seq<char>>, interface: Seq<char>, value: u64) ->
    DynamicJointStateView {
    DynamicJointStateView {
        joint_names: joints,
        interface_values: Seq::new(
            joints.len(),
            |i: int| InterfaceValueView { interface_names: seq![interface], values: seq![value] },
        ),
    }
}

/// The part that a command is about.
pub open spec fn part_of(command: Ros2Command) -> Seq<char> {
    match command {
        Ros2Command::PublishTorque { part, .. } => part@,
        Ros2Command::PublishTorqueLimit { part, .. } => part@,
        Ros2Command::PublishSpeedLimit { part, .. } => part@,
    }
}

/// The message that a command leads to, were it about `part`. Torque is 1.0 when on and 0.0
/// when off.
pub open spec fn message_for(command: Ros2Command, part: Seq<char>) -> Option<
    DynamicJointStateView,
> {
    match command {
        Ros2Command::PublishTorque { enabled, .. } => match torque_joints(part) {
            Some(joints) => Some(
                joint_message(
                    joints,
                    "torque"@,
                    if enabled {
                        0x3FF0_0000_0000_0000
                    } else {
                        0
                    },
                ),
            ),
            None => None,
        },
        Ros2Command::PublishTorqueLimit { value, .. } => match limit_joints(part) {
            Some(joints) => Some(joint_message(joints, "torque_limit"@, value)),
            None => None,
        },
        Ros2Command::PublishSpeedLimit { value, .. } => match limit_joints(part) {
            Some(joints) => Some(joint_message(joints, "speed_limit"@, value)),
            None => None,
        },
    }
}

/// Milliseconds to wait after a message about a part: arms take longer.
pub open spec fn pause_after(part: Seq<char>) -> u64 {
    if part == "l_arm"@ || part == "r_arm"@ {
        100
    } else {
        0
    }
}

fn owned(names: &[&str]) -> (r: Vec<String>)
    ensures
        r.deep_view() == names@.map_values(|name: &str| name@),
{
    let mut out: Vec<String> = Vec::new();
    let mut i: usize = 0;
    while i < names.len()
        invariant
            i <= names.len(),
            out.len() == i,
            forall|j: int| 0 <= j < i ==> (#[trigger] out@[j])@ == names@[j]@,
        decreases names.len() - i,
    {
        out.push(names[i].to_owned());
        i = i + 1;
    }
    assert(out.deep_view() =~= names@.map_values(|name: &str| name@));
    out
}

fn torque_joint_names(part: &str) -> (r: Option<Vec<String>>)
    ensures
        r.deep_view() == torque_joints(part@),
{
    let names: Option<Vec<String>> = if same_text(part, "r_arm") {
        Some(owned(&["r_shoulder", "r_elbow", "r_wrist"]))
    } else if same_text(part, "l_arm") {
        Some(owned(&["l_shoulder", "l_elbow", "l_wrist"]))
    } else if same_text(part, "neck") || same_text(part, "head") {
        Some(owned(&["neck"]))
    } else if same_text(part, "r_hand") {
        Some(owned(&["r_hand"]))
    } else if same_text(part, "l_hand") {
        Some(owned(&["l_hand"]))
    } else if same_text(part, "antenna_left") {
        Some(owned(&["antenna_left"]))
    } else if same_text(part, "antenna_right") {
        Some(owned(&["antenna_right"]))
    } else {
        None
    };
    proof {
        if names is Some {
            assert(names->0.deep_view() =~= torque_joints(part@)->0);
        }
    }
    names
}

fn limit_joint_names(part: &str) -> (r: Option<Vec<String>>)
    ensures
        r.deep_view() == limit_joints(part@),
{
    let names: Option<Vec<String>> = if same_text(part, "r_arm") {
        Some(
            owned(
                &[
                    "r_shoulder_raw_motor_1",
                    "r_shoulder_raw_motor_2",
                    "r_elbow_raw_motor_1",
                    "r_elbow_raw_motor_2",
                    "r_wrist_raw_motor_1",
                    "r_wrist_raw_motor_2",
                    "r_wrist_raw_motor_3",
                ],
            ),
        )
    } else if same_text(part, "l_arm") {
        Some(
            owned(
                &[
                    "l_shoulder_raw_motor_1",
                    "l_shoulder_raw_motor_2",
                    "l_elbow_raw_motor_1",
                    "l_elbow_raw_motor_2",
                    "l_wrist_raw_motor_1",
                    "l_wrist_raw_motor_2",
                    "l_wrist_raw_motor_3",
                ],
            ),
        )
    } else if same_text(part, "neck") || same_text(part, "head") {
        Some(owned(&["neck_raw_motor_1", "neck_raw_motor_2", "neck_raw_motor_3"]))
    } else if same_text(part, "r_hand") {
        Some(owned(&["r_hand_raw_motor_1"]))
    } else if same_text(part, "l_hand") {
        Some(owned(&["l_hand_raw_motor_1"]))
    } else if same_text(part, "antenna_left") {
        Some(owned(&["antenna_left_raw_motor"]))
    } else if same_text(part, "antenna_right") {
        Some(owned(&["antenna_right_raw_motor"]))
    } else {
        None
    };
    proof {
        if names is Some {
            assert(names->0.deep_view() =~= limit_joints(part@)->0);
        }
    }
    names
}

/// A message with one value for one interface of each of some joints.
pub fn build_message(joints: Vec<String>, interface: &str, value: u64) -> (r: DynamicJointState)
    ensures
        r.deep_view() == joint_message(joints.deep_view(), interface@, value),
{
    let mut interface_values: Vec<InterfaceValue> = Vec::new();
    let mut i: usize = 0;
    while i < joints.len()
        invariant
            i <= joints.len(),
            interface_values.len() == i,
            forall|j: int|
                0 <= j < i ==> (#[trigger] interface_values@[j]).deep_view() == (
                InterfaceValueView { interface_names: seq![interface@], values: seq![value] }),
        decreases joints.len() - i,
    {
        let mut interface_names: Vec<String> = Vec::new();
        interface_names.push(interface.to_owned());
        let mut values: Vec<u64> = Vec::new();
        values.push(value);
        assert(interface_names.deep_view() =~= seq![interface@]);
        assert(values@ =~= seq![value]);
        interface_values.push(InterfaceValue { interface_names, values });
        i = i + 1;
    }
    assert(interface_values.deep_view() =~= joint_message(
        joints.deep_view(),
        interface@,
        value,
    ).interface_values);
    DynamicJointState { joint_names: joints, interface_values }
}

/// The way to the publishing thread.
#[derive(Debug)]
pub struct Ros2Publisher {}

impl Ros2Publisher {
    /// The name of the node.
    pub fn node_name() -> (r: &'static str)
        ensures
            r@ == "webrtc_bridge_publisher"@,
    {
        "webrtc_bridge_publisher"
    }

    /// Where messages are published.
    pub fn topic() -> (r: &'static str)
        ensures
            r@ == "/dynamic_joint_commands"@,
    {
        "/dynamic_joint_commands"
    }

    /// A command to turn the torque of a part on or off.
    pub fn publish_torque(part: &str, enabled: bool) -> (r: Ros2Command)
        ensures
            r matches Ros2Command::PublishTorque { part: p, enabled: e } && p@ == part@ && e
                == enabled,
    {
        Ros2Command::PublishTorque { part: part.to_owned(), enabled }
    }

    /// A command to limit the torque of a part, for all of its motors.
    pub fn publish_torque_limit(part: &str, value: u64) -> (r: Ros2Command)
        ensures
            r matches Ros2Command::PublishTorqueLimit { part: p, value: v } && p@ == part@ && v
                == value,
    {
        Ros2Command::PublishTorqueLimit { part: part.to_owned(), value }
    }

    /// A command to limit the speed of a part, for all of its motors.
    pub fn publish_speed_limit(part: &str, value: u64) -> (r: Ros2Command)
        ensures
            r matches Ros2Command::PublishSpeedLimit { part: p, value: v } && p@ == part@ && v
                == value,
    {
        Ros2Command::PublishSpeedLimit { part: part.to_owned(), value }
    }

    /// What the publishing thread does with a command.
    pub fn process(command: Ros2Command) -> (r: PublishStep)
        ensures
            r.message.deep_view() == message_for(command, part_of(command)),
            r.pause == if r.message is Some {
                pause_after(part_of(command))
            } else {
                0
            },
    {
        let ghost given = command;
        let (part, message) = match command {
            Ros2Command::PublishTorque { part, enabled } => {
                let value: u64 = if enabled {
                    0x3FF0_0000_0000_0000
                } else {
                    0
                };
                let message = match torque_joint_names(part.as_str()) {
                    Some(joints) => Some(build_message(joints, "torque", value)),
                    None => None,
                };
                (part, message)
            },
            Ros2Command::PublishTorqueLimit { part, value } => {
                let message = match limit_joint_names(part.as_str()) {
                    Some(joints) => Some(build_message(joints, "torque_limit", value)),
                    None => None,
                };
                (part, message)
            },
            Ros2Command::PublishSpeedLimit { part, value } => {
                let message = match limit_joint_names(part.as_str()) {
                    Some(joints) => Some(build_message(joints, "speed_limit", value)),
                    None => None,
                };
                (part, message)
            },
        };
        assert(part@ == part_of(given));
        let is_arm: bool = same_text(part.as_str(), "l_arm") || same_text(part.as_str(), "r_arm");
        let pause: u64 = match message {
            Some(_) => if is_arm {
                100
            } else {
                0
            },
            None => 0,
        };
        PublishStep { message, pause }
    }
}

/// The head is the neck: a command about the one leads to the same message as a command about
/// the other.
pub proof fn lemma_head_is_neck(command: Ros2Command)
    ensures
        message_for(command, "head"@) == message_for(command, "neck"@),
        message_for(command, "head"@) is Some,
{
    reveal_strlit("head");
    reveal_strlit("neck");
    reveal_strlit("r_arm");
    reveal_strlit("l_arm");
    assert("head"@[0] != "r_arm"@[0] && "head"@[0] != "l_arm"@[0]);
    assert("neck"@[0] != "r_arm"@[0] && "neck"@[0] != "l_arm"@[0]);
}

/// A part has a torque if and only if it has limits.
pub proof fn lemma_same_parts(part: Seq<char>)
    ensures
        torque_joints(part) is Some <==> limit_joints(part) is Some,
{
}

/// A message says one value of each joint that it names.
pub proof fn lemma_one_value_per_joint(joints: Seq<Seq<char>>, interface: Seq<char>, value: u64)
    ensures
        ({
            let message = joint_message(joints, interface, value);
            &&& message.joint_names == joints
            &&& message.interface_values.len() == joints.len()
            &&& forall|i: int|
                0 <= i < joints.len() ==> {
                    let said = #[trigger] message.interface_values[i];
                    said.interface_names == seq![interface] && said.values == seq![value]
                }
        }),
{
}

/// The part to which a joint belongs, by the letters of its name: `l_` and `r_` are the sides,
/// and what is neither a hand, nor the neck, nor an antenna is of an arm.
spec fn owner(joint: Seq<char>) -> (char, char) {
    if joint[0] == 'n' {
        ('n', 'n')
    } else if joint[0] == 'a' {
        ('a', joint[8])
    } else if joint[2] == 'h' {
        (joint[0], 'h')
    } else {
        (joint[0], 'a')
    }
}

/// The part as `owner` names it.
spec fn owner_of_part(part: Seq<char>) -> (char, char) {
    if part == "r_arm"@ {
        ('r', 'a')
    } else if part == "l_arm"@ {
        ('l', 'a')
    } else if part == "neck"@ || part == "head"@ {
        ('n', 'n')
    } else if part == "r_hand"@ {
        ('r', 'h')
    } else if part == "l_hand"@ {
        ('l', 'h')
    } else if part == "antenna_left"@ {
        ('a', 'l')
    } else {
        ('a', 'r')
    }
}

proof fn lemma_torque_owners(part: Seq<char>)
    requires
        torque_joints(part) is Some,
    ensures
        forall|i: int|
            0 <= i < torque_joints(part)->0.len() ==> owner(#[trigger] torque_joints(part)->0[i])
                == owner_of_part(part) && torque_joints(part)->0[i].len() > 2,
{
    reveal_strlit("r_shoulder");
    reveal_strlit("r_elbow");
    reveal_strlit("r_wrist");
    reveal_strlit("l_shoulder");
    reveal_strlit("l_elbow");
    reveal_strlit("l_wrist");
    reveal_strlit("neck");
    reveal_strlit("r_hand");
    reveal_strlit("l_hand");
    reveal_strlit("antenna_left");
    reveal_strlit("antenna_right");
}

proof fn lemma_limit_owners(part: Seq<char>)
    requires
        limit_joints(part) is Some,
    ensures
        forall|i: int|
            0 <= i < limit_joints(part)->0.len() ==> owner(#[trigger] limit_joints(part)->0[i])
                == owner_of_part(part) && limit_joints(part)->0[i].len() > 2,
{
    reveal_strlit("r_shoulder_raw_motor_1");
    reveal_strlit("r_shoulder_raw_motor_2");
    reveal_strlit("r_elbow_raw_motor_1");
    reveal_strlit("r_elbow_raw_motor_2");
    reveal_strlit("r_wrist_raw_motor_1");
    reveal_strlit("r_wrist_raw_motor_2");
    reveal_strlit("r_wrist_raw_motor_3");
    reveal_strlit("l_shoulder_raw_motor_1");
    reveal_strlit("l_shoulder_raw_motor_2");
    reveal_strlit("l_elbow_raw_motor_1");
    reveal_strlit("l_elbow_raw_motor_2");
    reveal_strlit("l_wrist_raw_motor_1");
    reveal_strlit("l_wrist_raw_motor_2");
    reveal_strlit("l_wrist_raw_motor_3");
    reveal_strlit("neck_raw_motor_1");
    reveal_strlit("neck_raw_motor_2");
    reveal_strlit("neck_raw_motor_3");
    reveal_strlit("r_hand_raw_motor_1");
    reveal_strlit("l_hand_raw_motor_1");
    reveal_strlit("antenna_left_raw_motor");
    reveal_strlit("antenna_right_raw_motor");
}

/// No joint belongs to two parts, but that the head is the neck.
pub proof fn lemma_parts_share_no_joint(part: Seq<char>, other: Seq<char>)
    requires
        part != other,
        !(part == "head"@ && other == "neck"@),
        !(part == "neck"@ && other == "head"@),
    ensures
        torque_joints(part) matches Some(a) ==> torque_joints(other) matches Some(b)
            ==> forall|i: int, j: int|
            0 <= i < a.len() && 0 <= j < b.len() ==> #[trigger] a[i] != #[trigger] b[j],
        limit_joints(part) matches Some(a) ==> limit_joints(other) matches Some(b)
            ==> forall|i: int, j: int|
            0 <= i < a.len() && 0 <= j < b.len() ==> #[trigger] a[i] != #[trigger] b[j],
{
    if torque_joints(part) is Some && torque_joints(other) is Some {
        lemma_torque_owners(part);
        lemma_torque_owners(other);
        assert(owner_of_part(part) != owner_of_part(other));
    }
    if limit_joints(part) is Some && limit_joints(other) is Some {
        lemma_limit_owners(part);
        lemma_limit_owners(other);
        assert(owner_of_part(part) != owner_of_part(other));
    }
}

/// The joints of the left arm and hand begin with `l_`, those of the right arm and hand with
/// `r_`.
pub proof fn lemma_sides(part: Seq<char>, i: int)
    ensures
        part == "l_arm"@ || part == "l_hand"@ ==> {
            &&& torque_joints(part) matches Some(joints) && (0 <= i < joints.len()
                ==> joints[i].len() > 2 && joints[i][0] == 'l' && joints[i][1] == '_')
            &&& limit_joints(part) matches Some(joints) && (0 <= i < joints.len()
                ==> joints[i].len() > 2 && joints[i][0] == 'l' && joints[i][1] == '_')
        },
        part == "r_arm"@ || part == "r_hand"@ ==> {
            &&& torque_joints(part) matches Some(joints) && (0 <= i < joints.len()
                ==> joints[i].len() > 2 && joints[i][0] == 'r' && joints[i][1] == '_')
            &&& limit_joints(part) matches Some(joints) && (0 <= i < joints.len()
                ==> joints[i].len() > 2 && joints[i][0] == 'r' && joints[i][1] == '_')
        },
{
    lemma_part_names();
    if part == "l_arm"@ || part == "l_hand"@ || part == "r_arm"@ || part == "r_hand"@ {
        reveal_strlit("r_shoulder");
        reveal_strlit("r_elbow");
        reveal_strlit("r_wrist");
        reveal_strlit("l_shoulder");
        reveal_strlit("l_elbow");
        reveal_strlit("l_wrist");
        reveal_strlit("r_shoulder_raw_motor_1");
        reveal_strlit("r_shoulder_raw_motor_2");
        reveal_strlit("r_elbow_raw_motor_1");
        reveal_strlit("r_elbow_raw_motor_2");
        reveal_strlit("r_wrist_raw_motor_1");
        reveal_strlit("r_wrist_raw_motor_2");
        reveal_strlit("r_wrist_raw_motor_3");
        reveal_strlit("l_shoulder_raw_motor_1");
        reveal_strlit("l_shoulder_raw_motor_2");
        reveal_strlit("l_elbow_raw_motor_1");
        reveal_strlit("l_elbow_raw_motor_2");
        reveal_strlit("l_wrist_raw_motor_1");
        reveal_strlit("l_wrist_raw_motor_2");
        reveal_strlit("l_wrist_raw_motor_3");
        reveal_strlit("r_hand_raw_motor_1");
        reveal_strlit("l_hand_raw_motor_1");
        reveal_strlit("r_hand");
        reveal_strlit("l_hand");
    }
}

proof fn lemma_part_names()
    ensures
        "r_arm"@ != "l_arm"@,
        "r_arm"@ != "neck"@,
        "r_arm"@ != "head"@,
        "r_arm"@ != "r_hand"@,
        "r_arm"@ != "l_hand"@,
        "r_arm"@ != "antenna_left"@,
        "r_arm"@ != "antenna_right"@,
        "l_arm"@ != "neck"@,
        "l_arm"@ != "head"@,
        "l_arm"@ != "r_hand"@,
        "l_arm"@ != "l_hand"@,
        "l_arm"@ != "antenna_left"@,
        "l_arm"@ != "antenna_right"@,
        "neck"@ != "r_hand"@,
        "neck"@ != "l_hand"@,
        "neck"@ != "antenna_left"@,
        "neck"@ != "antenna_right"@,
        "head"@ != "r_hand"@,
        "head"@ != "l_hand"@,
        "head"@ != "antenna_left"@,
        "head"@ != "antenna_right"@,
        "r_hand"@ != "l_hand"@,
        "r_hand"@ != "antenna_left"@,
        "r_hand"@ != "antenna_right"@,
        "l_hand"@ != "antenna_left"@,
        "l_hand"@ != "antenna_right"@,
        "antenna_left"@ != "antenna_right"@,
        "r_arm"@.len() == 5,
        "l_arm"@.len() == 5,
        "neck"@.len() == 4,
        "head"@.len() == 4,
        "r_hand"@[0] == 'r',
        "l_hand"@[0] == 'l',
{
    reveal_strlit("r_arm");
    reveal_strlit("l_arm");
    reveal_strlit("neck");
    reveal_strlit("head");
    reveal_strlit("r_hand");
    reveal_strlit("l_hand");
    reveal_strlit("antenna_left");
    reveal_strlit("antenna_right");
    assert("r_arm"@[0] != "l_arm"@[0]);
    assert("r_hand"@[0] != "l_hand"@[0]);
    assert("r_hand"@.len() == 6 && "l_hand"@.len() == 6);
    assert("antenna_left"@.len() == 12 && "antenna_right"@.len() == 13);
}

/// The joints that carry the torque of each part: three of an arm, and the part itself for every
/// other.
pub proof fn lemma_torque_table()
    ensures
        torque_joints("r_arm"@) == Some(seq!["r_shoulder"@, "r_elbow"@, "r_wrist"@]),
        torque_joints("l_arm"@) == Some(seq!["l_shoulder"@, "l_elbow"@, "l_wrist"@]),
        torque_joints("neck"@) == Some(seq!["neck"@]),
        torque_joints("head"@) == Some(seq!["neck"@]),
        torque_joints("r_hand"@) == Some(seq!["r_hand"@]),
        torque_joints("l_hand"@) == Some(seq!["l_hand"@]),
        torque_joints("antenna_left"@) == Some(seq!["antenna_left"@]),
        torque_joints("antenna_right"@) == Some(seq!["antenna_right"@]),
{
    lemma_part_names();
}

/// The motors that carry the limits of each part: seven of an arm, three of the neck, one of
/// every other.
pub proof fn lemma_limit_table()
    ensures
        limit_joints("r_arm"@) == Some(
            seq![
                "r_shoulder_raw_motor_1"@,
                "r_shoulder_raw_motor_2"@,
                "r_elbow_raw_motor_1"@,
                "r_elbow_raw_motor_2"@,
                "r_wrist_raw_motor_1"@,
                "r_wrist_raw_motor_2"@,
                "r_wrist_raw_motor_3"@,
            ],
        ),
        limit_joints("l_arm"@) == Some(
            seq![
                "l_shoulder_raw_motor_1"@,
                "l_shoulder_raw_motor_2"@,
                "l_elbow_raw_motor_1"@,
                "l_elbow_raw_motor_2"@,
                "l_wrist_raw_motor_1"@,
                "l_wrist_raw_motor_2"@,
                "l_wrist_raw_motor_3"@,
            ],
        ),
        limit_joints("neck"@) == Some(
            seq!["neck_raw_motor_1"@, "neck_raw_motor_2"@, "neck_raw_motor_3"@],
        ),
        limit_joints("head"@) == limit_joints("neck"@),
        limit_joints("r_hand"@) == Some(seq!["r_hand_raw_motor_1"@]),
        limit_joints("l_hand"@) == Some(seq!["l_hand_raw_motor_1"@]),
        limit_joints("antenna_left"@) == Some(seq!["antenna_left_raw_motor"@]),
        limit_joints("antenna_right"@) == Some(seq!["antenna_right_raw_motor"@]),
{
    lemma_part_names();
}

/// A part has joints if and only if it is one of the eight names.
pub proof fn lemma_known_parts(part: Seq<char>)
    ensures
        torque_joints(part) is Some <==> part == "r_arm"@ || part == "l_arm"@ || part == "neck"@
            || part == "head"@ || part == "r_hand"@ || part == "l_hand"@ || part
            == "antenna_left"@ || part == "antenna_right"@,
{
}

/// Turning the torque of a known part on says 1.0 of the torque of each of its joints, turning it
/// off says 0.0; a limit says its value of each motor, under the name of the limit. Nothing is
/// said about an unknown part.
pub proof fn lemma_what_messages_say(part: Seq<char>, name: String, enabled: bool, value: u64, i: int)
    ensures
        torque_joints(part) matches Some(joints) ==> message_for(
            Ros2Command::PublishTorque { part: name, enabled },
            part,
        ) matches Some(m) && m.joint_names == joints && m.interface_values.len() == joints.len()
            && (0 <= i < joints.len() ==> m.interface_values[i].interface_names == seq!["torque"@]
            && m.interface_values[i].values == seq![
            if enabled {
                0x3FF0_0000_0000_0000u64
            } else {
                0u64
            },
        ]),
        limit_joints(part) matches Some(joints) ==> message_for(
            Ros2Command::PublishTorqueLimit { part: name, value },
            part,
        ) matches Some(m) && m.joint_names == joints && m.interface_values.len() == joints.len()
            && (0 <= i < joints.len() ==> m.interface_values[i].interface_names == seq![
            "torque_limit"@,
        ] && m.interface_values[i].values == seq![value]),
        limit_joints(part) matches Some(joints) ==> message_for(
            Ros2Command::PublishSpeedLimit { part: name, value },
            part,
        ) matches Some(m) && m.joint_names == joints && m.interface_values.len() == joints.len()
            && (0 <= i < joints.len() ==> m.interface_values[i].interface_names == seq![
            "speed_limit"@,
        ] && m.interface_values[i].values == seq![value]),
        torque_joints(part) is None ==> message_for(
            Ros2Command::PublishTorque { part: name, enabled },
            part,
        ) is None && message_for(Ros2Command::PublishTorqueLimit { part: name, value }, part)
            is None && message_for(Ros2Command::PublishSpeedLimit { part: name, value }, part)
            is None,
        part_of(Ros2Command::PublishTorque { part: name, enabled }) == name@,
        part_of(Ros2Command::PublishTorqueLimit { part: name, value }) == name@,
        part_of(Ros2Command::PublishSpeedLimit { part: name, value }) == name@,
{
    lemma_same_parts(part);
}

/// Arms are given a tenth of a second; no other part is waited for.
pub proof fn lemma_pauses(part: Seq<char>)
    ensures
        pause_after(part) == 100 <==> part == "l_arm"@ || part == "r_arm"@,
        pause_after(part) == 0 <==> !(part == "l_arm"@ || part == "r_arm"@),
{
}

/// What is said of a message are its joints and, joint by joint, its interfaces and values.
pub proof fn lemma_message_view(message: DynamicJointState, i: int)
    requires
        0 <= i < message.interface_values@.len(),
    ensures
        message.deep_view().joint_names == message.joint_names.deep_view(),
        message.deep_view().interface_values.len() == message.interface_values@.len(),
        message.deep_view().interface_values[i].interface_names
            == message.interface_values@[i].interface_names.deep_view(),
        message.deep_view().interface_values[i].values == message.interface_values@[i].values@,
{
}

/// Ten messages are kept, and the node spins for three times ten milliseconds.
pub proof fn lemma_delivery()
    ensures
        KEPT_MESSAGES == 10,
        SPINS == 3,
        SPIN_TIME == 10,
{
}

/// A command that is published is carried out on the part that it was made for: with torque on
/// or off on the joints of the part, or with a limit on its motors.
pub proof fn lemma_published_commands(
    part: &str,
    enabled: bool,
    value: u64,
    torque: Ros2Command,
    torque_limit: Ros2Command,
    speed_limit: Ros2Command,
)
    requires
        call_ensures(Ros2Publisher::publish_torque, (part, enabled), torque),
        call_ensures(Ros2Publisher::publish_torque_limit, (part, value), torque_limit),
        call_ensures(Ros2Publisher::publish_speed_limit, (part, value), speed_limit),
    ensures
        part_of(torque) == part@,
        part_of(torque_limit) == part@,
        part_of(speed_limit) == part@,
        message_for(torque, part@) == match torque_joints(part@) {
            Some(joints) => Some(
                joint_message(
                    joints,
                    "torque"@,
                    if enabled {
                        0x3FF0_0000_0000_0000u64
                    } else {
                        0u64
                    },
                ),
            ),
            None => None,
        },
        message_for(torque_limit, part@) == match limit_joints(part@) {
            Some(joints) => Some(joint_message(joints, "torque_limit"@, value)),
            None => None,
        },
        message_for(speed_limit, part@) == match limit_joints(part@) {
            Some(joints) => Some(joint_message(joints, "speed_limit"@, value)),
            None => None,
        },
{
}

} // verus!
