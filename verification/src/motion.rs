//! The commands that the client sends.
//!
//! Numbers in poses are IEEE 754 binary64 patterns, durations binary32 patterns.
use crate::commands;
use crate::commands::{
    AnyCommand, AnyCommands, ArmCommand, Command, HandCommand, MobileBaseCommand, NeckCommand,
};
use crate::grpc_client;
use crate::grpc_client::{GrpcCall, GrpcMethod};
use crate::messages;
use crate::messages::{ArmCartesianGoal, LimitRequest, Message, Part, PartId, Reachy, ZuuuModeCommand};
use crate::text::same_text;
use vstd::prelude::*;

verus! {

/// 1.0
pub const ONE: u64 = 0x3FF0_0000_0000_0000;

/// -1.0
pub const MINUS_ONE: u64 = 0xBFF0_0000_0000_0000;

/// 0.001
pub const P001: u64 = 0x3F50_624D_D2F1_A9FC;

/// -0.001
pub const M001: u64 = 0xBF50_624D_D2F1_A9FC;

/// 0.015
pub const P015: u64 = 0x3F8E_B851_EB85_1EB8;

/// -0.015
pub const M015: u64 = 0xBF8E_B851_EB85_1EB8;

/// 0.022
pub const P022: u64 = 0x3F96_872B_020C_49BA;

/// 0.996
pub const P996: u64 = 0x3FEF_DF3B_645A_1CAC;

/// 0.086
pub const P086: u64 = 0x3FB6_0418_9374_BC6A;

/// -0.086
pub const M086: u64 = 0xBFB6_0418_9374_BC6A;

/// 0.252
pub const P252: u64 = 0x3FD0_20C4_9BA5_E354;

/// -0.252
pub const M252: u64 = 0xBFD0_20C4_9BA5_E354;

/// -0.608, the height of the hands in the posture.
pub const POSTURE_HEIGHT: u64 = 0xBFE3_74BC_6A7E_F9DB;

/// One second.
pub const ONE_SECOND: u32 = 0x3F80_0000;

/// The mode in which the mobile base takes directions.
pub const CMD_VEL: i32 = 1;

/// The mode in which the mobile base rolls freely.
pub const FREE_WHEEL: i32 = 3;

/// The number of a part that has limits.
pub open spec fn part_number(name: Seq<char>) -> Option<u32> {
    if name == "r_arm"@ {
        Some(1)
    } else if name == "l_arm"@ {
        Some(2)
    } else if name == "head"@ {
        Some(3)
    } else {
        None
    }
}

/// A limit for a part.
pub open spec fn limit_of(id: u32, name: Seq<char>, limit: u32) -> messages::LimitRequestView {
    messages::LimitRequestView { id: Some(messages::PartIdView { id, name }), limit }
}

/// The command that limits the speed of a part; none for a part without limits.
pub open spec fn speed_limit(name: Seq<char>, limit: u32) -> Option<
    AnyCommand<messages::MessageView>,
> {
    match part_number(name) {
        Some(id) => {
            let request = Some(messages::MessageView::SpeedLimit(limit_of(id, name, limit)));
            Some(
                AnyCommand {
                    command: Some(
                        if id == 3 {
                            Command::NeckCommand(
                                NeckCommand {
                                    speed_limit: request,
                                    ..commands::no_neck_command()
                                },
                            )
                        } else {
                            Command::ArmCommand(
                                ArmCommand {
                                    speed_limit: request,
                                    ..commands::no_arm_command()
                                },
                            )
                        },
                    ),
                },
            )
        },
        None => None,
    }
}

/// The command that limits the torque of a part; none for a part without limits.
pub open spec fn torque_limit(name: Seq<char>, limit: u32) -> Option<
    AnyCommand<messages::MessageView>,
> {
    match part_number(name) {
        Some(id) => {
            let request = Some(messages::MessageView::TorqueLimit(limit_of(id, name, limit)));
            Some(
                AnyCommand {
                    command: Some(
                        if id == 3 {
                            Command::NeckCommand(
                                NeckCommand {
                                    torque_limit: request,
                                    ..commands::no_neck_command()
                                },
                            )
                        } else {
                            Command::ArmCommand(
                                ArmCommand {
                                    torque_limit: request,
                                    ..commands::no_arm_command()
                                },
                            )
                        },
                    ),
                },
            )
        },
        None => None,
    }
}

/// A command in a message of its own.
pub open spec fn alone(cmd: Option<AnyCommand<messages::MessageView>>) -> Seq<
    Seq<AnyCommand<messages::MessageView>>,
> {
    match cmd {
        Some(cmd) => seq![seq![cmd]],
        None => Seq::empty(),
    }
}

/// A command that brings a hand to a pose.
pub open spec fn goal(
    id: Option<messages::PartIdView>,
    pose: Seq<u64>,
    duration: Option<u32>,
) -> AnyCommand<messages::MessageView> {
    AnyCommand {
        command: Some(
            Command::ArmCommand(
                ArmCommand {
                    arm_cartesian_goal: Some(
                        messages::MessageView::ArmCartesianGoal(
                            messages::ArmCartesianGoalView { id, goal_pose: Some(pose), duration },
                        ),
                    ),
                    ..commands::no_arm_command()
                },
            ),
        ),
    }
}

/// The identifier of an arm.
pub open spec fn arm_id(name: Seq<char>) -> Option<messages::PartIdView> {
    match part_number(name) {
        Some(id) => Some(messages::PartIdView { id, name }),
        None => None,
    }
}

/// The pose of the left hand in the posture, at some height.
pub open spec fn left_posture(z: u64) -> Seq<u64> {
    seq![
        ONE, M001, M015, P022,
        M001, P996, M086, P252,
        P015, P086, P996, z,
        0, 0, 0, ONE,
    ]
}

/// The pose of the right hand in the posture, at some height.
pub open spec fn right_posture(z: u64) -> Seq<u64> {
    seq![
        ONE, P001, M015, P022,
        P001, P996, P086, M252,
        P015, M086, P996, z,
        0, 0, 0, ONE,
    ]
}

/// A point of the circle as a pose.
pub open spec fn circle_pose(x: u64, y: u64, z: u64) -> Seq<u64> {
    seq![
        0, 0, MINUS_ONE, x,
        0, ONE, 0, y,
        ONE, 0, 0, z,
        0, 0, 0, ONE,
    ]
}

/// The robot has all parts that are turned on and off.
pub open spec fn has_parts(reachy: Reachy) -> bool {
    &&& reachy.l_arm is Some
    &&& reachy.r_arm is Some
    &&& reachy.head is Some
    &&& reachy.l_hand is Some
    &&& reachy.r_hand is Some
    &&& reachy.mobile_base is Some
}

/// The identifier of a part as a message.
pub open spec fn id_of(part: Option<Part>) -> Option<messages::MessageView> {
    match part->0.part_id.deep_view() {
        Some(id) => Some(messages::MessageView::PartId(id)),
        None => None,
    }
}

/// The command that turns an arm on or off.
pub open spec fn arm_power(part: Option<Part>, on: bool) -> AnyCommand<messages::MessageView> {
    AnyCommand {
        command: Some(
            Command::ArmCommand(
                if on {
                    ArmCommand { turn_on: id_of(part), ..commands::no_arm_command() }
                } else {
                    ArmCommand { turn_off: id_of(part), ..commands::no_arm_command() }
                },
            ),
        ),
    }
}

/// The command that turns a hand on or off.
pub open spec fn hand_power(part: Option<Part>, on: bool) -> AnyCommand<messages::MessageView> {
    AnyCommand {
        command: Some(
            Command::HandCommand(
                if on {
                    HandCommand { turn_on: id_of(part), ..commands::no_hand_command() }
                } else {
                    HandCommand { turn_off: id_of(part), ..commands::no_hand_command() }
                },
            ),
        ),
    }
}

/// The command that turns the neck on or off.
pub open spec fn neck_power(part: Option<Part>, on: bool) -> AnyCommand<messages::MessageView> {
    AnyCommand {
        command: Some(
            Command::NeckCommand(
                if on {
                    NeckCommand { turn_on: id_of(part), ..commands::no_neck_command() }
                } else {
                    NeckCommand { turn_off: id_of(part), ..commands::no_neck_command() }
                },
            ),
        ),
    }
}

/// The command that turns the mobile base on or off.
pub open spec fn base_power(part: Option<Part>, on: bool) -> AnyCommand<messages::MessageView> {
    AnyCommand {
        command: Some(
            Command::MobileBaseCommand(
                MobileBaseCommand {
                    mobile_base_mode: Some(
                        messages::MessageView::ZuuuMode(
                            messages::ZuuuModeCommandView {
                                id: part->0.part_id.deep_view(),
                                mode: if on {
                                    CMD_VEL
                                } else {
                                    FREE_WHEEL
                                },
                            },
                        ),
                    ),
                    ..commands::no_mobile_base_command()
                },
            ),
        ),
    }
}

/// The messages that turn a robot on or off, one for each part; none for an unknown robot.
pub open spec fn power(reachy: Option<Reachy>, on: bool) -> Seq<
    Seq<AnyCommand<messages::MessageView>>,
> {
    match reachy {
        Some(reachy) => seq![
            seq![arm_power(reachy.l_arm, on)],
            seq![arm_power(reachy.r_arm, on)],
            seq![neck_power(reachy.head, on)],
            seq![hand_power(reachy.l_hand, on)],
            seq![hand_power(reachy.r_hand, on)],
            seq![base_power(reachy.mobile_base, on)],
        ],
        None => Seq::empty(),
    }
}

/// What is sent when commands can be: slow arms, a free head, torque at the full.
pub open spec fn greeting(reachy: Option<Reachy>) -> Seq<Seq<AnyCommand<messages::MessageView>>> {
    alone(speed_limit("l_arm"@, 10)) + alone(speed_limit("r_arm"@, 10)) + alone(
        speed_limit("head"@, 100),
    ) + power(reachy, true) + alone(torque_limit("l_arm"@, 100)) + alone(
        torque_limit("r_arm"@, 100),
    ) + alone(torque_limit("head"@, 100))
}

/// What is sent when the arms have reached the posture: full speed.
pub open spec fn release() -> Seq<Seq<AnyCommand<messages::MessageView>>> {
    alone(speed_limit("l_arm"@, 100)) + alone(speed_limit("r_arm"@, 100))
}

/// What is sent when the motion is over: arms that give way and slow down, then no power.
pub open spec fn farewell(reachy: Option<Reachy>) -> Seq<Seq<AnyCommand<messages::MessageView>>> {
    alone(torque_limit("l_arm"@, 35)) + alone(torque_limit("r_arm"@, 35)) + alone(
        speed_limit("l_arm"@, 10),
    ) + alone(speed_limit("r_arm"@, 10)) + alone(torque_limit("l_arm"@, 25)) + alone(
        torque_limit("r_arm"@, 25),
    ) + alone(speed_limit("l_arm"@, 15)) + alone(speed_limit("r_arm"@, 15)) + alone(
        speed_limit("l_arm"@, 5),
    ) + alone(speed_limit("r_arm"@, 5)) + power(reachy, false)
}

fn limited_part(part_name: &str) -> (r: Option<u32>)
    ensures
        r == part_number(part_name@),
{
    if same_text(part_name, "r_arm") {
        Some(1)
    } else if same_text(part_name, "l_arm") {
        Some(2)
    } else if same_text(part_name, "head") {
        Some(3)
    } else {
        None
    }
}

/// The command that limits the speed of a part; none for a part without limits.
pub fn speed_limit_command(part_name: &str, limit: u32) -> (r: Option<AnyCommand<Message>>)
    ensures
        r.deep_view() == speed_limit(part_name@, limit),
{
    match limited_part(part_name) {
        Some(id) => {
            let request = Some(
                Message::SpeedLimit(
                    LimitRequest { id: Some(PartId { id, name: part_name.to_owned() }), limit },
                ),
            );
            let command = if id == 3 {
                Command::NeckCommand(NeckCommand { speed_limit: request, ..Default::default() })
            } else {
                Command::ArmCommand(ArmCommand { speed_limit: request, ..Default::default() })
            };
            Some(AnyCommand { command: Some(command) })
        },
        None => None,
    }
}

/// The command that limits the torque of a part; none for a part without limits.
pub fn torque_limit_command(part_name: &str, limit: u32) -> (r: Option<AnyCommand<Message>>)
    ensures
        r.deep_view() == torque_limit(part_name@, limit),
{
    match limited_part(part_name) {
        Some(id) => {
            let request = Some(
                Message::TorqueLimit(
                    LimitRequest { id: Some(PartId { id, name: part_name.to_owned() }), limit },
                ),
            );
            let command = if id == 3 {
                Command::NeckCommand(NeckCommand { torque_limit: request, ..Default::default() })
            } else {
                Command::ArmCommand(ArmCommand { torque_limit: request, ..Default::default() })
            };
            Some(AnyCommand { command: Some(command) })
        },
        None => None,
    }
}

fn goal_command(id: Option<PartId>, pose: Vec<u64>, duration: Option<u32>) -> (r: AnyCommand<
    Message,
>)
    ensures
        r.deep_view() == goal(id.deep_view(), pose@, duration),
{
    assert(pose.deep_view() =~= pose@);
    AnyCommand {
        command: Some(
            Command::ArmCommand(
                ArmCommand {
                    arm_cartesian_goal: Some(
                        Message::ArmCartesianGoal(
                            ArmCartesianGoal { id, goal_pose: Some(pose), duration },
                        ),
                    ),
                    ..Default::default()
                },
            ),
        ),
    }
}

/// The command that brings the hand of an arm to a pose.
pub fn create_cartesian_goal_command(arm_name: &str, matrix: Vec<u64>) -> (r: AnyCommand<Message>)
    requires
        arm_name@ == "l_arm"@ || arm_name@ == "r_arm"@,
    ensures
        r.deep_view() == goal(arm_id(arm_name@), matrix@, None),
{
    let id = match limited_part(arm_name) {
        Some(id) => Some(PartId { id, name: arm_name.to_owned() }),
        None => None,
    };
    goal_command(id, matrix, None)
}

/// The commands that bring both hands to the posture, at some height.
pub fn posture_commands(z: u64) -> (r: AnyCommands<Message>)
    ensures
        r.deep_view() == seq![
            goal(arm_id("l_arm"@), left_posture(z), None),
            goal(arm_id("r_arm"@), right_posture(z), None),
        ],
{
    let left: Vec<u64> = vec![
        ONE, M001, M015, P022,
        M001, P996, M086, P252,
        P015, P086, P996, z,
        0, 0, 0, ONE,
    ];
    let right: Vec<u64> = vec![
        ONE, P001, M015, P022,
        P001, P996, P086, M252,
        P015, M086, P996, z,
        0, 0, 0, ONE,
    ];
    assert(left@ =~= left_posture(z));
    assert(right@ =~= right_posture(z));
    let mut cmds: Vec<AnyCommand<Message>> = Vec::new();
    cmds.push(create_cartesian_goal_command("l_arm", left));
    cmds.push(create_cartesian_goal_command("r_arm", right));
    assert(cmds.deep_view() =~= seq![
        goal(arm_id("l_arm"@), left_posture(z), None),
        goal(arm_id("r_arm"@), right_posture(z), None),
    ]);
    AnyCommands { commands: cmds }
}

fn circle_matrix(x: u64, y: u64, z: u64) -> (r: Vec<u64>)
    ensures
        r@ == circle_pose(x, y, z),
{
    let matrix: Vec<u64> = vec![
        0, 0, MINUS_ONE, x,
        0, ONE, 0, y,
        ONE, 0, 0, z,
        0, 0, 0, ONE,
    ];
    assert(matrix@ =~= circle_pose(x, y, z));
    matrix
}

fn id_of_part(part: &Option<Part>) -> (r: Option<PartId>)
    requires
        part is Some,
    ensures
        r.deep_view() == part->0.part_id.deep_view(),
{
    match part {
        Some(Part { part_id: Some(id) }) => Some(id.clone()),
        _ => None,
    }
}

fn message_of_part(part: &Option<Part>) -> (r: Option<Message>)
    requires
        part is Some,
    ensures
        r.deep_view() == id_of(*part),
{
    match id_of_part(part) {
        Some(id) => Some(Message::PartId(id)),
        None => None,
    }
}

/// The commands that bring both hands to a point of the circle: `left_y` and `right_y` are to
/// the left, `z` is up, `x` to the front.
pub fn circle_commands(reachy: &Reachy, x: u64, left_y: u64, right_y: u64, z: u64) -> (r:
    AnyCommands<Message>)
    requires
        reachy.l_arm is Some,
        reachy.r_arm is Some,
    ensures
        r.deep_view() == seq![
            goal(
                reachy.l_arm->0.part_id.deep_view(),
                circle_pose(x, left_y, z),
                Some(ONE_SECOND),
            ),
            goal(
                reachy.r_arm->0.part_id.deep_view(),
                circle_pose(x, right_y, z),
                Some(ONE_SECOND),
            ),
        ],
{
    let mut cmds: Vec<AnyCommand<Message>> = Vec::new();
    cmds.push(
        goal_command(id_of_part(&reachy.l_arm), circle_matrix(x, left_y, z), Some(ONE_SECOND)),
    );
    cmds.push(
        goal_command(id_of_part(&reachy.r_arm), circle_matrix(x, right_y, z), Some(ONE_SECOND)),
    );
    assert(cmds.deep_view() =~= seq![
        goal(reachy.l_arm->0.part_id.deep_view(), circle_pose(x, left_y, z), Some(ONE_SECOND)),
        goal(reachy.r_arm->0.part_id.deep_view(), circle_pose(x, right_y, z), Some(ONE_SECOND)),
    ]);
    AnyCommands { commands: cmds }
}

fn single(cmd: AnyCommand<Message>) -> (r: AnyCommands<Message>)
    ensures
        r.deep_view() == seq![cmd.deep_view()],
{
    let mut cmds: Vec<AnyCommand<Message>> = Vec::new();
    cmds.push(cmd);
    assert(cmds.deep_view() =~= seq![cmd.deep_view()]);
    AnyCommands { commands: cmds }
}

fn push_alone(out: &mut Vec<AnyCommands<Message>>, cmd: Option<AnyCommand<Message>>)
    ensures
        final(out).deep_view() == old(out).deep_view() + alone(cmd.deep_view()),
{
    match cmd {
        Some(cmd) => out.push(single(cmd)),
        None => {},
    }
    assert(out.deep_view() =~= old(out).deep_view() + alone(cmd.deep_view()));
}

fn push_power(out: &mut Vec<AnyCommands<Message>>, reachy: &Option<Reachy>, on: bool)
    requires
        reachy is Some ==> has_parts(reachy->0),
    ensures
        final(out).deep_view() == old(out).deep_view() + power(*reachy, on),
{
    match reachy {
        Some(reachy) => {
            out.push(single(turn_arm(&reachy.l_arm, on)));
            out.push(single(turn_arm(&reachy.r_arm, on)));
            out.push(single(turn_neck(&reachy.head, on)));
            out.push(single(turn_hand(&reachy.l_hand, on)));
            out.push(single(turn_hand(&reachy.r_hand, on)));
            out.push(single(turn_base(&reachy.mobile_base, on)));
        },
        None => {},
    }
    assert(out.deep_view() =~= old(out).deep_view() + power(*reachy, on));
}

fn turn_arm(part: &Option<Part>, on: bool) -> (r: AnyCommand<Message>)
    requires
        part is Some,
    ensures
        r.deep_view() == arm_power(*part, on),
{
    let id = message_of_part(part);
    let command = if on {
        ArmCommand { turn_on: id, ..Default::default() }
    } else {
        ArmCommand { turn_off: id, ..Default::default() }
    };
    AnyCommand { command: Some(Command::ArmCommand(command)) }
}

fn turn_hand(part: &Option<Part>, on: bool) -> (r: AnyCommand<Message>)
    requires
        part is Some,
    ensures
        r.deep_view() == hand_power(*part, on),
{
    let id = message_of_part(part);
    let command = if on {
        HandCommand { turn_on: id, ..Default::default() }
    } else {
        HandCommand { turn_off: id, ..Default::default() }
    };
    AnyCommand { command: Some(Command::HandCommand(command)) }
}

fn turn_neck(part: &Option<Part>, on: bool) -> (r: AnyCommand<Message>)
    requires
        part is Some,
    ensures
        r.deep_view() == neck_power(*part, on),
{
    let id = message_of_part(part);
    let command = if on {
        NeckCommand { turn_on: id, ..Default::default() }
    } else {
        NeckCommand { turn_off: id, ..Default::default() }
    };
    AnyCommand { command: Some(Command::NeckCommand(command)) }
}

fn turn_base(part: &Option<Part>, on: bool) -> (r: AnyCommand<Message>)
    requires
        part is Some,
    ensures
        r.deep_view() == base_power(*part, on),
{
    let mode: i32 = if on {
        CMD_VEL
    } else {
        FREE_WHEEL
    };
    AnyCommand {
        command: Some(
            Command::MobileBaseCommand(
                MobileBaseCommand {
                    mobile_base_mode: Some(
                        Message::ZuuuMode(ZuuuModeCommand { id: id_of_part(part), mode }),
                    ),
                    ..Default::default()
                },
            ),
        ),
    }
}

/// Whether the robot has all parts that are turned on and off.
pub fn has_all_parts(reachy: &Reachy) -> (r: bool)
    ensures
        r == has_parts(*reachy),
{
    reachy.l_arm.is_some() && reachy.r_arm.is_some() && reachy.head.is_some()
        && reachy.l_hand.is_some() && reachy.r_hand.is_some() && reachy.mobile_base.is_some()
}

/// The messages that turn a robot on; none for an unknown robot.
pub fn turn_on_robot(reachy: &Option<Reachy>) -> (r: Vec<AnyCommands<Message>>)
    requires
        reachy is Some ==> has_parts(reachy->0),
    ensures
        r.deep_view() == power(*reachy, true),
{
    let mut out: Vec<AnyCommands<Message>> = Vec::new();
    push_power(&mut out, reachy, true);
    assert(out.deep_view() =~= power(*reachy, true));
    out
}

/// The messages that turn a robot off; none for an unknown robot.
pub fn turn_off_robot(reachy: &Option<Reachy>) -> (r: Vec<AnyCommands<Message>>)
    requires
        reachy is Some ==> has_parts(reachy->0),
    ensures
        r.deep_view() == power(*reachy, false),
{
    let mut out: Vec<AnyCommands<Message>> = Vec::new();
    push_power(&mut out, reachy, false);
    assert(out.deep_view() =~= power(*reachy, false));
    out
}

/// What is sent when commands can be.
pub fn greet(reachy: &Option<Reachy>) -> (r: Vec<AnyCommands<Message>>)
    requires
        reachy is Some ==> has_parts(reachy->0),
    ensures
        r.deep_view() == greeting(*reachy),
{
    let mut out: Vec<AnyCommands<Message>> = Vec::new();
    assert(out.deep_view() =~= Seq::empty());
    push_alone(&mut out, speed_limit_command("l_arm", 10));
    push_alone(&mut out, speed_limit_command("r_arm", 10));
    push_alone(&mut out, speed_limit_command("head", 100));
    push_power(&mut out, reachy, true);
    push_alone(&mut out, torque_limit_command("l_arm", 100));
    push_alone(&mut out, torque_limit_command("r_arm", 100));
    push_alone(&mut out, torque_limit_command("head", 100));
    assert(out.deep_view() =~= greeting(*reachy));
    out
}

/// What is sent when the arms have reached the posture.
pub fn release_arms() -> (r: Vec<AnyCommands<Message>>)
    ensures
        r.deep_view() == release(),
{
    let mut out: Vec<AnyCommands<Message>> = Vec::new();
    push_alone(&mut out, speed_limit_command("l_arm", 100));
    push_alone(&mut out, speed_limit_command("r_arm", 100));
    assert(out.deep_view() =~= release());
    out
}

/// What is sent when the motion is over.
pub fn take_leave(reachy: &Option<Reachy>) -> (r: Vec<AnyCommands<Message>>)
    requires
        reachy is Some ==> has_parts(reachy->0),
    ensures
        r.deep_view() == farewell(*reachy),
{
    let mut out: Vec<AnyCommands<Message>> = Vec::new();
    push_alone(&mut out, torque_limit_command("l_arm", 35));
    push_alone(&mut out, torque_limit_command("r_arm", 35));
    push_alone(&mut out, speed_limit_command("l_arm", 10));
    push_alone(&mut out, speed_limit_command("r_arm", 10));
    push_alone(&mut out, torque_limit_command("l_arm", 25));
    push_alone(&mut out, torque_limit_command("r_arm", 25));
    push_alone(&mut out, speed_limit_command("l_arm", 15));
    push_alone(&mut out, speed_limit_command("r_arm", 15));
    push_alone(&mut out, speed_limit_command("l_arm", 5));
    push_alone(&mut out, speed_limit_command("r_arm", 5));
    push_power(&mut out, reachy, false);
    assert(out.deep_view() =~= farewell(*reachy));
    out
}

/// A limit that the client sets is one call of the robot's server, for the part it is meant for.
pub proof fn lemma_limits_are_called(name: Seq<char>, limit: u32)
    requires
        part_number(name) is Some,
    ensures
        ({
            let request = limit_of(part_number(name)->0, name, limit);
            let head = name == "head"@;
            &&& grpc_client::call_of(speed_limit(name, limit)->0) == Some(
                GrpcCall {
                    method: if head {
                        GrpcMethod::HeadSetSpeedLimit
                    } else {
                        GrpcMethod::ArmSetSpeedLimit
                    },
                    message: messages::MessageView::SpeedLimit(request),
                },
            )
            &&& grpc_client::call_of(torque_limit(name, limit)->0) == Some(
                GrpcCall {
                    method: if head {
                        GrpcMethod::HeadSetTorqueLimit
                    } else {
                        GrpcMethod::ArmSetTorqueLimit
                    },
                    message: messages::MessageView::TorqueLimit(request),
                },
            )
        }),
{
    reveal_strlit("r_arm");
    reveal_strlit("l_arm");
    reveal_strlit("head");
    assert("r_arm"@.len() != "head"@.len());
    assert("l_arm"@.len() != "head"@.len());
}

/// A robot that is turned on or off has each of its parts turned on or off, by one call each.
pub proof fn lemma_power_is_called(reachy: Reachy, on: bool)
    requires
        has_parts(reachy),
        reachy.l_arm->0.part_id is Some,
        reachy.r_arm->0.part_id is Some,
        reachy.head->0.part_id is Some,
        reachy.l_hand->0.part_id is Some,
        reachy.r_hand->0.part_id is Some,
    ensures
        ({
            let sent = power(Some(reachy), on);
            let arm = if on {
                GrpcMethod::ArmTurnOn
            } else {
                GrpcMethod::ArmTurnOff
            };
            let hand = if on {
                GrpcMethod::HandTurnOn
            } else {
                GrpcMethod::HandTurnOff
            };
            let head = if on {
                GrpcMethod::HeadTurnOn
            } else {
                GrpcMethod::HeadTurnOff
            };
            &&& sent.len() == 6
            &&& forall|i: int| 0 <= i < 6 ==> (#[trigger] sent[i]).len() == 1
            &&& grpc_client::call_of(sent[0][0]) == Some(
                GrpcCall { method: arm, message: id_of(reachy.l_arm)->0 },
            )
            &&& grpc_client::call_of(sent[1][0]) == Some(
                GrpcCall { method: arm, message: id_of(reachy.r_arm)->0 },
            )
            &&& grpc_client::call_of(sent[2][0]) == Some(
                GrpcCall { method: head, message: id_of(reachy.head)->0 },
            )
            &&& grpc_client::call_of(sent[3][0]) == Some(
                GrpcCall { method: hand, message: id_of(reachy.l_hand)->0 },
            )
            &&& grpc_client::call_of(sent[4][0]) == Some(
                GrpcCall { method: hand, message: id_of(reachy.r_hand)->0 },
            )
            &&& grpc_client::call_of(sent[5][0]) == Some(
                GrpcCall {
                    method: GrpcMethod::SetZuuuMode,
                    message: messages::MessageView::ZuuuMode(
                        messages::ZuuuModeCommandView {
                            id: reachy.mobile_base->0.part_id.deep_view(),
                            mode: if on {
                                CMD_VEL
                            } else {
                                FREE_WHEEL
                            },
                        },
                    ),
                },
            )
        }),
{
}

/// Hands that are sent somewhere are sent there by one call.
pub proof fn lemma_goal_is_called(
    id: Option<messages::PartIdView>,
    pose: Seq<u64>,
    duration: Option<u32>,
)
    ensures
        grpc_client::call_of(goal(id, pose, duration)) == Some(
            GrpcCall {
                method: GrpcMethod::SendArmCartesianGoal,
                message: messages::MessageView::ArmCartesianGoal(
                    messages::ArmCartesianGoalView { id, goal_pose: Some(pose), duration },
                ),
            },
        ),
{
}

proof fn lemma_limited_names()
    ensures
        "r_arm"@ != "l_arm"@,
        "r_arm"@ != "head"@,
        "l_arm"@ != "head"@,
{
    reveal_strlit("r_arm");
    reveal_strlit("l_arm");
    reveal_strlit("head");
    assert("r_arm"@[0] != "l_arm"@[0]);
    assert("r_arm"@.len() != "head"@.len());
    assert("l_arm"@.len() != "head"@.len());
}

/// The right arm is the first part, the left arm the second and the head the third; no other
/// part has a number.
pub proof fn lemma_part_numbers(name: Seq<char>)
    ensures
        part_number(name) == Some(1u32) <==> name == "r_arm"@,
        part_number(name) == Some(2u32) <==> name == "l_arm"@,
        part_number(name) == Some(3u32) <==> name == "head"@,
        part_number(name) is None <==> name != "r_arm"@ && name != "l_arm"@ && name != "head"@,
        arm_id("r_arm"@) == Some(messages::PartIdView { id: 1, name: "r_arm"@ }),
        arm_id("l_arm"@) == Some(messages::PartIdView { id: 2, name: "l_arm"@ }),
{
    lemma_limited_names();
}

/// A limit goes to the part it names, with the part's number and name and the given percentage,
/// in a command that asks for nothing else: to the neck for the head, to an arm for an arm.
/// There is no such command for another part.
pub proof fn lemma_limits_are_written(name: Seq<char>, limit: u32)
    ensures
        ({
            let known = name == "r_arm"@ || name == "l_arm"@ || name == "head"@;
            let number: u32 = if name == "r_arm"@ {
                1
            } else if name == "l_arm"@ {
                2
            } else {
                3
            };
            let request = messages::LimitRequestView {
                id: Some(messages::PartIdView { id: number, name }),
                limit,
            };
            &&& speed_limit(name, limit) is Some <==> known
            &&& torque_limit(name, limit) is Some <==> known
            &&& name == "r_arm"@ || name == "l_arm"@ ==> {
                &&& speed_limit(name, limit)->0.command matches Some(Command::ArmCommand(c))
                &&& c.speed_limit == Some(messages::MessageView::SpeedLimit(request))
                &&& c.arm_cartesian_goal is None && c.turn_on is None && c.turn_off is None
                &&& c.torque_limit is None
            }
            &&& name == "head"@ ==> {
                &&& speed_limit(name, limit)->0.command matches Some(Command::NeckCommand(c))
                &&& c.speed_limit == Some(messages::MessageView::SpeedLimit(request))
                &&& c.neck_goal is None && c.turn_on is None && c.turn_off is None
                &&& c.torque_limit is None
            }
            &&& name == "r_arm"@ || name == "l_arm"@ ==> {
                &&& torque_limit(name, limit)->0.command matches Some(Command::ArmCommand(c))
                &&& c.torque_limit == Some(messages::MessageView::TorqueLimit(request))
                &&& c.arm_cartesian_goal is None && c.turn_on is None && c.turn_off is None
                &&& c.speed_limit is None
            }
            &&& name == "head"@ ==> {
                &&& torque_limit(name, limit)->0.command matches Some(Command::NeckCommand(c))
                &&& c.torque_limit == Some(messages::MessageView::TorqueLimit(request))
                &&& c.neck_goal is None && c.turn_on is None && c.turn_off is None
                &&& c.speed_limit is None
            }
        }),
{
    lemma_limited_names();
}

/// A goal is all that a command with a goal asks for.
pub proof fn lemma_goals_are_written(
    id: Option<messages::PartIdView>,
    pose: Seq<u64>,
    duration: Option<u32>,
)
    ensures
        ({
            &&& goal(id, pose, duration).command matches Some(Command::ArmCommand(c))
            &&& c.arm_cartesian_goal matches Some(messages::MessageView::ArmCartesianGoal(g))
            &&& g.id == id
            &&& g.goal_pose == Some(pose)
            &&& g.duration == duration
            &&& c.turn_on is None && c.turn_off is None
            &&& c.speed_limit is None && c.torque_limit is None
        }),
{
}

/// Two binary64 patterns are of numbers that differ in their sign, or both of zero.
pub open spec fn opposite(a: u64, b: u64) -> bool {
    (a == 0 && b == 0) || a == b + 0x8000_0000_0000_0000 || b == a + 0x8000_0000_0000_0000
}

/// The posture is symmetric: the pose of the right hand is that of the left hand in a mirror
/// between left and right, which turns the sign of what has to do with that direction once. The
/// height is the one that is given, on both sides, and the last row is that of a pose.
pub proof fn lemma_posture_is_symmetric(z: u64, row: int, column: int)
    requires
        0 <= row < 4,
        0 <= column < 4,
    ensures
        left_posture(z).len() == 16,
        right_posture(z).len() == 16,
        (row == 1) == (column == 1) ==> right_posture(z)[4 * row + column] == left_posture(
            z,
        )[4 * row + column],
        (row == 1) != (column == 1) ==> opposite(
            right_posture(z)[4 * row + column],
            left_posture(z)[4 * row + column],
        ),
        left_posture(z)[11] == z,
        column < 3 ==> left_posture(z)[12 + column] == 0,
        left_posture(z)[15] == ONE,
        left_posture(z)[0] == ONE,
        left_posture(z)[1] == M001 && left_posture(z)[4] == M001,
        left_posture(z)[2] == M015 && left_posture(z)[8] == P015,
        left_posture(z)[3] == P022 && left_posture(z)[7] == P252,
        left_posture(z)[5] == P996 && left_posture(z)[10] == P996,
        left_posture(z)[6] == M086 && left_posture(z)[9] == P086,
{
    assert(row == 0 || row == 1 || row == 2 || row == 3);
    assert(column == 0 || column == 1 || column == 2 || column == 3);
}

/// A point of the circle is where it is said to be, `x` to the front, `y` to the left and `z`
/// up; the hands keep one direction all the time.
pub proof fn lemma_circle_points(x: u64, y: u64, z: u64, i: int)
    ensures
        circle_pose(x, y, z).len() == 16,
        circle_pose(x, y, z)[3] == x,
        circle_pose(x, y, z)[7] == y,
        circle_pose(x, y, z)[11] == z,
        circle_pose(x, y, z)[2] == 0xBFF0_0000_0000_0000,
        circle_pose(x, y, z)[5] == 0x3FF0_0000_0000_0000,
        circle_pose(x, y, z)[8] == 0x3FF0_0000_0000_0000,
        circle_pose(x, y, z)[15] == 0x3FF0_0000_0000_0000,
        0 <= i < 16 && i != 2 && i != 3 && i != 5 && i != 7 && i != 8 && i != 11 && i != 15
            ==> circle_pose(x, y, z)[i] == 0,
{
}

/// Turning a part on, or off, is all that the command for it asks for; the mobile base takes
/// directions when it is on, and rolls freely when it is off.
pub proof fn lemma_power_is_written(part: Option<Part>, on: bool)
    requires
        part is Some,
    ensures
        ({
            let id = part->0.part_id;
            &&& id_of(part) is Some <==> id is Some
            &&& id is Some ==> id_of(part) == Some(
                messages::MessageView::PartId(
                    messages::PartIdView { id: id->0.id, name: id->0.name@ },
                ),
            )
        }),
        ({
            &&& arm_power(part, on).command matches Some(Command::ArmCommand(c))
            &&& on ==> c.turn_on == id_of(part) && c.turn_off is None
            &&& !on ==> c.turn_off == id_of(part) && c.turn_on is None
            &&& c.arm_cartesian_goal is None && c.speed_limit is None && c.torque_limit is None
        }),
        ({
            &&& hand_power(part, on).command matches Some(Command::HandCommand(c))
            &&& on ==> c.turn_on == id_of(part) && c.turn_off is None
            &&& !on ==> c.turn_off == id_of(part) && c.turn_on is None
            &&& c.hand_goal is None
        }),
        ({
            &&& neck_power(part, on).command matches Some(Command::NeckCommand(c))
            &&& on ==> c.turn_on == id_of(part) && c.turn_off is None
            &&& !on ==> c.turn_off == id_of(part) && c.turn_on is None
            &&& c.neck_goal is None && c.speed_limit is None && c.torque_limit is None
        }),
        ({
            &&& base_power(part, on).command matches Some(Command::MobileBaseCommand(c))
            &&& c.target_direction is None
            &&& c.mobile_base_mode matches Some(messages::MessageView::ZuuuMode(m))
            &&& m.id == part->0.part_id.deep_view()
            &&& on ==> m.mode == 1
            &&& !on ==> m.mode == 3
        }),
{
}

/// The parts are turned on, or off, in one order, each in a message of its own: the left arm, the
/// right arm, the head, the left hand, the right hand, the mobile base. Nothing is sent for an
/// unknown robot.
pub proof fn lemma_power_order(reachy: Reachy, on: bool)
    ensures
        ({
            let sent = power(Some(reachy), on);
            &&& sent.len() == 6
            &&& sent[0] == seq![arm_power(reachy.l_arm, on)]
            &&& sent[1] == seq![arm_power(reachy.r_arm, on)]
            &&& sent[2] == seq![neck_power(reachy.head, on)]
            &&& sent[3] == seq![hand_power(reachy.l_hand, on)]
            &&& sent[4] == seq![hand_power(reachy.r_hand, on)]
            &&& sent[5] == seq![base_power(reachy.mobile_base, on)]
        }),
        power(None, on).len() == 0,
        has_parts(reachy) <==> reachy.l_arm is Some && reachy.r_arm is Some && reachy.head is Some
            && reachy.l_hand is Some && reachy.r_hand is Some && reachy.mobile_base is Some,
{
}

/// A robot is turned on only once its arms are slow: their speed is limited to a tenth and the
/// head's not at all; its torque is then given in full to both arms and to the head.
pub proof fn lemma_greeting_order(reachy: Option<Reachy>)
    ensures
        ({
            let sent = greeting(reachy);
            let n = power(reachy, true).len();
            &&& sent.len() == n + 6
            &&& sent[0] == seq![speed_limit("l_arm"@, 10)->0]
            &&& sent[1] == seq![speed_limit("r_arm"@, 10)->0]
            &&& sent[2] == seq![speed_limit("head"@, 100)->0]
            &&& sent.subrange(3, 3 + n as int) == power(reachy, true)
            &&& sent[n as int + 3] == seq![torque_limit("l_arm"@, 100)->0]
            &&& sent[n as int + 4] == seq![torque_limit("r_arm"@, 100)->0]
            &&& sent[n as int + 5] == seq![torque_limit("head"@, 100)->0]
        }),
        release().len() == 2,
        release()[0] == seq![speed_limit("l_arm"@, 100)->0],
        release()[1] == seq![speed_limit("r_arm"@, 100)->0],
{
    lemma_limits_are_written("l_arm"@, 10);
    lemma_limits_are_written("r_arm"@, 10);
    lemma_limits_are_written("head"@, 100);
    lemma_limits_are_written("l_arm"@, 100);
    lemma_limits_are_written("r_arm"@, 100);
    assert(greeting(reachy).subrange(3, 3 + power(reachy, true).len() as int) =~= power(
        reachy,
        true,
    ));
}

/// A robot is turned off last of all, once its arms give way and are slow: torque goes down from
/// 35 to 25, and speed is in the end at 5, for the left arm and the right arm in turn.
pub proof fn lemma_farewell_order(reachy: Option<Reachy>)
    ensures
        ({
            let sent = farewell(reachy);
            let n = power(reachy, false).len();
            &&& sent.len() == n + 10
            &&& sent[0] == seq![torque_limit("l_arm"@, 35)->0]
            &&& sent[1] == seq![torque_limit("r_arm"@, 35)->0]
            &&& sent[2] == seq![speed_limit("l_arm"@, 10)->0]
            &&& sent[3] == seq![speed_limit("r_arm"@, 10)->0]
            &&& sent[4] == seq![torque_limit("l_arm"@, 25)->0]
            &&& sent[5] == seq![torque_limit("r_arm"@, 25)->0]
            &&& sent[6] == seq![speed_limit("l_arm"@, 15)->0]
            &&& sent[7] == seq![speed_limit("r_arm"@, 15)->0]
            &&& sent[8] == seq![speed_limit("l_arm"@, 5)->0]
            &&& sent[9] == seq![speed_limit("r_arm"@, 5)->0]
            &&& sent.skip(10) == power(reachy, false)
        }),
{
    lemma_limits_are_written("l_arm"@, 35);
    lemma_limits_are_written("r_arm"@, 35);
    lemma_limits_are_written("l_arm"@, 10);
    lemma_limits_are_written("r_arm"@, 10);
    lemma_limits_are_written("l_arm"@, 25);
    lemma_limits_are_written("r_arm"@, 25);
    lemma_limits_are_written("l_arm"@, 15);
    lemma_limits_are_written("r_arm"@, 15);
    lemma_limits_are_written("l_arm"@, 5);
    lemma_limits_are_written("r_arm"@, 5);
    assert(farewell(reachy).skip(10) =~= power(reachy, false));
}

/// The hands take one second to a point of the circle.
pub proof fn lemma_goal_time()
    ensures
        ONE_SECOND == 0x3F80_0000,
        CMD_VEL == 1,
        FREE_WHEEL == 3,
{
}

} // verus!
