//! Messages of the robot's API, as far as a decision reads or writes them.
//!
//! Floating-point values are carried by their IEEE 754 bit patterns: binary64 in a `u64`,
//! binary32 in a `u32`.
use vstd::prelude::*;

verus! {

/// The name and number of a robot.
#[derive(Debug)]
pub struct ReachyId {
    pub id: u32,
    pub name: String,
}

/// The name and number of a part of a robot.
#[derive(Debug)]
pub struct PartId {
    pub id: u32,
    pub name: String,
}

/// A part that a robot may have.
#[derive(Debug)]
pub struct Part {
    pub part_id: Option<PartId>,
}

/// A robot and its parts.
#[derive(Debug)]
pub struct Reachy {
    pub id: Option<ReachyId>,
    pub l_arm: Option<Part>,
    pub r_arm: Option<Part>,
    pub head: Option<Part>,
    pub l_hand: Option<Part>,
    pub r_hand: Option<Part>,
    pub mobile_base: Option<Part>,
}

/// The name and number of a part.
pub ghost struct PartIdView {
    pub id: u32,
    pub name: Seq<char>,
}

impl DeepView for PartId {
    type V = PartIdView;

    open spec fn deep_view(&self) -> PartIdView {
        PartIdView { id: self.id, name: self.name@ }
    }
}

impl Clone for PartId {
    fn clone(&self) -> (r: PartId)
        ensures
            r == *self,
    {
        PartId { id: self.id, name: self.name.clone() }
    }
}

impl Clone for ReachyId {
    fn clone(&self) -> (r: ReachyId)
        ensures
            r == *self,
    {
        ReachyId { id: self.id, name: self.name.clone() }
    }
}

/// The wish to connect to a robot, with the frequencies of its streams in hertz (binary32).
#[derive(Debug)]
pub struct Connect {
    pub reachy_id: Option<ReachyId>,
    pub update_frequency: u32,
    pub audit_frequency: u32,
}

/// A request on the service channel.
#[derive(Debug)]
pub enum ServiceRequest {
    GetReachy,
    Connect(Connect),
    Disconnect,
}

/// The answer to `ServiceRequest::GetReachy`.
#[derive(Debug)]
pub struct ConnectionStatus<R> {
    pub connected: bool,
    pub state_channel: String,
    pub command_channel: String,
    pub reachy: Option<R>,
}

/// An answer on the service channel. `R` stands for a robot, `E` for an error report.
#[derive(Debug)]
pub enum ServiceResponse<R, E> {
    ConnectionStatus(ConnectionStatus<R>),
    Error(E),
}

/// Where an arm is to bring its hand: a pose as the rows of a matrix (binary64), and a time in
/// seconds (binary32).
#[derive(Debug)]
pub struct ArmCartesianGoal {
    pub id: Option<PartId>,
    pub goal_pose: Option<Vec<u64>>,
    pub duration: Option<u32>,
}

/// Where an arm is to bring its hand.
pub ghost struct ArmCartesianGoalView {
    pub id: Option<PartIdView>,
    pub goal_pose: Option<Seq<u64>>,
    pub duration: Option<u32>,
}

/// A limit for the speed or the torque of a part, in percent.
#[derive(Debug)]
pub struct LimitRequest {
    pub id: Option<PartId>,
    pub limit: u32,
}

/// A limit for the speed or the torque of a part.
pub ghost struct LimitRequestView {
    pub id: Option<PartIdView>,
    pub limit: u32,
}

/// How far a gripper is to open (binary64; sent as binary32).
#[derive(Debug)]
pub struct HandPositionRequest {
    pub id: Option<PartId>,
    pub opening_percentage: u64,
}

/// How far a gripper is to open.
pub ghost struct HandPositionRequestView {
    pub id: Option<PartIdView>,
    pub opening_percentage: u64,
}

/// The orientation that the neck is to take, a quaternion (binary64).
#[derive(Debug)]
pub struct NeckJointGoal {
    pub id: Option<PartId>,
    pub w: u64,
    pub x: u64,
    pub y: u64,
    pub z: u64,
}

/// The orientation that the neck is to take.
pub ghost struct NeckJointGoalView {
    pub id: Option<PartIdView>,
    pub w: u64,
    pub x: u64,
    pub y: u64,
    pub z: u64,
}

/// The position that a motor is to take (binary64; sent as binary32).
#[derive(Debug)]
pub struct MotorCommand {
    pub name: String,
    pub goal_position: Option<u64>,
}

/// The position that a motor is to take.
pub ghost struct MotorCommandView {
    pub name: Seq<char>,
    pub goal_position: Option<u64>,
}

/// The mode of the mobile base.
#[derive(Debug)]
pub struct ZuuuModeCommand {
    pub id: Option<PartId>,
    pub mode: i32,
}

/// The mode of the mobile base.
pub ghost struct ZuuuModeCommandView {
    pub id: Option<PartIdView>,
    pub mode: i32,
}

/// Where the mobile base is to drive (binary64; sent as binary32).
#[derive(Debug)]
pub struct TargetDirectionCommand {
    pub id: Option<PartId>,
    pub x: u64,
    pub y: u64,
    pub theta: u64,
}

/// Where the mobile base is to drive.
pub ghost struct TargetDirectionCommandView {
    pub id: Option<PartIdView>,
    pub x: u64,
    pub y: u64,
    pub theta: u64,
}

/// A message that a command wraps.
#[derive(Debug)]
pub enum Message {
    ArmCartesianGoal(ArmCartesianGoal),
    PartId(PartId),
    SpeedLimit(LimitRequest),
    TorqueLimit(LimitRequest),
    HandPosition(HandPositionRequest),
    NeckGoal(NeckJointGoal),
    Antennas(Vec<MotorCommand>),
    ZuuuMode(ZuuuModeCommand),
    Direction(TargetDirectionCommand),
}

/// A message that a command wraps.
pub ghost enum MessageView {
    ArmCartesianGoal(ArmCartesianGoalView),
    PartId(PartIdView),
    SpeedLimit(LimitRequestView),
    TorqueLimit(LimitRequestView),
    HandPosition(HandPositionRequestView),
    NeckGoal(NeckJointGoalView),
    Antennas(Seq<MotorCommandView>),
    ZuuuMode(ZuuuModeCommandView),
    Direction(TargetDirectionCommandView),
}

impl DeepView for MotorCommand {
    type V = MotorCommandView;

    open spec fn deep_view(&self) -> MotorCommandView {
        MotorCommandView { name: self.name@, goal_position: self.goal_position }
    }
}

impl DeepView for Message {
    type V = MessageView;

    open spec fn deep_view(&self) -> MessageView {
        match self {
            Message::ArmCartesianGoal(m) => MessageView::ArmCartesianGoal(
                ArmCartesianGoalView {
                    id: m.id.deep_view(),
                    goal_pose: m.goal_pose.deep_view(),
                    duration: m.duration,
                },
            ),
            Message::PartId(m) => MessageView::PartId(m.deep_view()),
            Message::SpeedLimit(m) => MessageView::SpeedLimit(
                LimitRequestView { id: m.id.deep_view(), limit: m.limit },
            ),
            Message::TorqueLimit(m) => MessageView::TorqueLimit(
                LimitRequestView { id: m.id.deep_view(), limit: m.limit },
            ),
            Message::HandPosition(m) => MessageView::HandPosition(
                HandPositionRequestView {
                    id: m.id.deep_view(),
                    opening_percentage: m.opening_percentage,
                },
            ),
            Message::NeckGoal(m) => MessageView::NeckGoal(
                NeckJointGoalView { id: m.id.deep_view(), w: m.w, x: m.x, y: m.y, z: m.z },
            ),
            Message::Antennas(m) => MessageView::Antennas(m.deep_view()),
            Message::ZuuuMode(m) => MessageView::ZuuuMode(
                ZuuuModeCommandView { id: m.id.deep_view(), mode: m.mode },
            ),
            Message::Direction(m) => MessageView::Direction(
                TargetDirectionCommandView {
                    id: m.id.deep_view(),
                    x: m.x,
                    y: m.y,
                    theta: m.theta,
                },
            ),
        }
    }
}

/// What is said of a message is all that it holds, each thing under its name.
pub proof fn lemma_message_views(
    arm: ArmCartesianGoal,
    part: PartId,
    limit: LimitRequest,
    hand: HandPositionRequest,
    neck: NeckJointGoal,
    motors: Vec<MotorCommand>,
    mode: ZuuuModeCommand,
    direction: TargetDirectionCommand,
)
    ensures
        part.deep_view().id == part.id,
        part.deep_view().name == part.name@,
        Message::PartId(part).deep_view() == MessageView::PartId(part.deep_view()),
        Message::ArmCartesianGoal(arm).deep_view() matches MessageView::ArmCartesianGoal(v)
            && v.id == arm.id.deep_view() && v.goal_pose == arm.goal_pose.deep_view()
            && v.duration == arm.duration,
        Message::SpeedLimit(limit).deep_view() matches MessageView::SpeedLimit(v) && v.id
            == limit.id.deep_view() && v.limit == limit.limit,
        Message::TorqueLimit(limit).deep_view() matches MessageView::TorqueLimit(v) && v.id
            == limit.id.deep_view() && v.limit == limit.limit,
        Message::HandPosition(hand).deep_view() matches MessageView::HandPosition(v) && v.id
            == hand.id.deep_view() && v.opening_percentage == hand.opening_percentage,
        Message::NeckGoal(neck).deep_view() matches MessageView::NeckGoal(v) && v.id
            == neck.id.deep_view() && v.w == neck.w && v.x == neck.x && v.y == neck.y && v.z
            == neck.z,
        Message::Antennas(motors).deep_view() matches MessageView::Antennas(v) && v.len()
            == motors@.len() && forall|i: int|
            0 <= i < v.len() ==> (#[trigger] v[i]).name == motors@[i].name@ && v[i].goal_position
                == motors@[i].goal_position,
        Message::ZuuuMode(mode).deep_view() matches MessageView::ZuuuMode(v) && v.id
            == mode.id.deep_view() && v.mode == mode.mode,
        Message::Direction(direction).deep_view() matches MessageView::Direction(v) && v.id
            == direction.id.deep_view() && v.x == direction.x && v.y == direction.y && v.theta
            == direction.theta,
{
}

} // verus!
