//! Recorded commands: one JSON document per line, each an array whose first item is an object
//! with one command.
use crate::commands;
use crate::commands::{
    AnyCommand, AnyCommands, ArmCommand, Command, HandCommand, MobileBaseCommand, NeckCommand,
};
use crate::json;
use crate::json::{
    as_double, as_text, as_whole, collect_doubles, get_element, get_member, parse_json, Json,
    JsonNumber, JsonTree,
};
use crate::messages;
use crate::messages::{
    ArmCartesianGoal, HandPositionRequest, LimitRequest, Message, MotorCommand, NeckJointGoal,
    PartId, TargetDirectionCommand, ZuuuModeCommand,
};
use crate::text;
use crate::text::{lines, same_text};
use vstd::prelude::*;

verus! {

/// A recorded command lacks a field that it must have.
#[derive(Clone, Copy, Debug, PartialEq, Eq, Structural)]
pub struct MissingField;

/// A number cut to its lower 32 bits.
pub open spec fn low_bits(n: u64) -> u32 {
    (n % 0x1_0000_0000) as u32
}

/// The part that a value describes; what it leaves out is zero or empty.
pub open spec fn some_part(value: Option<json::JsonTree>) -> Option<
    messages::PartIdView,
> {
    match value {
        None => None,
        Some(_) => Some(
            messages::PartIdView {
                id: match json::whole(json::member(value, "id"@)) {
                    Some(n) => low_bits(n),
                    None => 0,
                },
                name: match json::text(json::member(value, "name"@)) {
                    Some(s) => s,
                    None => Seq::empty(),
                },
            },
        ),
    }
}

/// Whether a value describes a part, leaving nothing out.
pub open spec fn is_part(value: Option<json::JsonTree>) -> bool {
    &&& json::whole(json::member(value, "id"@)) is Some
    &&& json::text(json::member(value, "name"@)) is Some
}

/// The pose that an arm's goal gives: the numbers among the items of its matrix.
pub open spec fn some_pose(goal: Option<json::JsonTree>) -> Option<Seq<u64>> {
    match json::member(json::member(goal, "goalPose"@), "data"@) {
        Some(JsonTree::Array(items)) => Some(json::doubles(items)),
        _ => None,
    }
}

/// The command for an arm.
pub open spec fn recorded_arm(value: Option<json::JsonTree>) -> ArmCommand<
    messages::MessageView,
> {
    let goal = json::member(value, "armCartesianGoal"@);
    let limit = json::member(value, "speedLimit"@);
    ArmCommand {
        arm_cartesian_goal: match goal {
            None => None,
            Some(_) => Some(
                messages::MessageView::ArmCartesianGoal(
                    messages::ArmCartesianGoalView {
                        id: some_part(json::member(goal, "id"@)),
                        goal_pose: some_pose(goal),
                        duration: None,
                    },
                ),
            ),
        },
        speed_limit: match limit {
            None => None,
            Some(_) => Some(
                messages::MessageView::SpeedLimit(
                    messages::LimitRequestView {
                        id: some_part(json::member(limit, "id"@)),
                        limit: match json::whole(json::member(limit, "limit"@)) {
                            Some(n) => low_bits(n),
                            None => 0,
                        },
                    },
                ),
            ),
        },
        ..commands::no_arm_command()
    }
}

/// The quaternion of a neck command.
pub open spec fn neck_rotation(value: Option<json::JsonTree>) -> Option<
    json::JsonTree,
> {
    json::member(
        json::member(
            json::member(json::member(value, "neckGoal"@), "jointsGoal"@),
            "rotation"@,
        ),
        "q"@,
    )
}

/// Whether a neck command has all its fields.
pub open spec fn is_neck(value: Option<json::JsonTree>) -> bool {
    &&& is_part(json::member(json::member(value, "neckGoal"@), "id"@))
    &&& json::double(json::member(neck_rotation(value), "w"@)) is Some
    &&& json::double(json::member(neck_rotation(value), "x"@)) is Some
    &&& json::double(json::member(neck_rotation(value), "y"@)) is Some
    &&& json::double(json::member(neck_rotation(value), "z"@)) is Some
}

/// The command for the neck.
pub open spec fn recorded_neck(value: Option<json::JsonTree>) -> NeckCommand<
    messages::MessageView,
> {
    NeckCommand {
        neck_goal: Some(
            messages::MessageView::NeckGoal(
                messages::NeckJointGoalView {
                    id: some_part(
                        json::member(json::member(value, "neckGoal"@), "id"@),
                    ),
                    w: json::double(json::member(neck_rotation(value), "w"@))->0,
                    x: json::double(json::member(neck_rotation(value), "x"@))->0,
                    y: json::double(json::member(neck_rotation(value), "y"@))->0,
                    z: json::double(json::member(neck_rotation(value), "z"@))->0,
                },
            ),
        ),
        ..commands::no_neck_command()
    }
}

/// The command for one antenna.
pub open spec fn recorded_antenna(
    value: Option<json::JsonTree>,
    index: int,
    name: Seq<char>,
) -> messages::MotorCommandView {
    messages::MotorCommandView {
        name,
        goal_position: json::double(
            json::member(
                json::element(json::member(value, "cmd"@), index),
                "goalPosition"@,
            ),
        ),
    }
}

/// The command for the antennas.
pub open spec fn recorded_antennas(value: Option<json::JsonTree>) -> Seq<
    messages::MotorCommandView,
> {
    seq![
        recorded_antenna(value, 0, "antenna_left"@),
        recorded_antenna(value, 1, "antenna_right"@),
    ]
}

/// Whether a hand command has all its fields.
pub open spec fn is_hand(value: Option<json::JsonTree>) -> bool {
    is_part(json::member(json::member(value, "handGoal"@), "id"@))
}

/// The command for a hand. The opening is sometimes left out: it is zero.
pub open spec fn recorded_hand(value: Option<json::JsonTree>) -> HandCommand<
    messages::MessageView,
> {
    let goal = json::member(value, "handGoal"@);
    HandCommand {
        hand_goal: Some(
            messages::MessageView::HandPosition(
                messages::HandPositionRequestView {
                    id: some_part(json::member(goal, "id"@)),
                    opening_percentage: match json::double(
                        json::member(
                            json::member(
                                json::member(goal, "position"@),
                                "parallelGripper"@,
                            ),
                            "openingPercentage"@,
                        ),
                    ) {
                        Some(bits) => bits,
                        None => 0,
                    },
                },
            ),
        ),
        ..commands::no_hand_command()
    }
}

/// Whether a mobile base command is one: its mode, if it has one, is `CMD_VEL`, and it has a
/// direction.
pub open spec fn drives(value: Option<json::JsonTree>) -> bool {
    &&& json::member(value, "mobileBaseMode"@) is None || json::text(
        json::member(value, "mobileBaseMode"@),
    ) == Some("CMD_VEL"@)
    &&& json::member(value, "targetDirection"@) is Some
}

/// Whether a mobile base command has all its fields.
pub open spec fn is_mobile_base(value: Option<json::JsonTree>) -> bool {
    let target = json::member(value, "targetDirection"@);
    let direction = json::member(target, "direction"@);
    &&& is_part(json::member(target, "id"@))
    &&& json::double(json::member(direction, "x"@)) is Some
    &&& json::double(json::member(direction, "y"@)) is Some
    &&& json::double(json::member(direction, "theta"@)) is Some
}

/// The command for the mobile base.
pub open spec fn recorded_mobile_base(
    value: Option<json::JsonTree>,
) -> MobileBaseCommand<messages::MessageView> {
    let target = json::member(value, "targetDirection"@);
    let direction = json::member(target, "direction"@);
    MobileBaseCommand {
        mobile_base_mode: match json::member(value, "mobileBaseMode"@) {
            None => None,
            Some(_) => Some(
                messages::MessageView::ZuuuMode(
                    messages::ZuuuModeCommandView { id: None, mode: 1 },
                ),
            ),
        },
        target_direction: Some(
            messages::MessageView::Direction(
                messages::TargetDirectionCommandView {
                    id: some_part(json::member(target, "id"@)),
                    x: json::double(json::member(direction, "x"@))->0,
                    y: json::double(json::member(direction, "y"@))->0,
                    theta: json::double(json::member(direction, "theta"@))->0,
                },
            ),
        ),
    }
}

/// Which kind of command an object holds, with the value that describes it.
pub ghost enum Recorded {
    Arm(Option<json::JsonTree>),
    Neck(Option<json::JsonTree>),
    Antennas(Option<json::JsonTree>),
    Hand(Option<json::JsonTree>),
    MobileBase(Option<json::JsonTree>),
    Nothing,
}

/// The command in a document: the first kind that is there, in this order.
pub open spec fn recorded(document: Option<json::JsonTree>) -> Recorded {
    let object = json::element(document, 0);
    if json::member(object, "armCommand"@) is Some {
        Recorded::Arm(json::member(object, "armCommand"@))
    } else if json::member(object, "neckCommand"@) is Some {
        Recorded::Neck(json::member(object, "neckCommand"@))
    } else if json::member(object, "antennasCommand"@) is Some {
        Recorded::Antennas(json::member(object, "antennasCommand"@))
    } else if json::member(object, "handCommand"@) is Some {
        Recorded::Hand(json::member(object, "handCommand"@))
    } else if json::member(object, "mobileBaseCommand"@) is Some {
        Recorded::MobileBase(json::member(object, "mobileBaseCommand"@))
    } else {
        Recorded::Nothing
    }
}

/// Whether the command in a document has the fields that it must have.
pub open spec fn complete(document: Option<json::JsonTree>) -> bool {
    match recorded(document) {
        Recorded::Neck(value) => is_neck(value),
        Recorded::Hand(value) => is_hand(value),
        Recorded::MobileBase(value) => drives(value) ==> is_mobile_base(value),
        _ => true,
    }
}

/// The command in a document.
pub open spec fn recorded_command(document: Option<json::JsonTree>) -> Option<
    AnyCommand<messages::MessageView>,
> {
    match recorded(document) {
        Recorded::Arm(value) => Some(
            AnyCommand { command: Some(Command::ArmCommand(recorded_arm(value))) },
        ),
        Recorded::Neck(value) => Some(
            AnyCommand { command: Some(Command::NeckCommand(recorded_neck(value))) },
        ),
        Recorded::Antennas(value) => Some(
            AnyCommand {
                command: Some(
                    Command::AntennasCommand(
                        messages::MessageView::Antennas(recorded_antennas(value)),
                    ),
                ),
            },
        ),
        Recorded::Hand(value) => Some(
            AnyCommand { command: Some(Command::HandCommand(recorded_hand(value))) },
        ),
        Recorded::MobileBase(value) => if drives(value) {
            Some(
                AnyCommand {
                    command: Some(Command::MobileBaseCommand(recorded_mobile_base(value))),
                },
            )
        } else {
            None
        },
        Recorded::Nothing => None,
    }
}

fn cut(n: u64) -> (r: u32)
    ensures
        r == low_bits(n),
{
    (n % 0x1_0000_0000) as u32
}

fn read_some_part(value: Option<&Json>) -> (r: Option<PartId>)
    ensures
        r.deep_view() == some_part(json::tree_of(value)),
{
    if value.is_none() {
        return None;
    }
    let id: u32 = match as_whole(get_member(value, "id")) {
        Some(n) => cut(n),
        None => 0,
    };
    let name = match as_text(get_member(value, "name")) {
        Some(s) => s.clone(),
        None => String::new(),
    };
    Some(PartId { id, name })
}

fn read_part(value: Option<&Json>) -> (r: Option<PartId>)
    ensures
        r is Some <==> is_part(json::tree_of(value)),
        r is Some ==> r.deep_view() == some_part(json::tree_of(value)),
{
    match (as_whole(get_member(value, "id")), as_text(get_member(value, "name"))) {
        (Some(n), Some(s)) => Some(PartId { id: cut(n), name: s.clone() }),
        _ => None,
    }
}

fn read_pose(goal: Option<&Json>) -> (r: Option<Vec<u64>>)
    ensures
        r.deep_view() == some_pose(json::tree_of(goal)),
{
    match get_member(get_member(goal, "goalPose"), "data") {
        Some(Json::Array(items)) => {
            let data = collect_doubles(items);
            assert(data.deep_view() =~= data@);
            Some(data)
        },
        _ => None,
    }
}

fn read_arm(value: Option<&Json>) -> (r: ArmCommand<Message>)
    ensures
        r.deep_view() == recorded_arm(json::tree_of(value)),
{
    let goal = get_member(value, "armCartesianGoal");
    let limit = get_member(value, "speedLimit");
    let arm_cartesian_goal = if goal.is_some() {
        Some(
            Message::ArmCartesianGoal(
                ArmCartesianGoal {
                    id: read_some_part(get_member(goal, "id")),
                    goal_pose: read_pose(goal),
                    duration: None,
                },
            ),
        )
    } else {
        None
    };
    let speed_limit = if limit.is_some() {
        let percent: u32 = match as_whole(get_member(limit, "limit")) {
            Some(n) => cut(n),
            None => 0,
        };
        Some(
            Message::SpeedLimit(
                LimitRequest { id: read_some_part(get_member(limit, "id")), limit: percent },
            ),
        )
    } else {
        None
    };
    ArmCommand { arm_cartesian_goal, turn_on: None, turn_off: None, speed_limit, torque_limit: None }
}

fn read_neck(value: Option<&Json>) -> (r: Option<NeckCommand<Message>>)
    ensures
        r is Some <==> is_neck(json::tree_of(value)),
        r is Some ==> r->0.deep_view() == recorded_neck(json::tree_of(value)),
{
    let goal = get_member(value, "neckGoal");
    let q = get_member(get_member(get_member(goal, "jointsGoal"), "rotation"), "q");
    let id = read_part(get_member(goal, "id"));
    if id.is_none() {
        return None;
    }
    let w = as_double(get_member(q, "w"));
    let x = as_double(get_member(q, "x"));
    let y = as_double(get_member(q, "y"));
    let z = as_double(get_member(q, "z"));
    match (w, x, y, z) {
        (Some(w), Some(x), Some(y), Some(z)) => Some(
            NeckCommand {
                neck_goal: Some(Message::NeckGoal(NeckJointGoal { id, w, x, y, z })),
                turn_on: None,
                turn_off: None,
                speed_limit: None,
                torque_limit: None,
            },
        ),
        _ => None,
    }
}

fn read_antennas(value: Option<&Json>) -> (r: Vec<MotorCommand>)
    ensures
        r.deep_view() == recorded_antennas(json::tree_of(value)),
{
    let cmd = get_member(value, "cmd");
    let left = as_double(get_member(get_element(cmd, 0), "goalPosition"));
    let right = as_double(get_member(get_element(cmd, 1), "goalPosition"));
    let mut motors: Vec<MotorCommand> = Vec::new();
    motors.push(MotorCommand { name: "antenna_left".to_owned(), goal_position: left });
    motors.push(MotorCommand { name: "antenna_right".to_owned(), goal_position: right });
    assert(motors.deep_view() =~= recorded_antennas(json::tree_of(value)));
    motors
}

fn read_hand(value: Option<&Json>) -> (r: Option<HandCommand<Message>>)
    ensures
        r is Some <==> is_hand(json::tree_of(value)),
        r is Some ==> r->0.deep_view() == recorded_hand(json::tree_of(value)),
{
    let goal = get_member(value, "handGoal");
    let id = read_part(get_member(goal, "id"));
    if id.is_none() {
        return None;
    }
    let gripper = get_member(get_member(goal, "position"), "parallelGripper");
    let opening_percentage: u64 = match as_double(get_member(gripper, "openingPercentage")) {
        Some(bits) => bits,
        None => 0,
    };
    Some(
        HandCommand {
            hand_goal: Some(Message::HandPosition(HandPositionRequest { id, opening_percentage })),
            turn_on: None,
            turn_off: None,
        },
    )
}

/// The command of a mobile base: nothing where the value is none, an error where it lacks a
/// field.
fn read_mobile_base(value: Option<&Json>) -> (r: Result<
    Option<MobileBaseCommand<Message>>,
    MissingField,
>)
    ensures
        match r {
            Ok(None) => !drives(json::tree_of(value)),
            Ok(Some(cmd)) => {
                &&& drives(json::tree_of(value))
                &&& is_mobile_base(json::tree_of(value))
                &&& cmd.deep_view() == recorded_mobile_base(json::tree_of(value))
            },
            Err(_) => drives(json::tree_of(value)) && !is_mobile_base(
                json::tree_of(value),
            ),
        },
{
    let mode = get_member(value, "mobileBaseMode");
    let mobile_base_mode = if mode.is_some() {
        let known = match as_text(mode) {
            Some(s) => same_text(s.as_str(), "CMD_VEL"),
            None => false,
        };
        if !known {
            return Ok(None);
        }
        Some(Message::ZuuuMode(ZuuuModeCommand { id: None, mode: 1 }))
    } else {
        None
    };
    let target = get_member(value, "targetDirection");
    if target.is_none() {
        return Ok(None);
    }
    let id = read_part(get_member(target, "id"));
    if id.is_none() {
        return Err(MissingField);
    }
    let direction = get_member(target, "direction");
    let x = as_double(get_member(direction, "x"));
    let y = as_double(get_member(direction, "y"));
    let theta = as_double(get_member(direction, "theta"));
    match (x, y, theta) {
        (Some(x), Some(y), Some(theta)) => Ok(
            Some(
                MobileBaseCommand {
                    target_direction: Some(
                        Message::Direction(TargetDirectionCommand { id, x, y, theta }),
                    ),
                    mobile_base_mode,
                },
            ),
        ),
        _ => Err(MissingField),
    }
}

/// The command in a document, or an error where a command lacks a field that it must have.
pub fn any_command_from_json(document: Option<&Json>) -> (r: Result<
    Option<AnyCommand<Message>>,
    MissingField,
>)
    ensures
        match r {
            Ok(cmd) => {
                &&& complete(json::tree_of(document))
                &&& cmd.deep_view() == recorded_command(json::tree_of(document))
            },
            Err(_) => !complete(json::tree_of(document)),
        },
{
    let object = get_element(document, 0);
    let value = get_member(object, "armCommand");
    if value.is_some() {
        return Ok(Some(AnyCommand { command: Some(Command::ArmCommand(read_arm(value))) }));
    }
    let value = get_member(object, "neckCommand");
    if value.is_some() {
        return match read_neck(value) {
            Some(cmd) => Ok(Some(AnyCommand { command: Some(Command::NeckCommand(cmd)) })),
            None => Err(MissingField),
        };
    }
    let value = get_member(object, "antennasCommand");
    if value.is_some() {
        return Ok(
            Some(
                AnyCommand {
                    command: Some(Command::AntennasCommand(Message::Antennas(read_antennas(value)))),
                },
            ),
        );
    }
    let value = get_member(object, "handCommand");
    if value.is_some() {
        return match read_hand(value) {
            Some(cmd) => Ok(Some(AnyCommand { command: Some(Command::HandCommand(cmd)) })),
            None => Err(MissingField),
        };
    }
    let value = get_member(object, "mobileBaseCommand");
    if value.is_some() {
        return match read_mobile_base(value) {
            Ok(Some(cmd)) => Ok(
                Some(AnyCommand { command: Some(Command::MobileBaseCommand(cmd)) }),
            ),
            Ok(None) => Ok(None),
            Err(e) => Err(e),
        };
    }
    Ok(None)
}

/// The command in a line: nothing where the line is no document, or one without a command; an
/// error where a command lacks a field that it must have.
pub fn any_command_from_line(line: &str) -> (r: Result<Option<AnyCommand<Message>>, MissingField>)
    ensures
        match r {
            Ok(cmd) => {
                &&& complete(json::json_text(line@))
                &&& cmd.deep_view() == recorded_command(json::json_text(line@))
            },
            Err(_) => !complete(json::json_text(line@)),
        },
{
    match parse_json(line) {
        Some(document) => any_command_from_json(Some(&document)),
        None => any_command_from_json(None),
    }
}

/// Recorded files that are played side by side, each from its start again when it ends.
#[derive(Debug)]
pub struct Recording {
    files: Vec<Vec<String>>,
    indices: Vec<usize>,
}

/// The line of a file that follows the line at `index`.
pub open spec fn next_index(index: nat, len: nat) -> nat {
    if index + 1 >= len {
        0
    } else {
        index + 1
    }
}

/// The line of a file that is played after `ticks` ticks.
pub open spec fn index_after(len: nat, ticks: nat) -> nat
    decreases ticks,
{
    if ticks == 0 {
        0
    } else {
        next_index(index_after(len, (ticks - 1) as nat), len)
    }
}

/// What the document in the current line of file `f` is; no document where the file is empty.
pub open spec fn current_document(files: Seq<Seq<Seq<char>>>, indices: Seq<nat>, f: int) -> Option<
    json::JsonTree,
> {
    if files[f].len() == 0 {
        None
    } else {
        json::json_text(files[f][indices[f] as int])
    }
}

/// The commands in the current lines of the first `n` files, in the order of the files.
pub open spec fn current_commands(
    files: Seq<Seq<Seq<char>>>,
    indices: Seq<nat>,
    n: nat,
) -> Seq<AnyCommand<messages::MessageView>>
    decreases n,
{
    if n == 0 {
        Seq::empty()
    } else {
        let before = current_commands(files, indices, (n - 1) as nat);
        match recorded_command(current_document(files, indices, n - 1)) {
            Some(cmd) => before.push(cmd),
            None => before,
        }
    }
}

impl Recording {
    /// The lines of the files.
    pub closed spec fn files(self) -> Seq<Seq<Seq<char>>> {
        self.files.deep_view()
    }

    /// The current line of each file.
    pub closed spec fn indices(self) -> Seq<nat> {
        Seq::new(self.indices@.len(), |f: int| self.indices@[f] as nat)
    }

    /// Each file has a current line, but for the empty ones.
    pub open spec fn wf(self) -> bool {
        &&& self.indices().len() == self.files().len()
        &&& forall|f: int|
            0 <= f < self.files().len() ==> #[trigger] self.indices()[f] < self.files()[f].len() || (
            self.indices()[f] == 0 && self.files()[f].len() == 0)
    }

    /// Whether all commands in the current lines have the fields that they must have.
    pub open spec fn all_complete(self) -> bool {
        forall|f: int|
            0 <= f < self.files().len() ==> complete(
                #[trigger] current_document(self.files(), self.indices(), f),
            )
    }

    /// Takes up recorded files by their contents; nothing where there is no file.
    pub fn new(contents: &Vec<String>) -> (r: Option<Recording>)
        ensures
            r is Some <==> contents@.len() > 0,
            r matches Some(recording) ==> {
                &&& recording.wf()
                &&& recording.files() == contents.deep_view().map_values(
                    |content: Seq<char>| text::lines_of(content),
                )
                &&& recording.indices() == Seq::new(contents@.len(), |f: int| 0nat)
            },
    {
        if contents.len() == 0 {
            return None;
        }
        let ghost split = |content: Seq<char>| text::lines_of(content);
        let mut files: Vec<Vec<String>> = Vec::new();
        let mut indices: Vec<usize> = Vec::new();
        let mut f: usize = 0;
        while f < contents.len()
            invariant
                f <= contents.len(),
                split == (|content: Seq<char>| text::lines_of(content)),
                files.deep_view() == contents.deep_view().take(f as int).map_values(split),
                indices@ == Seq::new(f as nat, |i: int| 0usize),
            decreases contents.len() - f,
        {
            let ghost before = files.deep_view();
            let split_lines = lines(contents[f].as_str());
            assert(contents.deep_view()[f as int] == contents@[f as int]@);
            let ghost added = split_lines.deep_view();
            files.push(split_lines);
            indices.push(0);
            f = f + 1;
            assert(files.deep_view() =~= before.push(added));
            assert(files.deep_view() =~= contents.deep_view().take(f as int).map_values(split));
            assert(indices@ =~= Seq::new(f as nat, |i: int| 0usize));
        }
        assert(contents.deep_view().take(f as int) =~= contents.deep_view());
        let recording = Recording { files, indices };
        assert(recording.indices() =~= Seq::new(contents@.len(), |f: int| 0nat));
        Some(recording)
    }

    /// The commands in the current lines; then each file goes on to its next line. Where a
    /// command lacks a field that it must have, there is an error instead, and no file goes on.
    pub fn tick(&mut self) -> (r: Result<AnyCommands<Message>, MissingField>)
        requires
            old(self).wf(),
        ensures
            final(self).wf(),
            final(self).files() == old(self).files(),
            r is Ok <==> old(self).all_complete(),
            match r {
                Ok(commands) => {
                    &&& commands.deep_view() == current_commands(
                        old(self).files(),
                        old(self).indices(),
                        old(self).files().len(),
                    )
                    &&& final(self).indices() == Seq::new(
                        old(self).files().len(),
                        |f: int| next_index(old(self).indices()[f], old(self).files()[f].len()),
                    )
                },
                Err(_) => final(self).indices() == old(self).indices(),
            },
    {
        let ghost files = self.files();
        let ghost indices = self.indices();
        let mut commands: Vec<AnyCommand<Message>> = Vec::new();
        let mut f: usize = 0;
        assert(commands.deep_view() =~= current_commands(files, indices, 0));
        while f < self.files.len()
            invariant
                self.wf(),
                *self == *old(self),
                files == self.files(),
                indices == self.indices(),
                f <= self.files.len(),
                forall|i: int|
                    0 <= i < f ==> complete(#[trigger] current_document(files, indices, i)),
                commands.deep_view() == current_commands(files, indices, f as nat),
            decreases self.files.len() - f,
        {
            assert(files[f as int] == self.files@[f as int].deep_view());
            assert(indices[f as int] == self.indices@[f as int]);
            if self.files[f].len() > 0 {
                let at: usize = self.indices[f];
                let ghost before = commands.deep_view();
                match any_command_from_line(self.files[f][at].as_str()) {
                    Ok(Some(cmd)) => {
                        let ghost view = cmd.deep_view();
                        commands.push(cmd);
                        assert(commands.deep_view() =~= before.push(view));
                    },
                    Ok(None) => {},
                    Err(e) => {
                        assert(!complete(current_document(files, indices, f as int)));
                        return Err(e);
                    },
                }
            }
            f = f + 1;
        }
        let mut g: usize = 0;
        while g < self.indices.len()
            invariant
                old(self).wf(),
                files == old(self).files(),
                indices == old(self).indices(),
                self.files == old(self).files,
                self.indices@.len() == old(self).indices@.len(),
                g <= self.indices.len(),
                forall|i: int|
                    0 <= i < g ==> #[trigger] self.indices@[i] as nat == next_index(
                        indices[i],
                        files[i].len(),
                    ),
                forall|i: int|
                    g <= i < self.indices@.len() ==> #[trigger] self.indices@[i] == old(
                        self,
                    ).indices@[i],
            decreases self.indices.len() - g,
        {
            assert(files[g as int] == self.files@[g as int].deep_view());
            assert(indices[g as int] == old(self).indices@[g as int]);
            let at: usize = self.indices[g];
            let len: usize = self.files[g].len();
            let next: usize = if len == 0 || at >= len - 1 {
                0
            } else {
                at + 1
            };
            self.indices.set(g, next);
            g = g + 1;
        }
        assert(self.indices() =~= Seq::new(
            files.len(),
            |f: int| next_index(indices[f], files[f].len()),
        ));
        Ok(AnyCommands { commands })
    }
}

/// Every file is played in a circle of its own: after `ticks` ticks its current line is the
/// one at `ticks` modulo its length.
pub proof fn lemma_played_in_circles(len: nat, ticks: nat)
    requires
        len > 0,
    ensures
        index_after(len, ticks) == ticks % len,
    decreases ticks,
{
    if ticks > 0 {
        lemma_played_in_circles(len, (ticks - 1) as nat);
        let before = (ticks - 1) as nat;
        assert(ticks % len == if before % len + 1 >= len {
            0
        } else {
            before % len + 1
        }) by {
            vstd::arithmetic::div_mod::lemma_fundamental_div_mod(before as int, len as int);
            if before % len + 1 >= len {
                let q = before as int / len as int;
                let d = len as int;
                assert((q + 1) * d == d * q + d) by (nonlinear_arith);
                vstd::arithmetic::div_mod::lemma_fundamental_div_mod_converse(
                    ticks as int,
                    len as int,
                    q + 1,
                    0,
                );
            } else {
                vstd::arithmetic::div_mod::lemma_fundamental_div_mod_converse(
                    ticks as int,
                    len as int,
                    before as int / len as int,
                    (before % len + 1) as int,
                );
            }
        }
    } else {
        vstd::arithmetic::div_mod::lemma_small_mod(0, len);
    }
}

/// A value is an object with an unsigned integer under a name.
pub open spec fn has_number(value: JsonTree, name: Seq<char>) -> bool {
    &&& value is Object
    &&& value->Object_0.dom().contains(name)
    &&& value->Object_0[name] is Number
    &&& value->Object_0[name]->Number_0.unsigned is Some
}

/// A value is an object with a text under a name.
pub open spec fn has_text(value: JsonTree, name: Seq<char>) -> bool {
    &&& value is Object
    &&& value->Object_0.dom().contains(name)
    &&& value->Object_0[name] is Text
}

/// A part that is described is taken with its number, cut to 32 bits, and its name; a number or
/// a name that is not there is zero or empty. It is whole when both are there.
pub proof fn lemma_parts_are_read(value: JsonTree)
    ensures
        some_part(None) is None,
        some_part(Some(value)) is Some,
        has_number(value, "id"@) ==> some_part(
            Some(value),
        )->0.id as int == value->Object_0["id"@]->Number_0.unsigned->0 as int % 0x1_0000_0000,
        !has_number(value, "id"@) ==> some_part(
            Some(value),
        )->0.id == 0,
        has_text(value, "name"@) ==> some_part(Some(value))->0.name == value->Object_0["name"@]->Text_0,
        !has_text(value, "name"@) ==> some_part(Some(value))->0.name.len() == 0,
        !is_part(None),
        is_part(Some(value)) <==> has_number(value, "id"@) && has_text(value, "name"@),
{
}

/// A pose is given by the numbers in the data of the goal's pose, where that is an array.
pub proof fn lemma_poses_are_read(goal: JsonTree, pose: Seq<u64>)
    ensures
        some_pose(Some(goal)) == Some(pose) <==> ({
            &&& goal matches JsonTree::Object(g)
            &&& g.dom().contains("goalPose"@)
            &&& g["goalPose"@] matches JsonTree::Object(p)
            &&& p.dom().contains("data"@)
            &&& p["data"@] matches JsonTree::Array(d)
            &&& pose == json::doubles(d)
        }),
{
}

/// A document holds no command unless it is an array that begins with an object in which one of
/// the five kinds of command has its name.
pub proof fn lemma_documents_without_command(document: Option<JsonTree>)
    requires
        !({
            &&& document matches Some(JsonTree::Array(items))
            &&& items.len() > 0
            &&& items[0] matches JsonTree::Object(o)
            &&& o.dom().contains("armCommand"@) || o.dom().contains("neckCommand"@)
                || o.dom().contains("antennasCommand"@) || o.dom().contains("handCommand"@)
                || o.dom().contains("mobileBaseCommand"@)
        }),
    ensures
        recorded_command(document) is None,
        complete(document),
{
}

/// An arm command is read wherever it stands, before any other kind. It has the goal that is
/// recorded, with its part and pose, and the speed limit that is recorded, with its part and
/// limit; it turns nothing on or off.
pub proof fn lemma_arm_commands_are_read(
    items: Seq<JsonTree>,
    object: Map<Seq<char>, JsonTree>,
    value: JsonTree,
)
    requires
        items.len() > 0,
        items[0] == JsonTree::Object(object),
        object.dom().contains("armCommand"@),
        object["armCommand"@] == value,
    ensures
        ({
            let document = Some(JsonTree::Array(items));
            &&& complete(document)
            &&& recorded_command(document) matches Some(cmd)
            &&& cmd.command matches Some(Command::ArmCommand(arm))
            &&& arm.turn_on is None
            &&& arm.turn_off is None
            &&& arm.torque_limit is None
            &&& arm.arm_cartesian_goal is Some <==> value is Object
                && value->Object_0.dom().contains("armCartesianGoal"@)
            &&& arm.speed_limit is Some <==> value is Object && value->Object_0.dom().contains(
                "speedLimit"@,
            )
            &&& arm.arm_cartesian_goal is Some ==> {
                let goal = value->Object_0["armCartesianGoal"@];
                &&& arm.arm_cartesian_goal->0 matches messages::MessageView::ArmCartesianGoal(g)
                &&& g.duration is None
                &&& g.goal_pose == some_pose(Some(goal))
                &&& g.id is Some <==> goal is Object && goal->Object_0.dom().contains("id"@)
                &&& g.id is Some ==> g.id == some_part(Some(goal->Object_0["id"@]))
            }
            &&& arm.speed_limit is Some ==> {
                let limit = value->Object_0["speedLimit"@];
                &&& arm.speed_limit->0 matches messages::MessageView::SpeedLimit(l)
                &&& l.id is Some <==> limit is Object && limit->Object_0.dom().contains("id"@)
                &&& l.id is Some ==> l.id == some_part(Some(limit->Object_0["id"@]))
                &&& has_number(limit, "limit"@) ==> l.limit as int
                    == limit->Object_0["limit"@]->Number_0.unsigned->0 as int % 0x1_0000_0000
                &&& !has_number(limit, "limit"@) ==> l.limit == 0
            }
        }),
{
}

/// A neck command with its part and its four numbers is read, each number in its place.
pub proof fn lemma_neck_commands_are_read(
    items: Seq<JsonTree>,
    object: Map<Seq<char>, JsonTree>,
    command: Map<Seq<char>, JsonTree>,
    goal: Map<Seq<char>, JsonTree>,
    joints: Map<Seq<char>, JsonTree>,
    rotation: Map<Seq<char>, JsonTree>,
    q: Map<Seq<char>, JsonTree>,
    part: JsonTree,
    w: JsonNumber,
    x: JsonNumber,
    y: JsonNumber,
    z: JsonNumber,
)
    requires
        items.len() > 0,
        items[0] == JsonTree::Object(object),
        !object.dom().contains("armCommand"@),
        object.dom().contains("neckCommand"@),
        object["neckCommand"@] == JsonTree::Object(command),
        command.dom().contains("neckGoal"@),
        command["neckGoal"@] == JsonTree::Object(goal),
        goal.dom().contains("id"@),
        goal["id"@] == part,
        is_part(Some(part)),
        goal.dom().contains("jointsGoal"@),
        goal["jointsGoal"@] == JsonTree::Object(joints),
        joints.dom().contains("rotation"@),
        joints["rotation"@] == JsonTree::Object(rotation),
        rotation.dom().contains("q"@),
        rotation["q"@] == JsonTree::Object(q),
        q.dom().contains("w"@),
        q["w"@] == JsonTree::Number(w),
        w.double is Some,
        q.dom().contains("x"@),
        q["x"@] == JsonTree::Number(x),
        x.double is Some,
        q.dom().contains("y"@),
        q["y"@] == JsonTree::Number(y),
        y.double is Some,
        q.dom().contains("z"@),
        q["z"@] == JsonTree::Number(z),
        z.double is Some,
    ensures
        ({
            let document = Some(JsonTree::Array(items));
            &&& complete(document)
            &&& recorded_command(document) matches Some(cmd)
            &&& cmd.command matches Some(Command::NeckCommand(neck))
            &&& neck.turn_on is None
            &&& neck.turn_off is None
            &&& neck.speed_limit is None
            &&& neck.torque_limit is None
            &&& neck.neck_goal matches Some(messages::MessageView::NeckGoal(said))
            &&& said.id == some_part(Some(part))
            &&& said.w == w.double->0
            &&& said.x == x.double->0
            &&& said.y == y.double->0
            &&& said.z == z.double->0
        }),
{
}

/// A neck command that lacks its part or one of its four numbers lacks a field that it must
/// have; one that lacks none of them is complete.
pub proof fn lemma_neck_commands_need_all(
    items: Seq<JsonTree>,
    object: Map<Seq<char>, JsonTree>,
)
    requires
        items.len() > 0,
        items[0] == JsonTree::Object(object),
        !object.dom().contains("armCommand"@),
        object.dom().contains("neckCommand"@),
    ensures
        ({
            let goal = json::member(Some(object["neckCommand"@]), "neckGoal"@);
            let q = json::member(
                json::member(json::member(goal, "jointsGoal"@), "rotation"@),
                "q"@,
            );
            complete(Some(JsonTree::Array(items))) <==> is_part(json::member(goal, "id"@))
                && json::double(json::member(q, "w"@)) is Some && json::double(
                json::member(q, "x"@),
            ) is Some && json::double(json::member(q, "y"@)) is Some && json::double(
                json::member(q, "z"@),
            ) is Some
        }),
{
}

/// The two antennas are read in the order of the record: the number at the first place is the
/// position of the left one, the number at the second place that of the right one. An antenna
/// without a number has no position.
pub proof fn lemma_antennas_are_read(
    items: Seq<JsonTree>,
    object: Map<Seq<char>, JsonTree>,
    value: JsonTree,
    position: u64,
)
    requires
        items.len() > 0,
        items[0] == JsonTree::Object(object),
        !object.dom().contains("armCommand"@),
        !object.dom().contains("neckCommand"@),
        object.dom().contains("antennasCommand"@),
        object["antennasCommand"@] == value,
    ensures
        ({
            let document = Some(JsonTree::Array(items));
            &&& complete(document)
            &&& recorded_command(document) matches Some(cmd)
            &&& cmd.command matches Some(
                Command::AntennasCommand(messages::MessageView::Antennas(motors)),
            )
            &&& motors.len() == 2
            &&& motors[0].name == "antenna_left"@
            &&& motors[1].name == "antenna_right"@
            &&& motors[0].goal_position == Some(position) <==> ({
                &&& value matches JsonTree::Object(v)
                &&& v.dom().contains("cmd"@)
                &&& v["cmd"@] matches JsonTree::Array(cmds)
                &&& cmds.len() > 0
                &&& cmds[0] matches JsonTree::Object(o)
                &&& o.dom().contains("goalPosition"@)
                &&& o["goalPosition"@] matches JsonTree::Number(k)
                &&& k.double == Some(position)
            })
            &&& motors[1].goal_position == Some(position) <==> ({
                &&& value matches JsonTree::Object(v)
                &&& v.dom().contains("cmd"@)
                &&& v["cmd"@] matches JsonTree::Array(cmds)
                &&& cmds.len() > 1
                &&& cmds[1] matches JsonTree::Object(o)
                &&& o.dom().contains("goalPosition"@)
                &&& o["goalPosition"@] matches JsonTree::Number(k)
                &&& k.double == Some(position)
            })
        }),
{
}

/// A hand command is read where its goal names a part, and lacks a field otherwise. It opens as
/// far as recorded, and not at all where nothing is recorded.
pub proof fn lemma_hand_commands_are_read(
    items: Seq<JsonTree>,
    object: Map<Seq<char>, JsonTree>,
    value: JsonTree,
    opening: u64,
)
    requires
        items.len() > 0,
        items[0] == JsonTree::Object(object),
        !object.dom().contains("armCommand"@),
        !object.dom().contains("neckCommand"@),
        !object.dom().contains("antennasCommand"@),
        object.dom().contains("handCommand"@),
        object["handCommand"@] == value,
    ensures
        ({
            let document = Some(JsonTree::Array(items));
            &&& complete(document) <==> ({
                &&& value matches JsonTree::Object(v)
                &&& v.dom().contains("handGoal"@)
                &&& v["handGoal"@] matches JsonTree::Object(g)
                &&& g.dom().contains("id"@)
                &&& is_part(Some(g["id"@]))
            })
            &&& complete(document) ==> {
                let goal = value->Object_0["handGoal"@]->Object_0;
                let recorded = {
                    &&& goal.dom().contains("position"@)
                    &&& goal["position"@] matches JsonTree::Object(p)
                    &&& p.dom().contains("parallelGripper"@)
                    &&& p["parallelGripper"@] matches JsonTree::Object(g)
                    &&& g.dom().contains("openingPercentage"@)
                    &&& g["openingPercentage"@] matches JsonTree::Number(k)
                    &&& k.double == Some(opening)
                };
                &&& recorded_command(document) matches Some(cmd)
                &&& cmd.command matches Some(Command::HandCommand(hand))
                &&& hand.turn_on is None
                &&& hand.turn_off is None
                &&& hand.hand_goal matches Some(messages::MessageView::HandPosition(said))
                &&& said.id == some_part(Some(goal["id"@]))
                &&& recorded ==> said.opening_percentage == opening
                &&& said.opening_percentage == opening && opening != 0 ==> recorded
            }
        }),
{
}

/// A mobile base command counts only where it has a direction and no mode but `CMD_VEL`. It then
/// has that direction, each number in its place, and the mode with the number 1 if the mode is
/// recorded.
pub proof fn lemma_directions_are_read(
    items: Seq<JsonTree>,
    object: Map<Seq<char>, JsonTree>,
    command: Map<Seq<char>, JsonTree>,
    target: Map<Seq<char>, JsonTree>,
    direction: Map<Seq<char>, JsonTree>,
    part: JsonTree,
    x: JsonNumber,
    y: JsonNumber,
    theta: JsonNumber,
)
    requires
        items.len() > 0,
        items[0] == JsonTree::Object(object),
        !object.dom().contains("armCommand"@),
        !object.dom().contains("neckCommand"@),
        !object.dom().contains("antennasCommand"@),
        !object.dom().contains("handCommand"@),
        object.dom().contains("mobileBaseCommand"@),
        object["mobileBaseCommand"@] == JsonTree::Object(command),
        command.dom().contains("mobileBaseMode"@) ==> command["mobileBaseMode"@] == JsonTree::Text(
            "CMD_VEL"@,
        ),
        command.dom().contains("targetDirection"@),
        command["targetDirection"@] == JsonTree::Object(target),
        target.dom().contains("id"@),
        target["id"@] == part,
        is_part(Some(part)),
        target.dom().contains("direction"@),
        target["direction"@] == JsonTree::Object(direction),
        direction.dom().contains("x"@),
        direction["x"@] == JsonTree::Number(x),
        x.double is Some,
        direction.dom().contains("y"@),
        direction["y"@] == JsonTree::Number(y),
        y.double is Some,
        direction.dom().contains("theta"@),
        direction["theta"@] == JsonTree::Number(theta),
        theta.double is Some,
    ensures
        ({
            let document = Some(JsonTree::Array(items));
            &&& complete(document)
            &&& recorded_command(document) matches Some(cmd)
            &&& cmd.command matches Some(Command::MobileBaseCommand(base))
            &&& base.target_direction matches Some(messages::MessageView::Direction(said))
            &&& said.id == some_part(Some(part))
            &&& said.x == x.double->0
            &&& said.y == y.double->0
            &&& said.theta == theta.double->0
            &&& base.mobile_base_mode is Some <==> command.dom().contains("mobileBaseMode"@)
            &&& base.mobile_base_mode is Some ==> base.mobile_base_mode == Some(
                messages::MessageView::ZuuuMode(
                    messages::ZuuuModeCommandView { id: None, mode: 1 },
                ),
            )
        }),
{
}

/// A mobile base command without a direction, or with another mode, is no command. One that
/// counts must have a part and three numbers.
pub proof fn lemma_directions_need_all(items: Seq<JsonTree>, object: Map<Seq<char>, JsonTree>)
    requires
        items.len() > 0,
        items[0] == JsonTree::Object(object),
        !object.dom().contains("armCommand"@),
        !object.dom().contains("neckCommand"@),
        !object.dom().contains("antennasCommand"@),
        !object.dom().contains("handCommand"@),
        object.dom().contains("mobileBaseCommand"@),
    ensures
        ({
            let document = Some(JsonTree::Array(items));
            let value = Some(object["mobileBaseCommand"@]);
            let mode = json::member(value, "mobileBaseMode"@);
            let target = json::member(value, "targetDirection"@);
            let direction = json::member(target, "direction"@);
            let counts = target is Some && (mode is None || mode == Some(
                JsonTree::Text("CMD_VEL"@),
            ));
            &&& !counts ==> recorded_command(document) is None && complete(document)
            &&& counts ==> recorded_command(document) is Some
            &&& counts ==> (complete(document) <==> is_part(json::member(target, "id"@))
                && json::double(json::member(direction, "x"@)) is Some && json::double(
                json::member(direction, "y"@),
            ) is Some && json::double(json::member(direction, "theta"@)) is Some)
        }),
{
}

/// A file gives the document in its current line; an empty file gives none.
pub proof fn lemma_current_line(files: Seq<Seq<Seq<char>>>, indices: Seq<nat>, f: int)
    requires
        0 <= f < files.len(),
        files.len() == indices.len(),
    ensures
        files[f].len() > 0 ==> current_document(files, indices, f) == json::json_text(
            files[f][indices[f] as int],
        ),
        files[f].len() == 0 ==> current_document(files, indices, f) is None,
{
}

/// The commands of some files are those of the first ones, and then those of the others; a file
/// alone gives the command in its current line, or none.
pub proof fn lemma_files_side_by_side(
    files: Seq<Seq<Seq<char>>>,
    indices: Seq<nat>,
    m: nat,
    k: nat,
)
    requires
        m + k <= files.len(),
        files.len() == indices.len(),
    ensures
        current_commands(files, indices, m + k) == current_commands(files, indices, m)
            + current_commands(files.skip(m as int), indices.skip(m as int), k),
        files.len() > 0 ==> (match recorded_command(current_document(files, indices, 0)) {
            Some(cmd) => current_commands(files, indices, 1) == seq![cmd],
            None => current_commands(files, indices, 1).len() == 0,
        }),
    decreases k,
{
    let later = files.skip(m as int);
    let later_indices = indices.skip(m as int);
    if files.len() > 0 {
        assert(current_commands(files, indices, 0) =~= Seq::empty());
        if let Some(cmd) = recorded_command(current_document(files, indices, 0)) {
            assert(current_commands(files, indices, 1) =~= seq![cmd]);
        }
    }
    if k > 0 {
        lemma_files_side_by_side(files, indices, m, (k - 1) as nat);
        assert(current_document(later, later_indices, k - 1) == current_document(
            files,
            indices,
            m + k - 1,
        ));
        assert(current_commands(files, indices, m + k) =~= current_commands(files, indices, m)
            + current_commands(later, later_indices, k));
    } else {
        assert(current_commands(later, later_indices, 0) =~= Seq::empty());
        assert(current_commands(files, indices, m) =~= current_commands(files, indices, m)
            + current_commands(later, later_indices, 0));
    }
}

/// A line is followed by the next one of its file, and the last by the first.
pub proof fn lemma_next_line(index: nat, len: nat)
    ensures
        index + 1 < len ==> next_index(index, len) == index + 1,
        index + 1 >= len ==> next_index(index, len) == 0,
{
}

} // verus!
