//! Commands for the robot, as they travel over a command channel.
//!
//! A command wraps messages of the robot's API. No decision looks into these messages, so
//! the command types take the type of a message as a parameter.
use vstd::prelude::*;

verus! {

/// A command for one arm. The fields are alternatives, the first one present counts.
#[derive(Debug)]
pub struct ArmCommand<M> {
    pub arm_cartesian_goal: Option<M>,
    pub turn_on: Option<M>,
    pub turn_off: Option<M>,
    pub speed_limit: Option<M>,
    pub torque_limit: Option<M>,
}

/// A command for one hand. The fields are alternatives, the first one present counts.
#[derive(Debug)]
pub struct HandCommand<M> {
    pub hand_goal: Option<M>,
    pub turn_on: Option<M>,
    pub turn_off: Option<M>,
}

/// A command for the neck. The fields are alternatives, the first one present counts.
#[derive(Debug)]
pub struct NeckCommand<M> {
    pub neck_goal: Option<M>,
    pub turn_on: Option<M>,
    pub turn_off: Option<M>,
    pub speed_limit: Option<M>,
    pub torque_limit: Option<M>,
}

/// A command for the mobile base. The fields are alternatives, the first one present counts.
#[derive(Debug)]
pub struct MobileBaseCommand<M> {
    pub target_direction: Option<M>,
    pub mobile_base_mode: Option<M>,
}

/// A command for one part of the robot.
#[derive(Debug)]
pub enum Command<M> {
    ArmCommand(ArmCommand<M>),
    HandCommand(HandCommand<M>),
    NeckCommand(NeckCommand<M>),
    MobileBaseCommand(MobileBaseCommand<M>),
    AntennasCommand(M),
}

/// A command, or nothing that this version knows.
#[derive(Debug)]
pub struct AnyCommand<M> {
    pub command: Option<Command<M>>,
}

/// The commands of one message, in the order in which they are carried out.
#[derive(Debug)]
pub struct AnyCommands<M> {
    pub commands: Vec<AnyCommand<M>>,
}

impl<M> Default for ArmCommand<M> {
    fn default() -> (r: Self)
        ensures
            r == no_arm_command::<M>(),
    {
        ArmCommand {
            arm_cartesian_goal: None,
            turn_on: None,
            turn_off: None,
            speed_limit: None,
            torque_limit: None,
        }
    }
}

impl<M> Default for HandCommand<M> {
    fn default() -> (r: Self)
        ensures
            r == no_hand_command::<M>(),
    {
        HandCommand { hand_goal: None, turn_on: None, turn_off: None }
    }
}

impl<M> Default for NeckCommand<M> {
    fn default() -> (r: Self)
        ensures
            r == no_neck_command::<M>(),
    {
        NeckCommand {
            neck_goal: None,
            turn_on: None,
            turn_off: None,
            speed_limit: None,
            torque_limit: None,
        }
    }
}

impl<M> Default for MobileBaseCommand<M> {
    fn default() -> (r: Self)
        ensures
            r == no_mobile_base_command::<M>(),
    {
        MobileBaseCommand { target_direction: None, mobile_base_mode: None }
    }
}

/// The arm command with no field set.
pub open spec fn no_arm_command<M>() -> ArmCommand<M> {
    ArmCommand {
        arm_cartesian_goal: None,
        turn_on: None,
        turn_off: None,
        speed_limit: None,
        torque_limit: None,
    }
}

/// The hand command with no field set.
pub open spec fn no_hand_command<M>() -> HandCommand<M> {
    HandCommand { hand_goal: None, turn_on: None, turn_off: None }
}

/// The neck command with no field set.
pub open spec fn no_neck_command<M>() -> NeckCommand<M> {
    NeckCommand {
        neck_goal: None,
        turn_on: None,
        turn_off: None,
        speed_limit: None,
        torque_limit: None,
    }
}

/// The mobile base command with no field set.
pub open spec fn no_mobile_base_command<M>() -> MobileBaseCommand<M> {
    MobileBaseCommand { target_direction: None, mobile_base_mode: None }
}

impl<M: DeepView> DeepView for ArmCommand<M> {
    type V = ArmCommand<M::V>;

    open spec fn deep_view(&self) -> ArmCommand<M::V> {
        ArmCommand {
            arm_cartesian_goal: self.arm_cartesian_goal.deep_view(),
            turn_on: self.turn_on.deep_view(),
            turn_off: self.turn_off.deep_view(),
            speed_limit: self.speed_limit.deep_view(),
            torque_limit: self.torque_limit.deep_view(),
        }
    }
}

impl<M: DeepView> DeepView for HandCommand<M> {
    type V = HandCommand<M::V>;

    open spec fn deep_view(&self) -> HandCommand<M::V> {
        HandCommand {
            hand_goal: self.hand_goal.deep_view(),
            turn_on: self.turn_on.deep_view(),
            turn_off: self.turn_off.deep_view(),
        }
    }
}

impl<M: DeepView> DeepView for NeckCommand<M> {
    type V = NeckCommand<M::V>;

    open spec fn deep_view(&self) -> NeckCommand<M::V> {
        NeckCommand {
            neck_goal: self.neck_goal.deep_view(),
            turn_on: self.turn_on.deep_view(),
            turn_off: self.turn_off.deep_view(),
            speed_limit: self.speed_limit.deep_view(),
            torque_limit: self.torque_limit.deep_view(),
        }
    }
}

impl<M: DeepView> DeepView for MobileBaseCommand<M> {
    type V = MobileBaseCommand<M::V>;

    open spec fn deep_view(&self) -> MobileBaseCommand<M::V> {
        MobileBaseCommand {
            target_direction: self.target_direction.deep_view(),
            mobile_base_mode: self.mobile_base_mode.deep_view(),
        }
    }
}

impl<M: DeepView> DeepView for Command<M> {
    type V = Command<M::V>;

    open spec fn deep_view(&self) -> Command<M::V> {
        match self {
            Command::ArmCommand(c) => Command::ArmCommand(c.deep_view()),
            Command::HandCommand(c) => Command::HandCommand(c.deep_view()),
            Command::NeckCommand(c) => Command::NeckCommand(c.deep_view()),
            Command::MobileBaseCommand(c) => Command::MobileBaseCommand(c.deep_view()),
            Command::AntennasCommand(m) => Command::AntennasCommand(m.deep_view()),
        }
    }
}

impl<M: DeepView> DeepView for AnyCommand<M> {
    type V = AnyCommand<M::V>;

    open spec fn deep_view(&self) -> AnyCommand<M::V> {
        AnyCommand { command: self.command.deep_view() }
    }
}

impl<M: DeepView> DeepView for AnyCommands<M> {
    type V = Seq<AnyCommand<M::V>>;

    open spec fn deep_view(&self) -> Seq<AnyCommand<M::V>> {
        self.commands.deep_view()
    }
}

/// A command without the goal that moves a part.
pub open spec fn without_goal<M>(cmd: AnyCommand<M>) -> AnyCommand<M> {
    AnyCommand {
        command: match cmd.command {
            Some(Command::ArmCommand(c)) => Some(
                Command::ArmCommand(ArmCommand { arm_cartesian_goal: None, ..c }),
            ),
            Some(Command::HandCommand(c)) => Some(
                Command::HandCommand(HandCommand { hand_goal: None, ..c }),
            ),
            Some(Command::NeckCommand(c)) => Some(
                Command::NeckCommand(NeckCommand { neck_goal: None, ..c }),
            ),
            Some(Command::MobileBaseCommand(c)) => Some(
                Command::MobileBaseCommand(MobileBaseCommand { target_direction: None, ..c }),
            ),
            other => other,
        },
    }
}

/// Whether a command holds a goal that moves a part.
pub open spec fn has_goal<M>(cmd: AnyCommand<M>) -> bool {
    match cmd.command {
        Some(Command::ArmCommand(c)) => c.arm_cartesian_goal is Some,
        Some(Command::HandCommand(c)) => c.hand_goal is Some,
        Some(Command::NeckCommand(c)) => c.neck_goal is Some,
        Some(Command::MobileBaseCommand(c)) => c.target_direction is Some,
        _ => false,
    }
}

/// Important commands hold no motion goal, and stripping them again changes nothing.
pub proof fn lemma_without_goal<M>(cmd: AnyCommand<M>)
    ensures
        !has_goal(without_goal(cmd)),
        without_goal(without_goal(cmd)) == without_goal(cmd),
        !has_goal(cmd) ==> without_goal(cmd) == cmd,
{
}

/// A command without its goal is otherwise the same: whatever else it asks for is kept.
pub proof fn lemma_only_the_goal_goes<M>(cmd: AnyCommand<M>)
    ensures
        match cmd.command {
            Some(Command::ArmCommand(c)) => without_goal(cmd).command matches Some(
                Command::ArmCommand(d),
            ) && d.arm_cartesian_goal is None && d.turn_on == c.turn_on && d.turn_off == c.turn_off
                && d.speed_limit == c.speed_limit && d.torque_limit == c.torque_limit,
            Some(Command::HandCommand(c)) => without_goal(cmd).command matches Some(
                Command::HandCommand(d),
            ) && d.hand_goal is None && d.turn_on == c.turn_on && d.turn_off == c.turn_off,
            Some(Command::NeckCommand(c)) => without_goal(cmd).command matches Some(
                Command::NeckCommand(d),
            ) && d.neck_goal is None && d.turn_on == c.turn_on && d.turn_off == c.turn_off
                && d.speed_limit == c.speed_limit && d.torque_limit == c.torque_limit,
            Some(Command::MobileBaseCommand(c)) => without_goal(cmd).command matches Some(
                Command::MobileBaseCommand(d),
            ) && d.target_direction is None && d.mobile_base_mode == c.mobile_base_mode,
            _ => without_goal(cmd) == cmd,
        },
{
}

/// A command holds a goal if and only if the field for it is set.
pub proof fn lemma_goals<M>(
    arm: ArmCommand<M>,
    hand: HandCommand<M>,
    neck: NeckCommand<M>,
    base: MobileBaseCommand<M>,
    antennas: M,
)
    ensures
        has_goal(AnyCommand { command: Some(Command::ArmCommand(arm)) })
            <==> arm.arm_cartesian_goal is Some,
        has_goal(AnyCommand { command: Some(Command::HandCommand(hand)) })
            <==> hand.hand_goal is Some,
        has_goal(AnyCommand { command: Some(Command::NeckCommand(neck)) })
            <==> neck.neck_goal is Some,
        has_goal(AnyCommand { command: Some(Command::MobileBaseCommand(base)) })
            <==> base.target_direction is Some,
        !has_goal(AnyCommand { command: Some(Command::AntennasCommand(antennas)) }),
        !has_goal(AnyCommand::<M> { command: None }),
{
}

/// In a command with no field set, no field is set.
pub proof fn lemma_no_field_set<M>()
    ensures
        no_arm_command::<M>().arm_cartesian_goal is None,
        no_arm_command::<M>().turn_on is None,
        no_arm_command::<M>().turn_off is None,
        no_arm_command::<M>().speed_limit is None,
        no_arm_command::<M>().torque_limit is None,
        no_hand_command::<M>().hand_goal is None,
        no_hand_command::<M>().turn_on is None,
        no_hand_command::<M>().turn_off is None,
        no_neck_command::<M>().neck_goal is None,
        no_neck_command::<M>().turn_on is None,
        no_neck_command::<M>().turn_off is None,
        no_neck_command::<M>().speed_limit is None,
        no_neck_command::<M>().torque_limit is None,
        no_mobile_base_command::<M>().target_direction is None,
        no_mobile_base_command::<M>().mobile_base_mode is None,
{
}

/// What is said of a command is said field by field.
pub proof fn lemma_command_views<M: DeepView>(
    arm: ArmCommand<M>,
    hand: HandCommand<M>,
    neck: NeckCommand<M>,
    base: MobileBaseCommand<M>,
    antennas: M,
)
    ensures
        ({
            let said = (AnyCommand { command: Some(Command::ArmCommand(arm)) }).deep_view();
            said.command matches Some(Command::ArmCommand(v)) && v.arm_cartesian_goal
                == arm.arm_cartesian_goal.deep_view() && v.turn_on == arm.turn_on.deep_view()
                && v.turn_off == arm.turn_off.deep_view() && v.speed_limit
                == arm.speed_limit.deep_view() && v.torque_limit == arm.torque_limit.deep_view()
        }),
        ({
            let said = (AnyCommand { command: Some(Command::HandCommand(hand)) }).deep_view();
            said.command matches Some(Command::HandCommand(v)) && v.hand_goal
                == hand.hand_goal.deep_view() && v.turn_on == hand.turn_on.deep_view()
                && v.turn_off == hand.turn_off.deep_view()
        }),
        ({
            let said = (AnyCommand { command: Some(Command::NeckCommand(neck)) }).deep_view();
            said.command matches Some(Command::NeckCommand(v)) && v.neck_goal
                == neck.neck_goal.deep_view() && v.turn_on == neck.turn_on.deep_view()
                && v.turn_off == neck.turn_off.deep_view() && v.speed_limit
                == neck.speed_limit.deep_view() && v.torque_limit == neck.torque_limit.deep_view()
        }),
        ({
            let said = (AnyCommand { command: Some(Command::MobileBaseCommand(base)) }).deep_view();
            said.command matches Some(Command::MobileBaseCommand(v)) && v.target_direction
                == base.target_direction.deep_view() && v.mobile_base_mode
                == base.mobile_base_mode.deep_view()
        }),
        ({
            let said = (AnyCommand {
                command: Some(Command::AntennasCommand(antennas)),
            }).deep_view();
            said.command matches Some(Command::AntennasCommand(v)) && v == antennas.deep_view()
        }),
{
}

} // verus!
