//! The client of the robot's gRPC server: which procedure each command calls, and what
//! happens when the server is gone.
use crate::commands::{
    AnyCommand, AnyCommands, ArmCommand, Command, HandCommand, MobileBaseCommand, NeckCommand,
};
use std::collections::VecDeque;
use vstd::prelude::*;

verus! {

/// A service of the robot's server that the client connects to.
#[derive(Clone, Copy, Debug, PartialEq, Eq, Structural)]
pub enum Stub {
    Reachy,
    Arm,
    Hand,
    Head,
    MobileBaseMobility,
    MobileBaseUtility,
}

/// What to do next while connecting.
#[derive(Clone, Copy, Debug, PartialEq, Eq, Structural)]
pub enum ConnectStep {
    Connect(Stub),
    Connected,
    /// There is no client: this connection failed.
    Failed(Stub),
}

/// A procedure of the robot's server.
#[derive(Clone, Copy, Debug, PartialEq, Eq, Structural)]
pub enum GrpcMethod {
    SendArmCartesianGoal,
    ArmTurnOn,
    ArmTurnOff,
    ArmSetSpeedLimit,
    ArmSetTorqueLimit,
    SetHandPosition,
    HandTurnOn,
    HandTurnOff,
    SendNeckJointGoal,
    HeadTurnOn,
    HeadTurnOff,
    HeadSetSpeedLimit,
    HeadSetTorqueLimit,
    SendDirection,
    SetZuuuMode,
}

/// A call of a procedure with its message.
#[derive(Debug)]
pub struct GrpcCall<M> {
    pub method: GrpcMethod,
    pub message: M,
}

/// What the owner of a client does when the connection is lost.
#[derive(Debug)]
pub enum ClientAction {
    /// Tell the thread that keeps the client to stop it.
    StopGrpcThread,
    /// Ask the signalling server to end this session.
    EndSession(String),
}

/// How the last call ended.
#[derive(Clone, Copy, Debug, PartialEq, Eq, Structural)]
pub enum CallEvent {
    /// No call was made yet.
    Begin,
    Replied,
    Refused,
}

/// What to do next with a message of commands.
#[derive(Debug)]
pub enum CommandStep<M> {
    Call(GrpcCall<M>),
    /// All commands were carried out.
    Done,
    /// The connection is lost: the rest of the commands is dropped.
    Lost { error: String, actions: Vec<ClientAction> },
}

/// A message of commands that is being carried out.
#[derive(Debug)]
pub struct CommandRun<M> {
    pending: VecDeque<AnyCommand<M>>,
}

/// What came out of a stream of the server.
#[derive(Clone, Copy, Debug, PartialEq, Eq, Structural)]
pub enum StreamEvent {
    Message,
    End,
    Failure,
}

/// What to do with it.
#[derive(Clone, Copy, Debug, PartialEq, Eq, Structural)]
pub struct StreamStep {
    /// Hand the message on.
    pub forward: bool,
    /// Leave the stream; its receiver sees the end.
    pub finished: bool,
}

/// The request for a stream of states or of audits, at a frequency that is given by its
/// IEEE 754 binary32 pattern.
#[derive(Debug)]
pub struct StreamRequest<I> {
    pub id: Option<I>,
    pub publish_frequency: u32,
}

/// The client's state: whether it was stopped, and whether it has given up its session.
#[derive(Debug)]
pub struct GrpcClient {
    stop_flag: bool,
    aborting: bool,
    session_id: Option<String>,
}

/// The call that an arm command asks for.
pub open spec fn arm_call<M>(cmd: ArmCommand<M>) -> Option<GrpcCall<M>> {
    if let Some(message) = cmd.arm_cartesian_goal {
        Some(GrpcCall { method: GrpcMethod::SendArmCartesianGoal, message })
    } else if let Some(message) = cmd.turn_on {
        Some(GrpcCall { method: GrpcMethod::ArmTurnOn, message })
    } else if let Some(message) = cmd.turn_off {
        Some(GrpcCall { method: GrpcMethod::ArmTurnOff, message })
    } else if let Some(message) = cmd.speed_limit {
        Some(GrpcCall { method: GrpcMethod::ArmSetSpeedLimit, message })
    } else if let Some(message) = cmd.torque_limit {
        Some(GrpcCall { method: GrpcMethod::ArmSetTorqueLimit, message })
    } else {
        None
    }
}

/// The call that a hand command asks for.
pub open spec fn hand_call<M>(cmd: HandCommand<M>) -> Option<GrpcCall<M>> {
    if let Some(message) = cmd.hand_goal {
        Some(GrpcCall { method: GrpcMethod::SetHandPosition, message })
    } else if let Some(message) = cmd.turn_on {
        Some(GrpcCall { method: GrpcMethod::HandTurnOn, message })
    } else if let Some(message) = cmd.turn_off {
        Some(GrpcCall { method: GrpcMethod::HandTurnOff, message })
    } else {
        None
    }
}

/// The call that a neck command asks for.
pub open spec fn neck_call<M>(cmd: NeckCommand<M>) -> Option<GrpcCall<M>> {
    if let Some(message) = cmd.neck_goal {
        Some(GrpcCall { method: GrpcMethod::SendNeckJointGoal, message })
    } else if let Some(message) = cmd.turn_on {
        Some(GrpcCall { method: GrpcMethod::HeadTurnOn, message })
    } else if let Some(message) = cmd.turn_off {
        Some(GrpcCall { method: GrpcMethod::HeadTurnOff, message })
    } else if let Some(message) = cmd.speed_limit {
        Some(GrpcCall { method: GrpcMethod::HeadSetSpeedLimit, message })
    } else if let Some(message) = cmd.torque_limit {
        Some(GrpcCall { method: GrpcMethod::HeadSetTorqueLimit, message })
    } else {
        None
    }
}

/// The call that a mobile base command asks for.
pub open spec fn mobile_base_call<M>(cmd: MobileBaseCommand<M>) -> Option<GrpcCall<M>> {
    if let Some(message) = cmd.target_direction {
        Some(GrpcCall { method: GrpcMethod::SendDirection, message })
    } else if let Some(message) = cmd.mobile_base_mode {
        Some(GrpcCall { method: GrpcMethod::SetZuuuMode, message })
    } else {
        None
    }
}

/// The call that a command asks for: none for the antennas or an unknown command.
pub open spec fn call_of<M>(cmd: AnyCommand<M>) -> Option<GrpcCall<M>> {
    match cmd.command {
        Some(Command::ArmCommand(c)) => arm_call(c),
        Some(Command::HandCommand(c)) => hand_call(c),
        Some(Command::NeckCommand(c)) => neck_call(c),
        Some(Command::MobileBaseCommand(c)) => mobile_base_call(c),
        _ => None,
    }
}

/// The calls that some commands ask for, in order.
pub open spec fn calls_of<M>(cmds: Seq<AnyCommand<M>>) -> Seq<GrpcCall<M>>
    decreases cmds.len(),
{
    if cmds.len() == 0 {
        Seq::empty()
    } else {
        match call_of(cmds[0]) {
            Some(call) => seq![call] + calls_of(cmds.drop_first()),
            None => calls_of(cmds.drop_first()),
        }
    }
}

/// The first call that some commands ask for, and the commands behind it.
pub open spec fn next_call<M>(cmds: Seq<AnyCommand<M>>) -> (
    Option<GrpcCall<M>>,
    Seq<AnyCommand<M>>,
)
    decreases cmds.len(),
{
    if cmds.len() == 0 {
        (None, cmds)
    } else {
        match call_of(cmds[0]) {
            Some(call) => (Some(call), cmds.drop_first()),
            None => next_call(cmds.drop_first()),
        }
    }
}

/// The calls made for some commands when the server answers them as `replies` says (`true`:
/// carried out); a call without an answer is the last.
pub open spec fn made_calls<M>(cmds: Seq<AnyCommand<M>>, replies: Seq<bool>) -> Seq<GrpcCall<M>>
    decreases replies.len(),
{
    match next_call(cmds).0 {
        None => Seq::empty(),
        Some(call) => if replies.len() > 0 && replies[0] {
            seq![call] + made_calls(next_call(cmds).1, replies.drop_first())
        } else {
            seq![call]
        },
    }
}

/// The stub that is connected after `stub`.
pub open spec fn stub_after(stub: Stub) -> Option<Stub> {
    match stub {
        Stub::Reachy => Some(Stub::Arm),
        Stub::Arm => Some(Stub::Hand),
        Stub::Hand => Some(Stub::Head),
        Stub::Head => Some(Stub::MobileBaseMobility),
        Stub::MobileBaseMobility => Some(Stub::MobileBaseUtility),
        Stub::MobileBaseUtility => None,
    }
}

/// The step of connecting that follows an attempt, or opens the sequence.
pub open spec fn connect_step(attempt: Option<(Stub, bool)>) -> ConnectStep {
    match attempt {
        None => ConnectStep::Connect(Stub::Reachy),
        Some((stub, false)) => ConnectStep::Failed(stub),
        Some((stub, true)) => match stub_after(stub) {
            Some(next) => ConnectStep::Connect(next),
            None => ConnectStep::Connected,
        },
    }
}

/// The stubs that are tried when the server accepts as `accepted` says.
pub open spec fn tried_stubs(attempt: Option<(Stub, bool)>, accepted: Seq<bool>) -> Seq<Stub>
    decreases accepted.len(),
{
    match connect_step(attempt) {
        ConnectStep::Connect(stub) => if accepted.len() > 0 {
            seq![stub] + tried_stubs(Some((stub, accepted[0])), accepted.drop_first())
        } else {
            seq![stub]
        },
        _ => Seq::empty(),
    }
}

/// What is done when the connection is lost, for the first time and by a client of a session.
pub open spec fn loss_actions(aborted: bool, session: Option<String>) -> Seq<ClientAction> {
    match session {
        Some(session) if !aborted => seq![
            ClientAction::StopGrpcThread,
            ClientAction::EndSession(session),
        ],
        _ => Seq::empty(),
    }
}

/// What is done over `n` losses of the connection.
pub open spec fn actions_of_losses(aborted: bool, session: Option<String>, n: nat) -> Seq<ClientAction>
    decreases n,
{
    if n == 0 {
        Seq::empty()
    } else {
        loss_actions(aborted, session) + actions_of_losses(true, session, (n - 1) as nat)
    }
}

impl<M> CommandRun<M> {
    /// The commands that are not carried out yet.
    pub closed spec fn pending(self) -> Seq<AnyCommand<M>> {
        self.pending@
    }

    /// Takes up a message of commands.
    pub fn new(commands: AnyCommands<M>) -> (r: CommandRun<M>)
        ensures
            r.pending() == commands.commands@,
    {
        let ghost all = commands.commands@;
        let mut pending: VecDeque<AnyCommand<M>> = VecDeque::new();
        for cmd in it: commands.commands
            invariant
                it.seq() == all,
                pending@ == all.take(it.index()),
        {
            pending.push_back(cmd);
            assert(pending@ =~= all.take(it.index() + 1));
        }
        assert(all.take(all.len() as int) =~= all);
        CommandRun { pending }
    }

    fn advance(&mut self) -> (r: Option<GrpcCall<M>>)
        ensures
            (r, final(self).pending()) == next_call(old(self).pending()),
    {
        loop
            invariant
                next_call(self.pending()) == next_call(old(self).pending()),
            decreases self.pending@.len(),
        {
            let ghost before = self.pending@;
            match self.pending.pop_front() {
                Some(cmd) => {
                    assert(before.drop_first() =~= self.pending@);
                    match GrpcClient::call_for(cmd) {
                        Some(call) => {
                            return Some(call);
                        },
                        None => {},
                    }
                },
                None => {
                    return None;
                },
            }
        }
    }
}

impl GrpcClient {
    /// Whether the client was stopped.
    pub closed spec fn stopped(self) -> bool {
        self.stop_flag
    }

    /// Whether the client has given up its session.
    pub closed spec fn aborted(self) -> bool {
        self.aborting
    }

    /// The session that the client serves, if any.
    pub closed spec fn session(self) -> Option<String> {
        self.session_id
    }

    /// What is done when the connection is lost now.
    pub open spec fn abort_actions(self) -> Seq<ClientAction> {
        loss_actions(self.aborted(), self.session())
    }

    /// The next step of connecting, after the attempt that was made last.
    pub fn connect(attempt: Option<(Stub, bool)>) -> (r: ConnectStep)
        ensures
            r == connect_step(attempt),
    {
        match attempt {
            None => ConnectStep::Connect(Stub::Reachy),
            Some((stub, accepted)) => if accepted {
                match stub {
                    Stub::Reachy => ConnectStep::Connect(Stub::Arm),
                    Stub::Arm => ConnectStep::Connect(Stub::Hand),
                    Stub::Hand => ConnectStep::Connect(Stub::Head),
                    Stub::Head => ConnectStep::Connect(Stub::MobileBaseMobility),
                    Stub::MobileBaseMobility => ConnectStep::Connect(Stub::MobileBaseUtility),
                    Stub::MobileBaseUtility => ConnectStep::Connected,
                }
            } else {
                ConnectStep::Failed(stub)
            },
        }
    }

    /// A connected client, for a session or for none.
    pub fn new(session_id: Option<String>) -> (r: GrpcClient)
        ensures
            !r.stopped(),
            !r.aborted(),
            r.session() == session_id,
    {
        GrpcClient { stop_flag: false, aborting: false, session_id }
    }

    /// Has every stream of the client end with its next message.
    pub fn stop(&mut self)
        ensures
            final(self).stopped(),
            final(self).aborted() == old(self).aborted(),
            final(self).session() == old(self).session(),
    {
        self.stop_flag = true;
    }

    /// Gives up the session, if there is one, the first time that it is called.
    pub fn lost_connection(&mut self) -> (r: Vec<ClientAction>)
        ensures
            r@ == old(self).abort_actions(),
            final(self).aborted(),
            final(self).stopped() == old(self).stopped(),
            final(self).session() == old(self).session(),
    {
        let mut actions: Vec<ClientAction> = Vec::new();
        if !self.aborting {
            self.aborting = true;
            if let Some(session_id) = &self.session_id {
                actions.push(ClientAction::StopGrpcThread);
                actions.push(ClientAction::EndSession(session_id.clone()));
            }
        }
        assert(actions@ =~= old(self).abort_actions());
        actions
    }

    /// The request for the stream of states.
    pub fn get_reachy_state<I>(reachy: Option<I>, freq: u32) -> (r: StreamRequest<I>)
        ensures
            r == (StreamRequest { id: reachy, publish_frequency: freq }),
    {
        StreamRequest { id: reachy, publish_frequency: freq }
    }

    /// The request for the stream of audits.
    pub fn get_reachy_audit_status<I>(reachy: Option<I>, freq: u32) -> (r: StreamRequest<I>)
        ensures
            r == (StreamRequest { id: reachy, publish_frequency: freq }),
    {
        StreamRequest { id: reachy, publish_frequency: freq }
    }

    /// What to do with what came out of a stream of states or of audits.
    pub fn on_stream(&self, event: StreamEvent) -> (r: StreamStep)
        ensures
            r.forward <==> event is Message,
            r.finished <==> !(event is Message) || self.stopped(),
    {
        match event {
            StreamEvent::Message => StreamStep { forward: true, finished: self.stop_flag },
            StreamEvent::End => StreamStep { forward: false, finished: true },
            StreamEvent::Failure => StreamStep { forward: false, finished: true },
        }
    }

    /// Carries out a message of commands: says what to do after the last call ended as
    /// `event` says.
    pub fn handle_commands<M>(&mut self, run: &mut CommandRun<M>, event: CallEvent) -> (r:
        CommandStep<M>)
        ensures
            final(self).stopped() == old(self).stopped(),
            final(self).session() == old(self).session(),
            final(self).aborted() == (old(self).aborted() || event is Refused),
            match r {
                CommandStep::Call(call) => {
                    &&& !(event is Refused)
                    &&& (Some(call), final(run).pending()) == next_call(old(run).pending())
                },
                CommandStep::Done => {
                    &&& !(event is Refused)
                    &&& (None::<GrpcCall<M>>, final(run).pending()) == next_call(
                        old(run).pending(),
                    )
                },
                CommandStep::Lost { error, actions } => {
                    &&& event is Refused
                    &&& error@ == "Connection lost"@
                    &&& actions@ == old(self).abort_actions()
                    &&& final(run).pending().len() == 0
                },
            },
    {
        match event {
            CallEvent::Refused => {
                run.pending.clear();
                let actions = self.lost_connection();
                CommandStep::Lost { error: "Connection lost".to_owned(), actions }
            },
            _ => match run.advance() {
                Some(call) => CommandStep::Call(call),
                None => CommandStep::Done,
            },
        }
    }

    fn call_for<M>(cmd: AnyCommand<M>) -> (r: Option<GrpcCall<M>>)
        ensures
            r == call_of(cmd),
    {
        match cmd.command {
            Some(Command::ArmCommand(c)) => Self::handle_arm_command(c),
            Some(Command::HandCommand(c)) => Self::handle_hand_command(c),
            Some(Command::NeckCommand(c)) => Self::handle_neck_command(c),
            Some(Command::MobileBaseCommand(c)) => Self::handle_mobile_base_command(c),
            _ => None,
        }
    }

    /// The call for an arm command.
    pub fn handle_arm_command<M>(cmd: ArmCommand<M>) -> (r: Option<GrpcCall<M>>)
        ensures
            r == arm_call(cmd),
    {
        if let Some(message) = cmd.arm_cartesian_goal {
            Some(GrpcCall { method: GrpcMethod::SendArmCartesianGoal, message })
        } else if let Some(message) = cmd.turn_on {
            Some(GrpcCall { method: GrpcMethod::ArmTurnOn, message })
        } else if let Some(message) = cmd.turn_off {
            Some(GrpcCall { method: GrpcMethod::ArmTurnOff, message })
        } else if let Some(message) = cmd.speed_limit {
            Some(GrpcCall { method: GrpcMethod::ArmSetSpeedLimit, message })
        } else if let Some(message) = cmd.torque_limit {
            Some(GrpcCall { method: GrpcMethod::ArmSetTorqueLimit, message })
        } else {
            None
        }
    }

    /// The call for a hand command.
    pub fn handle_hand_command<M>(cmd: HandCommand<M>) -> (r: Option<GrpcCall<M>>)
        ensures
            r == hand_call(cmd),
    {
        if let Some(message) = cmd.hand_goal {
            Some(GrpcCall { method: GrpcMethod::SetHandPosition, message })
        } else if let Some(message) = cmd.turn_on {
            Some(GrpcCall { method: GrpcMethod::HandTurnOn, message })
        } else if let Some(message) = cmd.turn_off {
            Some(GrpcCall { method: GrpcMethod::HandTurnOff, message })
        } else {
            None
        }
    }

    /// The call for a neck command.
    pub fn handle_neck_command<M>(cmd: NeckCommand<M>) -> (r: Option<GrpcCall<M>>)
        ensures
            r == neck_call(cmd),
    {
        if let Some(message) = cmd.neck_goal {
            Some(GrpcCall { method: GrpcMethod::SendNeckJointGoal, message })
        } else if let Some(message) = cmd.turn_on {
            Some(GrpcCall { method: GrpcMethod::HeadTurnOn, message })
        } else if let Some(message) = cmd.turn_off {
            Some(GrpcCall { method: GrpcMethod::HeadTurnOff, message })
        } else if let Some(message) = cmd.speed_limit {
            Some(GrpcCall { method: GrpcMethod::HeadSetSpeedLimit, message })
        } else if let Some(message) = cmd.torque_limit {
            Some(GrpcCall { method: GrpcMethod::HeadSetTorqueLimit, message })
        } else {
            None
        }
    }

    /// The call for a mobile base command.
    pub fn handle_mobile_base_command<M>(cmd: MobileBaseCommand<M>) -> (r: Option<GrpcCall<M>>)
        ensures
            r == mobile_base_call(cmd),
    {
        if let Some(message) = cmd.target_direction {
            Some(GrpcCall { method: GrpcMethod::SendDirection, message })
        } else if let Some(message) = cmd.mobile_base_mode {
            Some(GrpcCall { method: GrpcMethod::SetZuuuMode, message })
        } else {
            None
        }
    }
}

/// The first call and those behind it are the calls of all commands.
proof fn lemma_next_call<M>(cmds: Seq<AnyCommand<M>>)
    ensures
        match next_call(cmds).0 {
            Some(call) => calls_of(cmds) == seq![call] + calls_of(next_call(cmds).1),
            None => calls_of(cmds).len() == 0,
        },
        next_call(cmds).1.len() <= cmds.len(),
    decreases cmds.len(),
{
    if cmds.len() > 0 && call_of(cmds[0]) is None {
        lemma_next_call(cmds.drop_first());
    }
}

/// Calls are made in the order of the commands, one for each command that asks for one, up to
/// the first that the server refuses.
pub proof fn lemma_made_calls<M>(cmds: Seq<AnyCommand<M>>, replies: Seq<bool>, n: nat)
    requires
        n <= replies.len(),
        forall|i: int| 0 <= i < n ==> #[trigger] replies[i],
        n == replies.len() || !replies[n as int],
    ensures
        made_calls(cmds, replies) == calls_of(cmds).take(
            if n < calls_of(cmds).len() {
                (n + 1) as int
            } else {
                calls_of(cmds).len() as int
            },
        ),
    decreases n,
{
    lemma_next_call(cmds);
    let calls = calls_of(cmds);
    match next_call(cmds).0 {
        None => {
            assert(calls.take(calls.len() as int) =~= Seq::empty());
        },
        Some(call) => {
            let rest = next_call(cmds).1;
            if n > 0 {
                assert(replies[0]);
                let tail = replies.drop_first();
                assert forall|i: int| 0 <= i < n - 1 implies #[trigger] tail[i] by {
                    assert(replies[i + 1]);
                }
                lemma_made_calls(rest, tail, (n - 1) as nat);
                let made = made_calls(rest, tail);
                assert(made_calls(cmds, replies) == seq![call] + made);
                assert(made_calls(cmds, replies) =~= calls.take(
                    if n < calls.len() {
                        (n + 1) as int
                    } else {
                        calls.len() as int
                    },
                ));
            } else {
                assert(made_calls(cmds, replies) =~= calls.take(1));
            }
        },
    }
}

/// The stubs of a client are connected one after the other, in a fixed order, up to the first
/// that the server does not accept.
pub proof fn lemma_connect_order(accepted: Seq<bool>)
    requires
        accepted.len() >= 6,
    ensures
        ({
            let all = seq![
                Stub::Reachy,
                Stub::Arm,
                Stub::Hand,
                Stub::Head,
                Stub::MobileBaseMobility,
                Stub::MobileBaseUtility,
            ];
            let tried = tried_stubs(None, accepted);
            &&& tried == all.take(tried.len() as int)
            &&& 1 <= tried.len() <= 6
            &&& forall|i: int| 0 <= i < tried.len() - 1 ==> #[trigger] accepted[i]
            &&& tried.len() < 6 ==> !accepted[tried.len() - 1]
        }),
{
    reveal_with_fuel(tried_stubs, 7);
    let all = seq![
        Stub::Reachy,
        Stub::Arm,
        Stub::Hand,
        Stub::Head,
        Stub::MobileBaseMobility,
        Stub::MobileBaseUtility,
    ];
    let a1 = accepted.drop_first();
    let a2 = a1.drop_first();
    let a3 = a2.drop_first();
    let a4 = a3.drop_first();
    let a5 = a4.drop_first();
    assert(a1[0] == accepted[1] && a2[0] == accepted[2] && a3[0] == accepted[3] && a4[0]
        == accepted[4] && a5[0] == accepted[5]);
    let tried = tried_stubs(None, accepted);
    assert(tried =~= all.take(tried.len() as int));
}

/// A client gives up its session once: however often the connection is lost, the thread is
/// stopped and the session is ended one time.
pub proof fn lemma_gives_up_once(client: GrpcClient, n: nat)
    requires
        !client.aborted(),
        n > 0,
    ensures
        actions_of_losses(client.aborted(), client.session(), n) == client.abort_actions(),
{
    lemma_no_more_actions(client.session(), (n - 1) as nat);
    assert(actions_of_losses(false, client.session(), n) =~= client.abort_actions());
}

proof fn lemma_no_more_actions(session: Option<String>, n: nat)
    ensures
        actions_of_losses(true, session, n) == Seq::<ClientAction>::empty(),
    decreases n,
{
    if n > 0 {
        lemma_no_more_actions(session, (n - 1) as nat);
    }
}

/// An arm command calls the procedure of the first of its fields that is set, in this order:
/// goal, on, off, speed limit, torque limit; with what the field holds. With no field set it
/// calls none.
pub proof fn lemma_arm_commands_are_called<M>(c: ArmCommand<M>)
    ensures
        ({
            let call = call_of(AnyCommand { command: Some(Command::ArmCommand(c)) });
            &&& c.arm_cartesian_goal matches Some(m) ==> call == Some(
                GrpcCall { method: GrpcMethod::SendArmCartesianGoal, message: m },
            )
            &&& c.arm_cartesian_goal is None ==> (c.turn_on matches Some(m) ==> call == Some(
                GrpcCall { method: GrpcMethod::ArmTurnOn, message: m },
            ))
            &&& c.arm_cartesian_goal is None && c.turn_on is None ==> (
            c.turn_off matches Some(m) ==> call == Some(
                GrpcCall { method: GrpcMethod::ArmTurnOff, message: m },
            ))
            &&& c.arm_cartesian_goal is None && c.turn_on is None && c.turn_off is None ==> (
            c.speed_limit matches Some(m) ==> call == Some(
                GrpcCall { method: GrpcMethod::ArmSetSpeedLimit, message: m },
            ))
            &&& c.arm_cartesian_goal is None && c.turn_on is None && c.turn_off is None
                && c.speed_limit is None ==> (c.torque_limit matches Some(m) ==> call == Some(
                GrpcCall { method: GrpcMethod::ArmSetTorqueLimit, message: m },
            ))
            &&& call is None <==> c.arm_cartesian_goal is None && c.turn_on is None
                && c.turn_off is None && c.speed_limit is None && c.torque_limit is None
        }),
{
}

/// A hand command calls the procedure of the first of its fields that is set, in this order:
/// goal, on, off; with what the field holds. With no field set it calls none.
pub proof fn lemma_hand_commands_are_called<M>(c: HandCommand<M>)
    ensures
        ({
            let call = call_of(AnyCommand { command: Some(Command::HandCommand(c)) });
            &&& c.hand_goal matches Some(m) ==> call == Some(
                GrpcCall { method: GrpcMethod::SetHandPosition, message: m },
            )
            &&& c.hand_goal is None ==> (c.turn_on matches Some(m) ==> call == Some(
                GrpcCall { method: GrpcMethod::HandTurnOn, message: m },
            ))
            &&& c.hand_goal is None && c.turn_on is None ==> (c.turn_off matches Some(m) ==> call
                == Some(GrpcCall { method: GrpcMethod::HandTurnOff, message: m }))
            &&& call is None <==> c.hand_goal is None && c.turn_on is None && c.turn_off is None
        }),
{
}

/// A neck command calls the procedure of the first of its fields that is set, in this order:
/// goal, on, off, speed limit, torque limit; with what the field holds. With no field set it
/// calls none.
pub proof fn lemma_neck_commands_are_called<M>(c: NeckCommand<M>)
    ensures
        ({
            let call = call_of(AnyCommand { command: Some(Command::NeckCommand(c)) });
            &&& c.neck_goal matches Some(m) ==> call == Some(
                GrpcCall { method: GrpcMethod::SendNeckJointGoal, message: m },
            )
            &&& c.neck_goal is None ==> (c.turn_on matches Some(m) ==> call == Some(
                GrpcCall { method: GrpcMethod::HeadTurnOn, message: m },
            ))
            &&& c.neck_goal is None && c.turn_on is None ==> (c.turn_off matches Some(m) ==> call
                == Some(GrpcCall { method: GrpcMethod::HeadTurnOff, message: m }))
            &&& c.neck_goal is None && c.turn_on is None && c.turn_off is None ==> (
            c.speed_limit matches Some(m) ==> call == Some(
                GrpcCall { method: GrpcMethod::HeadSetSpeedLimit, message: m },
            ))
            &&& c.neck_goal is None && c.turn_on is None && c.turn_off is None
                && c.speed_limit is None ==> (c.torque_limit matches Some(m) ==> call == Some(
                GrpcCall { method: GrpcMethod::HeadSetTorqueLimit, message: m },
            ))
            &&& call is None <==> c.neck_goal is None && c.turn_on is None && c.turn_off is None
                && c.speed_limit is None && c.torque_limit is None
        }),
{
}

/// A mobile base command calls for its direction, or else for its mode; with neither it calls
/// nothing. So do commands for the antennas, and commands of no known kind.
pub proof fn lemma_other_commands_are_called<M>(c: MobileBaseCommand<M>, antennas: M)
    ensures
        ({
            let call = call_of(AnyCommand { command: Some(Command::MobileBaseCommand(c)) });
            &&& c.target_direction matches Some(m) ==> call == Some(
                GrpcCall { method: GrpcMethod::SendDirection, message: m },
            )
            &&& c.target_direction is None ==> (c.mobile_base_mode matches Some(m) ==> call
                == Some(GrpcCall { method: GrpcMethod::SetZuuuMode, message: m }))
            &&& call is None <==> c.target_direction is None && c.mobile_base_mode is None
        }),
        call_of(AnyCommand { command: Some(Command::AntennasCommand(antennas)) }) is None,
        call_of(AnyCommand::<M> { command: None }) is None,
{
}

/// What a message of commands calls is what its parts call, one after the other; a command
/// alone calls its own call.
pub proof fn lemma_calls_concatenate<M>(a: Seq<AnyCommand<M>>, b: Seq<AnyCommand<M>>)
    ensures
        calls_of(a + b) == calls_of(a) + calls_of(b),
        forall|cmd: AnyCommand<M>|
            (call_of(cmd) matches Some(call) ==> #[trigger] calls_of(seq![cmd]) == seq![call]) && (
            call_of(cmd) is None ==> calls_of(seq![cmd]).len() == 0),
    decreases a.len(),
{
    assert forall|cmd: AnyCommand<M>|
        (call_of(cmd) matches Some(call) ==> #[trigger] calls_of(seq![cmd]) == seq![call]) && (
        call_of(cmd) is None ==> calls_of(seq![cmd]).len() == 0) by {
        let rest = seq![cmd].drop_first();
        assert(rest.len() == 0);
        assert(calls_of(rest) =~= Seq::empty());
        if let Some(call) = call_of(cmd) {
            assert(calls_of(seq![cmd]) =~= seq![call]);
        }
    }
    if a.len() == 0 {
        assert(a + b =~= b);
        assert(calls_of(a) + calls_of(b) =~= calls_of(b));
    } else {
        assert((a + b).drop_first() =~= a.drop_first() + b);
        lemma_calls_concatenate(a.drop_first(), b);
        assert(calls_of(a + b) =~= calls_of(a) + calls_of(b));
    }
}

/// The next call is that of the first command that asks for one; what is left are the commands
/// behind that one. Where no command asks for a call, there is none, and nothing is left.
pub proof fn lemma_next_call_is_first<M>(cmds: Seq<AnyCommand<M>>)
    ensures
        match next_call(cmds).0 {
            Some(call) => exists|k: int|
                0 <= k < cmds.len() && #[trigger] call_of(cmds[k]) == Some(call) && (forall|i: int|
                    0 <= i < k ==> call_of(#[trigger] cmds[i]) is None) && next_call(cmds).1
                    == cmds.skip(k + 1),
            None => next_call(cmds).1.len() == 0 && forall|i: int|
                0 <= i < cmds.len() ==> call_of(#[trigger] cmds[i]) is None,
        },
    decreases cmds.len(),
{
    if cmds.len() > 0 {
        let rest = cmds.drop_first();
        if let Some(call) = call_of(cmds[0]) {
            assert(rest =~= cmds.skip(1));
        } else {
            lemma_next_call_is_first(rest);
            assert(forall|i: int| 0 <= i < rest.len() ==> rest[i] == #[trigger] cmds[i + 1]);
            match next_call(rest).0 {
                Some(call) => {
                    let k = choose|k: int|
                        0 <= k < rest.len() && #[trigger] call_of(rest[k]) == Some(call) && (
                        forall|i: int| 0 <= i < k ==> call_of(#[trigger] rest[i]) is None)
                            && next_call(rest).1 == rest.skip(k + 1);
                    assert(call_of(cmds[k + 1]) == Some(call));
                    assert forall|i: int| 0 <= i < k + 1 implies call_of(
                        #[trigger] cmds[i],
                    ) is None by {
                        if i > 0 {
                            assert(call_of(rest[i - 1]) is None);
                        }
                    }
                    assert(rest.skip(k + 1) =~= cmds.skip(k + 2));
                },
                None => {
                    assert forall|i: int| 0 <= i < cmds.len() implies call_of(
                        #[trigger] cmds[i],
                    ) is None by {
                        if i > 0 {
                            assert(call_of(rest[i - 1]) is None);
                        }
                    }
                },
            }
        }
    }
}

/// A client that was refused by a service fails with that service; one that all six services
/// have accepted is connected, and not before.
pub proof fn lemma_connected_by_all(stub: Stub)
    ensures
        connect_step(None) == ConnectStep::Connect(Stub::Reachy),
        connect_step(Some((stub, false))) == ConnectStep::Failed(stub),
        connect_step(Some((stub, true))) == ConnectStep::Connected <==> stub
            == Stub::MobileBaseUtility,
        connect_step(Some((Stub::Reachy, true))) == ConnectStep::Connect(Stub::Arm),
        connect_step(Some((Stub::Arm, true))) == ConnectStep::Connect(Stub::Hand),
        connect_step(Some((Stub::Hand, true))) == ConnectStep::Connect(Stub::Head),
        connect_step(Some((Stub::Head, true))) == ConnectStep::Connect(Stub::MobileBaseMobility),
        connect_step(Some((Stub::MobileBaseMobility, true))) == ConnectStep::Connect(
            Stub::MobileBaseUtility,
        ),
{
}

/// A client that loses the connection has its thread stopped and then its session ended, if it
/// serves one and has not given it up before.
pub proof fn lemma_what_a_loss_leads_to(client: GrpcClient)
    ensures
        !client.aborted() && client.session() is Some ==> {
            &&& client.abort_actions().len() == 2
            &&& client.abort_actions()[0] is StopGrpcThread
            &&& client.abort_actions()[1] == ClientAction::EndSession(client.session()->0)
        },
        client.aborted() || client.session() is None ==> client.abort_actions().len() == 0,
{
}

/// A stream is forwarded message by message; it is over when it ends or fails, and with the next
/// message once the client was stopped.
pub proof fn lemma_streams_are_forwarded(client: &GrpcClient, event: StreamEvent, step: StreamStep)
    requires
        call_ensures(GrpcClient::on_stream, (client, event), step),
    ensures
        event == StreamEvent::Message ==> step.forward && step.finished == client.stopped(),
        event != StreamEvent::Message ==> !step.forward && step.finished,
{
}

/// Both streams are asked for of the robot that is given, at the frequency that is given.
pub proof fn lemma_stream_requests<I>(
    reachy: Option<I>,
    freq: u32,
    state: StreamRequest<I>,
    audit: StreamRequest<I>,
)
    requires
        call_ensures(GrpcClient::get_reachy_state::<I>, (reachy, freq), state),
        call_ensures(GrpcClient::get_reachy_audit_status::<I>, (reachy, freq), audit),
    ensures
        state == audit,
        state.id == reachy,
        state.publish_frequency == freq,
{
}

} // verus!
