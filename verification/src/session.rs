//! One session with a peer.
use crate::channels;
use crate::channels::{
    channel_label, channel_role, numbered_channel, service_channel, ChannelConfig, ChannelRole,
};
use crate::commands;
use crate::commands::{
    AnyCommand, AnyCommands, ArmCommand, Command, HandCommand, MobileBaseCommand, NeckCommand,
};
use crate::grpc_client::{GrpcClient, StreamRequest};
use crate::lossy;
use crate::lossy::{LossyEvent, LossyQueue};
use crate::messages::{Connect, ConnectionStatus, ReachyId, ServiceRequest};
use crate::negotiation;
use crate::negotiation::{pipeline_plays, Flow, IceCandidate, StateChange};
use crate::reliable;
use crate::text;
use crate::text::numbered;
use vstd::prelude::*;

verus! {

/// What is done once the pipeline plays.
#[derive(Clone, Copy, Debug, PartialEq, Eq, Structural)]
pub enum SetupAction {
    CreateDataChannels,
    CreateOffer,
}

/// What is done to stop a session.
#[derive(Clone, Copy, Debug, PartialEq, Eq, Structural)]
pub enum StopAction {
    PipelineToNull,
    StopGrpcThread,
}

/// What a message on the service channel leads to.
#[derive(Debug)]
pub enum ServiceAction {
    Ignore,
    /// Ask the server for the robot, and answer with its connection status.
    AskReachy,
    /// Connect, the first time.
    Connect(Connect),
}

/// The channels and streams that a connection is made of.
#[derive(Debug)]
pub struct ConnectPlan {
    pub id: u32,
    /// In the order in which they are created.
    pub channels: Vec<ChannelConfig>,
    pub state: StreamRequest<ReachyId>,
    pub audit: StreamRequest<ReachyId>,
}

/// What happens to a session while it runs.
#[derive(Clone, Copy, Debug, PartialEq, Eq, Structural)]
pub enum SessionEvent {
    CommandsDone,
    CommandsLost,
    ReliableChannelClosed,
    LossyChannelClosed,
    StateStreamEnded,
    AuditStreamEnded,
}

/// What to do when a data channel opens.
#[derive(Clone, Copy, Debug, PartialEq, Eq, Structural)]
pub enum OpenAction {
    StartStateStream,
    StartAuditStream,
    TakeReliableCommands,
    TakeLossyCommands,
    Nothing,
}

/// A session with a peer.
#[derive(Debug)]
pub struct Session {
    peer_id: String,
    running: bool,
    connecting: bool,
}

/// Whether an event ends the session.
pub open spec fn ends_session(event: SessionEvent) -> bool {
    match event {
        SessionEvent::CommandsDone => false,
        SessionEvent::CommandsLost => true,
        SessionEvent::ReliableChannelClosed => false,
        SessionEvent::LossyChannelClosed => true,
        SessionEvent::StateStreamEnded => true,
        SessionEvent::AuditStreamEnded => true,
    }
}

/// Whether a session runs after some events.
pub open spec fn runs_after(running: bool, events: Seq<SessionEvent>) -> bool
    decreases events.len(),
{
    if events.len() == 0 {
        running
    } else {
        runs_after(running, events.drop_last()) && !ends_session(events.last())
    }
}

/// The channels of a connection to robot `id`.
pub open spec fn connection_channels(id: u32, state_lifetime: u32, audit_lifetime: u32) -> Seq<
    channels::ChannelConfigView,
> {
    seq![
        channels::config_of(ChannelRole::State, id, state_lifetime),
        channels::config_of(ChannelRole::Audit, id, audit_lifetime),
        channels::config_of(ChannelRole::CommandReliable, id, 0),
        channels::config_of(ChannelRole::CommandLossy, id, 0),
    ]
}

/// A plan is the one for a request to connect.
pub open spec fn is_plan(
    plan: ConnectPlan,
    connect: Connect,
    state_lifetime: u32,
    audit_lifetime: u32,
) -> bool {
    &&& plan.id == connect.reachy_id->0.id
    &&& plan.channels.deep_view() == connection_channels(plan.id, state_lifetime, audit_lifetime)
    &&& plan.state == (StreamRequest {
        id: connect.reachy_id,
        publish_frequency: connect.update_frequency,
    })
    &&& plan.audit == (StreamRequest {
        id: connect.reachy_id,
        publish_frequency: connect.audit_frequency,
    })
}

/// What to do when the channel with the label `name` opens.
pub open spec fn open_action(name: Seq<char>, id: u32) -> OpenAction {
    match channels::role_of(name, id) {
        Some(ChannelRole::State) => OpenAction::StartStateStream,
        Some(ChannelRole::Audit) => OpenAction::StartAuditStream,
        Some(ChannelRole::CommandReliable) => OpenAction::TakeReliableCommands,
        Some(ChannelRole::CommandLossy) => OpenAction::TakeLossyCommands,
        None => OpenAction::Nothing,
    }
}

impl Session {
    /// The peer of the session.
    pub closed spec fn peer(self) -> String {
        self.peer_id
    }

    /// Whether the session runs.
    pub closed spec fn running(self) -> bool {
        self.running
    }

    /// Whether a connection was asked for.
    pub closed spec fn connecting(self) -> bool {
        self.connecting
    }

    /// A session with a peer; there is none without a client of the robot's server.
    pub fn new(peer_id: String, grpc_client: bool) -> (r: Result<Session, String>)
        ensures
            match r {
                Ok(session) => {
                    &&& grpc_client
                    &&& session.peer() == peer_id
                    &&& session.running()
                    &&& !session.connecting()
                },
                Err(e) => !grpc_client && e@ == "Cannot create grpc client"@,
            },
    {
        if grpc_client {
            Ok(Session { peer_id, running: true, connecting: false })
        } else {
            Err("Cannot create grpc client".to_owned())
        }
    }

    /// What is done after the pipeline was told to play.
    pub fn setup_webrtc(change: StateChange) -> (r: Vec<SetupAction>)
        ensures
            r@ == if negotiation::plays(change) {
                seq![SetupAction::CreateDataChannels, SetupAction::CreateOffer]
            } else {
                Seq::empty()
            },
    {
        let mut actions: Vec<SetupAction> = Vec::new();
        if pipeline_plays(change) {
            actions.push(SetupAction::CreateDataChannels);
            actions.push(SetupAction::CreateOffer);
            assert(actions@ =~= seq![SetupAction::CreateDataChannels, SetupAction::CreateOffer]);
        }
        actions
    }

    /// Whether the session runs.
    pub fn is_running(&self) -> (r: bool)
        ensures
            r == self.running(),
    {
        self.running
    }

    /// Whether a connection was asked for.
    pub fn is_connecting(&self) -> (r: bool)
        ensures
            r == self.connecting(),
    {
        self.connecting
    }

    /// What is done to stop the session.
    pub fn stop() -> (r: Vec<StopAction>)
        ensures
            r@ == seq![StopAction::PipelineToNull, StopAction::StopGrpcThread],
    {
        let mut actions: Vec<StopAction> = Vec::new();
        actions.push(StopAction::PipelineToNull);
        actions.push(StopAction::StopGrpcThread);
        assert(actions@ =~= seq![StopAction::PipelineToNull, StopAction::StopGrpcThread]);
        actions
    }

    /// The settings of the service channel, which is the first that a session creates.
    pub fn create_data_channels() -> (r: ChannelConfig)
        ensures
            r.deep_view() == channels::service_config(),
    {
        service_channel()
    }

    /// What a message on the service channel leads to; it may hold no request.
    pub fn on_service_message(request: Option<ServiceRequest>) -> (r: ServiceAction)
        ensures
            r == match request {
                Some(ServiceRequest::GetReachy) => ServiceAction::AskReachy,
                Some(ServiceRequest::Connect(connect)) => ServiceAction::Connect(connect),
                _ => ServiceAction::Ignore,
            },
    {
        match request {
            Some(ServiceRequest::GetReachy) => ServiceAction::AskReachy,
            Some(ServiceRequest::Connect(connect)) => ServiceAction::Connect(connect),
            Some(ServiceRequest::Disconnect) => ServiceAction::Ignore,
            None => ServiceAction::Ignore,
        }
    }

    /// The answer to a peer that asks for the robot.
    pub fn connection_status<R>(id: &Option<ReachyId>, reachy: R) -> (r: ConnectionStatus<R>)
        requires
            id is Some,
        ensures
            r.connected,
            r.state_channel@ == channels::label(ChannelRole::State, id->0.id),
            r.command_channel@ == "reachy_command_"@ + text::decimal(id->0.id as nat),
            r.reachy == Some(reachy),
    {
        let id: u32 = match id {
            Some(id) => id.id,
            None => 0,
        };
        ConnectionStatus {
            connected: true,
            state_channel: channel_label(ChannelRole::State, id),
            command_channel: numbered("reachy_command_", id as u64),
            reachy: Some(reachy),
        }
    }

    /// Takes up a request to connect, the first one of the session; later ones are ignored.
    /// The lifetimes of packets on the state and audit channels follow from the frequencies.
    pub fn handle_connect_request(
        &mut self,
        connect: Connect,
        state_lifetime: u32,
        audit_lifetime: u32,
    ) -> (r: Option<ConnectPlan>)
        requires
            old(self).connecting() || connect.reachy_id is Some,
        ensures
            final(self).connecting(),
            final(self).running() == old(self).running(),
            final(self).peer() == old(self).peer(),
            r is Some <==> !old(self).connecting(),
            r matches Some(plan) ==> is_plan(plan, connect, state_lifetime, audit_lifetime),
    {
        if self.connecting {
            return None;
        }
        self.connecting = true;
        let id: u32 = match &connect.reachy_id {
            Some(id) => id.id,
            None => 0,
        };
        let mut configs: Vec<ChannelConfig> = Vec::new();
        configs.push(numbered_channel(ChannelRole::State, id, state_lifetime));
        configs.push(numbered_channel(ChannelRole::Audit, id, audit_lifetime));
        configs.push(numbered_channel(ChannelRole::CommandReliable, id, 0));
        configs.push(numbered_channel(ChannelRole::CommandLossy, id, 0));
        assert(configs.deep_view() =~= connection_channels(id, state_lifetime, audit_lifetime));
        let state = GrpcClient::get_reachy_state(
            connect.reachy_id.clone(),
            connect.update_frequency,
        );
        let audit = GrpcClient::get_reachy_audit_status(
            connect.reachy_id,
            connect.audit_frequency,
        );
        Some(ConnectPlan { id, channels: configs, state, audit })
    }

    /// What to do when the channel with the label `name` opens, in the session of robot `id`.
    pub fn prepare_data_channel(name: &str, id: u32) -> (r: OpenAction)
        ensures
            r == open_action(name@, id),
    {
        match channel_role(name, id) {
            Some(ChannelRole::State) => OpenAction::StartStateStream,
            Some(ChannelRole::Audit) => OpenAction::StartAuditStream,
            Some(ChannelRole::CommandReliable) => OpenAction::TakeReliableCommands,
            Some(ChannelRole::CommandLossy) => OpenAction::TakeLossyCommands,
            None => OpenAction::Nothing,
        }
    }

    /// Takes note of what happened to the session.
    pub fn on_event(&mut self, event: SessionEvent)
        ensures
            final(self).running() == (old(self).running() && !ends_session(event)),
            final(self).connecting() == old(self).connecting(),
            final(self).peer() == old(self).peer(),
    {
        match event {
            SessionEvent::CommandsDone => {},
            SessionEvent::ReliableChannelClosed => {},
            _ => {
                self.running = false;
            },
        }
    }

    /// The commands of a message on the reliable channel were carried out, or not: whether the
    /// channel goes on.
    pub fn after_commands(&mut self, carried_out: bool) -> (r: Flow)
        ensures
            r == reliable::flow_after(carried_out),
            final(self).running() == (old(self).running() && carried_out),
            final(self).connecting() == old(self).connecting(),
            final(self).peer() == old(self).peer(),
    {
        if carried_out {
            Flow::Continue
        } else {
            self.on_event(SessionEvent::CommandsLost);
            Flow::Quit
        }
    }

    /// The item of the lossy channel to play next; none once the session has ended.
    pub fn play_lossy<T>(&self, queue: &mut LossyQueue<T>, free: bool) -> (r: Option<T>)
        ensures
            r == lossy::taken_out(
                old(queue).queue(),
                LossyEvent::Play { running: self.running(), free },
            ),
            final(queue).queue() == lossy::queue_after(
                old(queue).queue(),
                LossyEvent::<T>::Play { running: self.running(), free },
            ),
            final(queue).accepted() == old(queue).accepted(),
            final(queue).dropped() == old(queue).dropped(),
            final(queue).shown() == old(queue).shown(),
    {
        queue.play(self.running, free)
    }

    /// The commands without their motion goals: what is left must not be lost on the way.
    pub fn create_important_commands<M>(commands: AnyCommands<M>) -> (r: AnyCommands<M>)
        ensures
            r.commands@ == commands.commands@.map_values(
                |cmd: AnyCommand<M>| commands::without_goal(cmd),
            ),
    {
        let ghost all = commands.commands@;
        let ghost strip = |cmd: AnyCommand<M>| commands::without_goal(cmd);
        let mut important: Vec<AnyCommand<M>> = Vec::new();
        for cmd in it: commands.commands
            invariant
                it.seq() == all,
                strip == (|cmd: AnyCommand<M>| commands::without_goal(cmd)),
                important@ == all.take(it.index()).map_values(strip),
        {
            let stripped = match cmd.command {
                Some(Command::ArmCommand(c)) => Some(
                    Command::ArmCommand(ArmCommand { arm_cartesian_goal: None, ..c }),
                ),
                Some(Command::HandCommand(c)) => Some(
                    Command::HandCommand(HandCommand { hand_goal: None, ..c }),
                ),
                Some(Command::NeckCommand(c)) => Some(
                    Command::NeckCommand(NeckCommand { neck_goal: None, ..c }),
                ),
                Some(Command::MobileBaseCommand(c)) => Some(
                    Command::MobileBaseCommand(MobileBaseCommand { target_direction: None, ..c }),
                ),
                other => other,
            };
            important.push(AnyCommand { command: stripped });
            assert(important@ =~= all.take(it.index() + 1).map_values(strip));
        }
        assert(all.take(all.len() as int) =~= all);
        AnyCommands { commands: important }
    }

    /// The candidate to hand to the connection; none without the index of its media line.
    pub fn handle_ice(
        &self,
        sdp_m_line_index: Option<u32>,
        sdp_mid: Option<String>,
        candidate: &str,
    ) -> (r: Option<IceCandidate>)
        ensures
            match r {
                Some(ice) => {
                    &&& sdp_m_line_index == Some(ice.sdp_m_line_index)
                    &&& ice.candidate@ == candidate@
                },
                None => sdp_m_line_index is None,
            },
    {
        match sdp_m_line_index {
            Some(sdp_m_line_index) => Some(
                IceCandidate { sdp_m_line_index, candidate: candidate.to_owned() },
            ),
            None => None,
        }
    }
}

/// A session that has ended does not run again.
pub proof fn lemma_ended_for_good(running: bool, events: Seq<SessionEvent>, n: nat)
    requires
        n <= events.len(),
        !runs_after(running, events.take(n as int)),
    ensures
        !runs_after(running, events),
    decreases events.len() - n,
{
    if n < events.len() {
        assert(events.take((n + 1) as int).drop_last() =~= events.take(n as int));
        lemma_ended_for_good(running, events, n + 1);
    } else {
        assert(events.take(n as int) =~= events);
    }
}

/// A session runs until the first event that ends it, and only until then.
pub proof fn lemma_runs_until_ended(events: Seq<SessionEvent>)
    ensures
        runs_after(true, events) <==> forall|i: int|
            0 <= i < events.len() ==> !ends_session(#[trigger] events[i]),
    decreases events.len(),
{
    if events.len() > 0 {
        let front = events.drop_last();
        lemma_runs_until_ended(front);
        if runs_after(true, events) {
            assert forall|i: int| 0 <= i < events.len() implies !ends_session(
                #[trigger] events[i],
            ) by {
                if i < front.len() {
                    assert(front[i] == events[i]);
                }
            }
        }
        if forall|i: int| 0 <= i < events.len() ==> !ends_session(#[trigger] events[i]) {
            assert forall|i: int| 0 <= i < front.len() implies !ends_session(
                #[trigger] front[i],
            ) by {
                assert(front[i] == events[i]);
            }
            assert(!ends_session(events[events.len() - 1]));
        }
    }
}

/// Each channel that a connection creates does its work when it opens, and no other channel
/// does it.
pub proof fn lemma_created_channels_open(id: u32, state_lifetime: u32, audit_lifetime: u32)
    ensures
        ({
            let made = connection_channels(id, state_lifetime, audit_lifetime);
            &&& open_action(made[0].label, id) == OpenAction::StartStateStream
            &&& open_action(made[1].label, id) == OpenAction::StartAuditStream
            &&& open_action(made[2].label, id) == OpenAction::TakeReliableCommands
            &&& open_action(made[3].label, id) == OpenAction::TakeLossyCommands
            &&& forall|name: Seq<char>|
                #[trigger] open_action(name, id) != OpenAction::Nothing ==> exists|i: int|
                    0 <= i < 4 && (#[trigger] made[i]).label == name
        }),
{
    channels::lemma_label_role(ChannelRole::State, id, id);
    channels::lemma_label_role(ChannelRole::Audit, id, id);
    channels::lemma_label_role(ChannelRole::CommandReliable, id, id);
    channels::lemma_label_role(ChannelRole::CommandLossy, id, id);
    let made = connection_channels(id, state_lifetime, audit_lifetime);
    assert(made[0].label == channels::label(ChannelRole::State, id));
    assert(made[1].label == channels::label(ChannelRole::Audit, id));
    assert(made[2].label == channels::label(ChannelRole::CommandReliable, id));
    assert(made[3].label == channels::label(ChannelRole::CommandLossy, id));
}

/// A connection has four channels, all of them ordered: one for states and one for audits, whose
/// packets live as long as given; one for commands that must arrive, without a bound on how
/// often or how long they are sent; and one for commands that are sent once only.
pub proof fn lemma_connection_settings(id: u32, state_lifetime: u32, audit_lifetime: u32)
    ensures
        ({
            let made = connection_channels(id, state_lifetime, audit_lifetime);
            let number = text::decimal(id as nat);
            &&& made.len() == 4
            &&& forall|i: int| 0 <= i < 4 ==> (#[trigger] made[i]).ordered
            &&& made[0].label == "reachy_state_"@ + number
            &&& made[0].max_packet_lifetime == Some(state_lifetime)
            &&& made[0].max_retransmits is None
            &&& made[1].label == "reachy_audit_"@ + number
            &&& made[1].max_packet_lifetime == Some(audit_lifetime)
            &&& made[1].max_retransmits is None
            &&& made[2].label == "reachy_command_reliable_"@ + number
            &&& made[2].max_packet_lifetime is None
            &&& made[2].max_retransmits is None
            &&& made[3].label == "reachy_command_lossy_"@ + number
            &&& made[3].max_packet_lifetime is None
            &&& made[3].max_retransmits == Some(0i32)
        }),
{
}

/// A session ends when commands could not be carried out, when the lossy channel is closed, and
/// when a stream is over; nothing else ends it.
pub proof fn lemma_what_ends_a_session(event: SessionEvent)
    ensures
        ends_session(event) <==> event == SessionEvent::CommandsLost || event
            == SessionEvent::LossyChannelClosed || event == SessionEvent::StateStreamEnded
            || event == SessionEvent::AuditStreamEnded,
{
}

/// Each stream is asked for as the request says: states at its update frequency, audits at its
/// audit frequency, both of the robot that it names.
pub proof fn lemma_plan_follows_request(
    plan: ConnectPlan,
    connect: Connect,
    state_lifetime: u32,
    audit_lifetime: u32,
)
    requires
        connect.reachy_id is Some,
        is_plan(plan, connect, state_lifetime, audit_lifetime),
    ensures
        plan.id == connect.reachy_id->0.id,
        plan.state.id == connect.reachy_id,
        plan.state.publish_frequency == connect.update_frequency,
        plan.audit.id == connect.reachy_id,
        plan.audit.publish_frequency == connect.audit_frequency,
        plan.channels.deep_view() == connection_channels(
            connect.reachy_id->0.id,
            state_lifetime,
            audit_lifetime,
        ),
{
}

/// A channel does its work if and only if it has the label for that work and the number of the
/// session's robot.
pub proof fn lemma_opened_by_label(name: Seq<char>, id: u32)
    ensures
        ({
            let number = text::decimal(id as nat);
            let action = open_action(name, id);
            &&& action == OpenAction::StartStateStream <==> name == "reachy_state_"@ + number
            &&& action == OpenAction::StartAuditStream <==> name == "reachy_audit_"@ + number
            &&& action == OpenAction::TakeReliableCommands <==> name == "reachy_command_reliable_"@
                + number
            &&& action == OpenAction::TakeLossyCommands <==> name == "reachy_command_lossy_"@
                + number
        }),
{
    channels::lemma_role_by_label(name, ChannelRole::State, id);
    channels::lemma_role_by_label(name, ChannelRole::Audit, id);
    channels::lemma_role_by_label(name, ChannelRole::CommandReliable, id);
    channels::lemma_role_by_label(name, ChannelRole::CommandLossy, id);
    channels::lemma_labels_are_written(id);
}

/// A peer that asks for the robot is answered, and one that asks to connect is connected as it
/// asks; anything else on the service channel changes nothing.
pub proof fn lemma_service_messages(
    connect: Connect,
    asked: ServiceAction,
    connected: ServiceAction,
    left: ServiceAction,
    nothing: ServiceAction,
)
    requires
        call_ensures(Session::on_service_message, (Some(ServiceRequest::GetReachy),), asked),
        call_ensures(
            Session::on_service_message,
            (Some(ServiceRequest::Connect(connect)),),
            connected,
        ),
        call_ensures(Session::on_service_message, (Some(ServiceRequest::Disconnect),), left),
        call_ensures(Session::on_service_message, (None::<ServiceRequest>,), nothing),
    ensures
        asked is AskReachy,
        connected == ServiceAction::Connect(connect),
        left is Ignore,
        nothing is Ignore,
{
}

/// The robot is named in the answer to a peer that asks for it, with the channels that go with
/// its number; the channel for states is the one that a connection creates first.
pub proof fn lemma_answer_names_channels<R>(
    id: Option<ReachyId>,
    reachy: R,
    status: ConnectionStatus<R>,
    state_lifetime: u32,
    audit_lifetime: u32,
)
    requires
        id is Some,
        call_ensures(Session::connection_status::<R>, (&id, reachy), status),
    ensures
        status.connected,
        status.reachy == Some(reachy),
        status.state_channel@ == connection_channels(
            id->0.id,
            state_lifetime,
            audit_lifetime,
        )[0].label,
        status.state_channel@ == "reachy_state_"@ + text::decimal(id->0.id as nat),
        status.command_channel@ == "reachy_command_"@ + text::decimal(id->0.id as nat),
{
}

/// Channels are created before an offer is made, and both only once the pipeline plays; a session
/// is stopped by its pipeline first.
pub proof fn lemma_setup_and_stop(
    change: StateChange,
    setup: Vec<SetupAction>,
    stop: Vec<StopAction>,
)
    requires
        call_ensures(Session::setup_webrtc, (change,), setup),
        call_ensures(Session::stop, (), stop),
    ensures
        change == StateChange::Success || change == StateChange::Async ==> {
            &&& setup@.len() == 2
            &&& setup@[0] == SetupAction::CreateDataChannels
            &&& setup@[1] == SetupAction::CreateOffer
        },
        change != StateChange::Success && change != StateChange::Async ==> setup@.len() == 0,
        stop@.len() == 2,
        stop@[0] == StopAction::PipelineToNull,
        stop@[1] == StopAction::StopGrpcThread,
{
}

/// Of commands that must arrive only the goals are left out: there are as many as before, in the
/// same order, and each asks for all that it asked for but its goal.
pub proof fn lemma_important_commands<M>(
    all: AnyCommands<M>,
    important: AnyCommands<M>,
    i: int,
)
    requires
        0 <= i < all.commands@.len(),
        call_ensures(Session::create_important_commands::<M>, (all,), important),
    ensures
        important.commands@.len() == all.commands@.len(),
        all.commands@[i].command matches Some(Command::ArmCommand(c)) ==> ({
            &&& important.commands@[i].command matches Some(Command::ArmCommand(d))
            &&& d == ArmCommand { arm_cartesian_goal: None, ..c }
        }),
        all.commands@[i].command matches Some(Command::HandCommand(c)) ==> ({
            &&& important.commands@[i].command matches Some(Command::HandCommand(d))
            &&& d == HandCommand { hand_goal: None, ..c }
        }),
        all.commands@[i].command matches Some(Command::NeckCommand(c)) ==> ({
            &&& important.commands@[i].command matches Some(Command::NeckCommand(d))
            &&& d == NeckCommand { neck_goal: None, ..c }
        }),
        all.commands@[i].command matches Some(Command::MobileBaseCommand(c)) ==> ({
            &&& important.commands@[i].command matches Some(Command::MobileBaseCommand(d))
            &&& d == MobileBaseCommand { target_direction: None, ..c }
        }),
        all.commands@[i].command is None ==> important.commands@[i].command is None,
        all.commands@[i].command matches Some(Command::AntennasCommand(m))
            ==> important.commands@[i].command == Some(Command::<M>::AntennasCommand(m)),
{
}

} // verus!
