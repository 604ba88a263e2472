use grpc_webrtc_rsbridge::bridge_args;
use grpc_webrtc_rsbridge::channels::{
    channel_label, channel_role, channel_route, numbered_channel, service_channel, ChannelRole,
    Route,
};
use grpc_webrtc_rsbridge::commands::{
    AnyCommand, AnyCommands, ArmCommand, Command, HandCommand, MobileBaseCommand, NeckCommand,
};
use grpc_webrtc_rsbridge::grpc_client::{
    CallEvent, ClientAction, CommandRun, CommandStep, ConnectStep, GrpcClient, GrpcMethod,
    StreamEvent, Stub,
};
use grpc_webrtc_rsbridge::lossy::LossyQueue;
use grpc_webrtc_rsbridge::messages::{Connect, ReachyId, ServiceRequest};
use grpc_webrtc_rsbridge::negotiation::{
    on_bus_message, on_promise, pipeline_name, pipeline_plays, BusMessage, DescriptionAction, Flow,
    PromiseReply, SdpType, StateChange,
};
use grpc_webrtc_rsbridge::reliable::ReliableRun;
use grpc_webrtc_rsbridge::session::{
    OpenAction, ServiceAction, Session, SessionEvent, SetupAction, StopAction,
};
use grpc_webrtc_rsbridge::webrtc_bridge::{OpenOutcome, RunAction, WebRTCBridge};

fn bridge() -> WebRTCBridge {
    WebRTCBridge::new(
        "ws://127.0.0.1:8443".to_string(),
        "grpc_webrtc_bridge".to_string(),
        "http://127.0.0.1:50051".to_string(),
    )
}

fn session(peer: &str) -> Session {
    Session::new(peer.to_string(), true).unwrap()
}

fn open(bridge: &mut WebRTCBridge, id: &str, peer: &str) -> u64 {
    let number = bridge.session_created(session(peer));
    bridge.session_opened(id.to_string(), Ok(number));
    number
}

fn reachy_id(id: u32) -> ReachyId {
    ReachyId { id, name: "reachy".to_string() }
}

#[test]
fn default_arguments() {
    let args = bridge_args::Args::default();
    assert_eq!(bridge_args::signalling_uri(&args), "ws://127.0.0.1:8443");
    assert_eq!(bridge_args::grpc_address(&args), "http://127.0.0.1:50051");
    assert_eq!(
        bridge_args::display_args(&args),
        vec![
            "Args:",
            "Signalling server: 127.0.0.1:8443",
            "GRPC server: 127.0.0.1:50051",
            "Remote peer name: \"grpc_webrtc_bridge\"",
        ]
    );
}

#[test]
fn displayed_names_are_quoted() {
    let args = bridge_args::Args {
        producer_name: "a \"b\"\n".to_string(),
        signalling_port: 0,
        ..bridge_args::Args::default()
    };
    let lines = bridge_args::display_args(&args);
    assert_eq!(lines[1], "Signalling server: 127.0.0.1:0");
    assert_eq!(lines[3], "Remote peer name: \"a \\\"b\\\"\\n\"");
}

#[test]
fn bridge_runs_in_order() {
    let bridge = bridge();
    assert_eq!(
        bridge.run(),
        vec![
            RunAction::StartSignaller,
            RunAction::StartRemovingStoppedSessions,
            RunAction::RunMainLoop,
            RunAction::StopSignaller,
        ]
    );
    assert_eq!(bridge.request_meta(), "grpc_webrtc_bridge");
    assert_eq!(bridge.signalling_uri(), "ws://127.0.0.1:8443");
    assert_eq!(bridge.shutdown(), Flow::Quit);
}

#[test]
fn missing_sessions_are_no_reason_to_quit() {
    let bridge = bridge();
    assert_eq!(bridge.error("Session 1a2B-c3 doesn't exist"), Flow::Continue);
    assert_eq!(
        bridge.error("error: Session 53d3c5a0-8a7e-4a07-9f6b-0c0f4cbdd8e4 doesn't exist!"),
        Flow::Continue
    );
    assert_eq!(bridge.error("Session Session - doesn't exist"), Flow::Continue);
}

#[test]
fn other_errors_are_a_reason_to_quit() {
    let bridge = bridge();
    assert_eq!(bridge.error(""), Flow::Quit);
    assert_eq!(bridge.error("Session  doesn't exist"), Flow::Quit);
    assert_eq!(bridge.error("Session 12g doesn't exist"), Flow::Quit);
    assert_eq!(bridge.error("session 12 doesn't exist"), Flow::Quit);
    assert_eq!(bridge.error("Session 12 doesn't exis"), Flow::Quit);
    assert_eq!(bridge.error("connection refused"), Flow::Quit);
}

#[test]
fn sessions_are_listed_and_leave() {
    let mut bridge = bridge();
    let request = bridge.session_requested("s1", "p1");
    assert_eq!(request.session_id, "s1");
    assert_eq!(request.peer_id, "p1");
    assert_eq!(request.grpc_address, "http://127.0.0.1:50051");

    let number = bridge.session_created(session("p1"));
    assert!(!bridge.has_session("s1"));
    assert!(matches!(
        bridge.session_opened("s1".to_string(), Ok(number)),
        OpenOutcome::Listed(None)
    ));
    assert!(bridge.has_session("s1"));
    assert_eq!(bridge.number_of("s1"), Some(number));
    assert!(!bridge.has_session("s2"));
    assert_eq!(bridge.number_of("s2"), None);
    assert_eq!(bridge.session_ended("s2"), None);
    assert_eq!(bridge.session_ended("s1"), Some(number));
    assert_eq!(bridge.session_ended("s1"), None);
}

#[test]
fn a_session_replaces_one_with_its_identifier() {
    let mut bridge = bridge();
    let old = open(&mut bridge, "s", "old");
    let new = bridge.session_created(session("new"));
    assert_ne!(old, new);
    match bridge.session_opened("s".to_string(), Ok(new)) {
        OpenOutcome::Listed(replaced) => assert_eq!(replaced, Some(old)),
        other => panic!("{:?}", other),
    }
    bridge.on_session_event(old, SessionEvent::StateStreamEnded);
    assert!(!bridge.is_running(old));
    assert!(bridge.is_running(new));
    assert!(bridge.autoremove_stopped_sessions().is_empty());
    assert_eq!(bridge.clear(), vec![("s".to_string(), new)]);
    assert!(!bridge.has_session("s"));
}

#[test]
fn a_session_without_a_client_is_ended() {
    let mut bridge = bridge();
    let failed = Session::new("p".to_string(), false).map(|_| 0);
    assert_eq!(failed, Err("Cannot create grpc client".to_string()));
    match bridge.session_opened("s".to_string(), failed) {
        OpenOutcome::EndSession(id) => assert_eq!(id, "s"),
        other => panic!("{:?}", other),
    }
    assert!(!bridge.has_session("s"));
}

#[test]
fn sessions_have_their_state_before_they_are_listed() {
    let mut bridge = bridge();
    let number = bridge.session_created(session("p"));
    let connect =
        Connect { reachy_id: Some(reachy_id(1)), update_frequency: 1, audit_frequency: 2 };
    assert!(bridge.awaits_connect(number));
    assert!(bridge.connect_requested(number, connect, 5, 6).is_some());
    assert!(!bridge.awaits_connect(number));
    bridge.on_session_event(number, SessionEvent::AuditStreamEnded);
    bridge.session_opened("s".to_string(), Ok(number));
    assert_eq!(bridge.autoremove_stopped_sessions(), vec![("s".to_string(), number)]);
}

#[test]
fn states_last_until_nobody_uses_them() {
    let mut bridge = bridge();
    let number = open(&mut bridge, "s", "p");
    bridge.session_gone(number);
    assert!(bridge.is_running(number));
    bridge.session_ended("s");
    assert!(bridge.is_running(number));
    bridge.session_gone(number);
    assert!(!bridge.is_running(number));
    assert!(!bridge.awaits_connect(number));
}

#[test]
fn stopped_sessions_are_removed_once() {
    let mut bridge = bridge();
    let a = open(&mut bridge, "a", "p");
    let b = open(&mut bridge, "b", "q");
    let c = open(&mut bridge, "c", "r");
    bridge.on_session_event(b, SessionEvent::StateStreamEnded);
    bridge.on_session_event(c, SessionEvent::CommandsDone);
    bridge.on_session_event(99, SessionEvent::CommandsLost);
    assert!(bridge.is_running(a));
    assert!(!bridge.is_running(b));
    assert!(bridge.is_running(c));
    assert!(!bridge.is_running(99));
    assert_eq!(bridge.autoremove_stopped_sessions(), vec![("b".to_string(), b)]);
    assert!(bridge.autoremove_stopped_sessions().is_empty());
    assert!(bridge.has_session("a"));
    assert!(bridge.has_session("c"));
    assert_eq!(bridge.clear().len(), 2);
}

#[test]
fn reliable_messages_are_handed_on_until_one_fails() {
    let mut bridge = bridge();
    let number = open(&mut bridge, "s", "p");
    let mut run = ReliableRun::new();
    let mut passed = Vec::new();
    for (message, carried_out) in [(1, true), (2, true), (3, false), (4, true)] {
        if let Some(message) = run.take(message) {
            passed.push(message);
            let flow = bridge.commands_handled(number, &mut run, carried_out);
            assert_eq!(flow == Flow::Continue, carried_out);
            assert_eq!(bridge.is_running(number), carried_out);
        }
    }
    assert_eq!(passed, vec![1, 2, 3]);
    assert!(!bridge.is_running(number));

    let mut s = session("p");
    assert_eq!(s.after_commands(true), Flow::Continue);
    assert!(s.is_running());
    assert_eq!(s.after_commands(false), Flow::Quit);
    assert_eq!(s.after_commands(true), Flow::Continue);
    assert!(!s.is_running());
}

#[test]
fn an_ended_session_plays_nothing() {
    let mut bridge = bridge();
    let number = open(&mut bridge, "s", "p");
    let mut queue: LossyQueue<u8> = LossyQueue::new();
    queue.receive(1, true);
    queue.receive(2, true);
    assert_eq!(bridge.play_lossy(number, &mut queue, false), None);
    assert_eq!(bridge.play_lossy(number, &mut queue, true), Some(1));
    bridge.on_session_event(number, SessionEvent::CommandsLost);
    assert_eq!(bridge.play_lossy(number, &mut queue, true), None);
    assert_eq!(bridge.play_lossy(99, &mut queue, true), None);
    assert_eq!(queue.play(true, true), Some(2));
}

#[test]
fn answers_and_candidates_reach_their_session() {
    let mut bridge = bridge();
    open(&mut bridge, "s", "p");
    assert!(bridge.session_description("s", SdpType::Answer));
    assert!(!bridge.session_description("s", SdpType::Offer));
    assert!(!bridge.session_description("unknown", SdpType::Other));
    let ice = bridge.handle_ice("s", 4, Some("mid".to_string()), "candidate:1").unwrap();
    assert_eq!(ice.sdp_m_line_index, 4);
    assert_eq!(ice.candidate, "candidate:1");
    assert!(session("p").handle_ice(None, None, "candidate:1").is_none());
}

#[test]
fn sessions_run_until_they_are_ended() {
    let mut s = session("p");
    assert!(s.is_running());
    s.on_event(SessionEvent::CommandsDone);
    s.on_event(SessionEvent::ReliableChannelClosed);
    assert!(s.is_running());
    for event in [
        SessionEvent::CommandsLost,
        SessionEvent::LossyChannelClosed,
        SessionEvent::StateStreamEnded,
        SessionEvent::AuditStreamEnded,
    ] {
        let mut s = session("p");
        s.on_event(event);
        assert!(!s.is_running());
        s.on_event(SessionEvent::CommandsDone);
        assert!(!s.is_running());
    }
    assert_eq!(Session::stop(), vec![StopAction::PipelineToNull, StopAction::StopGrpcThread]);
}

#[test]
fn setup_needs_a_pipeline_that_plays() {
    assert!(pipeline_plays(StateChange::Success));
    assert!(pipeline_plays(StateChange::Async));
    assert!(!pipeline_plays(StateChange::NoPreroll));
    assert!(!pipeline_plays(StateChange::Error));
    assert_eq!(
        Session::setup_webrtc(StateChange::Async),
        vec![SetupAction::CreateDataChannels, SetupAction::CreateOffer]
    );
    assert!(Session::setup_webrtc(StateChange::Error).is_empty());
    assert_eq!(pipeline_name("peer"), "session-pipeline-peer");
}

#[test]
fn errors_on_the_bus_quit() {
    for message in [BusMessage::Error, BusMessage::EndOfStream] {
        let reaction = on_bus_message(message);
        assert!(reaction.quit && !reaction.watch);
    }
    let reaction = on_bus_message(BusMessage::Other);
    assert!(!reaction.quit && reaction.watch);
}

#[test]
fn descriptions_are_munged_unless_the_signaller_does_it() {
    assert_eq!(
        on_promise(PromiseReply::Description, true, true),
        vec![DescriptionAction::SetLocalDescription, DescriptionAction::Send]
    );
    for (manual, value) in [(true, false), (false, true), (false, false)] {
        assert_eq!(
            on_promise(PromiseReply::Description, manual, value),
            vec![DescriptionAction::SetLocalDescription, DescriptionAction::MungeAndSend]
        );
    }
    for reply in [PromiseReply::WithoutDescription, PromiseReply::Empty, PromiseReply::Error] {
        assert!(on_promise(reply, true, true).is_empty());
    }
}

#[test]
fn channels_have_labels_and_settings() {
    let service = service_channel();
    assert_eq!(service.label, "service");
    assert!(service.ordered);
    assert_eq!(service.max_retransmits, None);
    assert_eq!(service.max_packet_lifetime, None);

    assert_eq!(channel_label(ChannelRole::State, 0), "reachy_state_0");
    assert_eq!(channel_label(ChannelRole::Audit, 10), "reachy_audit_10");
    assert_eq!(channel_label(ChannelRole::CommandReliable, 7), "reachy_command_reliable_7");
    assert_eq!(
        channel_label(ChannelRole::CommandLossy, u32::MAX),
        "reachy_command_lossy_4294967295"
    );

    let state = numbered_channel(ChannelRole::State, 1, 16);
    assert_eq!(state.max_packet_lifetime, Some(16));
    assert_eq!(state.max_retransmits, None);
    let lossy = numbered_channel(ChannelRole::CommandLossy, 1, 16);
    assert_eq!(lossy.max_packet_lifetime, None);
    assert_eq!(lossy.max_retransmits, Some(0));
}

#[test]
fn labels_tell_roles_and_routes() {
    let all = [
        (ChannelRole::State, Route::State),
        (ChannelRole::Audit, Route::Audit),
        (ChannelRole::CommandReliable, Route::CommandReliable),
        (ChannelRole::CommandLossy, Route::CommandLossy),
    ];
    for (role, route) in all {
        let label = channel_label(role, 12);
        assert_eq!(channel_role(&label, 12), Some(role));
        assert_eq!(channel_role(&label, 1), None);
        assert_eq!(channel_route(&label), route);
    }
    assert_eq!(channel_route("service"), Route::Service);
    assert_eq!(channel_route("services"), Route::Unknown);
    assert_eq!(channel_route("reachy_command_"), Route::Unknown);
    assert_eq!(channel_route(""), Route::Unknown);
}

#[test]
fn service_requests_are_told_apart() {
    assert!(matches!(
        Session::on_service_message(Some(ServiceRequest::GetReachy)),
        ServiceAction::AskReachy
    ));
    assert!(matches!(
        Session::on_service_message(Some(ServiceRequest::Disconnect)),
        ServiceAction::Ignore
    ));
    assert!(matches!(Session::on_service_message(None), ServiceAction::Ignore));
    let connect =
        Connect { reachy_id: Some(reachy_id(3)), update_frequency: 1, audit_frequency: 2 };
    match Session::on_service_message(Some(ServiceRequest::Connect(connect))) {
        ServiceAction::Connect(c) => {
            assert_eq!(c.reachy_id.unwrap().id, 3);
            assert_eq!((c.update_frequency, c.audit_frequency), (1, 2));
        }
        other => panic!("{:?}", other),
    }
}

#[test]
fn connection_status_names_the_channels() {
    let status = Session::connection_status(&Some(reachy_id(42)), "robot");
    assert!(status.connected);
    assert_eq!(status.state_channel, "reachy_state_42");
    assert_eq!(status.command_channel, "reachy_command_42");
    assert_eq!(status.reachy, Some("robot"));
}

#[test]
fn the_first_connect_request_counts() {
    let mut s = session("p");
    let connect = || Connect {
        reachy_id: Some(reachy_id(5)),
        update_frequency: 60f32.to_bits(),
        audit_frequency: 1f32.to_bits(),
    };
    let plan = s.handle_connect_request(connect(), 16, 1000).unwrap();
    assert_eq!(plan.id, 5);
    assert_eq!(
        plan.channels
            .iter()
            .map(|c| (c.label.as_str(), c.max_retransmits, c.max_packet_lifetime))
            .collect::<Vec<(&str, Option<i32>, Option<u32>)>>(),
        vec![
            ("reachy_state_5", None, Some(16)),
            ("reachy_audit_5", None, Some(1000)),
            ("reachy_command_reliable_5", None, None),
            ("reachy_command_lossy_5", Some(0), None),
        ]
    );
    assert_eq!(plan.state.publish_frequency, 60f32.to_bits());
    assert_eq!(plan.audit.publish_frequency, 1f32.to_bits());
    assert_eq!(plan.state.id.unwrap().id, 5);
    assert_eq!(plan.audit.id.unwrap().id, 5);
    assert!(s.handle_connect_request(connect(), 16, 1000).is_none());
    assert!(s.is_running());
}

#[test]
fn sessions_connect_once_each() {
    let mut bridge = bridge();
    let a = open(&mut bridge, "a", "p");
    let b = open(&mut bridge, "b", "q");
    let connect =
        |id| Connect { reachy_id: Some(reachy_id(id)), update_frequency: 1, audit_frequency: 2 };
    assert_eq!(bridge.connect_requested(a, connect(1), 5, 6).unwrap().id, 1);
    assert!(bridge.connect_requested(a, connect(2), 5, 6).is_none());
    let nameless = Connect { reachy_id: None, update_frequency: 1, audit_frequency: 2 };
    assert!(bridge.connect_requested(a, nameless, 5, 6).is_none());
    let plan = bridge.connect_requested(b, connect(3), 5, 6).unwrap();
    assert_eq!(plan.channels[0].label, "reachy_state_3");
    assert_eq!(plan.channels[1].max_packet_lifetime, Some(6));
    assert!(bridge.connect_requested(99, connect(4), 5, 6).is_none());
    assert!(bridge.autoremove_stopped_sessions().is_empty());
}

#[test]
fn channels_do_their_work_when_they_open() {
    for (label, action) in [
        ("reachy_state_5", OpenAction::StartStateStream),
        ("reachy_audit_5", OpenAction::StartAuditStream),
        ("reachy_command_reliable_5", OpenAction::TakeReliableCommands),
        ("reachy_command_lossy_5", OpenAction::TakeLossyCommands),
        ("reachy_state_50", OpenAction::Nothing),
        ("service", OpenAction::Nothing),
    ] {
        assert_eq!(Session::prepare_data_channel(label, 5), action);
    }
}

#[test]
fn clients_connect_stub_by_stub() {
    let stubs = [
        Stub::Reachy,
        Stub::Arm,
        Stub::Hand,
        Stub::Head,
        Stub::MobileBaseMobility,
        Stub::MobileBaseUtility,
    ];
    let mut attempt = None;
    for stub in stubs {
        assert_eq!(GrpcClient::connect(attempt), ConnectStep::Connect(stub));
        assert_eq!(GrpcClient::connect(Some((stub, false))), ConnectStep::Failed(stub));
        attempt = Some((stub, true));
    }
    assert_eq!(GrpcClient::connect(attempt), ConnectStep::Connected);
}

#[test]
fn a_lost_connection_is_given_up_once() {
    let mut client = GrpcClient::new(Some("s".to_string()));
    let actions = client.lost_connection();
    assert_eq!(actions.len(), 2);
    assert!(matches!(actions[0], ClientAction::StopGrpcThread));
    assert!(matches!(&actions[1], ClientAction::EndSession(id) if id == "s"));
    assert!(client.lost_connection().is_empty());
}

#[test]
fn a_client_without_a_session_has_none_to_give_up() {
    let mut client = GrpcClient::new(None);
    assert!(client.on_stream(StreamEvent::Message).forward);
    let mut run = CommandRun::new(commands());
    assert!(matches!(client.handle_commands(&mut run, CallEvent::Begin), CommandStep::Call(_)));
    match client.handle_commands(&mut run, CallEvent::Refused) {
        CommandStep::Lost { error, actions } => {
            assert_eq!(error, "Connection lost");
            assert!(actions.is_empty());
        }
        other => panic!("{:?}", other),
    }
    assert!(client.lost_connection().is_empty());
}

#[test]
fn streams_end_with_a_stopped_client() {
    let mut client = GrpcClient::new(Some("s".to_string()));
    let step = client.on_stream(StreamEvent::Message);
    assert!(step.forward && !step.finished);
    for event in [StreamEvent::End, StreamEvent::Failure] {
        let step = client.on_stream(event);
        assert!(!step.forward && step.finished);
    }
    client.stop();
    let step = client.on_stream(StreamEvent::Message);
    assert!(step.forward && step.finished);
}

fn commands() -> AnyCommands<&'static str> {
    AnyCommands {
        commands: vec![
            AnyCommand {
                command: Some(Command::ArmCommand(ArmCommand {
                    arm_cartesian_goal: Some("pose"),
                    turn_on: Some("on"),
                    ..Default::default()
                })),
            },
            AnyCommand { command: None },
            AnyCommand { command: Some(Command::AntennasCommand("antennas")) },
            AnyCommand {
                command: Some(Command::HandCommand(HandCommand {
                    turn_off: Some("off"),
                    ..Default::default()
                })),
            },
            AnyCommand {
                command: Some(Command::NeckCommand(NeckCommand {
                    torque_limit: Some("limit"),
                    ..Default::default()
                })),
            },
            AnyCommand {
                command: Some(Command::MobileBaseCommand(MobileBaseCommand {
                    target_direction: Some("direction"),
                    mobile_base_mode: Some("mode"),
                })),
            },
        ],
    }
}

#[test]
fn commands_are_called_in_order() {
    let mut client = GrpcClient::new(Some("s".to_string()));
    let mut run = CommandRun::new(commands());
    let mut event = CallEvent::Begin;
    let mut calls = Vec::new();
    loop {
        match client.handle_commands(&mut run, event) {
            CommandStep::Call(call) => calls.push((call.method, call.message)),
            CommandStep::Done => break,
            CommandStep::Lost { error, .. } => panic!("{}", error),
        }
        event = CallEvent::Replied;
    }
    assert_eq!(
        calls,
        vec![
            (GrpcMethod::SendArmCartesianGoal, "pose"),
            (GrpcMethod::HandTurnOff, "off"),
            (GrpcMethod::HeadSetTorqueLimit, "limit"),
            (GrpcMethod::SendDirection, "direction"),
        ]
    );
}

#[test]
fn a_refused_call_loses_the_rest() {
    let mut client = GrpcClient::new(Some("s".to_string()));
    let mut run = CommandRun::new(commands());
    assert!(matches!(client.handle_commands(&mut run, CallEvent::Begin), CommandStep::Call(_)));
    match client.handle_commands(&mut run, CallEvent::Refused) {
        CommandStep::Lost { error, actions } => {
            assert_eq!(error, "Connection lost");
            assert_eq!(actions.len(), 2);
        }
        other => panic!("{:?}", other),
    }
    let mut run = CommandRun::new(commands());
    client.handle_commands(&mut run, CallEvent::Begin);
    match client.handle_commands(&mut run, CallEvent::Refused) {
        CommandStep::Lost { actions, .. } => assert!(actions.is_empty()),
        other => panic!("{:?}", other),
    }
    assert!(matches!(client.handle_commands(&mut run, CallEvent::Begin), CommandStep::Done));
}

#[test]
fn each_field_has_its_procedure() {
    let arm = |c: ArmCommand<u8>| GrpcClient::handle_arm_command(c).map(|call| call.method);
    assert_eq!(arm(ArmCommand::default()), None);
    assert_eq!(
        arm(ArmCommand { turn_on: Some(0), turn_off: Some(0), ..Default::default() }),
        Some(GrpcMethod::ArmTurnOn)
    );
    assert_eq!(
        arm(ArmCommand { turn_off: Some(0), speed_limit: Some(0), ..Default::default() }),
        Some(GrpcMethod::ArmTurnOff)
    );
    assert_eq!(
        arm(ArmCommand { speed_limit: Some(0), torque_limit: Some(0), ..Default::default() }),
        Some(GrpcMethod::ArmSetSpeedLimit)
    );
    assert_eq!(
        arm(ArmCommand { torque_limit: Some(0), ..Default::default() }),
        Some(GrpcMethod::ArmSetTorqueLimit)
    );
    let hand = |c: HandCommand<u8>| GrpcClient::handle_hand_command(c).map(|call| call.method);
    assert_eq!(
        hand(HandCommand { hand_goal: Some(0), ..Default::default() }),
        Some(GrpcMethod::SetHandPosition)
    );
    assert_eq!(
        hand(HandCommand { turn_on: Some(0), ..Default::default() }),
        Some(GrpcMethod::HandTurnOn)
    );
    assert_eq!(hand(HandCommand::default()), None);
    let neck = |c: NeckCommand<u8>| GrpcClient::handle_neck_command(c).map(|call| call.method);
    assert_eq!(
        neck(NeckCommand { neck_goal: Some(0), ..Default::default() }),
        Some(GrpcMethod::SendNeckJointGoal)
    );
    assert_eq!(
        neck(NeckCommand { turn_on: Some(0), ..Default::default() }),
        Some(GrpcMethod::HeadTurnOn)
    );
    assert_eq!(
        neck(NeckCommand { turn_off: Some(0), ..Default::default() }),
        Some(GrpcMethod::HeadTurnOff)
    );
    assert_eq!(
        neck(NeckCommand { speed_limit: Some(0), ..Default::default() }),
        Some(GrpcMethod::HeadSetSpeedLimit)
    );
    assert_eq!(neck(NeckCommand::default()), None);
    let base = GrpcClient::handle_mobile_base_command(MobileBaseCommand {
        target_direction: None,
        mobile_base_mode: Some(0),
    });
    assert_eq!(base.unwrap().method, GrpcMethod::SetZuuuMode);
    assert!(GrpcClient::handle_mobile_base_command(MobileBaseCommand::<u8>::default()).is_none());
}

#[test]
fn important_commands_have_no_goals() {
    let important = Session::create_important_commands(commands());
    let mut client = GrpcClient::new(Some("s".to_string()));
    let mut run = CommandRun::new(important);
    let mut calls = Vec::new();
    let mut event = CallEvent::Begin;
    while let CommandStep::Call(call) = client.handle_commands(&mut run, event) {
        calls.push((call.method, call.message));
        event = CallEvent::Replied;
    }
    assert_eq!(
        calls,
        vec![
            (GrpcMethod::ArmTurnOn, "on"),
            (GrpcMethod::HandTurnOff, "off"),
            (GrpcMethod::HeadSetTorqueLimit, "limit"),
            (GrpcMethod::SetZuuuMode, "mode"),
        ]
    );
}

#[test]
fn accepted_commands_are_played_in_order() {
    let mut queue: LossyQueue<u8> = LossyQueue::new();
    assert_eq!(queue.play(true, true), None);
    queue.receive(1, true);
    queue.receive(2, false);
    queue.receive(3, true);
    assert_eq!(queue.play(true, false), None);
    let rate = queue.display();
    assert_eq!((rate.accepted, rate.dropped), (2, 1));
    assert_eq!(queue.play(false, true), None);
    assert_eq!(queue.play(true, true), Some(1));
    queue.receive(4, true);
    assert_eq!(queue.play(true, true), Some(3));
    assert_eq!(queue.play(true, true), Some(4));
    assert_eq!(queue.play(true, true), None);
    let rate = queue.display();
    assert_eq!((rate.accepted, rate.dropped), (1, 0));
    let rate = queue.display();
    assert_eq!((rate.accepted, rate.dropped), (0, 0));
}
