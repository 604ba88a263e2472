use grpc_webrtc_rsbridge::commands::{AnyCommand, AnyCommands, Command};
use grpc_webrtc_rsbridge::grpc_client::{
    CallEvent, CommandRun, CommandStep, GrpcClient, GrpcMethod,
};
use grpc_webrtc_rsbridge::listener::{Listener, ProducerEvent, ProducerMeta, SearchStep};
use grpc_webrtc_rsbridge::messages::{
    ConnectionStatus, Message, Part, PartId, Reachy, ReachyId, ServiceRequest, ServiceResponse,
};
use grpc_webrtc_rsbridge::motion::{
    circle_commands, create_cartesian_goal_command, greet, has_all_parts, posture_commands,
    release_arms,
    speed_limit_command, take_leave, torque_limit_command, turn_off_robot, turn_on_robot, CMD_VEL,
    FREE_WHEEL, ONE_SECOND, POSTURE_HEIGHT,
};
use grpc_webrtc_rsbridge::negotiation::{Flow, SdpType, StateChange};
use grpc_webrtc_rsbridge::session::Session;
use grpc_webrtc_rsbridge::simulator::{
    is_record, rest_of_period, sample_period, Benchmark, ChannelPlan, OfferAction, PostureMotion,
    RunAction, SendMode, Simulator, AUDIT_FREQUENCY, UPDATE_FREQUENCY,
};
use grpc_webrtc_rsbridge::simulator_args;

fn part(id: u32, name: &str) -> Option<Part> {
    Some(Part { part_id: Some(PartId { id, name: name.to_string() }) })
}

fn reachy() -> Reachy {
    Reachy {
        id: Some(ReachyId { id: 9, name: "reachy".to_string() }),
        l_arm: part(2, "l_arm"),
        r_arm: part(1, "r_arm"),
        head: part(3, "head"),
        l_hand: part(5, "l_hand"),
        r_hand: part(4, "r_hand"),
        mobile_base: part(100, "mobile_base"),
    }
}

/// The calls that the bridge makes for some messages.
fn calls(sent: Vec<AnyCommands<Message>>) -> Vec<(GrpcMethod, Message)> {
    let mut client = GrpcClient::new(Some("s".to_string()));
    let mut made = Vec::new();
    for commands in sent {
        let mut run = CommandRun::new(commands);
        let mut event = CallEvent::Begin;
        while let CommandStep::Call(call) = client.handle_commands(&mut run, event) {
            made.push((call.method, call.message));
            event = CallEvent::Replied;
        }
    }
    made
}

fn summary(calls: &Vec<(GrpcMethod, Message)>) -> Vec<(GrpcMethod, String, u32)> {
    calls
        .iter()
        .map(|(method, message)| match message {
            Message::SpeedLimit(m) | Message::TorqueLimit(m) => {
                (*method, m.id.as_ref().unwrap().name.clone(), m.limit)
            }
            Message::PartId(m) => (*method, m.name.clone(), m.id),
            Message::ZuuuMode(m) => {
                (*method, m.id.as_ref().unwrap().name.clone(), m.mode as u32)
            }
            other => panic!("{:?}", other),
        })
        .collect()
}

fn line(method: GrpcMethod, name: &str, number: u32) -> (GrpcMethod, String, u32) {
    (method, name.to_string(), number)
}

fn powered(on: bool) -> Vec<(GrpcMethod, String, u32)> {
    let (arm, head, hand, mode) = if on {
        (GrpcMethod::ArmTurnOn, GrpcMethod::HeadTurnOn, GrpcMethod::HandTurnOn, CMD_VEL)
    } else {
        (GrpcMethod::ArmTurnOff, GrpcMethod::HeadTurnOff, GrpcMethod::HandTurnOff, FREE_WHEEL)
    };
    vec![
        line(arm, "l_arm", 2),
        line(arm, "r_arm", 1),
        line(head, "head", 3),
        line(hand, "l_hand", 5),
        line(hand, "r_hand", 4),
        line(GrpcMethod::SetZuuuMode, "mobile_base", mode as u32),
    ]
}

fn goal(command: &AnyCommand<Message>) -> (Option<PartId>, Vec<f64>, Option<u32>) {
    match &command.command {
        Some(Command::ArmCommand(arm)) => match &arm.arm_cartesian_goal {
            Some(Message::ArmCartesianGoal(goal)) => (
                goal.id.clone(),
                goal.goal_pose.as_ref().unwrap().iter().map(|b| f64::from_bits(*b)).collect(),
                goal.duration,
            ),
            other => panic!("{:?}", other),
        },
        other => panic!("{:?}", other),
    }
}

#[test]
fn client_arguments() {
    let args = simulator_args::Args::default();
    assert_eq!(simulator_args::signalling_uri(&args), "ws://127.0.0.1:8443");
    assert_eq!(
        simulator_args::display_args(&args),
        vec![
            "Args:",
            "Signalling server: 127.0.0.1:8443",
            "producer name: grpc_webrtc_bridge",
            "Parameters: frequency 100, benchmarking false",
        ]
    );
    let args = simulator_args::Args { frequency: 65535, bench_mode: true, ..args };
    assert_eq!(
        simulator_args::display_args(&args)[3],
        "Parameters: frequency 65535, benchmarking true"
    );
}

#[test]
fn producers_are_found_by_name() {
    let listener = Listener::new(&"ws://host:1".to_string(), "bridge".to_string());
    assert_eq!(listener.signalling_uri(), "ws://host:1");
    let added = |meta| ProducerEvent::Added { meta, peer_id: "peer".to_string() };
    assert!(matches!(
        listener.look_for_peer_id(added(ProducerMeta::Name("camera".to_string()))),
        SearchStep::GoOn
    ));
    assert!(matches!(listener.look_for_peer_id(ProducerEvent::Removed), SearchStep::GoOn));
    match listener.look_for_peer_id(added(ProducerMeta::Name("bridge".to_string()))) {
        SearchStep::Found(id) => assert_eq!(id, "peer"),
        other => panic!("{:?}", other),
    }
    assert!(matches!(
        listener.look_for_peer_id(added(ProducerMeta::WithoutName)),
        SearchStep::NotFound
    ));
    assert!(matches!(
        listener.look_for_peer_id(added(ProducerMeta::Missing)),
        SearchStep::NotFound
    ));
    assert!(matches!(listener.look_for_peer_id(ProducerEvent::Error), SearchStep::NotFound));
}

#[test]
fn limits_are_for_known_parts() {
    assert!(speed_limit_command("l_hand", 10).is_none());
    assert!(torque_limit_command("neck", 10).is_none());
    let sent = vec![
        AnyCommands { commands: vec![speed_limit_command("r_arm", 10).unwrap()] },
        AnyCommands { commands: vec![torque_limit_command("l_arm", 20).unwrap()] },
        AnyCommands { commands: vec![speed_limit_command("head", 30).unwrap()] },
        AnyCommands { commands: vec![torque_limit_command("head", 40).unwrap()] },
    ];
    let made = calls(sent);
    assert_eq!(
        summary(&made),
        vec![
            line(GrpcMethod::ArmSetSpeedLimit, "r_arm", 10),
            line(GrpcMethod::ArmSetTorqueLimit, "l_arm", 20),
            line(GrpcMethod::HeadSetSpeedLimit, "head", 30),
            line(GrpcMethod::HeadSetTorqueLimit, "head", 40),
        ]
    );
    let numbers: Vec<u32> = made
        .iter()
        .map(|(_, message)| match message {
            Message::SpeedLimit(m) | Message::TorqueLimit(m) => m.id.as_ref().unwrap().id,
            other => panic!("{:?}", other),
        })
        .collect();
    assert_eq!(numbers, vec![1, 2, 3, 3]);
}

#[test]
fn robots_are_turned_on_and_off() {
    assert_eq!(summary(&calls(turn_on_robot(&Some(reachy())))), powered(true));
    assert_eq!(summary(&calls(turn_off_robot(&Some(reachy())))), powered(false));
    assert!(turn_on_robot(&None).is_empty());
    assert!(turn_off_robot(&None).is_empty());
    assert!(turn_on_robot(&Some(reachy())).iter().all(|m| m.commands.len() == 1));
}

#[test]
fn robots_have_six_parts() {
    assert!(has_all_parts(&reachy()));
    assert!(!has_all_parts(&Reachy { mobile_base: None, ..reachy() }));
    assert!(!has_all_parts(&Reachy { l_arm: None, ..reachy() }));
}

#[test]
fn a_part_without_identifier_is_not_called() {
    let robot = Reachy { head: Some(Part { part_id: None }), ..reachy() };
    assert_eq!(calls(turn_on_robot(&Some(robot))).len(), 5);
}

#[test]
fn the_client_greets_and_leaves() {
    let mut greeting = vec![
        line(GrpcMethod::ArmSetSpeedLimit, "l_arm", 10),
        line(GrpcMethod::ArmSetSpeedLimit, "r_arm", 10),
        line(GrpcMethod::HeadSetSpeedLimit, "head", 100),
    ];
    greeting.extend(powered(true));
    greeting.extend(vec![
        line(GrpcMethod::ArmSetTorqueLimit, "l_arm", 100),
        line(GrpcMethod::ArmSetTorqueLimit, "r_arm", 100),
        line(GrpcMethod::HeadSetTorqueLimit, "head", 100),
    ]);
    assert_eq!(summary(&calls(greet(&Some(reachy())))), greeting);
    assert_eq!(calls(greet(&None)).len(), 6);

    assert_eq!(
        summary(&calls(release_arms())),
        vec![
            line(GrpcMethod::ArmSetSpeedLimit, "l_arm", 100),
            line(GrpcMethod::ArmSetSpeedLimit, "r_arm", 100),
        ]
    );

    let mut farewell = vec![
        line(GrpcMethod::ArmSetTorqueLimit, "l_arm", 35),
        line(GrpcMethod::ArmSetTorqueLimit, "r_arm", 35),
        line(GrpcMethod::ArmSetSpeedLimit, "l_arm", 10),
        line(GrpcMethod::ArmSetSpeedLimit, "r_arm", 10),
        line(GrpcMethod::ArmSetTorqueLimit, "l_arm", 25),
        line(GrpcMethod::ArmSetTorqueLimit, "r_arm", 25),
        line(GrpcMethod::ArmSetSpeedLimit, "l_arm", 15),
        line(GrpcMethod::ArmSetSpeedLimit, "r_arm", 15),
        line(GrpcMethod::ArmSetSpeedLimit, "l_arm", 5),
        line(GrpcMethod::ArmSetSpeedLimit, "r_arm", 5),
    ];
    farewell.extend(powered(false));
    assert_eq!(summary(&calls(take_leave(&Some(reachy())))), farewell);
}

#[test]
fn the_posture_has_its_numbers() {
    let z = -0.6f64;
    let commands = posture_commands(z.to_bits()).commands;
    assert_eq!(commands.len(), 2);
    let (id, left, duration) = goal(&commands[0]);
    let id = id.unwrap();
    assert_eq!((id.id, id.name.as_str()), (2, "l_arm"));
    assert_eq!(duration, None);
    assert_eq!(
        left,
        vec![
            1.0, -0.001, -0.015, 0.022, -0.001, 0.996, -0.086, 0.252, 0.015, 0.086, 0.996, z, 0.0,
            0.0, 0.0, 1.0,
        ]
    );
    let (id, right, _) = goal(&commands[1]);
    let id = id.unwrap();
    assert_eq!((id.id, id.name.as_str()), (1, "r_arm"));
    assert_eq!(
        right,
        vec![
            1.0, 0.001, -0.015, 0.022, 0.001, 0.996, 0.086, -0.252, 0.015, -0.086, 0.996, z, 0.0,
            0.0, 0.0, 1.0,
        ]
    );
    assert_eq!(f64::from_bits(POSTURE_HEIGHT), -0.608);
}

#[test]
fn circles_use_the_identifiers_of_the_robot() {
    let (x, y, z) = (0.4f64, 0.3f64, -0.1f64);
    let commands =
        circle_commands(&reachy(), x.to_bits(), y.to_bits(), (-y).to_bits(), z.to_bits()).commands;
    assert_eq!(commands.len(), 2);
    let (id, left, duration) = goal(&commands[0]);
    assert_eq!(id.unwrap().name, "l_arm");
    assert_eq!(duration, Some(ONE_SECOND));
    assert_eq!(f32::from_bits(ONE_SECOND), 1.0);
    assert_eq!(
        left,
        vec![0.0, 0.0, -1.0, x, 0.0, 1.0, 0.0, y, 1.0, 0.0, 0.0, z, 0.0, 0.0, 0.0, 1.0]
    );
    let (id, right, _) = goal(&commands[1]);
    assert_eq!(id.unwrap().name, "r_arm");
    assert_eq!(right[7], -y);

    let nameless = Reachy { l_arm: Some(Part { part_id: None }), ..reachy() };
    let commands = circle_commands(&nameless, 0, 0, 0, 0).commands;
    assert!(goal(&commands[0]).0.is_none());
}

#[test]
fn goals_go_to_the_arm_that_is_named() {
    let (id, pose, duration) = goal(&create_cartesian_goal_command("r_arm", vec![2.5f64.to_bits()]));
    let id = id.unwrap();
    assert_eq!((id.id, id.name.as_str()), (1, "r_arm"));
    assert_eq!(pose, vec![2.5]);
    assert_eq!(duration, None);
}

#[test]
fn the_client_answers_offers_only() {
    assert_eq!(
        Simulator::session_description(SdpType::Offer),
        vec![OfferAction::ConnectIce, OfferAction::SetRemoteDescription, OfferAction::CreateAnswer]
    );
    assert!(Simulator::session_description(SdpType::Answer).is_empty());
    assert!(Simulator::session_description(SdpType::Other).is_empty());
}

#[test]
fn the_client_runs_and_stops() {
    let client = Simulator::new(100, false, false, false);
    assert_eq!(
        client.run(),
        vec![RunAction::StartSignaller, RunAction::RunMainLoop, RunAction::StopSignaller]
    );
    assert_eq!(client.stop(), RunAction::PipelineToNull);
    assert_eq!(client.error(), Flow::Quit);
    assert_eq!(client.session_ended(), Flow::Quit);
    assert!(Simulator::setup_webrtc(StateChange::Success));
    assert!(!Simulator::setup_webrtc(StateChange::NoPreroll));
}

#[test]
fn channels_lead_to_plans() {
    let client = Simulator::new(200, true, false, true);
    assert!(matches!(
        client.configure_data_channels("service"),
        ChannelPlan::Service(ServiceRequest::GetReachy)
    ));
    assert!(matches!(client.configure_data_channels("reachy_state_1"), ChannelPlan::State));
    assert!(matches!(client.configure_data_channels("reachy_audit_1"), ChannelPlan::Audit));
    match client.configure_data_channels("reachy_command_lossy_1") {
        ChannelPlan::SendCommands(plan) => {
            assert_eq!(plan.mode, SendMode::Posture);
            assert_eq!(plan.frequency, 200);
            assert!(plan.bench);
        }
        other => panic!("{:?}", other),
    }
    match client.configure_data_channels("reachy_command_reliable_1") {
        ChannelPlan::SendMessages(messages) => assert_eq!(messages.len(), 6),
        other => panic!("{:?}", other),
    }
    assert!(matches!(client.configure_data_channels("camera"), ChannelPlan::Ignore));

    let mode = |recorded, test| match Simulator::new(1, false, recorded, test)
        .configure_data_channels("reachy_command_lossy_1")
    {
        ChannelPlan::SendCommands(plan) => plan.mode,
        other => panic!("{:?}", other),
    };
    assert_eq!(mode(true, true), SendMode::Recorded);
    assert_eq!(mode(true, false), SendMode::Recorded);
    assert_eq!(mode(false, false), SendMode::Circle);
}

#[test]
fn the_robot_is_remembered_and_asked_for() {
    let mut client = Simulator::new(100, false, false, false);
    assert!(client.configure_service_channel::<String>(None).is_none());
    assert!(client
        .configure_service_channel(Some(ServiceResponse::Error("no".to_string())))
        .is_none());
    assert!(client.known_reachy().is_none());
    let status = ConnectionStatus {
        connected: true,
        state_channel: "reachy_state_9".to_string(),
        command_channel: "reachy_command_9".to_string(),
        reachy: Some(reachy()),
    };
    let response: Option<ServiceResponse<Reachy, String>> =
        Some(ServiceResponse::ConnectionStatus(status));
    match client.configure_service_channel(response) {
        Some(ServiceRequest::Connect(connect)) => {
            assert_eq!(connect.reachy_id.unwrap().id, 9);
            assert_eq!(f32::from_bits(connect.update_frequency), 60.0);
            assert_eq!(f32::from_bits(connect.audit_frequency), 1.0);
            assert_eq!(connect.update_frequency, UPDATE_FREQUENCY);
            assert_eq!(connect.audit_frequency, AUDIT_FREQUENCY);
        }
        other => panic!("{:?}", other),
    }
    assert!(client.known_reachy().is_some());
    match client.configure_data_channels("reachy_command_reliable_9") {
        ChannelPlan::SendMessages(messages) => assert_eq!(messages.len(), 12),
        other => panic!("{:?}", other),
    }
}

#[test]
fn client_and_session_agree() {
    let mut session = Session::new("peer".to_string(), true).unwrap();
    let mut client = Simulator::new(100, false, false, false);
    let robot = reachy();
    let id = robot.id.clone();
    let status = Session::connection_status(&id, robot);
    let named = status.state_channel.clone();
    let response: Option<ServiceResponse<Reachy, String>> =
        Some(ServiceResponse::ConnectionStatus(status));
    let connect = match client.configure_service_channel(response) {
        Some(ServiceRequest::Connect(connect)) => connect,
        other => panic!("{:?}", other),
    };
    let plan = session.handle_connect_request(connect, 16, 1000).unwrap();
    assert_eq!(plan.id, 9);
    assert_eq!(plan.channels[0].label, named);
    assert_eq!(plan.state.publish_frequency, UPDATE_FREQUENCY);
    assert_eq!(plan.audit.publish_frequency, AUDIT_FREQUENCY);
    assert!(matches!(client.configure_data_channels(&plan.channels[0].label), ChannelPlan::State));
    assert!(matches!(client.configure_data_channels(&plan.channels[1].label), ChannelPlan::Audit));
    assert!(matches!(
        client.configure_data_channels(&plan.channels[2].label),
        ChannelPlan::SendMessages(_)
    ));
    assert!(matches!(
        client.configure_data_channels(&plan.channels[3].label),
        ChannelPlan::SendCommands(_)
    ));
}

#[test]
fn a_benchmark_grows_to_its_limit() {
    let mut bench = Benchmark { frequency: 1498 };
    assert_eq!(bench.step(), Flow::Continue);
    assert_eq!(bench.frequency, 1499);
    assert_eq!(bench.step(), Flow::Continue);
    assert_eq!(bench.frequency, 1500);
    assert_eq!(bench.step(), Flow::Quit);
    assert_eq!(bench.frequency, 1500);
    let mut fast = Benchmark { frequency: 2000 };
    assert_eq!(fast.step(), Flow::Quit);
    assert_eq!(fast.frequency, 2000);
}

#[test]
fn hands_turn_after_each_way() {
    let mut motion = PostureMotion::new();
    assert!(motion.forward);
    motion.on_sample(false);
    assert!(motion.forward);
    motion.on_sample(true);
    assert!(!motion.forward);
    motion.on_sample(false);
    motion.on_sample(true);
    assert!(motion.forward);
}

#[test]
fn periods_follow_from_frequencies() {
    assert_eq!(sample_period(100), 10_000);
    assert_eq!(sample_period(1500), 666);
    assert_eq!(sample_period(1), 1_000_000);
    assert_eq!(sample_period(2_000_000), 0);
    assert_eq!(rest_of_period(10, 3), 7);
    assert_eq!(rest_of_period(10, 10), 0);
    assert_eq!(rest_of_period(10, 11), 0);
}

#[test]
fn records_are_text_files() {
    assert!(is_record(Some("txt")));
    assert!(!is_record(Some("TXT")));
    assert!(!is_record(Some("json")));
    assert!(!is_record(None));
}
