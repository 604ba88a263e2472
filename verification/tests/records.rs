use grpc_webrtc_rsbridge::commands::{AnyCommand, Command};
use grpc_webrtc_rsbridge::json::{as_whole, get_element, get_member, parse_json};
use grpc_webrtc_rsbridge::messages::Message;
use grpc_webrtc_rsbridge::recording::{
    any_command_from_json, any_command_from_line, MissingField, Recording,
};
use grpc_webrtc_rsbridge::text::{lines, numbered, starts_with};

fn command(line: &str) -> Command<Message> {
    any_command_from_line(line).unwrap().unwrap().command.unwrap()
}

fn nothing(line: &str) -> bool {
    matches!(any_command_from_line(line), Ok(None))
}

fn missing(line: &str) -> bool {
    matches!(any_command_from_line(line), Err(MissingField))
}

const ARM: &str = r#"[{"armCommand":{"armCartesianGoal":{"id":{"id":2,"name":"l_arm"},"goalPose":{"data":[1,0.5,"x",-2e3]}}}}]"#;
const NECK: &str = r#"[{"neckCommand":{"neckGoal":{"id":{"id":3,"name":"head"},"jointsGoal":{"rotation":{"q":{"w":1,"x":0.1,"y":-0.2,"z":0.25}}}}}}]"#;

#[test]
fn arm_goals_are_read() {
    match command(ARM) {
        Command::ArmCommand(arm) => {
            assert!(arm.turn_on.is_none() && arm.turn_off.is_none());
            assert!(arm.speed_limit.is_none() && arm.torque_limit.is_none());
            match arm.arm_cartesian_goal {
                Some(Message::ArmCartesianGoal(goal)) => {
                    let id = goal.id.unwrap();
                    assert_eq!((id.id, id.name.as_str()), (2, "l_arm"));
                    assert_eq!(goal.duration, None);
                    let pose: Vec<f64> =
                        goal.goal_pose.unwrap().iter().map(|b| f64::from_bits(*b)).collect();
                    assert_eq!(pose, vec![1.0, 0.5, -2000.0]);
                }
                other => panic!("{:?}", other),
            }
        }
        other => panic!("{:?}", other),
    }
}

#[test]
fn arm_fields_have_defaults() {
    match command(r#"[{"armCommand":{"armCartesianGoal":{"id":{}},"speedLimit":{"limit":-1}}}]"#) {
        Command::ArmCommand(arm) => {
            match arm.arm_cartesian_goal {
                Some(Message::ArmCartesianGoal(goal)) => {
                    let id = goal.id.unwrap();
                    assert_eq!((id.id, id.name.as_str()), (0, ""));
                    assert!(goal.goal_pose.is_none());
                }
                other => panic!("{:?}", other),
            }
            match arm.speed_limit {
                Some(Message::SpeedLimit(limit)) => {
                    assert!(limit.id.is_none());
                    assert_eq!(limit.limit, 0);
                }
                other => panic!("{:?}", other),
            }
        }
        other => panic!("{:?}", other),
    }
    match command(r#"[{"armCommand":{"speedLimit":{"id":{"id":4294967297},"limit":4294967306}}}]"#) {
        Command::ArmCommand(arm) => match arm.speed_limit {
            Some(Message::SpeedLimit(limit)) => {
                assert_eq!(limit.id.unwrap().id, 1);
                assert_eq!(limit.limit, 10);
            }
            other => panic!("{:?}", other),
        },
        other => panic!("{:?}", other),
    }
    assert!(matches!(command(r#"[{"armCommand":null}]"#), Command::ArmCommand(_)));
}

#[test]
fn neck_goals_are_read() {
    match command(NECK) {
        Command::NeckCommand(neck) => match neck.neck_goal {
            Some(Message::NeckGoal(goal)) => {
                assert_eq!(goal.id.unwrap().id, 3);
                let q = [goal.w, goal.x, goal.y, goal.z];
                assert_eq!(q.map(f64::from_bits), [1.0, 0.1, -0.2, 0.25]);
            }
            other => panic!("{:?}", other),
        },
        other => panic!("{:?}", other),
    }
    assert!(missing(r#"[{"neckCommand":{}}]"#));
    assert!(missing(r#"[{"neckCommand":{"neckGoal":{"id":{"id":3,"name":"head"}}}}]"#));
    assert!(missing(
        r#"[{"neckCommand":{"neckGoal":{"id":{"id":-3,"name":"head"},"jointsGoal":{"rotation":{"q":{"w":1,"x":0,"y":0,"z":0}}}}}}]"#
    ));
}

#[test]
fn antennas_are_read() {
    match command(r#"[{"antennasCommand":{"cmd":[{"goalPosition":0.5},{"goalPosition":"x"}]}}]"#) {
        Command::AntennasCommand(Message::Antennas(motors)) => {
            assert_eq!(motors.len(), 2);
            assert_eq!(motors[0].name, "antenna_left");
            assert_eq!(motors[0].goal_position.map(f64::from_bits), Some(0.5));
            assert_eq!(motors[1].name, "antenna_right");
            assert_eq!(motors[1].goal_position, None);
        }
        other => panic!("{:?}", other),
    }
}

#[test]
fn hand_goals_are_read() {
    let hand = |line: &str| match command(line) {
        Command::HandCommand(hand) => match hand.hand_goal {
            Some(Message::HandPosition(goal)) => {
                (goal.id.unwrap().id, f64::from_bits(goal.opening_percentage))
            }
            other => panic!("{:?}", other),
        },
        other => panic!("{:?}", other),
    };
    assert_eq!(
        hand(
            r#"[{"handCommand":{"handGoal":{"id":{"id":4,"name":"r_hand"},"position":{"parallelGripper":{"openingPercentage":0.75}}}}}]"#
        ),
        (4, 0.75)
    );
    assert_eq!(
        hand(
            r#"[{"handCommand":{"handGoal":{"id":{"id":4,"name":"r_hand"},"position":{"parallelGripper":{}}}}}]"#
        ),
        (4, 0.0)
    );
    assert!(missing(r#"[{"handCommand":{"handGoal":{"id":{"id":4}}}}]"#));
}

#[test]
fn directions_are_read() {
    let line = |mode: &str, x: &str| {
        format!(
            r#"[{{"mobileBaseCommand":{{{}"targetDirection":{{"id":{{"id":100,"name":"base"}},"direction":{{"x":{},"y":2,"theta":-3}}}}}}}}]"#,
            mode, x
        )
    };
    let read = |line: String| match command(&line) {
        Command::MobileBaseCommand(base) => {
            let mode = match base.mobile_base_mode {
                Some(Message::ZuuuMode(m)) => Some((m.id.is_none(), m.mode)),
                None => None,
                other => panic!("{:?}", other),
            };
            match base.target_direction {
                Some(Message::Direction(d)) => {
                    (mode, d.id.unwrap().id, [d.x, d.y, d.theta].map(f64::from_bits))
                }
                other => panic!("{:?}", other),
            }
        }
        other => panic!("{:?}", other),
    };
    assert_eq!(read(line("", "1")), (None, 100, [1.0, 2.0, -3.0]));
    assert_eq!(
        read(line("\"mobileBaseMode\":\"CMD_VEL\",", "1")),
        (Some((true, 1)), 100, [1.0, 2.0, -3.0])
    );
    assert!(nothing(&line("\"mobileBaseMode\":\"BRAKE\",", "1")));
    assert!(missing(&line("", "null")));
    assert!(nothing(r#"[{"mobileBaseCommand":{"mobileBaseMode":"CMD_VEL"}}]"#));
}

#[test]
fn other_lines_hold_nothing() {
    assert!(nothing(""));
    assert!(nothing("not json"));
    assert!(nothing("{}"));
    assert!(nothing("[]"));
    assert!(nothing("[1]"));
    assert!(nothing("[{}]"));
    assert!(nothing("[{\"legCommand\":{}}]"));
    assert!(nothing("[{\"armCommand\":{}}"));
}

#[test]
fn the_first_kind_of_command_counts() {
    assert!(matches!(
        command(r#"[{"neckCommand":{},"armCommand":{}},{"handCommand":{}}]"#),
        Command::ArmCommand(_)
    ));
}

#[test]
fn documents_are_read_as_lines_are() {
    let document = parse_json(ARM);
    let read = any_command_from_json(document.as_ref()).unwrap();
    assert_eq!(format!("{:?}", read), format!("{:?}", any_command_from_line(ARM).unwrap()));
    assert!(any_command_from_json(None).unwrap().is_none());
}

#[test]
fn json_is_read() {
    let document = parse_json(r#"{"a":[1,-1,1.5,18446744073709551615],"a":[7]}"#);
    let a = get_member(document.as_ref(), "a");
    assert_eq!(as_whole(get_element(a, 0)), Some(7));
    assert_eq!(as_whole(get_element(a, 1)), None);
    assert!(get_member(document.as_ref(), "b").is_none());
    let document = parse_json("[1,-1,1.5,18446744073709551615]");
    let whole = |i| as_whole(get_element(document.as_ref(), i));
    assert_eq!([whole(0), whole(1), whole(2), whole(3)], [Some(1), None, None, Some(u64::MAX)]);
    assert!(parse_json("[1,").is_none());
}

fn played(commands: &Vec<AnyCommand<Message>>) -> Vec<&'static str> {
    commands
        .iter()
        .map(|c| match &c.command {
            Some(Command::ArmCommand(_)) => "arm",
            Some(Command::NeckCommand(_)) => "neck",
            Some(Command::AntennasCommand(_)) => "antennas",
            other => panic!("{:?}", other),
        })
        .collect()
}

#[test]
fn files_are_played_side_by_side_in_circles() {
    let first = format!("{}\n{}\r\n[{{\"antennasCommand\":{{}}}}]\n", ARM, NECK);
    let second = format!("nonsense\n{}", ARM);
    let mut recording = Recording::new(&vec![first, second, "".to_string()]).unwrap();
    let mut all = Vec::new();
    for _ in 0..7 {
        all.push(played(&recording.tick().unwrap().commands).join(" "));
    }
    assert_eq!(
        all,
        vec!["arm", "neck arm", "antennas", "arm arm", "neck", "antennas arm", "arm"]
    );
}

#[test]
fn recordings_need_files_and_fields() {
    assert!(Recording::new(&vec![]).is_none());
    let mut recording =
        Recording::new(&vec![r#"[{"handCommand":{}}]"#.to_string(), ARM.to_string()]).unwrap();
    assert!(matches!(recording.tick(), Err(MissingField)));
    assert!(matches!(recording.tick(), Err(MissingField)));
}

#[test]
fn lines_end_at_line_feeds() {
    assert!(lines("").is_empty());
    assert_eq!(lines("a"), vec!["a"]);
    assert_eq!(lines("a\n"), vec!["a"]);
    assert_eq!(lines("a\r\n\nb\rc\r"), vec!["a", "", "b\rc\r"]);
}

#[test]
fn numbers_and_prefixes() {
    assert_eq!(numbered("n", 0), "n0");
    assert_eq!(numbered("", u64::MAX), "18446744073709551615");
    assert!(starts_with("abc", ""));
    assert!(starts_with("abc", "ab"));
    assert!(!starts_with("ab", "abc"));
    assert!(!starts_with("abc", "bc"));
}
