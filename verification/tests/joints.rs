use grpc_webrtc_rsbridge::ros2_publisher::{
    build_message, DynamicJointState, Ros2Command, Ros2Publisher,
};

fn names(message: &DynamicJointState) -> Vec<&str> {
    message.joint_names.iter().map(|n| n.as_str()).collect()
}

#[test]
fn torque_goes_to_the_actuators() {
    let step = Ros2Publisher::process(Ros2Publisher::publish_torque("r_arm", true));
    let message = step.message.unwrap();
    assert_eq!(names(&message), vec!["r_shoulder", "r_elbow", "r_wrist"]);
    assert_eq!(message.interface_values.len(), 3);
    for value in &message.interface_values {
        assert_eq!(value.interface_names, vec!["torque"]);
        assert_eq!(value.values, vec![1.0f64.to_bits()]);
    }
    assert_eq!(step.pause, 100);

    let step = Ros2Publisher::process(Ros2Publisher::publish_torque("antenna_left", false));
    let message = step.message.unwrap();
    assert_eq!(names(&message), vec!["antenna_left"]);
    assert_eq!(message.interface_values[0].values, vec![0.0f64.to_bits()]);
    assert_eq!(step.pause, 0);
}

#[test]
fn limits_go_to_the_motors() {
    let value = 12.5f64.to_bits();
    let step = Ros2Publisher::process(Ros2Publisher::publish_torque_limit("l_arm", value));
    let message = step.message.unwrap();
    assert_eq!(
        names(&message),
        vec![
            "l_shoulder_raw_motor_1",
            "l_shoulder_raw_motor_2",
            "l_elbow_raw_motor_1",
            "l_elbow_raw_motor_2",
            "l_wrist_raw_motor_1",
            "l_wrist_raw_motor_2",
            "l_wrist_raw_motor_3",
        ]
    );
    assert_eq!(message.interface_values[6].interface_names, vec!["torque_limit"]);
    assert_eq!(message.interface_values[6].values, vec![value]);
    assert_eq!(step.pause, 100);

    for (part, motors) in [
        ("r_hand", vec!["r_hand_raw_motor_1"]),
        ("l_hand", vec!["l_hand_raw_motor_1"]),
        ("antenna_right", vec!["antenna_right_raw_motor"]),
        ("neck", vec!["neck_raw_motor_1", "neck_raw_motor_2", "neck_raw_motor_3"]),
    ] {
        let step = Ros2Publisher::process(Ros2Publisher::publish_speed_limit(part, value));
        let message = step.message.unwrap();
        assert_eq!(names(&message), motors);
        assert_eq!(message.interface_values[0].interface_names, vec!["speed_limit"]);
        assert_eq!(step.pause, 0);
    }
}

#[test]
fn the_head_is_the_neck() {
    for command in [
        |part: &str| Ros2Publisher::publish_torque(part, true),
        |part: &str| Ros2Publisher::publish_torque_limit(part, 1),
        |part: &str| Ros2Publisher::publish_speed_limit(part, 2),
    ] {
        let head = Ros2Publisher::process(command("head")).message.unwrap();
        let neck = Ros2Publisher::process(command("neck")).message.unwrap();
        assert_eq!(format!("{:?}", head), format!("{:?}", neck));
    }
}

#[test]
fn unknown_parts_are_not_published() {
    for command in [
        Ros2Command::PublishTorque { part: "leg".to_string(), enabled: true },
        Ros2Command::PublishTorqueLimit { part: "".to_string(), value: 1 },
        Ros2Command::PublishSpeedLimit { part: "R_ARM".to_string(), value: 1 },
    ] {
        let step = Ros2Publisher::process(command);
        assert!(step.message.is_none());
        assert_eq!(step.pause, 0);
    }
}

#[test]
fn messages_say_one_value_per_joint() {
    let message = build_message(vec!["a".to_string(), "b".to_string()], "torque", 7);
    assert_eq!(names(&message), vec!["a", "b"]);
    assert_eq!(message.interface_values.len(), 2);
    assert_eq!(message.interface_values[1].interface_names, vec!["torque"]);
    assert_eq!(message.interface_values[1].values, vec![7]);
    assert!(build_message(vec![], "torque", 7).interface_values.is_empty());
}

#[test]
fn the_node_has_its_names() {
    assert_eq!(Ros2Publisher::node_name(), "webrtc_bridge_publisher");
    assert_eq!(Ros2Publisher::topic(), "/dynamic_joint_commands");
}
