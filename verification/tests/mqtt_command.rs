use bambu_client::command::Command;
use bambu_client::command::info::InfoCommand;
use bambu_client::command::info::InfoPayload;
use bambu_client::command::print::PrintCommand;
use bambu_client::command::print::PrintPayload;
use bambu_client::command::pushing::PushingCommand;
use bambu_client::command::pushing::PushingPayload;
use bambu_client::command::system::AccessoryType;
use bambu_client::command::system::LedCtrl;
use bambu_client::command::system::LedMode;
use bambu_client::command::system::LedNode;
use bambu_client::command::system::SystemCommand;
use bambu_client::command::system::SystemPayload;

#[test]
fn test_get_version() {
    let cmd = Command::Info {
        info: InfoPayload {
            sequence_id: "999".to_string(),
            command: InfoCommand::GetVersion,
        },
    };
    let actual = cmd.to_json();
    let expected = r#"{"info":{"sequence_id":"999","command":"get_version"}}"#;
    assert_eq!(actual, expected);
}

#[test]
fn test_pause() {
    let cmd = Command::Print {
        print: PrintPayload {
            sequence_id: "123".to_string(),
            command: PrintCommand::Pause,
        },
    };
    let actual = cmd.to_json();
    let expected = r#"{"print":{"sequence_id":"123","command":"pause"}}"#;
    assert_eq!(actual, expected);
}

#[test]
fn test_resume() {
    let cmd = Command::Print {
        print: PrintPayload {
            sequence_id: "10".to_string(),
            command: PrintCommand::Resume,
        },
    };
    let actual = cmd.to_json();
    let expected = r#"{"print":{"sequence_id":"10","command":"resume"}}"#;
    assert_eq!(actual, expected);
}

#[test]
fn test_stop() {
    let cmd = Command::Print {
        print: PrintPayload {
            sequence_id: "7777".to_string(),
            command: PrintCommand::Stop,
        },
    };
    let actual = cmd.to_json();
    let expected = r#"{"print":{"sequence_id":"7777","command":"stop"}}"#;
    assert_eq!(actual, expected);
}

#[test]
fn test_push_all() {
    let cmd = Command::Pushing {
        pushing: PushingPayload {
            sequence_id: "555".to_string(),
            command: PushingCommand::PushAll { push_target: 1, version: 1 },
        },
    };
    let actual = cmd.to_json();
    let expected =
        r#"{"pushing":{"sequence_id":"555","command":"pushall","push_target":1,"version":1}}"#;
    assert_eq!(actual, expected);
}

#[test]
fn test_start_push() {
    let cmd = Command::Pushing {
        pushing: PushingPayload {
            sequence_id: "2020".to_string(),
            command: PushingCommand::Start,
        },
    };
    let actual = cmd.to_json();
    let expected = r#"{"pushing":{"sequence_id":"2020","command":"start"}}"#;
    assert_eq!(actual, expected);
}

#[test]
fn test_set_chamber_light_on() {
    // For "true", we expect "led_mode": "on"
    let cmd = {
        let mode = if true { LedMode::On } else { LedMode::Off };
        Command::System {
            system: SystemPayload {
                sequence_id: "42".to_string(),
                command: SystemCommand::LedCtrl(LedCtrl {
                    led_node: LedNode::ChamberLight,
                    led_mode: mode,
                    led_on_time: 500,
                    led_off_time: 500,
                    loop_times: 0,
                    interval_time: 0,
                }),
            },
        }
    };
    let actual = cmd.to_json();
    let expected = r#"{"system":{"sequence_id":"42","command":"ledctrl","led_node":"chamber_light","led_mode":"on","led_on_time":500,"led_off_time":500,"loop_times":0,"interval_time":0}}"#;
    assert_eq!(actual, expected);
}

#[test]
fn test_set_speed_profile() {
    let cmd = Command::Print {
        print: PrintPayload {
            sequence_id: "8910".to_string(),
            command: PrintCommand::PrintSpeed { param: "fast".to_string() },
        },
    };
    let actual = cmd.to_json();
    let expected = r#"{"print":{"sequence_id":"8910","command":"print_speed","param":"fast"}}"#;
    assert_eq!(actual, expected);
}

#[test]
fn test_send_gcode_template() {
    let cmd = Command::Print {
        print: PrintPayload {
            sequence_id: "1234".to_string(),
            command: PrintCommand::GcodeLine { param: "G28".to_string() },
        },
    };
    let actual = cmd.to_json();
    let expected = r#"{"print":{"sequence_id":"1234","command":"gcode_line","param":"G28"}}"#;
    assert_eq!(actual, expected);
}

#[test]
fn test_get_accessories() {
    let cmd = Command::System {
        system: SystemPayload {
            sequence_id: "9999".to_string(),
            command: SystemCommand::GetAccessories {
                accessory_type: AccessoryType::NoAccessory,
            },
        },
    };
    let actual = cmd.to_json();
    let expected =
        r#"{"system":{"sequence_id":"9999","command":"get_accessories","accessory_type":"none"}}"#;
    assert_eq!(actual, expected);
}

#[test]
fn extrusion_calibration_shape() {
    let cmd = Command::Print {
        print: PrintPayload {
            sequence_id: "5".to_string(),
            command: PrintCommand::ExtrusionCalibrationGet {
                filament_id: "F1".to_string(),
                nozzle_diameter: "0.4".to_string(),
            },
        },
    };
    let expected = r#"{"print":{"sequence_id":"5","command":"extrusion_cali_get","filament_id":"F1","nozzle_diameter":"0.4"}}"#;
    assert_eq!(cmd.to_json(), expected);
}

#[test]
fn json_string_escaping() {
    let cmd = Command::Print {
        print: PrintPayload {
            sequence_id: "0".to_string(),
            command: PrintCommand::GcodeLine { param: "say \"hi\"\\\n".to_string() },
        },
    };
    let expected = r#"{"print":{"sequence_id":"0","command":"gcode_line","param":"say \"hi\"\\\n"}}"#;
    assert_eq!(cmd.to_json(), expected);
}

#[test]
fn command_sequence_id_accessor() {
    let cmd = Command::Info {
        info: InfoPayload {
            sequence_id: "77".to_string(),
            command: InfoCommand::GetVersion,
        },
    };
    assert_eq!(cmd.sequence_id(), "77");
}
