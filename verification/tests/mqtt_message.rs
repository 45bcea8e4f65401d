use bambu_client::command::system::LedCtrl;
use bambu_client::command::system::LedMode;
use bambu_client::command::system::LedNode;
use bambu_client::message::Message;
use bambu_client::message::info::Info;
use bambu_client::message::print::Print;
use bambu_client::message::system::System;

const SERIAL_NUMBER_1: &str = "111111111111111";
const SERIAL_NUMBER_2: &str = "222222222222222";
const SERIAL_NUMBER_3: &str = "333333333333333";
const SERIAL_NUMBER_4: &str = "444444444444444";

#[test]
fn decode_led_ctrl_response() {
    let response = r#"{"system":{"sequence_id":"1","command":"ledctrl","led_node":"chamber_light","led_mode":"off","led_on_time":500,"led_off_time":500,"loop_times":0,"interval_time":0,"reason":"success","result":"success"}}"#;
    let actual = Message::from_json_str(response).unwrap();
    assert_eq!(
        actual,
        Message::System(System {
            sequence_id: "1".to_string(),
            command: LedCtrl {
                led_node: LedNode::ChamberLight,
                led_mode: LedMode::Off,
                led_on_time: 500,
                led_off_time: 500,
                loop_times: 0,
                interval_time: 0,
            },
            reason: "success".to_string(),
            result: "success".to_string(),
        })
    );
}

#[test]
fn test_get_version_parser() {
    let payload = format!(
        r#"{{"info": {{"command": "get_version","sequence_id": "0","module": [{{"name":"ota","project_name": "N2S","sw_ver": "<sw_ver>","hw_ver": "OTA","sn": "{sn1}","flag": 0}},{{"name": "esp32","project_name":"N2S","sw_ver": "<sw_ver>","hw_ver": "AP05","sn": "{sn1}","flag": 0}},{{"name": "mc","project_name": "N2S","sw_ver": "00.00.29.76","loader_ver": "<sw_ver>","hw_ver": "MC02","sn": "{sn2}","flag": 0}},{{"name": "th","project_name": "N2S","sw_ver": "<sw_ver>","loader_ver": "<s2_ver3>","hw_ver": "TH01","sn": "{sn3}","flag": 0}},{{"name": "ams_f1/0","project_name":"","sw_ver": "<sw_ver>","loader_ver": "<ver>","ota_ver": "<ver>","hw_ver": "AMS_F102","sn": "{sn4}","flag": 0}}],"result": "success","reason": ""}}}}"#,
        sn1 = SERIAL_NUMBER_1,
        sn2 = SERIAL_NUMBER_2,
        sn3 = SERIAL_NUMBER_3,
        sn4 = SERIAL_NUMBER_4,
    );

    let message = Message::from_json_str(&payload).unwrap();
    match message {
        Message::Info(info) => {
            assert_eq!(info.command, "get_version");
            assert_eq!(info.sequence_id, "0");
            assert_eq!(info.result, "success");
            assert_eq!(info.reason, "");
            assert_eq!(info.module.len(), 5);
            assert_eq!(info.module[0].name, "ota");
            assert_eq!(info.module[0].loader_ver, None);
            assert_eq!(info.module[2].sw_ver, "00.00.29.76");
            assert_eq!(info.module[2].loader_ver, Some("<sw_ver>".to_string()));
            assert_eq!(info.module[4].ota_ver, Some("<ver>".to_string()));
            assert_eq!(info.module[4].sn, SERIAL_NUMBER_4);
        }
        other => panic!("expected an info reply, got {:?}", other),
    }
}

#[test]
fn decode_print_reply_and_downcast() {
    let payload = r#"{"print":{"bed_temper":55.0,"nozzle_temper":219.5,"command":"push_status","msg":1,"sequence_id":"42"}}"#;
    let message = Message::from_payload(payload.as_bytes()).unwrap();
    assert_eq!(message.sequence_id(), "42");
    let print = Print::try_from_message(message).unwrap();
    assert_eq!(print.command, "push_status");
    assert_eq!(print.msg, 1);
    assert_eq!(print.bed_temper, Some("55.0".to_string()));
    assert_eq!(print.nozzle_temper, Some("219.5".to_string()));
}

#[test]
fn decode_print_reply_missing_temperatures() {
    let payload = r#"{"print":{"command":"pause","msg":0,"sequence_id":"3"}}"#;
    let message = Message::from_json_str(payload).unwrap();
    let print = Print::try_from_message(message).unwrap();
    assert_eq!(print.bed_temper, None);
    assert_eq!(print.nozzle_temper, None);
}

#[test]
fn decode_rejects_malformed_payloads() {
    for case in [
        "",
        "not json",
        "[1,2,3]",
        r#"{"info":{"command":"x"},"print":{"command":"y"}}"#,
        r#"{"unknown":{"sequence_id":"0"}}"#,
        r#"{"print":{"command":"pause","sequence_id":"3"}}"#,
        r#"{"print":{"command":"pause","msg":"nan","sequence_id":"3"}}"#,
        r#"{"system":{"sequence_id":"1","command":"otherctrl","led_node":"chamber_light","led_mode":"off","led_on_time":1,"led_off_time":1,"loop_times":0,"interval_time":0,"reason":"","result":""}}"#,
    ] {
        assert!(Message::from_json_str(case).is_err(), "{:?}", case);
    }
    // invalid UTF-8 payload bytes
    assert!(Message::from_payload(b"{\"print\"\xff}").is_err());
}

#[test]
fn unicode_escapes_in_strings() {
    let payload = r#"{"print":{"command":"pause","msg":0,"sequence_id":"\t7\u0041\u00e9"}}"#;
    let message = Message::from_json_str(payload).unwrap();
    let print = Print::try_from_message(message).unwrap();
    assert_eq!(print.command, "pause");
    assert_eq!(print.sequence_id, "\t7A\u{e9}");
}

#[test]
fn downcast_mismatch_errors() {
    let payload = r#"{"print":{"command":"pause","msg":0,"sequence_id":"3"}}"#;
    let message = Message::from_json_str(payload).unwrap();
    assert!(Info::try_from_message(message.clone()).is_err());
    assert!(System::try_from_message(message).is_err());
}
