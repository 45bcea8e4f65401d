use bambu_client::MqttClient;
use bambu_client::message::Message;
use bambu_client::message::info::Info;
use bambu_client::mqtt::InflightTable;
use bambu_client::mqtt::PumpEvent;
use bambu_client::mqtt::PumpStep;
use bambu_client::mqtt::RouteDecision;

#[test]
fn sequence_ids_are_monotonic() {
    let mut client = MqttClient::new("192.0.2.5", "code", "SER1AL");
    assert_eq!(client.next_sequence_id(), "0");
    assert_eq!(client.next_sequence_id(), "1");
    assert_eq!(client.next_sequence_id(), "2");
    assert_eq!(client.next_sequence_id(), "3");
}

#[test]
fn start_options_are_fixed() {
    let mut client = MqttClient::new("192.0.2.5", "pw123", "SER1AL");
    let (options, password) = client.start_options();
    assert_eq!(options.client_id, "bblp_client");
    assert_eq!(options.port, 8883);
    assert_eq!(options.username, "bblp");
    assert_eq!(options.keep_alive_secs, 60);
    assert_eq!(options.capacity, 10);
    assert_eq!(password, "pw123");
    assert!(!client.stopped());
    client.stop();
    assert!(client.stopped());
}

#[test]
fn topics_follow_the_serial() {
    let client = MqttClient::new("192.0.2.5", "code", "SER1AL");
    assert_eq!(client.report_topic(), "device/SER1AL/report");
    assert_eq!(client.request_topic(), "device/SER1AL/request");
}

#[test]
fn prepare_send_registers_before_publish() {
    let mut client = MqttClient::new("192.0.2.5", "code", "SER1AL");
    let command = client.get_version_command();
    let (topic, payload, ticket) = client.prepare_send(&command);
    assert_eq!(topic, "device/SER1AL/request");
    assert_eq!(
        String::from_utf8(payload).unwrap(),
        r#"{"info":{"sequence_id":"0","command":"get_version"}}"#
    );
    assert_eq!(ticket, 0);
}

#[test]
fn reply_routing_delivers_and_removes() {
    // a published reply with a registered sequence id reaches exactly its
    // waiter, and the inflight entry is gone afterwards
    let mut client = MqttClient::new("192.0.2.5", "code", "SER1AL");
    let command = client.set_led_command(true);
    let (_topic, _payload, ticket) = client.prepare_send(&command);

    let reply = r#"{"system":{"sequence_id":"0","command":"ledctrl","led_node":"chamber_light","led_mode":"on","led_on_time":500,"led_off_time":500,"loop_times":0,"interval_time":0,"reason":"","result":"success"}}"#;
    match client.route_reply(reply.as_bytes()) {
        RouteDecision::Deliver { ticket: got, message } => {
            assert_eq!(got, ticket);
            assert_eq!(message.sequence_id(), "0");
        }
        other => panic!("expected delivery, got {:?}", other),
    }
    // the entry is absent now: the same reply no longer matches
    match client.route_reply(reply.as_bytes()) {
        RouteDecision::UnknownSequence { .. } => {}
        other => panic!("expected an unknown sequence, got {:?}", other),
    }
}

#[test]
fn push_status_is_never_matched() {
    // a print/push_status reply for a registered id leaves the entry alone
    let mut client = MqttClient::new("192.0.2.5", "code", "SER1AL");
    let command = client.get_version_command();
    let (_topic, _payload, ticket) = client.prepare_send(&command);

    let push = r#"{"print":{"command":"push_status","msg":0,"sequence_id":"0"}}"#;
    match client.route_reply(push.as_bytes()) {
        RouteDecision::UnsolicitedPush { message } => {
            assert_eq!(message.sequence_id(), "0");
        }
        other => panic!("expected an unsolicited push, got {:?}", other),
    }
    // the real reply is still routed afterwards
    let real = r#"{"info":{"command":"get_version","sequence_id":"0","module":[],"result":"success","reason":""}}"#;
    match client.route_reply(real.as_bytes()) {
        RouteDecision::Deliver { ticket: got, .. } => assert_eq!(got, ticket),
        other => panic!("expected delivery, got {:?}", other),
    }
}

#[test]
fn unsolicited_push_with_no_entry_keeps_pumping() {
    let mut client = MqttClient::new("192.0.2.5", "code", "SER1AL");
    let push = r#"{"print":{"command":"push_status","msg":0,"sequence_id":"42"}}"#;
    match client.pump_step(PumpEvent::Published { payload: push.as_bytes().to_vec() }) {
        PumpStep::Route(RouteDecision::UnsolicitedPush { .. }) => {}
        other => panic!("expected an unsolicited push, got {:?}", other),
    }
    // a later real reply for another id is still routed correctly
    let command = client.get_version_command();
    let command2 = client.get_version_command();
    drop(command);
    let (_t, _p, ticket) = client.prepare_send(&command2);
    let real = r#"{"info":{"command":"get_version","sequence_id":"1","module":[],"result":"success","reason":""}}"#;
    match client.pump_step(PumpEvent::Published { payload: real.as_bytes().to_vec() }) {
        PumpStep::Route(RouteDecision::Deliver { ticket: got, .. }) => assert_eq!(got, ticket),
        other => panic!("expected delivery, got {:?}", other),
    }
}

#[test]
fn pump_reacts_to_lifecycle_events() {
    let mut client = MqttClient::new("192.0.2.5", "code", "SER1AL");
    match client.pump_step(PumpEvent::Connected) {
        PumpStep::SubscribeAndSignal { topic } => assert_eq!(topic, "device/SER1AL/report"),
        other => panic!("expected a subscribe step, got {:?}", other),
    }
    assert!(matches!(client.pump_step(PumpEvent::OtherIncoming), PumpStep::Ignore));
    assert!(matches!(client.pump_step(PumpEvent::Outgoing), PumpStep::Ignore));
    assert!(matches!(
        client.pump_step(PumpEvent::ConnectionError),
        PumpStep::SignalFailureAndExit
    ));
    assert!(matches!(
        client.pump_step(PumpEvent::StopRequested),
        PumpStep::ExitAndDisconnect
    ));
    match client.pump_step(PumpEvent::Published { payload: b"garbage".to_vec() }) {
        PumpStep::Route(RouteDecision::DecodeFailed) => {}
        other => panic!("expected a decode failure, got {:?}", other),
    }
}

#[test]
fn get_version_flow() {
    // publish get_version with sequence id 0, receive the info reply for
    // id 0, downcast it: result is success
    let mut client = MqttClient::new("192.0.2.5", "code", "SER1AL");
    let command = client.get_version_command();
    assert_eq!(command.sequence_id(), "0");
    let (_topic, payload, ticket) = client.prepare_send(&command);
    assert_eq!(
        String::from_utf8(payload).unwrap(),
        r#"{"info":{"sequence_id":"0","command":"get_version"}}"#
    );
    let reply = r#"{"info":{"command":"get_version","sequence_id":"0","module":[{"name":"ota","project_name":"N2S","sw_ver":"1.0","hw_ver":"OTA","sn":"111111111111111","flag":0}],"result":"success","reason":""}}"#;
    let message: Message = match client.route_reply(reply.as_bytes()) {
        RouteDecision::Deliver { ticket: got, message } => {
            assert_eq!(got, ticket);
            message
        }
        other => panic!("expected delivery, got {:?}", other),
    };
    let info = Info::try_from_message(message).unwrap();
    assert_eq!(info.result, "success");
    assert_eq!(info.module.len(), 1);
}

#[test]
fn inflight_table_operations() {
    let mut table = InflightTable::new();
    assert!(!table.contains("7"));
    table.insert("7".to_string(), 70);
    table.insert("8".to_string(), 80);
    assert!(table.contains("7"));
    assert!(table.contains("8"));
    assert_eq!(table.remove("7"), Some(70));
    assert!(!table.contains("7"));
    assert_eq!(table.remove("7"), None);
    assert_eq!(table.remove("8"), Some(80));
}
