use mesh_watchy::models::{MessageType, MqttConfig, MeshWatchyError, RawMqttMessage, Real32};
use mesh_watchy::mqtt::{MqttAction, MqttClient, MqttEvent, MqttManager, BROADCAST};
use mesh_watchy::signal::signal_quality;
use serde_json::Value;
use std::collections::hash_map::DefaultHasher;
use std::hash::{Hash, Hasher};

fn json(text: &str) -> Value {
    serde_json::from_str(text).unwrap()
}

fn message(message_type: MessageType, payload: &str) -> RawMqttMessage {
    RawMqttMessage {
        id: 7,
        timestamp: 1758156514,
        message_type,
        sender: "!2e268b50".to_string(),
        from: 0x2e268b50,
        to: 4294967295,
        channel: 2,
        rssi: Some(-50),
        snr: Some(Real32 { bits: 10.5f32.to_bits() }),
        hop_start: Some(3),
        hops_away: Some(0),
        payload: json(payload),
    }
}

#[test]
fn test_message_type_inference() {
    let _manager = MqttManager::new();

    let position_payload = json(
        r#"{
            "PDOP": 296,
            "altitude": -299,
            "ground_speed": 167,
            "ground_track": 28855000,
            "latitude_i": 429593763,
            "longitude_i": -723742466,
            "precision_bits": 32,
            "sats_in_view": 4,
            "time": 1758347643
        }"#,
    );
    let inferred_type = MqttClient::infer_message_type(&position_payload);
    println!("Position payload: {}", position_payload);
    println!("Inferred type: {:?}", inferred_type);
    assert_eq!(inferred_type, MessageType::Position);

    let telemetry_payload = json(
        r#"{
            "air_util_tx": 1.357388854026794,
            "battery_level": 101,
            "channel_utilization": 18.3966674804688,
            "uptime_seconds": 2221,
            "voltage": 3.36299991607666
        }"#,
    );
    let inferred_type = MqttClient::infer_message_type(&telemetry_payload);
    println!("Telemetry payload: {}", telemetry_payload);
    println!("Inferred type: {:?}", inferred_type);
    assert_eq!(inferred_type, MessageType::Telemetry);

    let nodeinfo_payload = json(
        r#"{
            "hardware": 47,
            "id": "!a1b2c3d4",
            "longname": "Test Node Alpha",
            "role": 1,
            "shortname": "TNA"
        }"#,
    );
    let inferred_type = MqttClient::infer_message_type(&nodeinfo_payload);
    println!("Nodeinfo payload: {}", nodeinfo_payload);
    println!("Inferred type: {:?}", inferred_type);
    assert_eq!(inferred_type, MessageType::Nodeinfo);

    let text_payload = json(r#"{"text": "Hello world!"}"#);
    let inferred_type = MqttClient::infer_message_type(&text_payload);
    println!("Text payload: {}", text_payload);
    println!("Inferred type: {:?}", inferred_type);
    assert_eq!(inferred_type, MessageType::Text);

    let unknown_payload = json(r#"{"some_random_key": "value"}"#);
    let inferred_type = MqttClient::infer_message_type(&unknown_payload);
    println!("Unknown payload: {}", unknown_payload);
    println!("Inferred type: {:?}", inferred_type);
    assert_eq!(inferred_type, MessageType::Unknown);
}

#[test]
fn test_clean_topic() {
    let dirty_topic = "^[[?62;1;4cmsh/Zoo/2/json/ZooNet/!f9943e58";
    let clean = MqttClient::clean_topic(dirty_topic);
    println!("Dirty: '{}', Clean: '{}'", dirty_topic, clean);
    assert_eq!(clean, "msh/Zoo/2/json/ZooNet/!f9943e58");
}

#[test]
fn test_topic_parsing() {
    let normal_topic = "msh/Zoo/2/json/ZooNet/!f9943e58";
    let clean = MqttClient::clean_topic(normal_topic);
    assert_eq!(clean, normal_topic);
}

#[test]
fn test_mqtt_manager_lifecycle() {
    let manager = MqttManager::new();
    assert!(!manager.is_running());

    let stats = manager.get_stats();
    assert_eq!(stats.total_messages, 0);
}

#[test]
fn manager_starts_blank() {
    let stats = MqttManager::default().get_stats();
    assert_eq!(stats.total_messages, 0);
    assert!(stats.messages_by_type.entries().is_empty());
    assert!(stats.last_message_time.is_none());
    assert_eq!(stats.connection_uptime, std::time::Duration::ZERO);
}

#[test]
fn topics_lose_what_is_not_graphic() {
    assert_eq!(MqttClient::clean_topic("msh/ü b\t/c"), "msh/b/c");
    assert_eq!(MqttClient::clean_topic("\u{1b}[31mred\u{1b}[0m"), "red");
    assert_eq!(MqttClient::clean_topic("a\u{1b}[12"), "a");
    assert_eq!(MqttClient::clean_topic("a^b[c"), "a^b[c");
    assert_eq!(MqttClient::clean_topic(""), "");
}

#[test]
fn keys_tell_the_type_in_order() {
    let both = json(r#"{"text": "x", "voltage": 3.1, "longname": "n", "longitude_i": 1}"#);
    assert_eq!(MqttClient::infer_message_type(&both), MessageType::Position);
    let three = json(r#"{"text": "x", "voltage": 3.1, "hardware": 1}"#);
    assert_eq!(MqttClient::infer_message_type(&three), MessageType::Telemetry);
    let two = json(r#"{"text": "x", "shortname": "n"}"#);
    assert_eq!(MqttClient::infer_message_type(&two), MessageType::Nodeinfo);
    assert_eq!(MqttClient::infer_message_type(&json("[\"text\"]")), MessageType::Unknown);
    assert_eq!(MqttClient::infer_message_type(&json("\"text\"")), MessageType::Unknown);
}

#[test]
fn node_ids_are_hexadecimal() {
    assert_eq!(MqttClient::node_id_to_numeric("!f9943e58"), 0xf9943e58);
    assert_eq!(MqttClient::node_id_to_numeric("!2E268B50"), 0x2e268b50);
    assert_eq!(MqttClient::node_id_to_numeric("!-10"), -16);
    assert_eq!(MqttClient::node_id_to_numeric("!+10"), 16);
    assert_eq!(MqttClient::node_id_to_numeric("!7fffffffffffffff"), i64::MAX);
}

#[test]
fn other_node_ids_are_hashed() {
    for id in ["unknown", "", "!", "!xyz", "!8000000000000000", "f9943e58"] {
        let mut hasher = DefaultHasher::new();
        id.hash(&mut hasher);
        assert_eq!(MqttClient::node_id_to_numeric(id), hasher.finish() as i64);
    }
}

#[test]
fn bare_payload_becomes_a_message() {
    let made = MqttClient::raw_message_at(
        json(r#"{"text": "hi"}"#),
        "msh/Zoo/2/json/ZooNet/!f9943e58",
        1758156514,
    );
    assert_eq!(made.id, (1758156514 << 16) | 0x3e58);
    assert_eq!(made.timestamp, 1758156514);
    assert_eq!(made.message_type, MessageType::Text);
    assert_eq!(made.sender, "!f9943e58");
    assert_eq!(made.from, 0xf9943e58);
    assert_eq!(made.to, BROADCAST);
    assert_eq!(made.channel, 0);
    assert!(made.rssi.is_none() && made.snr.is_none());
    assert!(made.hop_start.is_none() && made.hops_away.is_none());
    assert_eq!(made.payload, json(r#"{"text": "hi"}"#));
}

#[test]
fn short_topic_has_an_unknown_sender() {
    let made = MqttClient::raw_message_at(json("{}"), "msh/Zoo", 1);
    assert_eq!(made.sender, "unknown");
    assert_eq!(made.from, MqttClient::node_id_to_numeric("unknown"));
    assert_eq!(made.id, (1 << 16) | (made.from & 0xffff));
}

#[test]
fn payload_that_is_no_json_is_an_error() {
    match MqttClient::parse_raw_payload("{", "a/b") {
        Err(MeshWatchyError::Json(cause)) => {
            assert_eq!(cause, "EOF while parsing an object at line 1 column 1")
        }
        _ => panic!("no JSON error"),
    }
    let made = MqttClient::parse_raw_payload("{\"voltage\": 3}", "a/b").unwrap();
    assert_eq!(made.message_type, MessageType::Telemetry);
    assert!(made.timestamp > 1_600_000_000);
}

#[test]
fn messages_are_taken_in() {
    let topic = "^[[0mmsh/Zoo/2/json/ZooNet/!f9943e58";
    let told = message(MessageType::Text, r#"{"latitude_i": 1}"#);
    let taken = MqttClient::process_mqtt_message(topic, "", Some(told)).unwrap();
    assert_eq!(taken.topic, "msh/Zoo/2/json/ZooNet/!f9943e58");
    assert_eq!(taken.message.message_type, MessageType::Text);
    assert_eq!(taken.message.id, 7);

    let untold = message(MessageType::Unknown, r#"{"latitude_i": 1}"#);
    let taken = MqttClient::process_mqtt_message(topic, "", Some(untold)).unwrap();
    assert_eq!(taken.message.message_type, MessageType::Position);

    let taken = MqttClient::process_mqtt_message(topic, r#"{"text": "x"}"#, None).unwrap();
    assert_eq!(taken.message.sender, "!f9943e58");
    assert_eq!(taken.message.message_type, MessageType::Text);

    assert!(MqttClient::process_mqtt_message(topic, "no json", None).is_none());
}

#[test]
fn broadcast_shows_the_message() {
    let told = message(MessageType::Text, r#"{"text": "x"}"#);
    let shown = MqttClient::recent_message(&told, "msh/Zoo");
    assert_eq!(shown.id, 7);
    assert_eq!(shown.message_type, "TEXT");
    assert_eq!(shown.from_node, "774277968");
    assert_eq!(shown.to_node, Some("4294967295".to_string()));
    assert_eq!(shown.channel, Some(2));
    assert_eq!(shown.timestamp.secs, 1758156514);
    assert_eq!(shown.gateway, Some("msh/Zoo".to_string()));
    assert_eq!(shown.raw_json, json(r#"{"text": "x"}"#));

    let mut late = message(MessageType::Text, "{}");
    late.timestamp = i64::MAX;
    let shown = MqttClient::recent_message(&late, "t");
    assert!(shown.timestamp.secs > 1_600_000_000 && shown.timestamp.secs < i64::MAX / 2);
}

#[test]
fn payload_bytes_are_decoded() {
    assert_eq!(MqttClient::payload_text("grüß".as_bytes()), "grüß");
    assert_eq!(MqttClient::payload_text(&[0x68, 0xff, 0x69]), "h\u{fffd}i");
}

fn config(username: Option<&str>, password: Option<&str>) -> MqttConfig {
    MqttConfig {
        broker_host: "broker".to_string(),
        broker_port: 1884,
        username: username.map(|s| s.to_string()),
        password: password.map(|s| s.to_string()),
        topics: vec!["a/#".to_string(), "b/#".to_string()],
    }
}

#[test]
fn session_options_follow_the_configuration() {
    let client = MqttClient::with_identity(
        config(Some("u"), Some("p")),
        0x0123_4567_89ab_4cde_8f01_2345_6789_abcd,
    );
    let options = client.options();
    assert_eq!(options.client_id, "mesh-watchy-01234567-89ab-4cde-8f01-23456789abcd");
    assert_eq!(options.host, "broker");
    assert_eq!(options.port, 1884);
    assert_eq!(options.keep_alive_seconds, 60);
    assert!(!options.clean_session);
    assert_eq!(options.credentials, Some(("u".to_string(), "p".to_string())));
    assert_eq!(options.queue_capacity, 100);
    assert_eq!(client.topics().len(), 2);
    assert!(client.is_connected());

    let client = MqttClient::with_identity(config(Some("u"), None), 0);
    assert_eq!(client.options().credentials, None);
}

#[test]
fn clients_have_random_identities() {
    let a = MqttClient::new(config(None, None));
    let b = MqttClient::new(config(None, None));
    let id = &a.options().client_id;
    assert_eq!(id.len(), "mesh-watchy-".len() + 36);
    assert_eq!(id.as_bytes()["mesh-watchy-".len() + 14], b'4');
    assert_ne!(*id, b.options().client_id);
}

#[test]
fn connection_events_have_their_actions() {
    assert_eq!(MqttClient::react(MqttEvent::Publish), MqttAction::Process);
    assert_eq!(MqttClient::react(MqttEvent::Failed), MqttAction::Pause(5));
    for event in [
        MqttEvent::ConnAck,
        MqttEvent::SubAck,
        MqttEvent::OtherIncoming,
        MqttEvent::Outgoing,
    ] {
        assert_eq!(MqttClient::react(event), MqttAction::Continue);
    }
}

fn quality(rssi: i32, snr: f32) -> &'static str {
    signal_quality(Some(rssi), Some(Real32 { bits: snr.to_bits() }))
}

#[test]
fn reception_is_graded() {
    assert_eq!(quality(-50, 10.0), "Excellent");
    assert_eq!(quality(-51, 10.0), "Good");
    assert_eq!(quality(-50, 9.999999), "Good");
    assert_eq!(quality(-70, 5.0), "Good");
    assert_eq!(quality(-70, 4.9), "Fair");
    assert_eq!(quality(-85, 0.0), "Fair");
    assert_eq!(quality(-85, -0.0), "Fair");
    assert_eq!(quality(-85, -0.1), "Poor");
    assert_eq!(quality(-86, 20.0), "Poor");
    assert_eq!(quality(0, f32::INFINITY), "Excellent");
    assert_eq!(quality(0, f32::NEG_INFINITY), "Poor");
    assert_eq!(quality(0, f32::NAN), "Poor");
    assert_eq!(signal_quality(None, Some(Real32 { bits: 0 })), "Unknown");
    assert_eq!(signal_quality(Some(0), None), "Unknown");
}

#[test]
fn hashes_stand_in_for_numbers() {
    assert_eq!(MqttClient::numeric_by("!ff", 3), 255);
    assert_eq!(MqttClient::numeric_by("ff", 3), 3);
    assert_eq!(MqttClient::numeric_by("ff", u64::MAX), -1);
    assert_eq!(MqttClient::type_told(false, true, true, true), MessageType::Telemetry);
    assert_eq!(MqttClient::type_told(false, false, false, false), MessageType::Unknown);
}
