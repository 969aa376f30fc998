use mesh_watchy::database::{
    node_id_text, Database, DecodedPayload, DetailRow, MessageRow, NodeRow, OpenStep,
    PositionInfoRow, PositionRow, TextRow,
};
use mesh_watchy::models::{
    MeshWatchyError, MessageType, NodeInfo, NodeInfoPayload, PositionPayload, RawMqttMessage,
    Real32, Real64, TelemetryDisplay, TelemetryPayload, TextMessagePayload,
};
use mesh_watchy::telemetry::TelemetryRow;
use serde_json::Value;

fn json(text: &str) -> Value {
    serde_json::from_str(text).unwrap()
}

fn message(message_type: MessageType) -> RawMqttMessage {
    RawMqttMessage {
        id: 123456,
        timestamp: 1758156514,
        message_type,
        sender: "!f9943e58".to_string(),
        from: 774277968,
        to: 4294967295,
        channel: 0,
        rssi: Some(-73),
        snr: Some(Real32 { bits: 8.0f32.to_bits() }),
        hop_start: Some(3),
        hops_away: Some(0),
        payload: json(r#"{ "latitude_i" : 424041350, "altitude" : null }"#),
    }
}

fn position() -> PositionPayload {
    PositionPayload {
        pdop: Some(156),
        altitude: Some(26),
        ground_speed: Some(1),
        ground_track: Some(33930000),
        latitude_i: 424041350,
        longitude_i: -711257033,
        precision_bits: Some(32),
        sats_in_view: Some(7),
        time: Some(1758156514),
    }
}

const TOPIC: &str = "msh/Zoo/2/json/ZooNet/!f9943e58";

#[test]
fn position_message_is_stored() {
    let stored = Database::insert_message(
        &message(MessageType::Position),
        TOPIC,
        DecodedPayload::Position(position()),
    );
    let row = stored.row;
    assert_eq!(row.id, 123456);
    assert_eq!(row.timestamp, 1758156514);
    assert_eq!(row.message_type, "POSITION");
    assert_eq!(row.sender_id, "!f9943e58");
    assert_eq!(row.from_node, 774277968);
    assert_eq!(row.channel, 0);
    assert_eq!(row.rssi, Some(-73));
    assert_eq!(row.snr, Some(Real32 { bits: 8.0f32.to_bits() }));
    assert_eq!((row.hop_start, row.hops_away), (Some(3), Some(0)));
    assert_eq!(row.mqtt_topic, TOPIC);
    assert_eq!(row.payload, r#"{"altitude":null,"latitude_i":424041350}"#);
    match stored.detail {
        Some(DetailRow::Position(p)) => {
            assert_eq!(p.message_id, 123456);
            assert_eq!(p.latitude_i, 424041350);
            assert_eq!(p.longitude_i, -711257033);
            assert_eq!(p.altitude, Some(26));
            assert_eq!(p.ground_speed, Some(1));
            assert_eq!(p.ground_track, Some(33930000));
            assert_eq!(p.pdop, Some(156));
            assert_eq!(p.satellites_visible, Some(7));
            assert_eq!(p.gps_time, Some(1758156514));
        }
        _ => panic!("no position"),
    }
}

#[test]
fn other_payloads_are_stored_by_type() {
    let info = NodeInfoPayload {
        hardware: 47,
        id: "!a1b2c3d4".to_string(),
        longname: "Test Node Alpha".to_string(),
        role: 1,
        shortname: "TNA".to_string(),
    };
    match Database::insert_message(
        &message(MessageType::Nodeinfo),
        TOPIC,
        DecodedPayload::Nodeinfo(info),
    )
    .detail
    {
        Some(DetailRow::Nodeinfo(n)) => {
            assert_eq!(n.node_id, "!a1b2c3d4");
            assert_eq!((n.hardware_type, n.role), (47, 1));
            assert_eq!((n.long_name.as_str(), n.short_name.as_str()), ("Test Node Alpha", "TNA"));
            assert_eq!(n.last_seen, 1758156514);
        }
        _ => panic!("no node information"),
    }

    let telemetry = TelemetryPayload {
        air_util_tx: None,
        battery_level: Some(101),
        channel_utilization: Some(Real32 { bits: 1 }),
        uptime_seconds: Some(2221),
        voltage: Some(Real32 { bits: 2 }),
    };
    match Database::insert_message(
        &message(MessageType::Telemetry),
        TOPIC,
        DecodedPayload::Telemetry(telemetry),
    )
    .detail
    {
        Some(DetailRow::Telemetry(t)) => {
            assert_eq!(t.message_id, 123456);
            assert_eq!(t.battery_level, Some(101));
            assert_eq!(t.voltage, Some(Real32 { bits: 2 }));
            assert_eq!(t.air_util_tx, None);
            assert_eq!(t.channel_utilization, Some(Real32 { bits: 1 }));
            assert_eq!(t.uptime_seconds, Some(2221));
        }
        _ => panic!("no telemetry"),
    }

    let text = TextMessagePayload { text: "Hello world!".to_string() };
    match Database::insert_message(&message(MessageType::Text), TOPIC, DecodedPayload::Text(text))
        .detail
    {
        Some(DetailRow::Text(t)) => {
            assert_eq!((t.message_id, t.text.as_str()), (123456, "Hello world!"));
        }
        _ => panic!("no text"),
    }
}

#[test]
fn payloads_of_another_shape_are_not_stored() {
    for message_type in [MessageType::Text, MessageType::Unknown] {
        let stored = Database::insert_message(
            &message(message_type),
            TOPIC,
            DecodedPayload::Position(position()),
        );
        assert!(stored.detail.is_none());
    }
    let stored =
        Database::insert_message(&message(MessageType::Position), TOPIC, DecodedPayload::Undecoded);
    assert!(stored.detail.is_none());
}

fn position_row(from_node: i64, timestamp: i64) -> PositionRow {
    PositionRow {
        from_node,
        timestamp,
        latitude: Real64 { bits: 42.404135f64.to_bits() },
        longitude: Real64 { bits: (-71.1257033f64).to_bits() },
        altitude: Some(26),
        battery_level: None,
        rssi: Some(-73),
        snr: None,
    }
}

#[test]
fn positions_are_shown() {
    let shown = Database::get_recent_positions(&vec![
        position_row(774277968, 1758156514),
        position_row(-1, i64::MAX),
    ]);
    assert_eq!(shown.len(), 2);
    assert_eq!(shown[0].node_id, "!2e268b50");
    assert_eq!(shown[0].timestamp.secs, 1758156514);
    assert_eq!(shown[0].latitude, Real64 { bits: 42.404135f64.to_bits() });
    assert_eq!(shown[0].longitude, Real64 { bits: (-71.1257033f64).to_bits() });
    assert_eq!((shown[0].altitude, shown[0].battery_level), (Some(26), None));
    assert_eq!((shown[0].rssi, shown[0].snr), (Some(-73), None));
    assert_eq!(shown[1].node_id, "!ffffffff");
    assert_eq!((shown[1].timestamp.secs, shown[1].timestamp.nanos), (0, 0));
}

#[test]
fn map_positions_have_a_model() {
    let row = |hardware_type: Option<i32>| PositionInfoRow {
        position: position_row(1, 2),
        long_name: Some("Long".to_string()),
        short_name: None,
        hardware_type,
    };
    let shown =
        Database::get_recent_positions_with_info(&vec![row(Some(71)), row(Some(9)), row(None)]);
    assert_eq!(shown[0].node_id, "!00000001");
    assert_eq!(shown[0].timestamp.secs, 2);
    assert_eq!(shown[0].long_name, Some("Long".to_string()));
    assert_eq!(shown[0].short_name, None);
    assert_eq!(shown[0].hardware_model, Some("T-Deck".to_string()));
    assert_eq!(shown[1].hardware_model, Some("Hardware #9".to_string()));
    assert_eq!((shown[2].hardware_type, shown[2].hardware_model.as_deref()), (0, Some("Hardware #0")));
}

#[test]
fn hardware_models_have_names() {
    let model = |n: i32| Database::hardware_type_to_model(n).unwrap();
    assert_eq!(model(3), "T-Echo");
    assert_eq!(model(47), "Station G1");
    assert_eq!(model(50), "RAK11200");
    assert_eq!(model(71), "T-Deck");
    assert_eq!(model(-5), "Hardware #-5");
}

#[test]
fn position_queries_bind_their_nodes() {
    let all = Database::get_recent_positions_filtered(50, &None);
    assert!(all.sql.starts_with("SELECT mm.from_node as node_id,"));
    assert!(all.sql.ends_with(" LIMIT 1 ) ORDER BY mm.timestamp DESC LIMIT ?"));
    assert_eq!(all.binds, vec![50]);

    let none = Database::get_recent_positions_filtered(7, &Some(vec![]));
    assert_eq!(none.sql, all.sql);
    assert_eq!(none.binds, vec![7]);

    let some = Database::get_recent_positions_filtered(50, &Some(vec![11, -12, 13]));
    assert!(some
        .sql
        .ends_with(" WHERE mm.from_node IN (?,?,?) ORDER BY mm.timestamp DESC LIMIT ?"));
    assert_eq!(some.binds, vec![11, -12, 13, 50]);
    assert_eq!(some.sql.matches('?').count(), some.binds.len());
}

#[test]
fn overview_holds_what_was_counted() {
    let overview = Database::get_network_overview(0, 0, 0, None);
    assert_eq!(overview.total_nodes, 0);
    assert!(overview.last_message.is_none());
    let overview = Database::get_network_overview(3, 2, 1, Some(1758156514));
    assert_eq!((overview.total_nodes, overview.active_nodes, overview.messages_today), (3, 2, 1));
    assert_eq!(overview.last_message.unwrap().secs, 1758156514);
    assert!(Database::get_network_overview(3, 2, 1, Some(i64::MAX)).last_message.is_none());
}

#[test]
fn a_day_bounds_activity_and_days_bound_cleanup() {
    assert_eq!(Database::active_after_at(100_000), 13_600);
    assert!(Database::active_after() > 1_600_000_000);
    assert_eq!(Database::cleanup_cutoff_at(1_000_000, 10), 136_000);
    assert_eq!(Database::cleanup_cutoff_at(0, -1), 86_400);
    let cutoff = Database::cleanup_cutoff_at(1_000_000, 10);
    assert!(135_999 < cutoff && 136_000 >= cutoff);
    let difference = Database::cleanup_old_messages(0) - Database::cleanup_old_messages(30);
    assert!((2_591_990..=2_592_000).contains(&difference));
}

#[test]
fn nodes_are_shown() {
    let row = |long_name: &str, last_seen: i64, has_position: i32| NodeRow {
        info: NodeInfo {
            node_id: "!2e268b50".to_string(),
            hardware_type: 3,
            long_name: long_name.to_string(),
            short_name: String::new(),
            role: 2,
            last_seen,
        },
        created_at: Some(5),
        has_position,
        battery_level: Some(80),
    };
    let shown = Database::get_nodes_display(&vec![row("Alpha", 101, 1), row("", 100, 0)], 100);
    assert_eq!(shown[0].node_id, "!2e268b50");
    assert_eq!(shown[0].hardware_model, Some("T-Echo".to_string()));
    assert_eq!(shown[0].long_name, Some("Alpha".to_string()));
    assert_eq!(shown[0].short_name, None);
    assert_eq!((shown[0].role, shown[0].last_seen, shown[0].first_seen), (2, 101, Some(5)));
    assert!(shown[0].is_active && shown[0].has_position);
    assert_eq!(shown[0].battery_level, Some(80));
    assert!(shown[0].user_id.is_none() && shown[0].firmware_version.is_none());
    assert_eq!(shown[1].long_name, None);
    assert!(!shown[1].is_active && !shown[1].has_position);
}

#[test]
fn message_counts_make_a_map() {
    let stats = Database::get_message_stats(&vec![
        ("TEXT".to_string(), 3),
        ("POSITION".to_string(), 4),
        ("TEXT".to_string(), 5),
    ]);
    assert_eq!(stats.get("TEXT"), Some(&5));
    assert_eq!(stats.get("POSITION"), Some(&4));
    assert_eq!(stats.get("UNKNOWN"), None);
    assert_eq!(stats.entries().len(), 2);
}

#[test]
fn text_messages_are_shown() {
    let row = |topic: &str| TextRow {
        message_id: 9,
        from_node: "!2e268b50".to_string(),
        text: "hi".to_string(),
        timestamp: 77,
        channel: Some(1),
        rssi: None,
        snr: None,
        mqtt_topic: topic.to_string(),
    };
    let shown = Database::get_recent_text_messages(&vec![row(TOPIC), row("msh")]);
    assert_eq!(shown[0].message_id, 9);
    assert_eq!(shown[0].from_node, "!2e268b50");
    assert_eq!(shown[0].to_node, None);
    assert_eq!(shown[0].text, "hi");
    assert_eq!(shown[0].timestamp.secs, 77);
    assert_eq!(shown[0].channel, Some(1));
    assert_eq!(shown[0].gateway, Some("Zoo".to_string()));
    assert_eq!(shown[1].gateway, None);
}

#[test]
fn messages_are_shown_with_their_json() {
    let row = |payload: &str| MessageRow {
        id: 9,
        sender_id: "!f9943e58".to_string(),
        message_type: "TEXT".to_string(),
        timestamp: 77,
        channel: 4,
        mqtt_topic: TOPIC.to_string(),
        payload: payload.to_string(),
    };
    let shown = Database::get_recent_messages(&vec![row(r#"{"text": "hi"}"#), row("{")]);
    assert_eq!(shown[0].id, 9);
    assert_eq!(shown[0].from_node, "!f9943e58");
    assert_eq!(shown[0].to_node, None);
    assert_eq!(shown[0].message_type, "TEXT");
    assert_eq!(shown[0].timestamp.secs, 77);
    assert_eq!(shown[0].channel, Some(4));
    assert_eq!(shown[0].gateway, Some("Zoo".to_string()));
    assert_eq!(shown[0].raw_json, json(r#"{"text": "hi"}"#));
    assert_eq!(shown[1].raw_json, json(r#"{"error": "Invalid JSON"}"#));
}

#[test]
fn stored_messages_are_shown_again() {
    let m = message(MessageType::Position);
    let stored = Database::insert_message(&m, TOPIC, DecodedPayload::Undecoded).row;
    let row = MessageRow {
        id: stored.id,
        sender_id: stored.sender_id,
        message_type: stored.message_type,
        timestamp: stored.timestamp,
        channel: stored.channel,
        mqtt_topic: stored.mqtt_topic,
        payload: stored.payload,
    };
    let shown = Database::get_recent_messages(&vec![row]);
    assert_eq!(shown[0].id, m.id);
    assert_eq!(shown[0].from_node, m.sender);
    assert_eq!(shown[0].message_type, "POSITION");
    assert_eq!(shown[0].raw_json, m.payload);
}

fn reading(node: &str, timestamp: i64, battery_level: Option<i32>) -> TelemetryRow {
    TelemetryRow {
        node_id: node.to_string(),
        timestamp,
        battery_level,
        voltage: Some(Real32 { bits: timestamp as u32 }),
        air_util_tx: None,
        channel_utilization: None,
        uptime_seconds: Some(timestamp * 10),
    }
}

#[test]
fn telemetry_is_gathered_by_node() {
    let rows = vec![
        reading("!a", 30, Some(100)),
        reading("!b", 50, Some(101)),
        reading("!a", 10, Some(0)),
        reading("!a", 20, None),
        reading("!a", 30, Some(40)),
    ];
    let shown = Database::get_recent_telemetry(&rows);
    assert_eq!(shown.len(), 2);
    assert_eq!(shown[0].node_id, "!b");
    assert_eq!(shown[0].battery_chart, "🔌");
    assert_eq!(shown[0].timestamp, 50);
    assert_eq!(shown[1].node_id, "!a");
    assert_eq!(shown[1].timestamp, 30);
    assert_eq!(shown[1].battery_level, Some(40));
    assert_eq!(shown[1].battery_chart, "▁─█▄");
    assert_eq!(shown[1].uptime_seconds, Some(300));
    assert!(Database::get_recent_telemetry(&vec![]).is_empty());
}

#[test]
fn telemetry_history_is_shown_one_by_one() {
    let shown =
        Database::get_node_telemetry_history(&vec![reading("!a", 1, Some(5)), reading("!a", 2, None)]);
    assert_eq!(shown.len(), 2);
    assert_eq!((shown[0].timestamp, shown[0].battery_level), (1, Some(5)));
    assert_eq!(shown[0].battery_chart, "▁─");
    assert_eq!(shown[1].battery_chart, "▁─");
    assert!(shown.iter().all(|d| d.node_id == "!a"));
    assert!(Database::get_node_telemetry_history(&vec![]).is_empty());
    assert_eq!(shown[0].voltage, Some(Real32 { bits: 1 }));
    assert_eq!((shown[1].timestamp, shown[1].uptime_seconds), (2, Some(20)));
}

#[test]
fn charts_have_eight_heights() {
    let levels = [
        None,
        Some(-5),
        Some(12),
        Some(13),
        Some(25),
        Some(26),
        Some(37),
        Some(38),
        Some(50),
        Some(51),
        Some(62),
        Some(63),
        Some(75),
        Some(76),
        Some(87),
        Some(88),
        Some(100),
        Some(101),
        Some(i32::MAX),
    ];
    assert_eq!(
        TelemetryDisplay::battery_levels_to_time_chart(&levels),
        "─▁▁▂▂▃▃▄▄▅▅▆▆▇▇██🔌🔌"
    );
    assert_eq!(TelemetryDisplay::battery_levels_to_time_chart(&[]), "────────────────────");
    assert_eq!(TelemetryDisplay::battery_level_to_chart(Some(60)), "▅");
}

#[test]
fn databases_are_opened_step_by_step() {
    assert_eq!(Database::file_of_url("sqlite:data/mesh.db"), Some("data/mesh.db".to_string()));
    assert_eq!(Database::file_of_url("postgres://x"), None);
    assert_eq!(Database::first_step("postgres://x", true), OpenStep::Connect);
    assert_eq!(Database::first_step("sqlite:mesh.db", false), OpenStep::FindWorkingDirectory);

    let mut step = Database::first_step("sqlite:data/mesh.db", true);
    let mut seen = vec![step];
    while step != OpenStep::Ready {
        step = Database::next_step(step, Ok(()), "data").unwrap();
        seen.push(step);
    }
    assert_eq!(
        seen,
        vec![
            OpenStep::CreateDirectory,
            OpenStep::FindWorkingDirectory,
            OpenStep::WriteProbe,
            OpenStep::RemoveProbe,
            OpenStep::Connect,
            OpenStep::InitializeSchema,
            OpenStep::Ready,
        ]
    );
}

#[test]
fn opening_steps_fail_with_their_text() {
    let config = |step: OpenStep| match Database::next_step(step, Err("denied".to_string()), "data") {
        Err(MeshWatchyError::Config(text)) => text,
        _ => panic!("no configuration error"),
    };
    assert_eq!(
        config(OpenStep::CreateDirectory),
        "Failed to create database directory 'data': denied"
    );
    assert_eq!(
        config(OpenStep::FindWorkingDirectory),
        "Failed to get current directory: denied"
    );
    assert_eq!(
        config(OpenStep::WriteProbe),
        "Cannot write to database directory 'data': denied. Check permissions or use a different database path."
    );
    for step in [OpenStep::Connect, OpenStep::InitializeSchema] {
        match Database::next_step(step, Err("gone".to_string()), "") {
            Err(MeshWatchyError::Database(cause)) => assert_eq!(cause, "gone"),
            _ => panic!("no database error"),
        }
    }
    assert_eq!(
        Database::next_step(OpenStep::RemoveProbe, Err("gone".to_string()), "").unwrap(),
        OpenStep::Connect
    );
}

#[test]
fn node_ids_have_eight_digits() {
    assert_eq!(node_id_text(0), "!00000000");
    assert_eq!(node_id_text(0xf9943e58), "!f9943e58");
    assert_eq!(node_id_text(0x1_0000_0001), "!00000001");
    assert_eq!(node_id_text(i64::MIN), "!00000000");
}

#[test]
fn errors_describe_themselves() {
    let text = "x".to_string();
    assert_eq!(MeshWatchyError::Database(text.clone()).to_string(), "Database error: x");
    assert_eq!(MeshWatchyError::Mqtt(text.clone()).to_string(), "MQTT error: x");
    assert_eq!(MeshWatchyError::Json(text.clone()).to_string(), "JSON parsing error: x");
    assert_eq!(MeshWatchyError::Config(text.clone()).to_string(), "Configuration error: x");
    assert_eq!(MeshWatchyError::Webhook(text).to_string(), "Webhook error: x");
}
