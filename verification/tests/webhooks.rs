use mesh_watchy::models::{MeshWatchyError, MessageType, RawMqttMessage, Real32, WebhookConfig};
use mesh_watchy::mqtt::MqttClient;
use mesh_watchy::time::UtcTime;
use mesh_watchy::webhooks::{SendOutcome, TestOutcome, WebhookManager};
use serde_json::Value;
use std::time::Duration;

fn json(text: &str) -> Value {
    serde_json::from_str(text).unwrap()
}

fn webhook(name: &str, types: Vec<MessageType>, devices: Vec<&str>) -> WebhookConfig {
    WebhookConfig {
        name: name.to_string(),
        url: "https://webhook.site/test".to_string(),
        enabled: true,
        message_types: types,
        headers: None,
        devices: devices.into_iter().map(|d| d.to_string()).collect(),
    }
}

fn message(from: i64, message_type: MessageType) -> RawMqttMessage {
    RawMqttMessage {
        id: 1,
        timestamp: 1642156800,
        message_type,
        sender: "!2e268b50".to_string(),
        from,
        to: 0,
        channel: 0,
        rssi: Some(-50),
        snr: Some(Real32 { bits: 10.5f32.to_bits() }),
        hop_start: Some(3),
        hops_away: Some(0),
        payload: json(r#"{"latitude_i": 42404135}"#),
    }
}

fn names(manager: &WebhookManager) -> Vec<String> {
    manager.get_webhooks().into_iter().map(|w| w.name).collect()
}

#[test]
fn test_webhook_manager_creation() {
    let manager = WebhookManager::new();
    let webhooks = manager.get_webhooks();
    assert!(webhooks.is_empty());

    let stats = manager.get_stats();
    assert_eq!(stats.total_sent, 0);
    assert_eq!(stats.total_failed, 0);
}

#[test]
fn test_webhook_management() {
    let mut manager = WebhookManager::new();

    let webhook = WebhookConfig {
        name: "Test Webhook".to_string(),
        url: "https://webhook.site/test".to_string(),
        enabled: true,
        message_types: vec![MessageType::Position],
        headers: None,
        devices: vec![],
    };

    manager.add_webhook(webhook.clone());

    let webhooks = manager.get_webhooks();
    assert_eq!(webhooks.len(), 1);
    assert_eq!(webhooks[0].name, "Test Webhook");

    assert!(manager.set_webhook_enabled("Test Webhook", false));
    assert!(!manager.remove_webhook("Non-existent"));
    assert!(manager.remove_webhook("Test Webhook"));

    let webhooks = manager.get_webhooks();
    assert!(webhooks.is_empty());
}

#[test]
fn test_device_filtering() {
    let mut manager = WebhookManager::new();
    let webhook = WebhookConfig {
        name: "Device Filtered Webhook".to_string(),
        url: "https://webhook.site/test".to_string(),
        enabled: true,
        message_types: vec![MessageType::Position],
        headers: None,
        devices: vec!["2e268b50".to_string()],
    };
    manager.add_webhook(webhook);

    let message_from_device = RawMqttMessage {
        id: 1,
        timestamp: 1642156800,
        message_type: MessageType::Position,
        sender: "!2e268b50".to_string(),
        from: 0x2e268b50,
        to: 0,
        channel: 0,
        rssi: Some(-50),
        snr: Some(Real32 { bits: 10.5f32.to_bits() }),
        hop_start: Some(3),
        hops_away: Some(0),
        payload: json(r#"{"latitude_i": 42404135}"#),
    };
    let message_from_other = RawMqttMessage {
        id: 2,
        timestamp: 1642156800,
        message_type: MessageType::Position,
        sender: "!12345678".to_string(),
        from: 0x12345678,
        to: 0,
        channel: 0,
        rssi: Some(-50),
        snr: Some(Real32 { bits: 10.5f32.to_bits() }),
        hop_start: Some(3),
        hops_away: Some(0),
        payload: json(r#"{"latitude_i": 42404135}"#),
    };

    let result1 = manager.process_message(&message_from_device);
    let result2 = manager.process_message(&message_from_other);

    assert!(result1.is_some());
    assert!(result2.is_none());
    assert_eq!(result1.unwrap().webhooks[0].name, "Device Filtered Webhook");
}

#[test]
fn events_tell_of_their_message() {
    let mut manager = WebhookManager::default();
    manager.add_webhook(webhook("all", vec![], vec![]));
    let sent = message(0x2e268b50, MessageType::Position);
    let dispatch = manager.process_message(&sent).unwrap();
    assert_eq!(dispatch.event.node_id, "!2e268b50");
    assert_eq!(dispatch.event.message_type, MessageType::Position);
    assert_eq!(dispatch.event.data, json(r#"{"latitude_i": 42404135}"#));
    assert_eq!((dispatch.event.event_id >> 76) & 0xf, 4);
    assert_eq!((dispatch.event.event_id >> 62) & 0x3, 2);
    assert!(dispatch.event.timestamp.secs > 1_600_000_000);
    assert_eq!(MqttClient::node_id_to_numeric(&dispatch.event.node_id), 0x2e268b50);

    let again = manager.process_message(&sent).unwrap();
    assert_ne!(again.event.event_id, dispatch.event.event_id);

    let negative = WebhookManager::event_at(
        &message(-1, MessageType::Text),
        5,
        UtcTime { secs: 9, nanos: 0 },
    );
    assert_eq!(negative.node_id, "!ffffffffffffffff");
    assert_eq!(negative.event_id, 5);
    assert_eq!(negative.timestamp, UtcTime { secs: 9, nanos: 0 });
}

#[test]
fn filters_select_webhooks_in_order() {
    let mut manager = WebhookManager::new();
    manager.add_webhook(webhook("all", vec![], vec![]));
    manager.add_webhook(webhook("texts", vec![MessageType::Text], vec![]));
    manager.add_webhook(webhook("device", vec![], vec!["00000010"]));
    let mut off = webhook("off", vec![], vec![]);
    off.enabled = false;
    manager.add_webhook(off);

    let picked = |m: &RawMqttMessage| -> Vec<String> {
        manager.matching_webhooks(m).into_iter().map(|w| w.name).collect()
    };
    assert_eq!(picked(&message(16, MessageType::Text)), vec!["all", "texts", "device"]);
    assert_eq!(picked(&message(17, MessageType::Text)), vec!["all", "texts"]);
    assert_eq!(picked(&message(16, MessageType::Position)), vec!["all", "device"]);
}

#[test]
fn loading_replaces_and_counts_the_enabled() {
    let mut manager = WebhookManager::new();
    manager.add_webhook(webhook("old", vec![], vec![]));
    let mut off = webhook("b", vec![], vec![]);
    off.enabled = false;
    assert_eq!(manager.load_webhooks(vec![webhook("a", vec![], vec![]), off]), 1);
    assert_eq!(names(&manager), vec!["a", "b"]);
}

#[test]
fn updates_touch_the_first_of_a_name() {
    let mut manager = WebhookManager::new();
    for name in ["a", "b", "a"] {
        manager.add_webhook(webhook(name, vec![], vec![]));
    }
    assert!(manager.update_webhook("a", webhook("c", vec![], vec![])));
    assert_eq!(names(&manager), vec!["c", "b", "a"]);
    assert!(!manager.update_webhook("missing", webhook("d", vec![], vec![])));
    assert_eq!(names(&manager), vec!["c", "b", "a"]);

    manager.add_webhook(webhook("a", vec![], vec![]));
    assert!(manager.set_webhook_enabled("a", false));
    let enabled: Vec<bool> = manager.get_webhooks().iter().map(|w| w.enabled).collect();
    assert_eq!(enabled, vec![true, true, false, true]);
    assert!(!manager.set_webhook_enabled("missing", false));

    assert!(manager.remove_webhook("a"));
    assert_eq!(names(&manager), vec!["c", "b"]);
    assert!(!manager.remove_webhook("a"));
}

#[test]
fn answers_are_counted() {
    let mut manager = WebhookManager::new();
    manager.add_webhook(webhook("a", vec![], vec![]));
    manager.add_webhook(webhook("b", vec![], vec![]));
    let now = UtcTime { secs: 100, nanos: 7 };

    assert!(manager.send_webhook_at("b", SendOutcome::Answered(500), now).is_ok());
    assert!(manager.get_stats().last_sent.is_none());
    manager.reset_stats();
    assert!(manager.can_count(&SendOutcome::Answered(200)));
    assert!(manager.can_count(&SendOutcome::Failed(String::new())));
    assert!(manager.send_webhook_at("a", SendOutcome::Answered(200), now).is_ok());
    assert!(manager.send_webhook_at("a", SendOutcome::Answered(299), now).is_ok());
    assert!(manager.send_webhook_at("b", SendOutcome::Answered(300), now).is_ok());
    assert!(manager.send_webhook_at("b", SendOutcome::Answered(199), now).is_ok());
    match manager.send_webhook("a", SendOutcome::Failed("refused".to_string())) {
        Err(MeshWatchyError::Webhook(cause)) => assert_eq!(cause, "refused"),
        _ => panic!("no webhook error"),
    }

    let stats = manager.get_stats();
    assert_eq!(stats.total_sent, 2);
    assert_eq!(stats.total_failed, 3);
    assert_eq!(stats.sent_by_webhook.get("a"), Some(&2));
    assert_eq!(stats.sent_by_webhook.get("b"), None);
    assert_eq!(stats.failed_by_webhook.get("a"), Some(&1));
    assert_eq!(stats.failed_by_webhook.get("b"), Some(&2));
    assert_eq!(stats.last_sent, Some(now));

    let status = manager.get_webhook_status();
    assert_eq!(status.len(), 2);
    assert_eq!(status[0].name, "a");
    assert_eq!(status[0].url, "https://webhook.site/test");
    assert!(status[0].enabled);
    assert_eq!((status[0].total_sent, status[0].total_failed), (2, 1));
    assert_eq!((status[1].total_sent, status[1].total_failed), (0, 2));
    assert_eq!(status[1].last_sent, Some(now));

    assert!(manager.send_webhook("b", SendOutcome::Answered(204)).is_ok());
    assert!(manager.get_stats().last_sent.unwrap().secs > 1_600_000_000);

    manager.reset_stats();
    let stats = manager.get_stats();
    assert_eq!((stats.total_sent, stats.total_failed), (0, 0));
    assert_eq!(stats.sent_by_webhook.get("a"), None);
    assert!(stats.last_sent.is_none());
    assert_eq!(names(&manager), vec!["a", "b"]);
}

#[test]
fn tests_send_a_sample_position() {
    let event = WebhookManager::test_event();
    assert_eq!(event.node_id, "!test1234");
    assert_eq!(event.message_type, MessageType::Position);
    assert_eq!(
        event.data,
        json(
            r#"{"latitude_i": 424041350, "longitude_i": -711257033, "altitude": 26,
                "PDOP": 156, "sats_in_view": 7}"#
        )
    );
    assert_eq!(MqttClient::infer_message_type(&event.data), MessageType::Position);
    assert_eq!((event.event_id >> 76) & 0xf, 4);
}

#[test]
fn test_answers_are_clipped() {
    let time = Duration::from_millis(12);
    let answer = |status: u16, body: String| {
        WebhookManager::test_webhook(TestOutcome::Answered { status, body }, time)
    };
    let result = answer(200, "x".repeat(500));
    assert!(result.success);
    assert_eq!(result.status_code, 200);
    assert_eq!(result.response_time, time);
    assert_eq!(result.response_body, "x".repeat(500));

    let result = answer(404, "x".repeat(501));
    assert!(!result.success);
    assert_eq!(result.status_code, 404);
    assert_eq!(result.response_body, "x".repeat(500) + "...");

    let result = answer(200, "ü".repeat(300));
    assert_eq!(result.response_body, "ü".repeat(250) + "...");

    let result = WebhookManager::test_webhook(TestOutcome::Failed("down".to_string()), time);
    assert!(!result.success);
    assert_eq!(result.status_code, 0);
    assert_eq!(result.response_body, "Connection error: down");
}
