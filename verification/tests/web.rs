use mesh_watchy::models::{
    MeshWatchyError, MessageType, NetworkOverview, RawMqttMessage, WebhookConfig,
};
use mesh_watchy::web::{
    api_add_webhook, api_delete_webhook, api_positions, api_toggle_webhook, api_update_webhook,
    asset_answer, asset_place, bind_failed, bind_target, change_status, entry_limit,
    handle_websocket, initial_message, new_message, next_page_action, node_filter, serve_failed,
    template_name, webhook_totals, Page, PageAction, PageStep, PositionQuery, WebhookChange,
    WsAction, WsEvent, WsMessage,
};
use mesh_watchy::webhooks::{WebhookManager, WebhookStatus};

fn webhook(name: &str) -> WebhookConfig {
    WebhookConfig {
        name: name.to_string(),
        url: "https://webhook.site/test".to_string(),
        enabled: true,
        message_types: vec![],
        headers: None,
        devices: vec![],
    }
}

#[test]
fn limits_are_capped() {
    assert_eq!(entry_limit(None), 50);
    assert_eq!(entry_limit(Some(7)), 7);
    assert_eq!(entry_limit(Some(1000)), 1000);
    assert_eq!(entry_limit(Some(1001)), 1000);
    assert_eq!(entry_limit(Some(-1)), -1);
}

#[test]
fn node_lists_are_read() {
    let read = |text: &str| node_filter(&Some(text.to_string()));
    assert_eq!(node_filter(&None), None);
    assert_eq!(read(""), None);
    assert_eq!(read(" \t\u{a0}"), None);
    assert_eq!(read("1, 2 ,+3,-4"), Some(vec![1, 2, 3, -4]));
    assert_eq!(read("x,5,,9223372036854775808, 0x6"), Some(vec![5]));
    assert_eq!(read(","), Some(vec![]));
    assert_eq!(read("9223372036854775807,-9223372036854775808"), Some(vec![i64::MAX, i64::MIN]));
}

#[test]
fn position_requests_make_queries() {
    let query = PositionQuery { limit: Some(5000), nodes: Some("7,8".to_string()) };
    let made = api_positions(&query);
    assert_eq!(made.binds, vec![7, 8, 1000]);
    assert!(made.sql.contains("IN (?,?)"));
    let made = api_positions(&PositionQuery { limit: None, nodes: None });
    assert_eq!(made.binds, vec![50]);
    assert!(!made.sql.contains("IN ("));
}

fn status(enabled: bool, total_sent: u64, total_failed: u64) -> WebhookStatus {
    WebhookStatus {
        name: "w".to_string(),
        enabled,
        url: "u".to_string(),
        message_types: vec![],
        total_sent,
        total_failed,
        last_sent: None,
    }
}

#[test]
fn webhook_page_sums_up() {
    let totals = webhook_totals(&vec![status(true, 3, 1), status(false, 4, 2)]).unwrap();
    assert_eq!((totals.total_webhooks, totals.enabled_webhooks), (2, 1));
    assert_eq!((totals.total_sent, totals.total_failed), (7, 3));
    assert!(webhook_totals(&vec![status(true, u64::MAX, 0), status(true, 1, 0)]).is_none());
    assert!(webhook_totals(&vec![status(true, 0, u64::MAX), status(true, 0, 1)]).is_none());
}

#[test]
fn webhooks_are_changed_over_the_api() {
    let mut manager = WebhookManager::new();
    let change = api_add_webhook(&mut manager, webhook("Test Webhook"));
    match &change {
        WebhookChange::Save { webhooks, status } => {
            assert_eq!(webhooks.len(), 1);
            assert_eq!(webhooks[0].name, "Test Webhook");
            assert_eq!(*status, 201);
        }
        WebhookChange::NotFound => panic!("nothing to save"),
    }
    assert_eq!(change_status(&change, true), 201);
    assert_eq!(change_status(&change, false), 500);

    let change = api_update_webhook(&mut manager, "Test Webhook", webhook("New"));
    assert_eq!(change_status(&change, true), 200);
    assert_eq!(manager.get_webhooks()[0].name, "New");
    let change = api_update_webhook(&mut manager, "Test Webhook", webhook("New"));
    assert_eq!(change_status(&change, true), 404);
    assert_eq!(change_status(&change, false), 404);

    let change = api_toggle_webhook(&mut manager, "New");
    assert_eq!(change_status(&change, true), 200);
    assert!(!manager.get_webhooks()[0].enabled);
    let change = api_toggle_webhook(&mut manager, "New");
    assert_eq!(change_status(&change, true), 200);
    assert!(manager.get_webhooks()[0].enabled);
    let change = api_toggle_webhook(&mut manager, "missing");
    assert_eq!(change_status(&change, true), 404);

    let change = api_delete_webhook(&mut manager, "New");
    assert_eq!(change_status(&change, true), 200);
    assert!(manager.get_webhooks().is_empty());
    let change = api_delete_webhook(&mut manager, "New");
    assert_eq!(change_status(&change, true), 404);
}

#[test]
fn pages_are_made_step_by_step() {
    let steps = |page: Page| {
        let mut steps = vec![];
        loop {
            match next_page_action(page, steps.len(), true) {
                PageAction::Perform(step) => steps.push(step),
                PageAction::Answer(status) => {
                    assert_eq!(status, 200);
                    return steps;
                }
            }
        }
    };
    assert_eq!(
        steps(Page::Dashboard),
        vec![
            PageStep::Overview,
            PageStep::Nodes,
            PageStep::Positions(10),
            PageStep::Messages(20),
            PageStep::WebhookStatus,
            PageStep::MessageStats,
            PageStep::Template,
            PageStep::Render,
        ]
    );
    assert_eq!(steps(Page::Nodes), vec![PageStep::Nodes, PageStep::Template, PageStep::Render]);
    assert_eq!(steps(Page::Messages)[0], PageStep::TextMessages(50));
    assert_eq!(steps(Page::NodeMap)[..2], [PageStep::MapPositions(100), PageStep::PositionsJson]);
    assert_eq!(steps(Page::Webhooks)[..2], [PageStep::WebhookStatus, PageStep::WebhookTotals]);
    assert_eq!(next_page_action(Page::Dashboard, 3, false), PageAction::Answer(500));
    assert_eq!(template_name(Page::Dashboard), "dashboard.html");
    assert_eq!(template_name(Page::Nodes), "nodes.html");
    assert_eq!(template_name(Page::Messages), "messages.html");
    assert_eq!(template_name(Page::NodeMap), "map.html");
    assert_eq!(template_name(Page::Webhooks), "webhooks.html");
}

#[test]
fn websocket_events_have_their_actions() {
    assert_eq!(handle_websocket(WsEvent::Broadcast), WsAction::Forward);
    for event in [
        WsEvent::NotWritten,
        WsEvent::Sent,
        WsEvent::BroadcastLagged,
        WsEvent::Text,
        WsEvent::Other,
    ] {
        assert_eq!(handle_websocket(event), WsAction::Continue);
    }
    for event in [
        WsEvent::SendFailed,
        WsEvent::BroadcastClosed,
        WsEvent::Close,
        WsEvent::Failed,
        WsEvent::Ended,
    ] {
        assert_eq!(handle_websocket(event), WsAction::Stop);
    }
}

#[test]
fn websocket_clients_get_messages() {
    let overview =
        NetworkOverview { total_nodes: 1, active_nodes: 0, messages_today: 2, last_message: None };
    match initial_message(Some(overview)) {
        Some(WsMessage::NetworkStats { overview }) => assert_eq!(overview.messages_today, 2),
        _ => panic!("no overview"),
    }
    assert!(initial_message(None).is_none());

    let message = RawMqttMessage {
        id: 5,
        timestamp: 6,
        message_type: MessageType::Unknown,
        sender: "s".to_string(),
        from: 7,
        to: 8,
        channel: 9,
        rssi: None,
        snr: None,
        hop_start: None,
        hops_away: None,
        payload: serde_json::Value::Null,
    };
    match new_message(&message, "t") {
        WsMessage::NewMessage { message } => {
            assert_eq!((message.id, message.timestamp.secs), (5, 6));
            assert_eq!(message.message_type, "UNKNOWN");
            assert_eq!(message.from_node, "7");
        }
        _ => panic!("no message"),
    }
}

#[test]
fn assets_have_a_media_type() {
    assert_eq!(asset_place("//css/app.css"), "css/app.css");
    assert_eq!(asset_place("a/"), "a/");
    assert_eq!(asset_place("/"), "");

    let answer = asset_answer("css/app.css", true);
    assert_eq!(answer.status, 200);
    assert_eq!(
        answer.headers,
        Some(("text/css".to_string(), "public, max-age=31536000".to_string()))
    );
    let answer = asset_answer("unknown.extension", true);
    assert_eq!(answer.headers.unwrap().0, "application/octet-stream");
    let answer = asset_answer("css/app.css", false);
    assert_eq!(answer.status, 404);
    assert!(answer.headers.is_none());
}

#[test]
fn server_errors_name_the_endpoint() {
    assert_eq!(bind_target("127.0.0.1", 3000), "127.0.0.1:3000");
    match bind_failed("::1", 65535, "in use") {
        MeshWatchyError::Config(text) => {
            assert_eq!(text, "Failed to bind to ::1:65535: in use")
        }
        _ => panic!("no configuration error"),
    }
    match serve_failed("closed") {
        MeshWatchyError::Config(text) => assert_eq!(text, "Web server error: closed"),
        _ => panic!("no configuration error"),
    }
}
