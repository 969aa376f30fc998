use mesh_watchy::models::{MeshWatchyError, NodeInfoPayload, TextMessagePayload};
use mesh_watchy::replay::ReplayTally;
use mesh_watchy::replay_messages::{TextMessageRecord, TextMessagesReplayProcessor, TextReplay};
use mesh_watchy::replay_nodeinfo::{NodeInfoMessage, NodeInfoReplayProcessor};

fn record(payload: &str, message_type: &str) -> TextMessageRecord {
    TextMessageRecord {
        id: 11,
        timestamp: 12,
        sender_id: "!f9943e58".to_string(),
        from_node: 13,
        payload: payload.to_string(),
        message_type: message_type.to_string(),
    }
}

fn hello() -> Result<TextMessagePayload, MeshWatchyError> {
    Ok(TextMessagePayload { text: "Hello".to_string() })
}

#[test]
fn texts_are_kept_once() {
    let unknown = record("{\"text\":\"Hello\"}", "UNKNOWN");
    match TextMessagesReplayProcessor::process_text_message(&unknown, 0, hello()) {
        Ok(TextReplay::Store { mark_as_text, row }) => {
            assert!(mark_as_text);
            assert_eq!((row.message_id, row.text.as_str()), (11, "Hello"));
        }
        _ => panic!("nothing to store"),
    }
    let known = record("{\"text\":\"Hello\"}", "TEXT");
    let replay = TextMessagesReplayProcessor::process_text_message(&known, 0, hello()).unwrap();
    assert!(matches!(replay, TextReplay::Store { mark_as_text: false, .. }));
    assert!(TextMessagesReplayProcessor::was_inserted(&replay));

    let replay = TextMessagesReplayProcessor::process_text_message(&known, 1, hello()).unwrap();
    assert!(matches!(replay, TextReplay::Skip));
    assert!(!TextMessagesReplayProcessor::was_inserted(&replay));
    let broken = Err(MeshWatchyError::Json("bad".to_string()));
    assert!(TextMessagesReplayProcessor::process_text_message(&known, 1, broken).is_ok());
    let broken = Err(MeshWatchyError::Json("bad".to_string()));
    match TextMessagesReplayProcessor::process_text_message(&known, 0, broken) {
        Err(MeshWatchyError::Json(cause)) => assert_eq!(cause, "bad"),
        _ => panic!("no JSON error"),
    }
}

#[test]
fn payloads_are_read_as_json() {
    let read = TextMessagesReplayProcessor::read_payload(&record("{\"text\": 1}", "TEXT")).unwrap();
    assert_eq!(read.get("text"), Some(&serde_json::Value::from(1)));
    assert!(matches!(
        TextMessagesReplayProcessor::read_payload(&record("{", "TEXT")),
        Err(MeshWatchyError::Json(_))
    ));
    let message = NodeInfoMessage {
        id: 1,
        timestamp: 2,
        sender_id: "s".to_string(),
        payload: "[1]".to_string(),
    };
    assert!(NodeInfoReplayProcessor::read_payload(&message).unwrap().is_array());
    let message = NodeInfoMessage { payload: "]".to_string(), ..message };
    assert!(matches!(
        NodeInfoReplayProcessor::read_payload(&message),
        Err(MeshWatchyError::Json(_))
    ));
}

fn info() -> Result<NodeInfoPayload, MeshWatchyError> {
    Ok(NodeInfoPayload {
        hardware: 47,
        id: "!a1b2c3d4".to_string(),
        longname: "Test Node Alpha".to_string(),
        role: 1,
        shortname: "TNA".to_string(),
    })
}

#[test]
fn node_information_is_updated_by_news() {
    assert!(NodeInfoReplayProcessor::should_update_node_info(None, -5));
    assert!(NodeInfoReplayProcessor::should_update_node_info(Some(4), 5));
    assert!(!NodeInfoReplayProcessor::should_update_node_info(Some(5), 5));
    assert!(!NodeInfoReplayProcessor::should_update_node_info(Some(6), 5));

    let message = |timestamp: i64| NodeInfoMessage {
        id: 1,
        timestamp,
        sender_id: "s".to_string(),
        payload: String::new(),
    };
    let mut seen = None;
    let mut stored = 0;
    for timestamp in [10, 30, 20, 30, 10, 30, 20, 30] {
        let row =
            NodeInfoReplayProcessor::process_node_info_message(&message(timestamp), info(), seen)
                .unwrap();
        if let Some(row) = row {
            assert_eq!(row.node_id, "!a1b2c3d4");
            assert_eq!(row.hardware_type, 47);
            seen = Some(row.last_seen);
            stored += 1;
        }
    }
    assert_eq!(seen, Some(30));
    assert_eq!(stored, 2);
    let broken = Err(MeshWatchyError::Json("bad".to_string()));
    assert!(NodeInfoReplayProcessor::process_node_info_message(&message(1), broken, None).is_err());
}

#[test]
fn outcomes_are_tallied() {
    let mut tally = ReplayTally::new();
    let mut reports = 0;
    for i in 0..250 {
        let result = if i % 5 == 4 {
            Err(MeshWatchyError::Json("bad".to_string()))
        } else {
            Ok(i % 5 == 0)
        };
        if tally.count(&result) {
            reports += 1;
        }
    }
    assert_eq!(tally, ReplayTally { processed: 200, changed: 50, errors: 50 });
    assert_eq!(reports, 2);
}
