//! Going through stored messages again to find texts that were not kept.

use vstd::prelude::*;
use crate::database::{Database, TextData};
use crate::json::parse_json;
use crate::models::{MeshWatchyError, TextMessagePayload};
use crate::text::text_eq;
#[allow(unused_imports)]
use crate::json::json_value;
#[allow(unused_imports)]
use crate::models::MessageType;

verus! {

/// A stored message that may hold a text.
#[derive(Debug)]
pub struct TextMessageRecord {
    pub id: i64,
    pub timestamp: i64,
    pub sender_id: String,
    pub from_node: i64,
    pub payload: String,
    pub message_type: String,
}

/// What to do about a stored message.
#[derive(Debug)]
pub enum TextReplay {
    /// The text is kept already.
    Skip,
    /// Keep the text; and first set the type of the message to text, where that is said.
    Store { mark_as_text: bool, row: TextData },
}

/// The rules for going through stored text messages again.
pub struct TextMessagesReplayProcessor {}

impl TextMessagesReplayProcessor {
    /// The payload of a stored message as JSON.
    pub fn read_payload(record: &TextMessageRecord) -> (r: Result<
        serde_json::Value,
        MeshWatchyError,
    >)
        ensures
            match json_value(record.payload@) {
                Ok(value) => r matches Ok(read) && read == value,
                Err(reason) => r matches Err(MeshWatchyError::Json(cause)) && cause@ == reason,
            },
    {
        match parse_json(record.payload.as_str()) {
            Ok(value) => Ok(value),
            Err(reason) => Err(MeshWatchyError::Json(reason)),
        }
    }

    /// What to do about a stored message: `count` is how many texts are kept for it, `decoded` is
    /// its payload as a text or the error of reading it.
    pub fn process_text_message(
        record: &TextMessageRecord,
        count: i64,
        decoded: Result<TextMessagePayload, MeshWatchyError>,
    ) -> (r: Result<TextReplay, MeshWatchyError>)
        ensures
            if count > 0 {
                r matches Ok(TextReplay::Skip)
            } else {
                match decoded {
                    Ok(payload) => r matches Ok(TextReplay::Store { mark_as_text, row })
                        && mark_as_text == (record.message_type@ == MessageType::Unknown.name())
                        && row == (TextData { message_id: record.id, text: payload.text }),
                    Err(error) => r matches Err(given) && given == error,
                }
            },
    {
        if Self::text_message_exists(count) {
            return Ok(TextReplay::Skip);
        }
        match decoded {
            Ok(payload) => {
                let mark_as_text = text_eq(record.message_type.as_str(), "UNKNOWN");
                Ok(
                    TextReplay::Store {
                        mark_as_text,
                        row: Database::insert_text_message(record.id, payload),
                    },
                )
            },
            Err(error) => Err(error),
        }
    }

    /// Whether a text is kept for a message, by how many are.
    pub fn text_message_exists(count: i64) -> (r: bool)
        ensures
            r == (count > 0),
    {
        count > 0
    }

    /// Whether something was kept.
    pub fn was_inserted(replay: &TextReplay) -> (r: bool)
        ensures
            r == (*replay is Store),
    {
        match replay {
            TextReplay::Skip => false,
            TextReplay::Store { .. } => true,
        }
    }
}

} // verus!
