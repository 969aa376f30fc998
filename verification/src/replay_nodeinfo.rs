//! Going through stored messages again to find the latest information of each node.

use vstd::prelude::*;
use crate::database::Database;
use crate::json::parse_json;
use crate::models::{MeshWatchyError, NodeInfo, NodeInfoPayload};
#[allow(unused_imports)]
use crate::database::node_info;
#[allow(unused_imports)]
use crate::json::json_value;

verus! {

/// A stored message with the information of a node.
#[derive(Debug)]
pub struct NodeInfoMessage {
    pub id: i64,
    pub timestamp: i64,
    pub sender_id: String,
    pub payload: String,
}

/// Whether a time is no later than when a node was last seen.
pub open spec fn no_later(timestamp: i64, existing: Option<i64>) -> bool {
    match existing {
        Some(seen) => timestamp <= seen,
        None => false,
    }
}

/// When a node was last seen, once a message from `timestamp` was gone through: `existing` is when
/// it was last seen before, where it was.
pub open spec fn seen_after(existing: Option<i64>, timestamp: i64) -> Option<i64> {
    match existing {
        Some(seen) => if timestamp > seen {
            Some(timestamp)
        } else {
            existing
        },
        None => Some(timestamp),
    }
}

/// When a node was last seen, once messages from these times were gone through in order.
pub open spec fn seen_after_all(existing: Option<i64>, timestamps: Seq<i64>) -> Option<i64>
    decreases timestamps.len(),
{
    if timestamps.len() == 0 {
        existing
    } else {
        seen_after(seen_after_all(existing, timestamps.drop_last()), timestamps.last())
    }
}

/// The rules for going through stored node information again.
pub struct NodeInfoReplayProcessor {}

impl NodeInfoReplayProcessor {
    /// The payload of a stored message as JSON.
    pub fn read_payload(message: &NodeInfoMessage) -> (r: Result<
        serde_json::Value,
        MeshWatchyError,
    >)
        ensures
            match json_value(message.payload@) {
                Ok(value) => r matches Ok(read) && read == value,
                Err(reason) => r matches Err(MeshWatchyError::Json(cause)) && cause@ == reason,
            },
    {
        match parse_json(message.payload.as_str()) {
            Ok(value) => Ok(value),
            Err(reason) => Err(MeshWatchyError::Json(reason)),
        }
    }

    /// Whether a message from `timestamp` is news of a node that was last seen at `existing`, where
    /// it was seen at all.
    pub fn should_update_node_info(existing: Option<i64>, timestamp: i64) -> (r: bool)
        ensures
            r == !no_later(timestamp, existing),
            seen_after(existing, timestamp) == (if r {
                Some(timestamp)
            } else {
                existing
            }),
    {
        match existing {
            Some(seen) => timestamp > seen,
            None => true,
        }
    }

    /// What to store of a stored message, where it is news: `decoded` is its payload or the error of
    /// reading it, `existing` is when the node that it names was last seen, where it was.
    pub fn process_node_info_message(
        message: &NodeInfoMessage,
        decoded: Result<NodeInfoPayload, MeshWatchyError>,
        existing: Option<i64>,
    ) -> (r: Result<Option<NodeInfo>, MeshWatchyError>)
        ensures
            match decoded {
                Ok(info) => match r {
                    Ok(Some(row)) => {
                        &&& !no_later(message.timestamp, existing)
                        &&& row == node_info(info, message.timestamp)
                        &&& seen_after(existing, message.timestamp) == Some(row.last_seen)
                    },
                    Ok(None) => {
                        &&& no_later(message.timestamp, existing)
                        &&& seen_after(existing, message.timestamp) == existing
                    },
                    Err(_) => false,
                },
                Err(error) => r matches Err(given) && given == error,
            },
    {
        match decoded {
            Ok(info) => if Self::should_update_node_info(existing, message.timestamp) {
                Ok(Some(Database::insert_node_info(info, message.timestamp)))
            } else {
                Ok(None)
            },
            Err(error) => Err(error),
        }
    }
}

/// Going through messages in any order leaves a node last seen at the latest of their times, or
/// where it was before if that is later.
pub proof fn law_last_seen_is_latest(existing: Option<i64>, timestamps: Seq<i64>)
    ensures
        existing matches Some(seen) ==> no_later(seen, seen_after_all(existing, timestamps)),
        forall|i: int|
            0 <= i < timestamps.len() ==> no_later(
                #[trigger] timestamps[i],
                seen_after_all(existing, timestamps),
            ),
        seen_after_all(existing, timestamps) == existing || timestamps.contains(
            seen_after_all(existing, timestamps)->0,
        ),
    decreases timestamps.len(),
{
    if timestamps.len() > 0 {
        let shorter = timestamps.drop_last();
        law_last_seen_is_latest(existing, shorter);
        assert forall|i: int| 0 <= i < timestamps.len() implies no_later(
            #[trigger] timestamps[i],
            seen_after_all(existing, timestamps),
        ) by {
            if i < shorter.len() {
                assert(timestamps[i] == shorter[i]);
            }
        }
        if shorter.contains(seen_after_all(existing, shorter)->0) {
            let i = choose|i: int|
                0 <= i < shorter.len() && shorter[i] == seen_after_all(existing, shorter)->0;
            assert(timestamps[i] == shorter[i]);
        }
        assert(timestamps[timestamps.len() - 1] == timestamps.last());
    }
}

/// Going through the same messages a second time changes nothing.
pub proof fn law_replay_settles(existing: Option<i64>, timestamps: Seq<i64>)
    ensures
        seen_after_all(seen_after_all(existing, timestamps), timestamps) == seen_after_all(
            existing,
            timestamps,
        ),
{
    law_last_seen_is_latest(existing, timestamps);
    lemma_nothing_newer(seen_after_all(existing, timestamps), timestamps);
}

proof fn lemma_nothing_newer(existing: Option<i64>, timestamps: Seq<i64>)
    requires
        forall|i: int| 0 <= i < timestamps.len() ==> no_later(#[trigger] timestamps[i], existing),
    ensures
        seen_after_all(existing, timestamps) == existing,
    decreases timestamps.len(),
{
    if timestamps.len() > 0 {
        let shorter = timestamps.drop_last();
        assert forall|i: int| 0 <= i < shorter.len() implies no_later(
            #[trigger] shorter[i],
            existing,
        ) by {
            assert(timestamps[i] == shorter[i]);
        }
        lemma_nothing_newer(existing, shorter);
        assert(timestamps[timestamps.len() - 1] == timestamps.last());
    }
}

/// A message is news of a node that was never seen, or was last seen before the time of the message;
/// the node is then last seen at the later of the two.
pub proof fn law_later_is_news(seen: i64, timestamp: i64)
    ensures
        !no_later(timestamp, None),
        seen_after(None, timestamp) == Some(timestamp),
        seen < timestamp <==> !no_later(timestamp, Some(seen)),
        seen < timestamp ==> seen_after(Some(seen), timestamp) == Some(timestamp),
        seen >= timestamp ==> seen_after(Some(seen), timestamp) == Some(seen),
{
}

} // verus!
