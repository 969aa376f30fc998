//! What is stored of messages, and how stored rows are turned into what is shown.

use vstd::prelude::*;
use crate::json::{object_value, parse_json, string_value, to_text};
use crate::models::{
    MeshMessage, MeshWatchyError, MessageType, NetworkOverview, NodeInfo, NodeInfoDisplay,
    NodeInfoPayload, PositionData, PositionPayload, PositionResponse, PositionResponseDisplay,
    RawMqttMessage, Real32, Real64, RecentMessage, TelemetryData, TelemetryDisplay,
    TelemetryPayload, TextMessage, TextMessagePayload,
};
use crate::numbers::{decimal, hex, low32};
use crate::telemetry::{gather, history, TelemetryRow};
use crate::text::{nth_piece, starts_with, strip_prefix};
use crate::textmap::TextMap;
use crate::time::{from_timestamp, time_or_epoch, utc_now, DAY, LAST_SECOND};
#[allow(unused_imports)]
use crate::json::{json_object_value, json_string_value, json_text, json_value};
#[allow(unused_imports)]
use crate::numbers::{decimal_of, hex8};
#[allow(unused_imports)]
use crate::telemetry::{is_history, is_shown, is_summary, latest_first, nodes_differ};
#[allow(unused_imports)]
use crate::text::{begins_with, join_with, piece, split_on};
#[allow(unused_imports)]
use crate::time::{time_of, time_or_epoch_of, UtcTime};

verus! {

/// The identifier of a node by its number: an exclamation mark and the lowest 32 bits in eight
/// hexadecimal digits.
pub open spec fn node_id_of(number: int) -> Seq<char> {
    seq!['!'] + hex8((number % 0x1_0000_0000) as nat)
}

/// The identifier of a node by its number.
pub fn node_id_text(number: i64) -> (r: String)
    ensures
        r@ == node_id_of(number as int),
{
    let mut r = String::new();
    r.push('!');
    r.append(hex(low32(number) as u64).as_str());
    proof {
        assert(r@ =~= node_id_of(number as int));
    }
    r
}

/// The name of a hardware model by its type.
pub open spec fn model_name(hardware_type: int) -> Seq<char> {
    if hardware_type == 3 {
        "T-Echo"@
    } else if hardware_type == 47 {
        "Station G1"@
    } else if hardware_type == 50 {
        "RAK11200"@
    } else if hardware_type == 71 {
        "T-Deck"@
    } else {
        "Hardware #"@ + decimal_of(hardware_type)
    }
}

/// The gateway that a topic names: its second level.
pub open spec fn gateway_of(topic: Seq<char>) -> Option<Seq<char>> {
    piece(topic, '/', 1)
}

/// A text that may be missing, as characters.
pub open spec fn optional_text(text: Option<String>) -> Option<Seq<char>> {
    match text {
        Some(text) => Some(text@),
        None => None,
    }
}

/// A payload that was decoded into the shape of its type.
pub enum DecodedPayload {
    Position(PositionPayload),
    Nodeinfo(NodeInfoPayload),
    Telemetry(TelemetryPayload),
    Text(TextMessagePayload),
    /// The payload has none of these shapes.
    Undecoded,
}

/// A text as it is stored.
#[derive(Debug)]
pub struct TextData {
    pub message_id: i64,
    pub text: String,
}

/// What is stored of a message beside the message itself.
pub enum DetailRow {
    Position(PositionData),
    Nodeinfo(NodeInfo),
    Telemetry(TelemetryData),
    Text(TextData),
}

/// What is stored of a message.
pub struct StoredMessage {
    pub row: MeshMessage,
    pub detail: Option<DetailRow>,
}

/// Whether `row` is the message `m` from a topic as it is stored, where `payload` is the text of its
/// payload.
pub open spec fn is_row(
    row: MeshMessage,
    m: RawMqttMessage,
    topic: Seq<char>,
    payload: Seq<char>,
) -> bool {
    &&& row.id == m.id
    &&& row.timestamp == m.timestamp
    &&& row.message_type@ == m.message_type.name()
    &&& row.sender_id == m.sender
    &&& row.from_node == m.from
    &&& row.channel == m.channel
    &&& row.rssi == m.rssi
    &&& row.snr == m.snr
    &&& row.hop_start == m.hop_start
    &&& row.hops_away == m.hops_away
    &&& row.mqtt_topic@ == topic
    &&& row.payload@ == payload
}

/// Whether `row` is the message `m` from a topic as it is stored.
pub open spec fn is_message_row(row: MeshMessage, m: RawMqttMessage, topic: Seq<char>) -> bool {
    is_row(row, m, topic, json_text(m.payload))
}

/// The stored position of a message.
pub open spec fn position_data(message_id: i64, p: PositionPayload) -> PositionData {
    PositionData {
        message_id,
        latitude_i: p.latitude_i,
        longitude_i: p.longitude_i,
        altitude: p.altitude,
        ground_speed: p.ground_speed,
        ground_track: p.ground_track,
        pdop: p.pdop,
        satellites_visible: p.sats_in_view,
        gps_time: p.time,
    }
}

/// The stored information of a node that was last seen at `timestamp`.
pub open spec fn node_info(p: NodeInfoPayload, timestamp: i64) -> NodeInfo {
    NodeInfo {
        node_id: p.id,
        hardware_type: p.hardware,
        long_name: p.longname,
        short_name: p.shortname,
        role: p.role,
        last_seen: timestamp,
    }
}

/// The stored telemetry of a message.
pub open spec fn telemetry_data(message_id: i64, p: TelemetryPayload) -> TelemetryData {
    TelemetryData {
        message_id,
        battery_level: p.battery_level,
        voltage: p.voltage,
        air_util_tx: p.air_util_tx,
        channel_utilization: p.channel_utilization,
        uptime_seconds: p.uptime_seconds,
    }
}

/// What is stored beside a message: its payload, where that has the shape of the message's type.
pub open spec fn detail_of(m: RawMqttMessage, decoded: DecodedPayload) -> Option<DetailRow> {
    match (m.message_type, decoded) {
        (MessageType::Position, DecodedPayload::Position(p)) => Some(
            DetailRow::Position(position_data(m.id, p)),
        ),
        (MessageType::Nodeinfo, DecodedPayload::Nodeinfo(p)) => Some(
            DetailRow::Nodeinfo(node_info(p, m.timestamp)),
        ),
        (MessageType::Telemetry, DecodedPayload::Telemetry(p)) => Some(
            DetailRow::Telemetry(telemetry_data(m.id, p)),
        ),
        (MessageType::Text, DecodedPayload::Text(p)) => Some(
            DetailRow::Text(TextData { message_id: m.id, text: p.text }),
        ),
        _ => None,
    }
}

/// A stored position with the message that it came in.
#[derive(Clone, Copy, Debug)]
pub struct PositionRow {
    pub from_node: i64,
    pub timestamp: i64,
    pub latitude: Real64,
    pub longitude: Real64,
    pub altitude: Option<i32>,
    pub battery_level: Option<i32>,
    pub rssi: Option<i32>,
    pub snr: Option<Real32>,
}

/// Whether `r` is the stored position `row` as it is shown.
pub open spec fn is_position(r: PositionResponse, row: PositionRow) -> bool {
    &&& r.node_id@ == node_id_of(row.from_node as int)
    &&& r.timestamp == time_or_epoch_of(row.timestamp)
    &&& r.latitude == row.latitude
    &&& r.longitude == row.longitude
    &&& r.altitude == row.altitude
    &&& r.battery_level == row.battery_level
    &&& r.rssi == row.rssi
    &&& r.snr == row.snr
}

/// A stored position with what is known of its node.
#[derive(Debug)]
pub struct PositionInfoRow {
    pub position: PositionRow,
    pub long_name: Option<String>,
    pub short_name: Option<String>,
    pub hardware_type: Option<i32>,
}

/// Whether `r` is the stored position `row` as it is shown on the map.
pub open spec fn is_map_position(r: PositionResponseDisplay, row: PositionInfoRow) -> bool {
    let hardware: i32 = match row.hardware_type {
        Some(hardware) => hardware,
        None => 0,
    };
    &&& r.node_id@ == node_id_of(row.position.from_node as int)
    &&& r.timestamp == time_or_epoch_of(row.position.timestamp)
    &&& r.latitude == row.position.latitude
    &&& r.longitude == row.position.longitude
    &&& r.altitude == row.position.altitude
    &&& r.battery_level == row.position.battery_level
    &&& r.rssi == row.position.rssi
    &&& r.snr == row.position.snr
    &&& r.long_name == row.long_name
    &&& r.short_name == row.short_name
    &&& r.hardware_type == hardware
    &&& optional_text(r.hardware_model) == Some(model_name(hardware as int))
}

/// A stored node with what its messages tell of it.
#[derive(Debug)]
pub struct NodeRow {
    pub info: NodeInfo,
    /// When the node was first stored, in seconds.
    pub created_at: Option<i64>,
    /// How many positions of the node are stored, or one for any.
    pub has_position: i32,
    pub battery_level: Option<i32>,
}

/// A stored name for display: an empty one is none.
pub open spec fn shown_name(name: Seq<char>) -> Option<Seq<char>> {
    if name.len() == 0 {
        None
    } else {
        Some(name)
    }
}

/// Whether `r` is the stored node `row` as it is shown, where a node is active that was seen after
/// `active_after`.
pub open spec fn is_node_display(r: NodeInfoDisplay, row: NodeRow, active_after: int) -> bool {
    &&& r.node_id == row.info.node_id
    &&& r.hardware_type == row.info.hardware_type
    &&& optional_text(r.hardware_model) == Some(model_name(row.info.hardware_type as int))
    &&& optional_text(r.long_name) == shown_name(row.info.long_name@)
    &&& optional_text(r.short_name) == shown_name(row.info.short_name@)
    &&& r.role == row.info.role
    &&& r.last_seen == row.info.last_seen
    &&& r.first_seen == row.created_at
    &&& r.is_active == (row.info.last_seen > active_after)
    &&& r.has_position == (row.has_position > 0)
    &&& r.battery_level == row.battery_level
    &&& r.user_id is None
    &&& r.firmware_version is None
}

/// A stored text message.
#[derive(Debug)]
pub struct TextRow {
    pub message_id: i64,
    pub from_node: String,
    pub text: String,
    pub timestamp: i64,
    pub channel: Option<i32>,
    pub rssi: Option<i32>,
    pub snr: Option<Real32>,
    pub mqtt_topic: String,
}

/// Whether `r` is the stored text message `row` as it is shown.
pub open spec fn is_text_message(r: TextMessage, row: TextRow) -> bool {
    &&& r.message_id == row.message_id
    &&& r.from_node == row.from_node
    &&& r.to_node is None
    &&& r.text == row.text
    &&& r.timestamp == time_or_epoch_of(row.timestamp)
    &&& r.channel == row.channel
    &&& r.rssi == row.rssi
    &&& r.snr == row.snr
    &&& optional_text(r.gateway) == gateway_of(row.mqtt_topic@)
}

/// A stored message, as far as it is shown.
#[derive(Debug)]
pub struct MessageRow {
    pub id: i64,
    pub sender_id: String,
    pub message_type: String,
    pub timestamp: i64,
    pub channel: i32,
    pub mqtt_topic: String,
    pub payload: String,
}

/// Whether `read` is the stored message `row`, as far as it is shown.
pub open spec fn reads_back(read: MessageRow, row: MeshMessage) -> bool {
    &&& read.id == row.id
    &&& read.sender_id == row.sender_id
    &&& read.message_type == row.message_type
    &&& read.timestamp == row.timestamp
    &&& read.channel == row.channel
    &&& read.mqtt_topic == row.mqtt_topic
    &&& read.payload == row.payload
}

/// The JSON shown for a stored payload: what it reads as, or else a note that it is not JSON.
pub open spec fn shown_json(read: Result<serde_json::Value, Seq<char>>) -> serde_json::Value {
    match read {
        Ok(value) => value,
        Err(_) => json_object_value(seq![("error"@, json_string_value("Invalid JSON"@))]),
    }
}

/// Whether `r` is the stored message `row` as it is shown, where its payload reads as `read`.
pub open spec fn is_recent(
    r: RecentMessage,
    row: MessageRow,
    read: Result<serde_json::Value, Seq<char>>,
) -> bool {
    &&& r.id == row.id
    &&& r.from_node == row.sender_id
    &&& r.to_node is None
    &&& r.message_type == row.message_type
    &&& r.timestamp == time_or_epoch_of(row.timestamp)
    &&& r.channel == Some(row.channel)
    &&& optional_text(r.gateway) == gateway_of(row.mqtt_topic@)
    &&& r.raw_json == shown_json(read)
}

/// A query with the values for its placeholders, in order.
#[derive(Debug)]
pub struct BoundQuery {
    pub sql: String,
    pub binds: Vec<i64>,
}

/// The start of the query for positions: what is selected, with the battery level that came in the
/// same message.
pub open spec fn position_select() -> Seq<char> {
    "SELECT mm.from_node as node_id, mm.timestamp, pd.latitude, pd.longitude, pd.altitude, td.battery_level, mm.rssi, mm.snr FROM mesh_messages mm INNER JOIN position_data pd ON mm.id = pd.message_id LEFT JOIN telemetry_data td ON mm.id = td.message_id AND td.message_id = ( SELECT mm2.id FROM mesh_messages mm2 WHERE mm2.from_node = mm.from_node AND mm2.timestamp <= mm.timestamp ORDER BY mm2.timestamp DESC LIMIT 1 )"@
}

/// So many placeholders, with commas between them.
pub open spec fn placeholders(count: nat) -> Seq<char>
    decreases count,
{
    if count == 0 {
        Seq::empty()
    } else if count == 1 {
        seq!['?']
    } else {
        placeholders((count - 1) as nat) + seq![',', '?']
    }
}

/// Which characters stand for values.
pub open spec fn is_mark() -> spec_fn(char) -> bool {
    |ch: char| ch == '?'
}

/// The query for positions of so many nodes; of all, where there are none.
pub open spec fn position_query(count: nat) -> Seq<char> {
    position_select() + (if count == 0 {
        Seq::empty()
    } else {
        " WHERE mm.from_node IN ("@ + placeholders(count) + ")"@
    }) + " ORDER BY mm.timestamp DESC LIMIT ?"@
}

/// A text without marks has none to keep.
proof fn lemma_no_marks(text: Seq<char>)
    requires
        forall|i: int| 0 <= i < text.len() ==> #[trigger] text[i] != '?',
    ensures
        text.filter(is_mark()).len() == 0,
    decreases text.len(),
{
    reveal(Seq::filter);
    if text.len() > 0 {
        assert(text[text.len() - 1] != '?');
        assert forall|i: int| 0 <= i < text.drop_last().len() implies #[trigger] text.drop_last()[i]
            != '?' by {
            assert(text[i] != '?');
        }
        lemma_no_marks(text.drop_last());
    }
}

/// What is selected holds no marks.
proof fn lemma_select_has_no_marks()
    ensures
        position_select().filter(is_mark()).len() == 0,
{
    reveal_strlit(
        "SELECT mm.from_node as node_id, mm.timestamp, pd.latitude, pd.longitude, pd.altitude, td.battery_level, mm.rssi, mm.snr FROM mesh_messages mm INNER JOIN position_data pd ON mm.id = pd.message_id LEFT JOIN telemetry_data td ON mm.id = td.message_id AND td.message_id = ( SELECT mm2.id FROM mesh_messages mm2 WHERE mm2.from_node = mm.from_node AND mm2.timestamp <= mm.timestamp ORDER BY mm2.timestamp DESC LIMIT 1 )",
    );
    lemma_no_marks(position_select());
}

/// Whether a cleanup at the time `now` that keeps so many days removes a message from `timestamp`: it
/// is older than that. One from the very second of the cutoff stays.
pub open spec fn is_removed(timestamp: i64, now: int, days: int) -> bool {
    timestamp < now - days * DAY
}

/// Whether the messages from before `cutoff` are those that the cleanup removes.
pub open spec fn cuts_at(cutoff: i64, now: int, days: int) -> bool {
    forall|timestamp: i64| #[trigger] is_removed(timestamp, now, days) <==> timestamp < cutoff
}

/// Which messages a cleanup removes.
pub open spec fn is_old(now: int, days: int) -> spec_fn(MeshMessage) -> bool {
    |message: MeshMessage| is_removed(message.timestamp, now, days)
}

/// Which messages a cleanup keeps.
pub open spec fn is_kept(now: int, days: int) -> spec_fn(MeshMessage) -> bool {
    |message: MeshMessage| !is_removed(message.timestamp, now, days)
}

/// The messages that a cleanup removes.
pub open spec fn removed_by_cleanup(messages: Seq<MeshMessage>, now: int, days: int) -> Seq<
    MeshMessage,
> {
    messages.filter(is_old(now, days))
}

/// The messages that a cleanup leaves.
pub open spec fn left_by_cleanup(messages: Seq<MeshMessage>, now: int, days: int) -> Seq<
    MeshMessage,
> {
    messages.filter(is_kept(now, days))
}

/// The message that what is stored beside one belongs to; node information belongs to none.
pub open spec fn message_of(detail: DetailRow) -> Option<i64> {
    match detail {
        DetailRow::Position(p) => Some(p.message_id),
        DetailRow::Nodeinfo(_) => None,
        DetailRow::Telemetry(t) => Some(t.message_id),
        DetailRow::Text(t) => Some(t.message_id),
    }
}

/// Whether what is stored beside a message goes with the messages that are removed.
pub open spec fn goes_with(detail: DetailRow, removed: Seq<MeshMessage>) -> bool {
    exists|i: int|
        0 <= i < removed.len() && message_of(detail) == Some((#[trigger] removed[i]).id)
}

/// Whether no two messages have one identifier.
pub open spec fn ids_differ(messages: Seq<MeshMessage>) -> bool {
    forall|i: int, j: int|
        0 <= i < messages.len() && 0 <= j < messages.len() && i != j ==> (
        #[trigger] messages[i]).id != (#[trigger] messages[j]).id
}

/// The steps of opening the database, in the order in which they are done.
#[derive(Clone, Copy, Debug, PartialEq, Eq, Structural)]
pub enum OpenStep {
    /// Create the directory of the database file.
    CreateDirectory,
    /// Find out the working directory.
    FindWorkingDirectory,
    /// Write a file beside the database file, to see whether that is allowed.
    WriteProbe,
    /// Remove that file again.
    RemoveProbe,
    /// Connect to the database.
    Connect,
    /// Create what is missing of its schema.
    InitializeSchema,
    /// The database is open.
    Ready,
}

/// The step behind one that was done.
pub open spec fn step_after(step: OpenStep) -> OpenStep {
    match step {
        OpenStep::CreateDirectory => OpenStep::FindWorkingDirectory,
        OpenStep::FindWorkingDirectory => OpenStep::WriteProbe,
        OpenStep::WriteProbe => OpenStep::RemoveProbe,
        OpenStep::RemoveProbe => OpenStep::Connect,
        OpenStep::Connect => OpenStep::InitializeSchema,
        OpenStep::InitializeSchema => OpenStep::Ready,
        OpenStep::Ready => OpenStep::Ready,
    }
}

/// The text of the error for a step on a directory that failed for some cause; none where the
/// failure does not matter or is the database's own.
pub open spec fn open_failure(step: OpenStep, place: Seq<char>, cause: Seq<char>) -> Option<
    Seq<char>,
> {
    match step {
        OpenStep::CreateDirectory => Some(
            "Failed to create database directory '"@ + place + "': "@ + cause,
        ),
        OpenStep::FindWorkingDirectory => Some("Failed to get current directory: "@ + cause),
        OpenStep::WriteProbe => Some(
            "Cannot write to database directory '"@ + place + "': "@ + cause
                + ". Check permissions or use a different database path."@,
        ),
        _ => None,
    }
}

/// A filter keeps what passes it, all of it and nothing else.
proof fn lemma_filtered_exactly(
    messages: Seq<MeshMessage>,
    pred: spec_fn(MeshMessage) -> bool,
    message: MeshMessage,
)
    ensures
        messages.filter(pred).contains(message) <==> messages.contains(message) && pred(message),
{
    let passed = messages.filter(pred);
    if passed.contains(message) {
        messages.lemma_filter_contains_rev(pred, message);
        let i = choose|i: int| 0 <= i < passed.len() && passed[i] == message;
        messages.lemma_filter_pred(pred, i);
    }
    if messages.contains(message) && pred(message) {
        let i = choose|i: int| 0 <= i < messages.len() && messages[i] == message;
        messages.lemma_filter_contains(pred, i);
    }
}

/// A cleanup removes or leaves each message.
proof fn lemma_removed_or_left(messages: Seq<MeshMessage>, now: int, days: int)
    ensures
        removed_by_cleanup(messages, now, days).len() + left_by_cleanup(messages, now, days).len()
            == messages.len(),
    decreases messages.len(),
{
    reveal(Seq::filter);
    if messages.len() > 0 {
        lemma_removed_or_left(messages.drop_last(), now, days);
    }
}

/// The rules of the message store.
pub struct Database {}

impl Database {
    /// The file that a database URL names, where it names one.
    pub fn file_of_url(database_url: &str) -> (r: Option<String>)
        ensures
            r is Some <==> begins_with(database_url@, "sqlite:"@),
            r matches Some(file) ==> file@ == database_url@.skip("sqlite:"@.len() as int),
    {
        strip_prefix(database_url, "sqlite:")
    }

    /// The first step of opening a database; `in_directory` says whether the file that its URL
    /// names lies in a directory that is named too.
    pub fn first_step(database_url: &str, in_directory: bool) -> (r: OpenStep)
        ensures
            r == (if !begins_with(database_url@, "sqlite:"@) {
                OpenStep::Connect
            } else if in_directory {
                OpenStep::CreateDirectory
            } else {
                OpenStep::FindWorkingDirectory
            }),
    {
        if !starts_with(database_url, "sqlite:") {
            OpenStep::Connect
        } else if in_directory {
            OpenStep::CreateDirectory
        } else {
            OpenStep::FindWorkingDirectory
        }
    }

    /// The step behind `step`, which was done on the directory `place` with the given outcome; or
    /// the error to report where it failed. A probe that cannot be removed does not matter.
    pub fn next_step(step: OpenStep, outcome: Result<(), String>, place: &str) -> (r: Result<
        OpenStep,
        MeshWatchyError,
    >)
        ensures
            match outcome {
                Ok(_) => r matches Ok(next) && next == step_after(step),
                Err(cause) => if step == OpenStep::RemoveProbe || step == OpenStep::Ready {
                    r matches Ok(next) && next == step_after(step)
                } else {
                    match open_failure(step, place@, cause@) {
                        Some(text) => r matches Err(MeshWatchyError::Config(c)) && c@ == text,
                        None => r matches Err(MeshWatchyError::Database(c)) && c == cause,
                    }
                },
            },
    {
        match outcome {
            Ok(_) => {},
            Err(cause) => match step {
                OpenStep::CreateDirectory => {
                    let mut text = "Failed to create database directory '".to_owned();
                    text.append(place);
                    text.append("': ");
                    text.append(cause.as_str());
                    return Err(MeshWatchyError::Config(text));
                },
                OpenStep::FindWorkingDirectory => {
                    let mut text = "Failed to get current directory: ".to_owned();
                    text.append(cause.as_str());
                    return Err(MeshWatchyError::Config(text));
                },
                OpenStep::WriteProbe => {
                    let mut text = "Cannot write to database directory '".to_owned();
                    text.append(place);
                    text.append("': ");
                    text.append(cause.as_str());
                    text.append(". Check permissions or use a different database path.");
                    return Err(MeshWatchyError::Config(text));
                },
                OpenStep::Connect | OpenStep::InitializeSchema => {
                    return Err(MeshWatchyError::Database(cause));
                },
                OpenStep::RemoveProbe | OpenStep::Ready => {},
            },
        }
        Ok(
            match step {
                OpenStep::CreateDirectory => OpenStep::FindWorkingDirectory,
                OpenStep::FindWorkingDirectory => OpenStep::WriteProbe,
                OpenStep::WriteProbe => OpenStep::RemoveProbe,
                OpenStep::RemoveProbe => OpenStep::Connect,
                OpenStep::Connect => OpenStep::InitializeSchema,
                OpenStep::InitializeSchema => OpenStep::Ready,
                OpenStep::Ready => OpenStep::Ready,
            },
        )
    }

    /// A message from a topic as it is stored, where `payload` is the text of its payload.
    pub fn message_row(raw_message: &RawMqttMessage, mqtt_topic: &str, payload: String) -> (r:
        MeshMessage)
        ensures
            is_row(r, *raw_message, mqtt_topic@, payload@),
    {
        MeshMessage {
            id: raw_message.id,
            timestamp: raw_message.timestamp,
            message_type: raw_message.message_type.to_string(),
            sender_id: raw_message.sender.clone(),
            from_node: raw_message.from,
            channel: raw_message.channel,
            rssi: raw_message.rssi,
            snr: raw_message.snr,
            hop_start: raw_message.hop_start,
            hops_away: raw_message.hops_away,
            mqtt_topic: mqtt_topic.to_owned(),
            payload,
        }
    }

    /// What is stored of a message from a topic, whose payload was decoded as `decoded`.
    pub fn insert_message(
        raw_message: &RawMqttMessage,
        mqtt_topic: &str,
        decoded: DecodedPayload,
    ) -> (r: StoredMessage)
        ensures
            is_message_row(r.row, *raw_message, mqtt_topic@),
            r.detail == detail_of(*raw_message, decoded),
    {
        let payload = to_text(&raw_message.payload);
        let row = Self::message_row(raw_message, mqtt_topic, payload);
        let detail = match (raw_message.message_type, decoded) {
            (MessageType::Position, DecodedPayload::Position(position)) => Some(
                DetailRow::Position(Self::insert_position_data(row.id, &position)),
            ),
            (MessageType::Nodeinfo, DecodedPayload::Nodeinfo(info)) => Some(
                DetailRow::Nodeinfo(Self::insert_node_info(info, raw_message.timestamp)),
            ),
            (MessageType::Telemetry, DecodedPayload::Telemetry(telemetry)) => Some(
                DetailRow::Telemetry(Self::insert_telemetry_data(row.id, &telemetry)),
            ),
            (MessageType::Text, DecodedPayload::Text(payload)) => Some(
                DetailRow::Text(Self::insert_text_message(row.id, payload)),
            ),
            _ => None,
        };
        StoredMessage { row, detail }
    }

    /// The stored position of a message.
    pub fn insert_position_data(message_id: i64, position: &PositionPayload) -> (r: PositionData)
        ensures
            r == position_data(message_id, *position),
    {
        PositionData {
            message_id,
            latitude_i: position.latitude_i,
            longitude_i: position.longitude_i,
            altitude: position.altitude,
            ground_speed: position.ground_speed,
            ground_track: position.ground_track,
            pdop: position.pdop,
            satellites_visible: position.sats_in_view,
            gps_time: position.time,
        }
    }

    /// The stored information of a node that was last seen at `timestamp`.
    pub fn insert_node_info(info: NodeInfoPayload, timestamp: i64) -> (r: NodeInfo)
        ensures
            r == node_info(info, timestamp),
    {
        NodeInfo {
            node_id: info.id,
            hardware_type: info.hardware,
            long_name: info.longname,
            short_name: info.shortname,
            role: info.role,
            last_seen: timestamp,
        }
    }

    /// The stored telemetry of a message.
    pub fn insert_telemetry_data(message_id: i64, telemetry: &TelemetryPayload) -> (r:
        TelemetryData)
        ensures
            r == telemetry_data(message_id, *telemetry),
    {
        TelemetryData {
            message_id,
            battery_level: telemetry.battery_level,
            voltage: telemetry.voltage,
            air_util_tx: telemetry.air_util_tx,
            channel_utilization: telemetry.channel_utilization,
            uptime_seconds: telemetry.uptime_seconds,
        }
    }

    /// The stored text of a message.
    pub fn insert_text_message(message_id: i64, text_payload: TextMessagePayload) -> (r: TextData)
        ensures
            r == (TextData { message_id, text: text_payload.text }),
    {
        TextData { message_id, text: text_payload.text }
    }

    /// The stored positions `rows` as they are shown.
    pub fn get_recent_positions(rows: &Vec<PositionRow>) -> (r: Vec<PositionResponse>)
        ensures
            r@.len() == rows@.len(),
            forall|i: int| 0 <= i < r@.len() ==> is_position(#[trigger] r@[i], rows@[i]),
            forall|i: int|
                0 <= i < r@.len() ==> (#[trigger] r@[i]).latitude == rows@[i].latitude
                    && r@[i].longitude == rows@[i].longitude && r@[i].altitude == rows@[i].altitude
                    && r@[i].battery_level == rows@[i].battery_level && r@[i].rssi == rows@[i].rssi
                    && r@[i].snr == rows@[i].snr,
    {
        let mut r: Vec<PositionResponse> = Vec::new();
        let mut i: usize = 0;
        while i < rows.len()
            invariant
                i <= rows@.len(),
                r@.len() == i,
                forall|k: int| 0 <= k < r@.len() ==> is_position(#[trigger] r@[k], rows@[k]),
            decreases rows@.len() - i,
        {
            let row = &rows[i];
            r.push(
                PositionResponse {
                    node_id: node_id_text(row.from_node),
                    timestamp: time_or_epoch(row.timestamp),
                    latitude: row.latitude,
                    longitude: row.longitude,
                    altitude: row.altitude,
                    battery_level: row.battery_level,
                    rssi: row.rssi,
                    snr: row.snr,
                },
            );
            i = i + 1;
        }
        r
    }

    /// The stored positions `rows` as they are shown on the map.
    pub fn get_recent_positions_with_info(rows: &Vec<PositionInfoRow>) -> (r: Vec<
        PositionResponseDisplay,
    >)
        ensures
            r@.len() == rows@.len(),
            forall|i: int| 0 <= i < r@.len() ==> is_map_position(#[trigger] r@[i], rows@[i]),
            forall|i: int|
                0 <= i < r@.len() ==> (#[trigger] r@[i]).latitude == rows@[i].position.latitude
                    && r@[i].longitude == rows@[i].position.longitude && r@[i].altitude
                    == rows@[i].position.altitude && r@[i].battery_level
                    == rows@[i].position.battery_level && r@[i].rssi == rows@[i].position.rssi
                    && r@[i].snr == rows@[i].position.snr && r@[i].long_name == rows@[i].long_name
                    && r@[i].short_name == rows@[i].short_name,
    {
        let mut r: Vec<PositionResponseDisplay> = Vec::new();
        let mut i: usize = 0;
        while i < rows.len()
            invariant
                i <= rows@.len(),
                r@.len() == i,
                forall|k: int| 0 <= k < r@.len() ==> is_map_position(#[trigger] r@[k], rows@[k]),
            decreases rows@.len() - i,
        {
            let row = &rows[i];
            let hardware_type: i32 = match row.hardware_type {
                Some(hardware) => hardware,
                None => 0,
            };
            let long_name = match &row.long_name {
                Some(name) => Some(name.clone()),
                None => None,
            };
            let short_name = match &row.short_name {
                Some(name) => Some(name.clone()),
                None => None,
            };
            r.push(
                PositionResponseDisplay {
                    node_id: node_id_text(row.position.from_node),
                    timestamp: time_or_epoch(row.position.timestamp),
                    latitude: row.position.latitude,
                    longitude: row.position.longitude,
                    altitude: row.position.altitude,
                    battery_level: row.position.battery_level,
                    rssi: row.position.rssi,
                    snr: row.position.snr,
                    long_name,
                    short_name,
                    hardware_type,
                    hardware_model: Self::hardware_type_to_model(hardware_type),
                },
            );
            i = i + 1;
        }
        r
    }

    /// The query for at most `limit` positions, the latest first, of the nodes given; of all nodes
    /// where none are given.
    pub fn get_recent_positions_filtered(limit: i32, node_ids: &Option<Vec<i64>>) -> (r: BoundQuery)
        ensures
            r.sql@ == position_query(
                (match *node_ids {
                    Some(nodes) => nodes@.len(),
                    None => 0,
                }),
            ),
            r.binds@ == (match *node_ids {
                Some(nodes) => nodes@,
                None => Seq::empty(),
            }).push(limit as i64),
    {
        let mut sql =
            "SELECT mm.from_node as node_id, mm.timestamp, pd.latitude, pd.longitude, pd.altitude, td.battery_level, mm.rssi, mm.snr FROM mesh_messages mm INNER JOIN position_data pd ON mm.id = pd.message_id LEFT JOIN telemetry_data td ON mm.id = td.message_id AND td.message_id = ( SELECT mm2.id FROM mesh_messages mm2 WHERE mm2.from_node = mm.from_node AND mm2.timestamp <= mm.timestamp ORDER BY mm2.timestamp DESC LIMIT 1 )".to_owned();
        let mut binds: Vec<i64> = Vec::new();
        match node_ids {
            Some(nodes) => {
                if nodes.len() > 0 {
                    sql.append(" WHERE mm.from_node IN (");
                    let ghost start = sql@;
                    let mut i: usize = 0;
                    while i < nodes.len()
                        invariant
                            i <= nodes@.len(),
                            sql@ == start + placeholders(i as nat),
                            binds@ == nodes@.take(i as int),
                        decreases nodes@.len() - i,
                    {
                        let ghost before = sql@;
                        if i > 0 {
                            sql.push(',');
                        }
                        sql.push('?');
                        binds.push(nodes[i]);
                        proof {
                            assert(sql@ =~= start + placeholders((i + 1) as nat));
                            assert(nodes@.take(i + 1) =~= nodes@.take(i as int).push(
                                nodes@[i as int],
                            ));
                        }
                        i = i + 1;
                    }
                    sql.append(")");
                    proof {
                        assert(nodes@.take(i as int) =~= nodes@);
                        assert(sql@ =~= position_select() + (" WHERE mm.from_node IN ("@
                            + placeholders(nodes@.len()) + ")"@));
                    }
                } else {
                    proof {
                        assert(binds@ =~= nodes@);
                    }
                }
            },
            None => {},
        }
        proof {
            assert(position_select() + Seq::<char>::empty() =~= position_select());
        }
        sql.append(" ORDER BY mm.timestamp DESC LIMIT ?");
        binds.push(limit as i64);
        BoundQuery { sql, binds }
    }

    /// The second after which a node must have been seen to be active at the time `now`.
    pub fn active_after_at(now: i64) -> (r: i64)
        requires
            i64::MIN + DAY <= now,
        ensures
            r == now - DAY,
            now - r == 24 * 60 * 60,
    {
        now - DAY
    }

    /// The second after which a node must have been seen to be active at present: a day ago.
    pub fn active_after() -> (r: i64)
        ensures
            -DAY <= r <= LAST_SECOND - DAY,
    {
        Self::active_after_at(utc_now().secs)
    }

    /// The overview of the network from what was counted, and from the time of the last message.
    pub fn get_network_overview(
        total_nodes: i32,
        active_nodes: i32,
        messages_today: i32,
        last_message: Option<i64>,
    ) -> (r: NetworkOverview)
        ensures
            r.total_nodes == total_nodes,
            r.active_nodes == active_nodes,
            r.messages_today == messages_today,
            r.last_message == (match last_message {
                Some(secs) => time_of(secs),
                None => None,
            }),
    {
        let last_message = match last_message {
            Some(secs) => from_timestamp(secs),
            None => None,
        };
        NetworkOverview { total_nodes, active_nodes, messages_today, last_message }
    }

    /// The stored nodes `rows` as they are shown, where a node is active that was seen after
    /// `active_after`.
    pub fn get_nodes_display(rows: &Vec<NodeRow>, active_after: i64) -> (r: Vec<NodeInfoDisplay>)
        ensures
            r@.len() == rows@.len(),
            forall|i: int|
                0 <= i < r@.len() ==> is_node_display(
                    #[trigger] r@[i],
                    rows@[i],
                    active_after as int,
                ),
    {
        let mut r: Vec<NodeInfoDisplay> = Vec::new();
        let mut i: usize = 0;
        while i < rows.len()
            invariant
                i <= rows@.len(),
                r@.len() == i,
                forall|k: int|
                    0 <= k < r@.len() ==> is_node_display(
                        #[trigger] r@[k],
                        rows@[k],
                        active_after as int,
                    ),
            decreases rows@.len() - i,
        {
            let row = &rows[i];
            let long_name = if row.info.long_name.as_str().is_empty() {
                None
            } else {
                Some(row.info.long_name.clone())
            };
            let short_name = if row.info.short_name.as_str().is_empty() {
                None
            } else {
                Some(row.info.short_name.clone())
            };
            r.push(
                NodeInfoDisplay {
                    node_id: row.info.node_id.clone(),
                    hardware_type: row.info.hardware_type,
                    hardware_model: Self::hardware_type_to_model(row.info.hardware_type),
                    long_name,
                    short_name,
                    role: row.info.role,
                    last_seen: row.info.last_seen,
                    first_seen: row.created_at,
                    is_active: row.info.last_seen > active_after,
                    has_position: row.has_position > 0,
                    battery_level: row.battery_level,
                    user_id: None,
                    firmware_version: None,
                },
            );
            i = i + 1;
        }
        r
    }

    /// The counts of messages by type, as a map; the later of two counts for one type wins.
    pub fn get_message_stats(rows: &Vec<(String, i32)>) -> (r: TextMap<i32>)
        ensures
            r.wf(),
            r@ == crate::textmap::map_of(crate::textmap::rows_of(rows@)),
    {
        let mut r: TextMap<i32> = TextMap::new();
        let ghost all = crate::textmap::rows_of(rows@);
        let mut i: usize = 0;
        proof {
            assert(all.take(0) =~= Seq::empty());
        }
        while i < rows.len()
            invariant
                i <= rows@.len(),
                all == crate::textmap::rows_of(rows@),
                r.wf(),
                r@ == crate::textmap::map_of(all.take(i as int)),
            decreases rows@.len() - i,
        {
            proof {
                assert(all.take(i + 1).drop_last() =~= all.take(i as int));
                assert(all.take(i + 1).last() == (rows@[i as int].0@, rows@[i as int].1));
            }
            r.insert(rows[i].0.clone(), rows[i].1);
            i = i + 1;
        }
        proof {
            assert(all.take(i as int) =~= all);
        }
        r
    }

    /// The stored text messages `rows` as they are shown.
    pub fn get_recent_text_messages(rows: &Vec<TextRow>) -> (r: Vec<TextMessage>)
        ensures
            r@.len() == rows@.len(),
            forall|i: int| 0 <= i < r@.len() ==> is_text_message(#[trigger] r@[i], rows@[i]),
    {
        let mut r: Vec<TextMessage> = Vec::new();
        let mut i: usize = 0;
        while i < rows.len()
            invariant
                i <= rows@.len(),
                r@.len() == i,
                forall|k: int| 0 <= k < r@.len() ==> is_text_message(#[trigger] r@[k], rows@[k]),
            decreases rows@.len() - i,
        {
            let row = &rows[i];
            r.push(
                TextMessage {
                    message_id: row.message_id,
                    from_node: row.from_node.clone(),
                    to_node: None,
                    text: row.text.clone(),
                    timestamp: time_or_epoch(row.timestamp),
                    channel: row.channel,
                    rssi: row.rssi,
                    snr: row.snr,
                    gateway: nth_piece(row.mqtt_topic.as_str(), '/', 1),
                },
            );
            i = i + 1;
        }
        r
    }

    /// The stored message `row` as it is shown, where its payload reads as `read`.
    pub fn recent_message(row: &MessageRow, read: Result<serde_json::Value, String>) -> (r:
        RecentMessage)
        ensures
            is_recent(
                r,
                *row,
                (match read {
                    Ok(value) => Ok::<serde_json::Value, Seq<char>>(value),
                    Err(reason) => Err::<serde_json::Value, Seq<char>>(reason@),
                }),
            ),
    {
        let raw_json = match read {
            Ok(value) => value,
            Err(_) => {
                let mut members: Vec<(String, serde_json::Value)> = Vec::new();
                members.push(("error".to_owned(), string_value("Invalid JSON")));
                proof {
                    assert(crate::json::members_view(members@) =~= seq![
                        ("error"@, json_string_value("Invalid JSON"@)),
                    ]);
                }
                object_value(members)
            },
        };
        RecentMessage {
            id: row.id,
            from_node: row.sender_id.clone(),
            to_node: None,
            message_type: row.message_type.clone(),
            timestamp: time_or_epoch(row.timestamp),
            channel: Some(row.channel),
            gateway: nth_piece(row.mqtt_topic.as_str(), '/', 1),
            raw_json,
        }
    }

    /// The stored messages `rows` as they are shown.
    pub fn get_recent_messages(rows: &Vec<MessageRow>) -> (r: Vec<RecentMessage>)
        ensures
            r@.len() == rows@.len(),
            forall|i: int|
                0 <= i < r@.len() ==> is_recent(
                    #[trigger] r@[i],
                    rows@[i],
                    json_value(rows@[i].payload@),
                ),
    {
        let mut r: Vec<RecentMessage> = Vec::new();
        let mut i: usize = 0;
        while i < rows.len()
            invariant
                i <= rows@.len(),
                r@.len() == i,
                forall|k: int|
                    0 <= k < r@.len() ==> is_recent(
                        #[trigger] r@[k],
                        rows@[k],
                        json_value(rows@[k].payload@),
                    ),
            decreases rows@.len() - i,
        {
            let read = parse_json(rows[i].payload.as_str());
            r.push(Self::recent_message(&rows[i], read));
            i = i + 1;
        }
        r
    }

    /// The stored readings `rows` gathered by node: the latest reading of each node with the chart
    /// of all its battery levels, the latest node first.
    pub fn get_recent_telemetry(rows: &Vec<TelemetryRow>) -> (r: Vec<TelemetryDisplay>)
        ensures
            latest_first(r@),
            nodes_differ(r@),
            forall|i: int| 0 <= i < r@.len() ==> is_summary(#[trigger] r@[i], rows@),
            forall|k: int| 0 <= k < rows@.len() ==> is_shown(r@, (#[trigger] rows@[k]).node_id@),
            forall|k: int|
                0 <= k < rows@.len() ==> exists|i: int|
                    0 <= i < r@.len() && (#[trigger] r@[i]).node_id@ == (#[trigger] rows@[k]).node_id@,
            forall|i: int|
                0 <= i < r@.len() ==> exists|k: int|
                    0 <= k < rows@.len() && (#[trigger] rows@[k]).node_id@ == (
                    #[trigger] r@[i]).node_id@ && rows@[k].timestamp == r@[i].timestamp
                        && rows@[k].battery_level == r@[i].battery_level && rows@[k].voltage
                        == r@[i].voltage && rows@[k].air_util_tx == r@[i].air_util_tx
                        && rows@[k].channel_utilization == r@[i].channel_utilization
                        && rows@[k].uptime_seconds == r@[i].uptime_seconds,
    {
        gather(rows)
    }

    /// The stored readings `rows` of one node, one by one, each with the chart of all their battery
    /// levels.
    pub fn get_node_telemetry_history(rows: &Vec<TelemetryRow>) -> (r: Vec<TelemetryDisplay>)
        ensures
            is_history(r@, rows@),
            r@.len() == rows@.len(),
            forall|i: int|
                0 <= i < r@.len() ==> (#[trigger] r@[i]).node_id@ == rows@[i].node_id@
                    && r@[i].timestamp == rows@[i].timestamp && r@[i].battery_level
                    == rows@[i].battery_level && r@[i].voltage == rows@[i].voltage
                    && r@[i].air_util_tx == rows@[i].air_util_tx && r@[i].channel_utilization
                    == rows@[i].channel_utilization && r@[i].uptime_seconds
                    == rows@[i].uptime_seconds,
    {
        history(rows)
    }

    /// The second before which messages are removed at the time `now`, where those of so many days
    /// are kept.
    pub fn cleanup_cutoff_at(now: i64, days_to_keep: i32) -> (r: i64)
        requires
            0 <= now <= LAST_SECOND,
        ensures
            r == now - days_to_keep * DAY,
            now - r == days_to_keep * (24 * 60 * 60),
            cuts_at(r, now as int, days_to_keep as int),
    {
        now - days_to_keep as i64 * DAY
    }

    /// The second before which messages are removed at present, where those of so many days are
    /// kept.
    pub fn cleanup_old_messages(days_to_keep: i32) -> (r: i64)
        ensures
            exists|now: int|
                0 <= now <= LAST_SECOND && r == now - days_to_keep * DAY && #[trigger] cuts_at(
                    r,
                    now,
                    days_to_keep as int,
                ),
    {
        let now = utc_now();
        let r: i64 = Self::cleanup_cutoff_at(now.secs, days_to_keep);
        proof {
            assert(cuts_at(r, now.secs as int, days_to_keep as int));
        }
        r
    }

    /// The name of a hardware model by its type; there always is one.
    pub fn hardware_type_to_model(hardware_type: i32) -> (r: Option<String>)
        ensures
            optional_text(r) == Some(model_name(hardware_type as int)),
    {
        let name: &str = match hardware_type {
            3 => "T-Echo",
            47 => "Station G1",
            50 => "RAK11200",
            71 => "T-Deck",
            _ => {
                let mut text = "Hardware #".to_owned();
                text.append(decimal(hardware_type as i64).as_str());
                return Some(text);
            },
        };
        Some(name.to_owned())
    }

    /// So many placeholders hold so many question marks, one for each value.
    pub proof fn law_placeholders_match(count: nat)
        ensures
            placeholders(count).filter(is_mark()).len() == count,
        decreases count,
    {
        reveal_with_fuel(Seq::filter, 2);
        if count == 1 {
            assert(placeholders(1).drop_last() =~= Seq::empty());
        } else if count > 1 {
            Self::law_placeholders_match((count - 1) as nat);
            let shorter = placeholders((count - 1) as nat);
            let whole = placeholders(count);
            let middle = shorter.push(',');
            assert(whole.drop_last() =~= middle);
            assert(middle.drop_last() =~= shorter);
            assert(middle.filter(is_mark()) == shorter.filter(is_mark()));
        }
    }

    /// A query has a placeholder for each node it asks for, and one for the limit: as many as there
    /// are values bound to it.
    pub proof fn law_query_binds_all(count: nat)
        ensures
            position_query(count).filter(is_mark()).len() == count + 1,
    {
        let marks = is_mark();
        let select = position_select();
        let filter = if count == 0 {
            Seq::empty()
        } else {
            " WHERE mm.from_node IN ("@ + placeholders(count) + ")"@
        };
        let end = " ORDER BY mm.timestamp DESC LIMIT ?"@;
        lemma_select_has_no_marks();
        assert(filter.filter(marks).len() == count) by {
            if count == 0 {
                reveal(Seq::filter);
            } else {
                reveal_strlit(" WHERE mm.from_node IN (");
                reveal_strlit(")");
                let start = " WHERE mm.from_node IN ("@;
                lemma_no_marks(start);
                lemma_no_marks(")"@);
                Self::law_placeholders_match(count);
                Seq::filter_distributes_over_add(start, placeholders(count), marks);
                Seq::filter_distributes_over_add(start + placeholders(count), ")"@, marks);
            }
        }
        assert(end.filter(marks).len() == 1) by {
            reveal_strlit(" ORDER BY mm.timestamp DESC LIMIT ?");
            reveal(Seq::filter);
            let front = end.drop_last();
            lemma_no_marks(front);
        }
        Seq::filter_distributes_over_add(select, filter, marks);
        Seq::filter_distributes_over_add(select + filter, end, marks);
    }

    /// A message that was stored is shown with the identifier, the sender, the type, the channel and
    /// the time that it had, with the gateway of the topic that it came from, and with the JSON that the
    /// text of its payload reads as.
    pub proof fn law_stored_message_is_shown(
        m: RawMqttMessage,
        topic: Seq<char>,
        row: MeshMessage,
        read_row: MessageRow,
        read: Result<serde_json::Value, Seq<char>>,
        shown: RecentMessage,
    )
        requires
            is_message_row(row, m, topic),
            reads_back(read_row, row),
            is_recent(shown, read_row, read),
        ensures
            shown.id == m.id,
            shown.from_node == m.sender,
            shown.message_type@ == m.message_type.name(),
            shown.channel == Some(m.channel),
            shown.timestamp == time_or_epoch_of(m.timestamp),
            optional_text(shown.gateway) == gateway_of(topic),
            read_row.payload@ == json_text(m.payload),
            read == json_value(read_row.payload@) ==> shown.raw_json == shown_json(
                json_value(json_text(m.payload)),
            ),
    {
    }

    /// A cleanup takes the messages that are too old, all of them and no others: each message is
    /// removed or left, and none both.
    pub proof fn law_cleanup_takes_the_old(
        messages: Seq<MeshMessage>,
        now: int,
        days: int,
        message: MeshMessage,
    )
        ensures
            removed_by_cleanup(messages, now, days).contains(message) <==> messages.contains(message)
                && is_removed(message.timestamp, now, days),
            left_by_cleanup(messages, now, days).contains(message) <==> messages.contains(message)
                && !is_removed(message.timestamp, now, days),
            removed_by_cleanup(messages, now, days).len() + left_by_cleanup(
                messages,
                now,
                days,
            ).len() == messages.len(),
    {
        lemma_filtered_exactly(messages, is_old(now, days), message);
        lemma_filtered_exactly(messages, is_kept(now, days), message);
        lemma_removed_or_left(messages, now, days);
    }

    /// What was stored beside a message goes in a cleanup exactly where the message does; node
    /// information never goes.
    pub proof fn law_cleanup_takes_details(
        messages: Seq<MeshMessage>,
        now: int,
        days: int,
        m: RawMqttMessage,
        topic: Seq<char>,
        row: MeshMessage,
        decoded: DecodedPayload,
        detail: DetailRow,
    )
        requires
            ids_differ(messages),
            messages.contains(row),
            is_message_row(row, m, topic),
            detail_of(m, decoded) == Some(detail),
        ensures
            goes_with(detail, removed_by_cleanup(messages, now, days)) <==> !(detail is Nodeinfo)
                && is_removed(row.timestamp, now, days),
    {
        let removed = removed_by_cleanup(messages, now, days);
        Self::law_cleanup_takes_the_old(messages, now, days, row);
        if goes_with(detail, removed) {
            let i = choose|i: int|
                0 <= i < removed.len() && message_of(detail) == Some((#[trigger] removed[i]).id);
            let gone = removed[i];
            assert(removed.contains(gone));
            Self::law_cleanup_takes_the_old(messages, now, days, gone);
            let a = choose|a: int| 0 <= a < messages.len() && messages[a] == gone;
            let b = choose|b: int| 0 <= b < messages.len() && messages[b] == row;
            if a != b {
                assert(messages[a].id != messages[b].id);
            }
        }
        if !(detail is Nodeinfo) && is_removed(row.timestamp, now, days) {
            let i = choose|i: int| 0 <= i < removed.len() && removed[i] == row;
            assert(message_of(detail) == Some(removed[i].id));
        }
    }

    /// A message from the very second of the cutoff stays.
    pub proof fn law_cutoff_stays(cutoff: i64, now: int, days: int)
        requires
            cutoff == now - days * DAY,
        ensures
            !is_removed(cutoff, now, days),
            forall|timestamp: i64|
                timestamp >= cutoff ==> !#[trigger] is_removed(timestamp, now, days),
    {
    }

    /// A second cleanup at the same time removes nothing more.
    pub proof fn law_second_cleanup_removes_nothing(
        messages: Seq<MeshMessage>,
        now: int,
        days: int,
    )
        ensures
            removed_by_cleanup(left_by_cleanup(messages, now, days), now, days).len() == 0,
            left_by_cleanup(left_by_cleanup(messages, now, days), now, days) == left_by_cleanup(
                messages,
                now,
                days,
            ),
        decreases messages.len(),
    {
        reveal(Seq::filter);
        if messages.len() > 0 {
            let shorter = messages.drop_last();
            Self::law_second_cleanup_removes_nothing(shorter, now, days);
            let left = left_by_cleanup(messages, now, days);
            if !is_removed(messages.last().timestamp, now, days) {
                assert(left.drop_last() =~= left_by_cleanup(shorter, now, days));
                assert(left.last() == messages.last());
            }
        }
    }

    /// What is stored beside a message belongs to it, and its kind is the type of the message.
    pub proof fn law_detail_belongs_to_message(m: RawMqttMessage, decoded: DecodedPayload)
        ensures
            match detail_of(m, decoded) {
                Some(DetailRow::Position(p)) => m.message_type == MessageType::Position
                    && p.message_id == m.id,
                Some(DetailRow::Nodeinfo(n)) => m.message_type == MessageType::Nodeinfo
                    && n.last_seen == m.timestamp,
                Some(DetailRow::Telemetry(t)) => m.message_type == MessageType::Telemetry
                    && t.message_id == m.id,
                Some(DetailRow::Text(t)) => m.message_type == MessageType::Text && t.message_id
                    == m.id,
                None => true,
            },
            m.message_type == MessageType::Unknown ==> detail_of(m, decoded) is None,
    {
    }

    /// A node whose number fits in 32 bits is shown under the identifier that is read back as its
    /// number.
    pub proof fn law_node_id_names_number(number: nat)
        requires
            number < 0x1_0000_0000,
        ensures
            crate::mqtt::node_number(node_id_of(number as int)) == number,
    {
        crate::mqtt::MqttClient::law_node_id_round_trip(number);
    }
}

/// A position is shown with the coordinates, the altitude, the battery level and the reception of its
/// row, each under its own name; its time is that of the row where that can be named, and its node
/// reads back as the lowest 32 bits of the row's node number.
pub proof fn law_position_shows_its_row(r: PositionResponse, row: PositionRow)
    requires
        is_position(r, row),
    ensures
        r.latitude == row.latitude,
        r.longitude == row.longitude,
        r.altitude == row.altitude,
        r.battery_level == row.battery_level,
        r.rssi == row.rssi,
        r.snr == row.snr,
        -8334601228800 <= row.timestamp <= 8210266876799 ==> r.timestamp.secs == row.timestamp,
        !(-8334601228800 <= row.timestamp <= 8210266876799) ==> r.timestamp.secs == 0,
        r.timestamp.nanos == 0,
        r.node_id@.len() == 9,
        crate::mqtt::node_number(r.node_id@) == row.from_node as int % 0x1_0000_0000,
{
    law_node_id_shows_low_bits(row.from_node as int);
}

/// A position on the map is shown with the coordinates, the altitude, the battery level and the
/// reception of its row, each under its own name, and with the names of its node.
pub proof fn law_map_position_shows_its_row(r: PositionResponseDisplay, row: PositionInfoRow)
    requires
        is_map_position(r, row),
    ensures
        r.latitude == row.position.latitude,
        r.longitude == row.position.longitude,
        r.altitude == row.position.altitude,
        r.battery_level == row.position.battery_level,
        r.rssi == row.position.rssi,
        r.snr == row.position.snr,
        r.long_name == row.long_name,
        r.short_name == row.short_name,
        row.hardware_type matches Some(hardware) ==> r.hardware_type == hardware,
        row.hardware_type is None ==> r.hardware_type == 0,
        r.hardware_model matches Some(model) && model@ == model_name(r.hardware_type as int),
        crate::mqtt::node_number(r.node_id@) == row.position.from_node as int % 0x1_0000_0000,
        -8334601228800 <= row.position.timestamp <= 8210266876799 ==> r.timestamp.secs
            == row.position.timestamp,
{
    law_node_id_shows_low_bits(row.position.from_node as int);
}

/// One stored position is shown on the map as it is over the API: the same node, time, place,
/// battery level and reception.
pub proof fn law_map_and_api_agree(
    r: PositionResponseDisplay,
    p: PositionResponse,
    row: PositionInfoRow,
)
    requires
        is_map_position(r, row),
        is_position(p, row.position),
    ensures
        r.node_id@ == p.node_id@,
        r.timestamp == p.timestamp,
        r.latitude == p.latitude,
        r.longitude == p.longitude,
        r.altitude == p.altitude,
        r.battery_level == p.battery_level,
        r.rssi == p.rssi,
        r.snr == p.snr,
{
}

/// The identifier of a node is an exclamation mark and eight digits, which read as the lowest 32 bits
/// of its number; numbers that differ only above those have one identifier.
pub proof fn law_node_id_shows_low_bits(number: int)
    ensures
        node_id_of(number).len() == 9,
        node_id_of(number)[0] == '!',
        crate::mqtt::node_number(node_id_of(number)) == number % 0x1_0000_0000,
{
    let low = (number % 0x1_0000_0000) as nat;
    crate::mqtt::MqttClient::law_node_id_round_trip(low);
    crate::numbers::law_hex_width(low);
}

/// A hardware type without a name of its own is shown by its number, which can be read back; the
/// others have names, and no two of them the same.
pub proof fn law_model_by_type(hardware_type: i32)
    ensures
        hardware_type != 3 && hardware_type != 47 && hardware_type != 50 && hardware_type != 71 ==> {
            &&& model_name(hardware_type as int).take(10) =~= "Hardware #"@
            &&& crate::numbers::parsed_int(model_name(hardware_type as int).skip(10), 10) == Some(
                hardware_type as int,
            )
        },
        hardware_type == 3 ==> model_name(hardware_type as int) =~= seq!['T', '-', 'E', 'c', 'h', 'o'],
        hardware_type == 47 ==> model_name(hardware_type as int) =~= seq![
            'S',
            't',
            'a',
            't',
            'i',
            'o',
            'n',
            ' ',
            'G',
            '1',
        ],
        hardware_type == 50 ==> model_name(hardware_type as int) =~= seq![
            'R',
            'A',
            'K',
            '1',
            '1',
            '2',
            '0',
            '0',
        ],
        hardware_type == 71 ==> model_name(hardware_type as int) =~= seq!['T', '-', 'D', 'e', 'c', 'k'],
{
    reveal_strlit("T-Echo");
    reveal_strlit("Station G1");
    reveal_strlit("RAK11200");
    reveal_strlit("T-Deck");
    reveal_strlit("Hardware #");
    let name = "Hardware #"@ + decimal_of(hardware_type as int);
    assert(name.skip(10) =~= decimal_of(hardware_type as int));
    crate::numbers::law_decimal_reads_back(hardware_type as i64);
}

/// The gateway of a topic is the second of its levels, where it has two.
pub proof fn law_gateway_is_second_level(levels: Seq<Seq<char>>)
    requires
        levels.len() > 0,
        forall|k: int| 0 <= k < levels.len() ==> !(#[trigger] levels[k]).contains('/'),
    ensures
        levels.len() >= 2 ==> gateway_of(crate::text::join_with(levels, '/')) == Some(levels[1]),
        levels.len() == 1 ==> gateway_of(crate::text::join_with(levels, '/')) is None,
{
    crate::text::law_join_then_split(levels, '/');
}

/// A stored message has the values of the message, each under its own name.
pub proof fn law_row_has_the_message(
    row: MeshMessage,
    m: RawMqttMessage,
    topic: Seq<char>,
    payload: Seq<char>,
)
    requires
        is_row(row, m, topic, payload),
    ensures
        row.id == m.id,
        row.timestamp == m.timestamp,
        row.message_type@ == m.message_type.name(),
        row.sender_id@ == m.sender@,
        row.from_node == m.from,
        row.channel == m.channel,
        row.rssi == m.rssi,
        row.snr == m.snr,
        row.hop_start == m.hop_start,
        row.hops_away == m.hops_away,
        row.mqtt_topic@ == topic,
        row.payload@ == payload,
        is_message_row(row, m, topic) <==> payload == json_text(m.payload),
{
}

/// A payload that has the shape of its message's type is stored, value by value; one that has not is
/// not stored.
pub proof fn law_detail_has_the_payload(m: RawMqttMessage, decoded: DecodedPayload)
    ensures
        (m.message_type == MessageType::Position && decoded is Position) ==> {
            let p = decoded->Position_0;
            detail_of(m, decoded) matches Some(DetailRow::Position(d)) && d.message_id == m.id
                && d.latitude_i == p.latitude_i && d.longitude_i == p.longitude_i && d.altitude
                == p.altitude && d.ground_speed == p.ground_speed && d.ground_track
                == p.ground_track && d.pdop == p.pdop && d.satellites_visible == p.sats_in_view
                && d.gps_time == p.time
        },
        (m.message_type == MessageType::Nodeinfo && decoded is Nodeinfo) ==> {
            let p = decoded->Nodeinfo_0;
            detail_of(m, decoded) matches Some(DetailRow::Nodeinfo(d)) && d.node_id == p.id
                && d.hardware_type == p.hardware && d.long_name == p.longname && d.short_name
                == p.shortname && d.role == p.role && d.last_seen == m.timestamp
        },
        (m.message_type == MessageType::Telemetry && decoded is Telemetry) ==> {
            let p = decoded->Telemetry_0;
            detail_of(m, decoded) matches Some(DetailRow::Telemetry(d)) && d.message_id == m.id
                && d.battery_level == p.battery_level && d.voltage == p.voltage && d.air_util_tx
                == p.air_util_tx && d.channel_utilization == p.channel_utilization
                && d.uptime_seconds == p.uptime_seconds
        },
        (m.message_type == MessageType::Text && decoded is Text) ==> {
            detail_of(m, decoded) matches Some(DetailRow::Text(d)) && d.message_id == m.id && d.text
                == (decoded->Text_0).text
        },
        detail_of(m, decoded) is Some <==> {
            ||| m.message_type == MessageType::Position && decoded is Position
            ||| m.message_type == MessageType::Nodeinfo && decoded is Nodeinfo
            ||| m.message_type == MessageType::Telemetry && decoded is Telemetry
            ||| m.message_type == MessageType::Text && decoded is Text
        },
{
}

/// What is stored of a payload by itself: each value under its own name.
pub proof fn law_payload_rows(
    id: i64,
    seen: i64,
    p: PositionPayload,
    n: NodeInfoPayload,
    t: TelemetryPayload,
)
    ensures
        position_data(id, p).message_id == id,
        position_data(id, p).latitude_i == p.latitude_i,
        position_data(id, p).longitude_i == p.longitude_i,
        position_data(id, p).altitude == p.altitude,
        position_data(id, p).ground_speed == p.ground_speed,
        position_data(id, p).ground_track == p.ground_track,
        position_data(id, p).pdop == p.pdop,
        position_data(id, p).satellites_visible == p.sats_in_view,
        position_data(id, p).gps_time == p.time,
        node_info(n, seen).node_id == n.id,
        node_info(n, seen).hardware_type == n.hardware,
        node_info(n, seen).long_name == n.longname,
        node_info(n, seen).short_name == n.shortname,
        node_info(n, seen).role == n.role,
        node_info(n, seen).last_seen == seen,
        telemetry_data(id, t).message_id == id,
        telemetry_data(id, t).battery_level == t.battery_level,
        telemetry_data(id, t).voltage == t.voltage,
        telemetry_data(id, t).air_util_tx == t.air_util_tx,
        telemetry_data(id, t).channel_utilization == t.channel_utilization,
        telemetry_data(id, t).uptime_seconds == t.uptime_seconds,
{
}

/// A node is shown with the values of its row, each under its own name. An empty name is not shown, a
/// node is active exactly where it was seen after the given time, and it has a position exactly
/// where one is counted.
pub proof fn law_node_shows_its_row(r: NodeInfoDisplay, row: NodeRow, active_after: int)
    requires
        is_node_display(r, row, active_after),
    ensures
        r.node_id@ == row.info.node_id@,
        r.hardware_type == row.info.hardware_type,
        r.hardware_model matches Some(model) && model@ == model_name(row.info.hardware_type as int),
        r.long_name is Some <==> row.info.long_name@.len() > 0,
        r.long_name matches Some(name) ==> name@ == row.info.long_name@,
        r.short_name is Some <==> row.info.short_name@.len() > 0,
        r.short_name matches Some(name) ==> name@ == row.info.short_name@,
        r.role == row.info.role,
        r.last_seen == row.info.last_seen,
        r.first_seen == row.created_at,
        r.is_active <==> row.info.last_seen > active_after,
        r.has_position <==> row.has_position > 0,
        r.battery_level == row.battery_level,
        r.user_id is None,
        r.firmware_version is None,
{
}

/// A text message is shown with the values of its row, each under its own name, and with the gateway
/// of its topic.
pub proof fn law_text_shows_its_row(r: TextMessage, row: TextRow)
    requires
        is_text_message(r, row),
    ensures
        r.message_id == row.message_id,
        r.from_node@ == row.from_node@,
        r.to_node is None,
        r.text@ == row.text@,
        r.channel == row.channel,
        r.rssi == row.rssi,
        r.snr == row.snr,
        -8334601228800 <= row.timestamp <= 8210266876799 ==> r.timestamp.secs == row.timestamp,
        !(-8334601228800 <= row.timestamp <= 8210266876799) ==> r.timestamp.secs == 0,
        r.gateway is Some <==> split_on(row.mqtt_topic@, '/').len() >= 2,
        r.gateway matches Some(gateway) ==> gateway@ == split_on(row.mqtt_topic@, '/')[1],
{
}

/// A message is shown with the values of its row, each under its own name; its JSON is what its
/// payload reads as, where it does.
pub proof fn law_message_shows_its_row(
    r: RecentMessage,
    row: MessageRow,
    read: Result<serde_json::Value, Seq<char>>,
)
    requires
        is_recent(r, row, read),
    ensures
        r.id == row.id,
        r.from_node@ == row.sender_id@,
        r.to_node is None,
        r.message_type@ == row.message_type@,
        r.channel == Some(row.channel),
        -8334601228800 <= row.timestamp <= 8210266876799 ==> r.timestamp.secs == row.timestamp,
        !(-8334601228800 <= row.timestamp <= 8210266876799) ==> r.timestamp.secs == 0,
        r.gateway is Some <==> split_on(row.mqtt_topic@, '/').len() >= 2,
        r.gateway matches Some(gateway) ==> gateway@ == split_on(row.mqtt_topic@, '/')[1],
        read matches Ok(value) ==> r.raw_json == value,
        read is Err ==> r.raw_json == json_object_value(
            seq![("error"@, json_string_value("Invalid JSON"@))],
        ),
{
}

/// What is selected, between its first word and its source.
proof fn lemma_selected_list()
    ensures
        position_select().len() == 413,
        position_select().take(7) =~= "SELECT "@,
        position_select().subrange(7, 119)
            =~= "mm.from_node as node_id, mm.timestamp, pd.latitude, pd.longitude, pd.altitude, td.battery_level, mm.rssi, mm.snr"@,
        position_select().subrange(119, 125) =~= " FROM "@,
{
    reveal_strlit(
        "SELECT mm.from_node as node_id, mm.timestamp, pd.latitude, pd.longitude, pd.altitude, td.battery_level, mm.rssi, mm.snr FROM mesh_messages mm INNER JOIN position_data pd ON mm.id = pd.message_id LEFT JOIN telemetry_data td ON mm.id = td.message_id AND td.message_id = ( SELECT mm2.id FROM mesh_messages mm2 WHERE mm2.from_node = mm.from_node AND mm2.timestamp <= mm.timestamp ORDER BY mm2.timestamp DESC LIMIT 1 )",
    );
    reveal_strlit(
        "mm.from_node as node_id, mm.timestamp, pd.latitude, pd.longitude, pd.altitude, td.battery_level, mm.rssi, mm.snr",
    );
    reveal_strlit("SELECT ");
    reveal_strlit(" FROM ");
}

/// The columns put together with commas make the list.
#[verifier::rlimit(60)]
#[verifier::spinoff_prover]
proof fn lemma_columns_joined(columns: Seq<Seq<char>>)
    requires
        columns == seq![
            "mm.from_node as node_id"@,
            " mm.timestamp"@,
            " pd.latitude"@,
            " pd.longitude"@,
            " pd.altitude"@,
            " td.battery_level"@,
            " mm.rssi"@,
            " mm.snr"@,
        ],
    ensures
        join_with(columns, ',')
            == "mm.from_node as node_id, mm.timestamp, pd.latitude, pd.longitude, pd.altitude, td.battery_level, mm.rssi, mm.snr"@,
        forall|k: int| 0 <= k < columns.len() ==> !(#[trigger] columns[k]).contains(','),
{
    reveal_strlit(
        "mm.from_node as node_id, mm.timestamp, pd.latitude, pd.longitude, pd.altitude, td.battery_level, mm.rssi, mm.snr",
    );
    reveal_strlit("mm.from_node as node_id");
    reveal_strlit(" mm.timestamp");
    reveal_strlit(" pd.latitude");
    reveal_strlit(" pd.longitude");
    reveal_strlit(" pd.altitude");
    reveal_strlit(" td.battery_level");
    reveal_strlit(" mm.rssi");
    reveal_strlit(" mm.snr");
    let list =
        "mm.from_node as node_id, mm.timestamp, pd.latitude, pd.longitude, pd.altitude, td.battery_level, mm.rssi, mm.snr"@;
    assert forall|k: int| 0 <= k < columns.len() implies !(#[trigger] columns[k]).contains(
        ',',
    ) by {
        assert(k == 0 || k == 1 || k == 2 || k == 3 || k == 4 || k == 5 || k == 6 || k == 7);
    }
    let c1 = columns.take(1);
    let c2 = columns.take(2);
    let c3 = columns.take(3);
    let c4 = columns.take(4);
    let c5 = columns.take(5);
    let c6 = columns.take(6);
    let c7 = columns.take(7);
    let c8 = columns.take(8);
    assert(c8 =~= columns);
    assert(join_with(c1, ',') =~= list.take(23));
    assert(c2.drop_last() =~= c1 && c2.last() == columns[1]);
    assert(join_with(c2, ',') =~= list.take(37));
    assert(c3.drop_last() =~= c2 && c3.last() == columns[2]);
    assert(join_with(c3, ',') =~= list.take(50));
    assert(c4.drop_last() =~= c3 && c4.last() == columns[3]);
    assert(join_with(c4, ',') =~= list.take(64));
    assert(c5.drop_last() =~= c4 && c5.last() == columns[4]);
    assert(join_with(c5, ',') =~= list.take(77));
    assert(c6.drop_last() =~= c5 && c6.last() == columns[5]);
    assert(join_with(c6, ',') =~= list.take(95));
    assert(c7.drop_last() =~= c6 && c7.last() == columns[6]);
    assert(join_with(c7, ',') =~= list.take(104));
    assert(c8.drop_last() =~= c7 && c8.last() == columns[7]);
    assert(join_with(c8, ',') =~= list.take(112));
    assert(list.take(112) =~= list);
}

/// The columns that a query for positions selects are, in order, those of a position row: node, time,
/// latitude, longitude, altitude, battery level, signal strength, signal to noise ratio.
pub proof fn law_columns_in_row_order(count: nat)
    ensures
        ({
            let query = position_query(count);
            let columns = split_on(query.subrange(7, 119), ',');
            &&& query.take(7) =~= "SELECT "@
            &&& query.subrange(119, 125) =~= " FROM "@
            &&& columns.len() == 8
            &&& columns[0] == "mm.from_node as node_id"@
            &&& columns[1] == " mm.timestamp"@
            &&& columns[2] == " pd.latitude"@
            &&& columns[3] == " pd.longitude"@
            &&& columns[4] == " pd.altitude"@
            &&& columns[5] == " td.battery_level"@
            &&& columns[6] == " mm.rssi"@
            &&& columns[7] == " mm.snr"@
        }),
{
    lemma_selected_list();
    let query = position_query(count);
    let select = position_select();
    assert(query.take(7) =~= select.take(7));
    assert(query.subrange(7, 119) =~= select.subrange(7, 119));
    assert(query.subrange(119, 125) =~= select.subrange(119, 125));
    let columns = seq![
        "mm.from_node as node_id"@,
        " mm.timestamp"@,
        " pd.latitude"@,
        " pd.longitude"@,
        " pd.altitude"@,
        " td.battery_level"@,
        " mm.rssi"@,
        " mm.snr"@,
    ];
    lemma_columns_joined(columns);
    crate::text::law_join_then_split(columns, ',');
}

/// A query for positions takes each position with its message and with the telemetry of that message
/// where it is the node's latest up to then; asks for the nodes given, where any are; and takes the
/// latest first, up to the limit.
pub proof fn law_query_clauses(count: nat)
    ensures
        ({
            let query = position_query(count);
            &&& query.len() >= 413
            &&& query.subrange(119, 413) =~= " FROM mesh_messages mm"@
                + " INNER JOIN position_data pd ON mm.id = pd.message_id"@
                + " LEFT JOIN telemetry_data td ON mm.id = td.message_id"@
                + " AND td.message_id = ( SELECT mm2.id FROM mesh_messages mm2"@
                + " WHERE mm2.from_node = mm.from_node AND mm2.timestamp <= mm.timestamp"@
                + " ORDER BY mm2.timestamp DESC LIMIT 1 )"@
            &&& count == 0 ==> query.skip(413) =~= " ORDER BY mm.timestamp DESC LIMIT ?"@
            &&& count > 0 ==> query.skip(413) =~= " WHERE mm.from_node IN ("@ + placeholders(count)
                + ") ORDER BY mm.timestamp DESC LIMIT ?"@
        }),
{
    reveal_strlit(
        "SELECT mm.from_node as node_id, mm.timestamp, pd.latitude, pd.longitude, pd.altitude, td.battery_level, mm.rssi, mm.snr FROM mesh_messages mm INNER JOIN position_data pd ON mm.id = pd.message_id LEFT JOIN telemetry_data td ON mm.id = td.message_id AND td.message_id = ( SELECT mm2.id FROM mesh_messages mm2 WHERE mm2.from_node = mm.from_node AND mm2.timestamp <= mm.timestamp ORDER BY mm2.timestamp DESC LIMIT 1 )",
    );
    reveal_strlit(" FROM mesh_messages mm");
    reveal_strlit(" INNER JOIN position_data pd ON mm.id = pd.message_id");
    reveal_strlit(" LEFT JOIN telemetry_data td ON mm.id = td.message_id");
    reveal_strlit(" AND td.message_id = ( SELECT mm2.id FROM mesh_messages mm2");
    reveal_strlit(" WHERE mm2.from_node = mm.from_node AND mm2.timestamp <= mm.timestamp");
    reveal_strlit(" ORDER BY mm2.timestamp DESC LIMIT 1 )");
    reveal_strlit(" ORDER BY mm.timestamp DESC LIMIT ?");
    reveal_strlit(" WHERE mm.from_node IN (");
    reveal_strlit(")");
    reveal_strlit(") ORDER BY mm.timestamp DESC LIMIT ?");
    assert(position_query(count).subrange(119, 413) =~= position_select().skip(119));
}

/// So many placeholders are single question marks with single commas between them.
pub proof fn law_placeholders_alternate(count: nat)
    ensures
        count > 0 ==> placeholders(count).len() == 2 * count - 1,
        forall|i: int|
            0 <= i < placeholders(count).len() ==> #[trigger] placeholders(count)[i] == (if i % 2
                == 0 {
                '?'
            } else {
                ','
            }),
    decreases count,
{
    if count > 1 {
        law_placeholders_alternate((count - 1) as nat);
    }
}

/// What goes wrong while the database is opened is told with the directory and the cause; and only
/// the first three steps are told so.
pub proof fn law_open_failure_tells_cause(step: OpenStep, place: Seq<char>, cause: Seq<char>)
    ensures
        open_failure(step, place, cause) is Some <==> step == OpenStep::CreateDirectory || step
            == OpenStep::FindWorkingDirectory || step == OpenStep::WriteProbe,
        step == OpenStep::CreateDirectory ==> open_failure(step, place, cause)->0
            == "Failed to create database directory '"@ + place + "': "@ + cause,
        step == OpenStep::FindWorkingDirectory ==> open_failure(step, place, cause)->0
            == "Failed to get current directory: "@ + cause,
        step == OpenStep::WriteProbe ==> open_failure(step, place, cause)->0
            == "Cannot write to database directory '"@ + place + "': "@ + cause
            + ". Check permissions or use a different database path."@,
{
}

/// Opening goes through the steps one by one, and from the first it is ready after six.
pub proof fn law_opening_ends_ready(step: OpenStep)
    ensures
        step_after(step) == step <==> step == OpenStep::Ready,
        step_after(OpenStep::CreateDirectory) == OpenStep::FindWorkingDirectory,
        step_after(step_after(OpenStep::CreateDirectory)) == OpenStep::WriteProbe,
        step_after(step_after(step_after(OpenStep::CreateDirectory))) == OpenStep::RemoveProbe,
        step_after(OpenStep::RemoveProbe) == OpenStep::Connect,
        step_after(OpenStep::Connect) == OpenStep::InitializeSchema,
        step_after(OpenStep::InitializeSchema) == OpenStep::Ready,
{
}

/// A message is removed by a cleanup that keeps so many days exactly where more seconds than those of
/// that many days have passed since it came.
pub proof fn law_removed_by_age(timestamp: i64, now: int, days: int)
    ensures
        is_removed(timestamp, now, days) <==> now - timestamp > days * 86400,
{
}

} // verus!
