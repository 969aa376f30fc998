//! What comes in over MQTT: topics and payloads are turned into messages of the mesh.

use vstd::prelude::*;
use std::time::Duration;
use crate::identity::{random_uuid, uuid_text};
use crate::json::{has_key, parse_json};
use crate::models::{MeshWatchyError, MessageType, MqttConfig, RawMqttMessage, RecentMessage};
use crate::numbers::{decimal, parse_int};
use crate::text::{chars_of, nth_piece, string_of};
use crate::textmap::TextMap;
use crate::time::{from_timestamp, utc_now, UtcTime, LAST_SECOND};
use crate::topic::clean;
#[allow(unused_imports)]
use crate::identity::{hyphenated, is_random_uuid};
#[allow(unused_imports)]
use crate::json::{json_keys, json_value};
#[allow(unused_imports)]
use crate::numbers::{decimal_of, digits_value, hex8, law_hex_reads_back, parsed_int};
#[allow(unused_imports)]
use crate::text::piece;
#[allow(unused_imports)]
use crate::time::{clock_time, duration_of, time_of};
#[allow(unused_imports)]
use crate::topic::cleaned;

verus! {

/// The node number that addresses every node.
pub const BROADCAST: i64 = 4294967295;

/// The hash that the standard library's `DefaultHasher`, as `DefaultHasher::new` makes it, gives a
/// text.
pub uninterp spec fn text_hash(text: Seq<char>) -> u64;

/// Calls `std::hash::BuildHasher::hash_one` for the standard library's `DefaultHasher` in its
/// default state. Claimed of it: the hash depends on the text alone.
#[verifier::external_body]
fn hash_text(text: &str) -> (r: u64)
    ensures
        r == text_hash(text@),
{
    std::hash::BuildHasher::hash_one(
        &std::hash::BuildHasherDefault::<std::collections::hash_map::DefaultHasher>::default(),
        text,
    )
}

/// The text that the standard library's `String::from_utf8_lossy` makes of bytes.
pub uninterp spec fn lossy_text(bytes: Seq<u8>) -> Seq<char>;

/// Calls `String::from_utf8_lossy`. Claimed of it: the text depends on the bytes alone, and bytes
/// that are UTF-8 are decoded.
#[verifier::external_body]
fn decode_lossy(bytes: &[u8]) -> (r: String)
    ensures
        r@ == lossy_text(bytes@),
        vstd::utf8::valid_utf8(bytes@) ==> r@ == vstd::utf8::decode_utf8(bytes@),
{
    String::from_utf8_lossy(bytes).into_owned()
}

/// A 64 bit pattern read as a signed number.
pub open spec fn signed(bits: u64) -> int {
    if bits < 0x8000_0000_0000_0000 {
        bits as int
    } else {
        bits - 0x1_0000_0000_0000_0000
    }
}

/// The message type that the keys of a payload tell: position before telemetry before node
/// information before text.
pub open spec fn inferred_type(keys: Set<Seq<char>>) -> MessageType {
    if keys.contains("latitude_i"@) || keys.contains("longitude_i"@) {
        MessageType::Position
    } else if keys.contains("battery_level"@) || keys.contains("voltage"@) || keys.contains(
        "air_util_tx"@,
    ) {
        MessageType::Telemetry
    } else if keys.contains("longname"@) || keys.contains("shortname"@) || keys.contains(
        "hardware"@,
    ) {
        MessageType::Nodeinfo
    } else if keys.contains("text"@) {
        MessageType::Text
    } else {
        MessageType::Unknown
    }
}

/// The number of a node by its identifier: the hexadecimal number behind an exclamation mark, or
/// else the hash given for the identifier.
pub open spec fn number_by(id: Seq<char>, hash: u64) -> int {
    if id.len() > 0 && id[0] == '!' && parsed_int(id.skip(1), 16) is Some {
        parsed_int(id.skip(1), 16)->0
    } else {
        signed(hash)
    }
}

/// The number of a node by its identifier: the hexadecimal number behind an exclamation mark, or
/// else the hash of the identifier.
pub open spec fn node_number(id: Seq<char>) -> int {
    number_by(id, text_hash(id))
}

/// The sender that a topic names: its sixth level, or else "unknown".
pub open spec fn sender_of(topic: Seq<char>) -> Seq<char> {
    match piece(topic, '/', 5) {
        Some(sender) => sender,
        None => "unknown"@,
    }
}

/// Whether `m` is the message that a bare payload from a topic makes at the time `now`.
pub open spec fn is_raw_message(
    m: RawMqttMessage,
    payload: serde_json::Value,
    topic: Seq<char>,
    now: int,
) -> bool {
    &&& m.timestamp == now
    &&& m.sender@ == sender_of(topic)
    &&& m.from == node_number(sender_of(topic))
    &&& m.message_type == inferred_type(json_keys(payload))
    &&& m.id == now * 0x1_0000 + m.from as int % 0x1_0000
    &&& m.to == BROADCAST
    &&& m.channel == 0
    &&& m.rssi is None
    &&& m.snr is None
    &&& m.hop_start is None
    &&& m.hops_away is None
    &&& m.payload == payload
}

/// Whether `r` is what is broadcast of the message `m` from a topic, where `fallback` is the time
/// taken for a timestamp that names none.
pub open spec fn is_broadcast(
    r: RecentMessage,
    m: RawMqttMessage,
    topic: Seq<char>,
    fallback: UtcTime,
) -> bool {
    &&& r.id == m.id
    &&& r.message_type@ == m.message_type.name()
    &&& r.from_node@ == decimal_of(m.from as int)
    &&& r.to_node matches Some(to) && to@ == decimal_of(m.to as int)
    &&& r.channel == Some(m.channel)
    &&& r.timestamp == (match time_of(m.timestamp) {
        Some(time) => time,
        None => fallback,
    })
    &&& r.gateway matches Some(gateway) && gateway@ == topic
    &&& r.raw_json == m.payload
}

/// A message taken in, with the topic that it came from, cleaned.
pub struct Ingested {
    pub topic: String,
    pub message: RawMqttMessage,
}

/// How to open the session with the broker.
#[derive(Debug)]
pub struct SessionOptions {
    pub client_id: String,
    pub host: String,
    pub port: u16,
    pub keep_alive_seconds: u64,
    pub clean_session: bool,
    /// User name and password.
    pub credentials: Option<(String, String)>,
    pub queue_capacity: usize,
}

/// Whether `options` are those for a configuration under the identity `id`.
pub open spec fn is_session(options: SessionOptions, config: MqttConfig, id: u128) -> bool {
    &&& options.client_id@ == "mesh-watchy-"@ + hyphenated(id)
    &&& options.host == config.broker_host
    &&& options.port == config.broker_port
    &&& options.keep_alive_seconds == 60
    &&& !options.clean_session
    &&& options.credentials == (match (config.username, config.password) {
        (Some(username), Some(password)) => Some((username, password)),
        _ => None,
    })
    &&& options.queue_capacity == 100
}

/// What the event loop of the broker connection reports.
#[derive(Clone, Copy, Debug, PartialEq, Eq, Structural)]
pub enum MqttEvent {
    /// A message was published.
    Publish,
    /// The connection was accepted.
    ConnAck,
    /// A subscription was accepted.
    SubAck,
    /// Another packet came in.
    OtherIncoming,
    /// A packet went out.
    Outgoing,
    /// The connection failed.
    Failed,
}

/// What to do about an event.
#[derive(Clone, Copy, Debug, PartialEq, Eq, Structural)]
pub enum MqttAction {
    /// Take the published message in, then go on.
    Process,
    /// Go on.
    Continue,
    /// Wait for so many seconds, then go on.
    Pause(u64),
}

/// A client of the broker.
pub struct MqttClient {
    config: MqttConfig,
    options: SessionOptions,
}

impl MqttClient {
    /// The configuration of the client.
    pub closed spec fn config(self) -> MqttConfig {
        self.config
    }

    /// The session options of the client.
    pub closed spec fn session(self) -> SessionOptions {
        self.options
    }

    /// A client for a configuration, under a new random identity.
    pub fn new(config: MqttConfig) -> (r: Self)
        ensures
            r.config() == config,
            exists|id: u128|
                is_random_uuid(id) && #[trigger] is_session(r.session(), config, id),
    {
        let id = random_uuid();
        let ghost given = config;
        let r = Self::with_identity(config, id);
        proof {
            assert(is_session(r.session(), given, id));
        }
        r
    }

    /// A client for a configuration under a given identity.
    pub fn with_identity(config: MqttConfig, id: u128) -> (r: Self)
        ensures
            r.config() == config,
            is_session(r.session(), config, id),
    {
        let mut client_id = "mesh-watchy-".to_owned();
        client_id.append(uuid_text(id).as_str());
        let credentials = match (&config.username, &config.password) {
            (Some(username), Some(password)) => Some((username.clone(), password.clone())),
            _ => None,
        };
        let options = SessionOptions {
            client_id,
            host: config.broker_host.clone(),
            port: config.broker_port,
            keep_alive_seconds: 60,
            clean_session: false,
            credentials,
            queue_capacity: 100,
        };
        MqttClient { config, options }
    }

    /// How to open the session with the broker.
    pub fn options(&self) -> (r: &SessionOptions)
        ensures
            *r == self.session(),
    {
        &self.options
    }

    /// The topics to subscribe to, in order.
    pub fn topics(&self) -> (r: &Vec<String>)
        ensures
            *r == self.config().topics,
    {
        &self.config.topics
    }

    /// Whether the client counts as connected: it always does, as the connection is kept up by the
    /// event loop.
    pub fn is_connected(&self) -> (r: bool)
        ensures
            r,
    {
        true
    }

    /// What to do about an event of the connection.
    pub fn react(event: MqttEvent) -> (r: MqttAction)
        ensures
            r == (match event {
                MqttEvent::Publish => MqttAction::Process,
                MqttEvent::Failed => MqttAction::Pause(5),
                _ => MqttAction::Continue,
            }),
    {
        match event {
            MqttEvent::Publish => MqttAction::Process,
            MqttEvent::Failed => MqttAction::Pause(5),
            _ => MqttAction::Continue,
        }
    }

    /// The text of a published payload; what is not UTF-8 in it is replaced.
    pub fn payload_text(payload: &[u8]) -> (r: String)
        ensures
            r@ == lossy_text(payload@),
            vstd::utf8::valid_utf8(payload@) ==> r@ == vstd::utf8::decode_utf8(payload@),
    {
        decode_lossy(payload)
    }

    /// A topic without terminal escape sequences.
    pub fn clean_topic(topic: &str) -> (r: String)
        ensures
            r@ == cleaned(topic@),
    {
        clean(topic)
    }

    /// The message type of a payload, by whether it has keys of a position, of telemetry, of node
    /// information and of a text.
    pub fn type_told(position: bool, telemetry: bool, nodeinfo: bool, text: bool) -> (r:
        MessageType)
        ensures
            r == (if position {
                MessageType::Position
            } else if telemetry {
                MessageType::Telemetry
            } else if nodeinfo {
                MessageType::Nodeinfo
            } else if text {
                MessageType::Text
            } else {
                MessageType::Unknown
            }),
    {
        if position {
            MessageType::Position
        } else if telemetry {
            MessageType::Telemetry
        } else if nodeinfo {
            MessageType::Nodeinfo
        } else if text {
            MessageType::Text
        } else {
            MessageType::Unknown
        }
    }

    /// The message type that the keys of a payload tell.
    pub fn infer_message_type(payload: &serde_json::Value) -> (r: MessageType)
        ensures
            r == inferred_type(json_keys(*payload)),
    {
        let position = has_key(payload, "latitude_i") || has_key(payload, "longitude_i");
        let telemetry = has_key(payload, "battery_level") || has_key(payload, "voltage") || has_key(
            payload,
            "air_util_tx",
        );
        let nodeinfo = has_key(payload, "longname") || has_key(payload, "shortname") || has_key(
            payload,
            "hardware",
        );
        Self::type_told(position, telemetry, nodeinfo, has_key(payload, "text"))
    }

    /// The number of a node by its identifier.
    pub fn node_id_to_numeric(node_id: &str) -> (r: i64)
        ensures
            r == node_number(node_id@),
    {
        Self::numeric_by(node_id, hash_text(node_id))
    }

    /// The number of a node by its identifier, where `hash` is the hash of the identifier.
    pub fn numeric_by(node_id: &str, hash: u64) -> (r: i64)
        ensures
            r == number_by(node_id@, hash),
    {
        let chars = chars_of(node_id);
        if chars.len() > 0 && chars[0] == '!' {
            let mut digits: Vec<char> = Vec::new();
            let mut i: usize = 1;
            while i < chars.len()
                invariant
                    1 <= i <= chars@.len(),
                    digits@ == chars@.subrange(1, i as int),
                decreases chars@.len() - i,
            {
                digits.push(chars[i]);
                proof {
                    assert(chars@.subrange(1, i + 1) =~= chars@.subrange(1, i as int).push(
                        chars@[i as int],
                    ));
                }
                i = i + 1;
            }
            proof {
                assert(chars@.subrange(1, i as int) =~= chars@.skip(1));
            }
            match parse_int(&digits, 16) {
                Some(number) => {
                    return number;
                },
                None => {},
            }
        }
        proof {
            assert(hash < 0x8000_0000_0000_0000 ==> (hash as i64) == hash) by (bit_vector);
            assert(hash >= 0x8000_0000_0000_0000 ==> (hash as i64) == hash
                - 0x1_0000_0000_0000_0000) by (bit_vector);
        }
        hash as i64
    }

    /// The message that a bare payload from a topic makes at the time `now`, in seconds.
    pub fn raw_message_at(payload: serde_json::Value, topic: &str, now: i64) -> (r: RawMqttMessage)
        requires
            0 <= now <= LAST_SECOND,
        ensures
            is_raw_message(r, payload, topic@, now as int),
    {
        let sender = match nth_piece(topic, '/', 5) {
            Some(sender) => sender,
            None => "unknown".to_owned(),
        };
        let from: i64 = Self::node_id_to_numeric(sender.as_str());
        let message_type = Self::infer_message_type(&payload);
        let id: i64 = (now << 16) | (from & 0xffff);
        proof {
            let low = from & 0xffff;
            let wide = (from as u64);
            assert(0 <= low < 0x1_0000 && low == wide % 0x1_0000) by (bit_vector)
                requires
                    low == from & 0xffff,
                    wide == (from as u64),
            ;
            assert(from < 0 ==> wide == from + 0x1_0000_0000_0000_0000) by (bit_vector)
                requires
                    wide == (from as u64),
            ;
            assert(from >= 0 ==> wide == from) by (bit_vector)
                requires
                    wide == (from as u64),
            ;
            assert(low == from as int % 0x1_0000);
            assert((now << 16) | low == now * 0x1_0000 + low) by (bit_vector)
                requires
                    0 <= now <= 0x7fff_ffff_ffff,
                    0 <= low < 0x1_0000,
            ;
        }
        RawMqttMessage {
            id,
            timestamp: now,
            message_type,
            sender,
            from,
            to: BROADCAST,
            channel: 0,
            rssi: None,
            snr: None,
            hop_start: None,
            hops_away: None,
            payload,
        }
    }

    /// The message that a payload makes which is JSON but not a message in itself.
    pub fn parse_raw_payload(payload: &str, topic: &str) -> (r: Result<
        RawMqttMessage,
        MeshWatchyError,
    >)
        ensures
            match json_value(payload@) {
                Ok(value) => r matches Ok(m) && 0 <= m.timestamp <= LAST_SECOND && is_raw_message(
                    m,
                    value,
                    topic@,
                    m.timestamp as int,
                ),
                Err(reason) => r matches Err(MeshWatchyError::Json(cause)) && cause@ == reason,
            },
    {
        match parse_json(payload) {
            Ok(value) => {
                let now = utc_now();
                Ok(Self::raw_message_at(value, topic, now.secs))
            },
            Err(reason) => Err(MeshWatchyError::Json(reason)),
        }
    }

    /// A message whose type is told by its payload where it came without one.
    pub fn settle_type(message: RawMqttMessage) -> (r: RawMqttMessage)
        ensures
            r == (RawMqttMessage {
                message_type: (if message.message_type == MessageType::Unknown {
                    inferred_type(json_keys(message.payload))
                } else {
                    message.message_type
                }),
                ..message
            }),
    {
        let mut settled = message;
        if settled.message_type == MessageType::Unknown {
            let told = Self::infer_message_type(&settled.payload);
            settled.message_type = told;
        }
        settled
    }

    /// Takes a published payload in. `structured` is the message that the payload is, where it is
    /// one in itself. Otherwise the payload is wrapped into a message, where it is JSON at all; where
    /// it is not, it is dropped.
    pub fn process_mqtt_message(
        topic: &str,
        payload: &str,
        structured: Option<RawMqttMessage>,
    ) -> (r: Option<Ingested>)
        ensures
            r is None <==> structured is None && json_value(payload@) is Err,
            r matches Some(ingested) ==> ingested.topic@ == cleaned(topic@),
            (r is Some && structured is Some) ==> (r->0).message == (RawMqttMessage {
                message_type: (if (structured->0).message_type == MessageType::Unknown {
                    inferred_type(json_keys((structured->0).payload))
                } else {
                    (structured->0).message_type
                }),
                ..structured->0
            }),
            (r is Some && structured is None) ==> {
                &&& 0 <= (r->0).message.timestamp <= LAST_SECOND
                &&& is_raw_message(
                    (r->0).message,
                    json_value(payload@)->Ok_0,
                    cleaned(topic@),
                    (r->0).message.timestamp as int,
                )
            },
    {
        let clean_topic = Self::clean_topic(topic);
        let message = match structured {
            Some(message) => Self::settle_type(message),
            None => match Self::parse_raw_payload(payload, clean_topic.as_str()) {
                Ok(message) => message,
                Err(_) => {
                    return None;
                },
            },
        };
        Some(Ingested { topic: clean_topic, message })
    }

    /// What is broadcast of a message, where `fallback` is the time taken for a timestamp that names
    /// none.
    pub fn recent_message_at(message: &RawMqttMessage, topic: &str, fallback: UtcTime) -> (r:
        RecentMessage)
        ensures
            is_broadcast(r, *message, topic@, fallback),
    {
        let timestamp = match from_timestamp(message.timestamp) {
            Some(time) => time,
            None => fallback,
        };
        RecentMessage {
            id: message.id,
            message_type: message.message_type.to_string(),
            from_node: decimal(message.from),
            to_node: Some(decimal(message.to)),
            channel: Some(message.channel),
            timestamp,
            gateway: Some(topic.to_owned()),
            raw_json: message.payload.clone(),
        }
    }

    /// What is broadcast of a message; a timestamp that names no time is replaced by the present.
    pub fn recent_message(message: &RawMqttMessage, topic: &str) -> (r: RecentMessage)
        ensures
            exists|fallback: UtcTime|
                (time_of(message.timestamp) is None ==> clock_time(fallback)) && #[trigger]
                    is_broadcast(r, *message, topic@, fallback),
    {
        let fallback = match from_timestamp(message.timestamp) {
            Some(time) => time,
            None => utc_now(),
        };
        let r = Self::recent_message_at(message, topic, fallback);
        proof {
            assert(is_broadcast(r, *message, topic@, fallback));
        }
        r
    }

    /// The identifier made for a bare payload tells the second in which it came and the lowest
    /// sixteen bits of its sender.
    pub proof fn law_id_parts(
        m: RawMqttMessage,
        payload: serde_json::Value,
        topic: Seq<char>,
        now: int,
    )
        requires
            is_raw_message(m, payload, topic, now),
        ensures
            m.id as int / 0x1_0000 == now,
            m.id as int % 0x1_0000 == m.from as int % 0x1_0000,
    {
    }

    /// A node identifier, an exclamation mark and at least eight hexadecimal digits, stands for the
    /// number that it was written for.
    pub proof fn law_node_id_round_trip(number: nat)
        requires
            number <= i64::MAX,
        ensures
            node_number(seq!['!'] + hex8(number)) == number,
    {
        let id = seq!['!'] + hex8(number);
        assert(id.skip(1) =~= hex8(number));
        law_hex_reads_back(number);
        assert(digits_value(hex8(number), 16) is Some);
        let first = hex8(number)[0];
        assert(first != '-' && first != '+') by {
            crate::numbers::lemma_hex_starts_with_digit(number);
        }
    }

    /// Keys that tell no type change nothing: the type told is that of the keys that do.
    pub proof fn law_type_by_telling_keys(keys: Set<Seq<char>>, extra: Seq<char>)
        requires
            extra != "latitude_i"@,
            extra != "longitude_i"@,
            extra != "battery_level"@,
            extra != "voltage"@,
            extra != "air_util_tx"@,
            extra != "longname"@,
            extra != "shortname"@,
            extra != "hardware"@,
            extra != "text"@,
        ensures
            inferred_type(keys.insert(extra)) == inferred_type(keys),
    {
    }
}

/// Statistics of the connection.
pub struct MqttStats {
    pub total_messages: u64,
    pub messages_by_type: TextMap<u64>,
    pub last_message_time: Option<UtcTime>,
    /// How long the connection has been up.
    pub connection_uptime: Duration,
}

/// Keeps the statistics of the connection.
pub struct MqttManager {
    stats: MqttStats,
}

impl MqttManager {
    /// The statistics.
    pub closed spec fn stats(self) -> MqttStats {
        self.stats
    }

    /// A manager that has seen nothing yet.
    pub fn new() -> (r: Self)
        ensures
            r.stats().total_messages == 0,
            r.stats().messages_by_type.wf(),
            r.stats().messages_by_type@ == Map::<Seq<char>, u64>::empty(),
            r.stats().last_message_time is None,
            r.stats().connection_uptime == duration_of(0, 0),
    {
        MqttManager {
            stats: MqttStats {
                total_messages: 0,
                messages_by_type: TextMap::new(),
                last_message_time: None,
                connection_uptime: Duration::new(0, 0),
            },
        }
    }

    /// The statistics as they stand.
    pub fn get_stats(&self) -> (r: MqttStats)
        ensures
            r.total_messages == self.stats().total_messages,
            r.messages_by_type.rows() == self.stats().messages_by_type.rows(),
            r.messages_by_type@ == self.stats().messages_by_type@,
            r.last_message_time == self.stats().last_message_time,
            r.connection_uptime == self.stats().connection_uptime,
    {
        MqttStats {
            total_messages: self.stats.total_messages,
            messages_by_type: self.stats.messages_by_type.copy(),
            last_message_time: self.stats.last_message_time,
            connection_uptime: self.stats.connection_uptime,
        }
    }

    /// Whether the client counts as running: it never does, as the event loop owns it once it is
    /// started.
    pub fn is_running(&self) -> (r: bool)
        ensures
            !r,
    {
        false
    }
}

impl Default for MqttManager {
    fn default() -> (r: Self)
        ensures
            r.stats().total_messages == 0,
            r.stats().messages_by_type.wf(),
            r.stats().messages_by_type@ == Map::<Seq<char>, u64>::empty(),
            r.stats().last_message_time is None,
            r.stats().connection_uptime == duration_of(0, 0),
    {
        MqttManager::new()
    }
}

/// Either key of a position tells one, whatever else there is.
pub proof fn law_position_keys(keys: Set<Seq<char>>)
    ensures
        keys.contains("latitude_i"@) ==> inferred_type(keys) == MessageType::Position,
        keys.contains("longitude_i"@) ==> inferred_type(keys) == MessageType::Position,
        inferred_type(keys) == MessageType::Position ==> keys.contains("latitude_i"@)
            || keys.contains("longitude_i"@),
{
}

/// Each key of telemetry tells it where there is none of a position, whatever else there is.
pub proof fn law_telemetry_keys(keys: Set<Seq<char>>)
    requires
        !keys.contains("latitude_i"@),
        !keys.contains("longitude_i"@),
    ensures
        keys.contains("battery_level"@) ==> inferred_type(keys) == MessageType::Telemetry,
        keys.contains("voltage"@) ==> inferred_type(keys) == MessageType::Telemetry,
        keys.contains("air_util_tx"@) ==> inferred_type(keys) == MessageType::Telemetry,
        inferred_type(keys) == MessageType::Telemetry ==> keys.contains("battery_level"@)
            || keys.contains("voltage"@) || keys.contains("air_util_tx"@),
{
}

/// Each key of node information tells it where there is none of a position or of telemetry.
pub proof fn law_nodeinfo_keys(keys: Set<Seq<char>>)
    requires
        !keys.contains("latitude_i"@),
        !keys.contains("longitude_i"@),
        !keys.contains("battery_level"@),
        !keys.contains("voltage"@),
        !keys.contains("air_util_tx"@),
    ensures
        keys.contains("longname"@) ==> inferred_type(keys) == MessageType::Nodeinfo,
        keys.contains("shortname"@) ==> inferred_type(keys) == MessageType::Nodeinfo,
        keys.contains("hardware"@) ==> inferred_type(keys) == MessageType::Nodeinfo,
        inferred_type(keys) == MessageType::Nodeinfo ==> keys.contains("longname"@)
            || keys.contains("shortname"@) || keys.contains("hardware"@),
{
}

/// The key of a text tells one where no other key tells anything, and without it nothing is told.
pub proof fn law_text_key(keys: Set<Seq<char>>)
    requires
        !keys.contains("latitude_i"@),
        !keys.contains("longitude_i"@),
        !keys.contains("battery_level"@),
        !keys.contains("voltage"@),
        !keys.contains("air_util_tx"@),
        !keys.contains("longname"@),
        !keys.contains("shortname"@),
        !keys.contains("hardware"@),
    ensures
        keys.contains("text"@) ==> inferred_type(keys) == MessageType::Text,
        !keys.contains("text"@) ==> inferred_type(keys) == MessageType::Unknown,
{
}

/// A 64 bit pattern read as a signed number has that pattern again.
pub proof fn law_signed_keeps_the_pattern(bits: u64)
    ensures
        -0x8000_0000_0000_0000 <= signed(bits) < 0x8000_0000_0000_0000,
        signed(bits) % 0x1_0000_0000_0000_0000 == bits,
{
}

/// An identifier that is not hexadecimal behind an exclamation mark has the number of its hash, and
/// one that is has its own number whatever the hash.
pub proof fn law_number_by_digits_or_hash(id: Seq<char>, rest: Seq<char>, hash: u64)
    ensures
        id.len() == 0 || id[0] != '!' ==> number_by(id, hash) == signed(hash),
        parsed_int(rest, 16) is None ==> number_by(seq!['!'] + rest, hash) == signed(hash),
        parsed_int(rest, 16) matches Some(number) ==> number_by(seq!['!'] + rest, hash) == number,
        node_number(id) == number_by(id, text_hash(id)),
{
    assert((seq!['!'] + rest).skip(1) =~= rest);
}

/// The sender of a message is the sixth level of its topic, where it has six, and otherwise unknown.
pub proof fn law_sender_is_sixth_level(levels: Seq<Seq<char>>)
    requires
        levels.len() > 0,
        forall|k: int| 0 <= k < levels.len() ==> !(#[trigger] levels[k]).contains('/'),
    ensures
        levels.len() >= 6 ==> sender_of(crate::text::join_with(levels, '/')) == levels[5],
        levels.len() < 6 ==> sender_of(crate::text::join_with(levels, '/')) =~= seq![
            'u',
            'n',
            'k',
            'n',
            'o',
            'w',
            'n',
        ],
{
    crate::text::law_join_then_split(levels, '/');
    reveal_strlit("unknown");
}

/// A message made of a bare payload is of the present second, from the sender of its topic, to every
/// node on the first channel, and tells nothing of its reception; its type is told by its keys.
pub proof fn law_bare_payload_message(
    m: RawMqttMessage,
    payload: serde_json::Value,
    topic: Seq<char>,
    now: int,
)
    requires
        is_raw_message(m, payload, topic, now),
    ensures
        m.timestamp == now,
        m.sender@ == sender_of(topic),
        m.from == node_number(m.sender@),
        m.message_type == inferred_type(json_keys(m.payload)),
        m.payload == payload,
        m.to == 0xffff_ffff,
        m.channel == 0,
        m.rssi is None,
        m.snr is None,
        m.hop_start is None,
        m.hops_away is None,
        m.id == now * 65536 + m.from as int % 65536,
{
}

/// What is broadcast of a message has its identifier, its type, its channel and its payload; the
/// numbers of its sender and of the node it is for can be read back; and its time is its own where
/// that can be named.
pub proof fn law_broadcast_has_the_message(
    r: RecentMessage,
    m: RawMqttMessage,
    topic: Seq<char>,
    fallback: UtcTime,
)
    requires
        is_broadcast(r, m, topic, fallback),
    ensures
        r.id == m.id,
        r.message_type@ == m.message_type.name(),
        r.channel == Some(m.channel),
        r.raw_json == m.payload,
        parsed_int(r.from_node@, 10) == Some(m.from as int),
        r.to_node matches Some(to) && parsed_int(to@, 10) == Some(m.to as int),
        r.gateway matches Some(gateway) && gateway@ == topic,
        -8334601228800 <= m.timestamp <= 8210266876799 ==> r.timestamp.secs == m.timestamp
            && r.timestamp.nanos == 0,
        !(-8334601228800 <= m.timestamp <= 8210266876799) ==> r.timestamp == fallback,
{
    crate::numbers::law_decimal_reads_back(m.from);
    crate::numbers::law_decimal_reads_back(m.to);
}

/// A session goes to the host and the port configured, is kept alive each minute and outlasts the
/// connection; it has a user name and a password where both are configured; and its identifier names
/// the program and the identity.
pub proof fn law_session_follows_configuration(
    options: SessionOptions,
    config: MqttConfig,
    id: u128,
)
    requires
        is_session(options, config, id),
    ensures
        options.host == config.broker_host,
        options.port == config.broker_port,
        options.keep_alive_seconds == 60,
        !options.clean_session,
        options.queue_capacity == 100,
        options.credentials is Some <==> config.username is Some && config.password is Some,
        options.credentials matches Some((username, password)) ==> config.username == Some(username)
            && config.password == Some(password),
        options.client_id@.len() == 48,
        options.client_id@.take(12) =~= "mesh-watchy-"@,
        options.client_id@.skip(12) =~= hyphenated(id),
{
    reveal_strlit("mesh-watchy-");
}

} // verus!
