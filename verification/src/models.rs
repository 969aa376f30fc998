//! The data of the mesh monitor: messages, their payloads, what is stored of them and what is
//! shown.

use vstd::prelude::*;
use crate::textmap::TextMap;
use crate::time::UtcTime;

verus! {

/// A single precision number, held by its IEEE 754 bits.
#[derive(Clone, Copy, Debug, PartialEq, Eq, Structural)]
pub struct Real32 {
    pub bits: u32,
}

/// A double precision number, held by its IEEE 754 bits.
#[derive(Clone, Copy, Debug, PartialEq, Eq, Structural)]
pub struct Real64 {
    pub bits: u64,
}

/// Core message types of the Meshtastic protocol.
#[derive(Clone, Copy, Debug, PartialEq, Eq, Structural)]
pub enum MessageType {
    Position,
    Nodeinfo,
    Telemetry,
    Text,
    Unknown,
}

impl MessageType {
    /// The name under which the type is stored and sent.
    pub open spec fn name(self) -> Seq<char> {
        match self {
            MessageType::Position => "POSITION"@,
            MessageType::Nodeinfo => "NODEINFO"@,
            MessageType::Telemetry => "TELEMETRY"@,
            MessageType::Text => "TEXT"@,
            MessageType::Unknown => "UNKNOWN"@,
        }
    }

    /// The name under which the type is stored and sent.
    pub fn to_string(&self) -> (r: String)
        ensures
            r@ == self.name(),
    {
        let name: &str = match self {
            MessageType::Position => "POSITION",
            MessageType::Nodeinfo => "NODEINFO",
            MessageType::Telemetry => "TELEMETRY",
            MessageType::Text => "TEXT",
            MessageType::Unknown => "UNKNOWN",
        };
        name.to_owned()
    }

    /// No two types have one name.
    pub proof fn law_names_differ(a: MessageType, b: MessageType)
        ensures
            a.name() == b.name() ==> a == b,
    {
        reveal_strlit("POSITION");
        reveal_strlit("NODEINFO");
        reveal_strlit("TELEMETRY");
        reveal_strlit("TEXT");
        reveal_strlit("UNKNOWN");
        if a.name() == b.name() {
            assert(a.name()[0] == b.name()[0]);
            assert(a.name()[2] == b.name()[2]);
        }
    }
}

/// A message as it is stored.
#[derive(Debug)]
pub struct MeshMessage {
    pub id: i64,
    pub timestamp: i64,
    pub message_type: String,
    pub sender_id: String,
    pub from_node: i64,
    pub channel: i32,
    pub rssi: Option<i32>,
    pub snr: Option<Real32>,
    pub hop_start: Option<i32>,
    pub hops_away: Option<i32>,
    pub mqtt_topic: String,
    /// The payload as JSON text.
    pub payload: String,
}

/// A message as it comes from the mesh.
#[derive(Debug)]
pub struct RawMqttMessage {
    pub id: i64,
    pub timestamp: i64,
    pub message_type: MessageType,
    pub sender: String,
    pub from: i64,
    pub to: i64,
    pub channel: i32,
    pub rssi: Option<i32>,
    pub snr: Option<Real32>,
    pub hop_start: Option<i32>,
    pub hops_away: Option<i32>,
    pub payload: serde_json::Value,
}

/// Position payload. Latitude and longitude count ten-millionths of a degree, the ground track
/// counts thousandths of one.
#[derive(Clone, Copy, Debug)]
pub struct PositionPayload {
    pub pdop: Option<i32>,
    pub altitude: Option<i32>,
    pub ground_speed: Option<i32>,
    pub ground_track: Option<i32>,
    pub latitude_i: i32,
    pub longitude_i: i32,
    pub precision_bits: Option<i32>,
    pub sats_in_view: Option<i32>,
    pub time: Option<i64>,
}

/// Node information payload.
#[derive(Debug)]
pub struct NodeInfoPayload {
    pub hardware: i32,
    pub id: String,
    pub longname: String,
    pub role: i32,
    pub shortname: String,
}

/// Text message payload.
#[derive(Debug)]
pub struct TextMessagePayload {
    pub text: String,
}

/// Text message for display.
#[derive(Debug)]
pub struct TextMessage {
    pub message_id: i64,
    pub from_node: String,
    pub to_node: Option<String>,
    pub text: String,
    pub timestamp: UtcTime,
    pub channel: Option<i32>,
    pub rssi: Option<i32>,
    pub snr: Option<Real32>,
    pub gateway: Option<String>,
}

/// Telemetry payload.
#[derive(Clone, Copy, Debug)]
pub struct TelemetryPayload {
    pub air_util_tx: Option<Real32>,
    pub battery_level: Option<i32>,
    pub channel_utilization: Option<Real32>,
    pub uptime_seconds: Option<i64>,
    pub voltage: Option<Real32>,
}

/// Stored position. Latitude and longitude count ten-millionths of a degree.
#[derive(Clone, Copy, Debug)]
pub struct PositionData {
    pub message_id: i64,
    pub latitude_i: i32,
    pub longitude_i: i32,
    pub altitude: Option<i32>,
    pub ground_speed: Option<i32>,
    pub ground_track: Option<i32>,
    pub pdop: Option<i32>,
    pub satellites_visible: Option<i32>,
    pub gps_time: Option<i64>,
}

/// Stored node information.
#[derive(Debug)]
pub struct NodeInfo {
    pub node_id: String,
    pub hardware_type: i32,
    pub long_name: String,
    pub short_name: String,
    pub role: i32,
    pub last_seen: i64,
}

/// Node information for display.
#[derive(Debug)]
pub struct NodeInfoDisplay {
    pub node_id: String,
    pub hardware_type: i32,
    pub hardware_model: Option<String>,
    pub long_name: Option<String>,
    pub short_name: Option<String>,
    pub role: i32,
    pub last_seen: i64,
    pub first_seen: Option<i64>,
    pub is_active: bool,
    pub has_position: bool,
    pub battery_level: Option<i32>,
    pub user_id: Option<String>,
    pub firmware_version: Option<String>,
}

/// Stored telemetry.
#[derive(Clone, Copy, Debug)]
pub struct TelemetryData {
    pub message_id: i64,
    pub battery_level: Option<i32>,
    pub voltage: Option<Real32>,
    pub air_util_tx: Option<Real32>,
    pub channel_utilization: Option<Real32>,
    pub uptime_seconds: Option<i64>,
}

/// Telemetry for display.
#[derive(Debug)]
pub struct TelemetryDisplay {
    pub node_id: String,
    pub battery_level: Option<i32>,
    pub battery_chart: String,
    pub voltage: Option<Real32>,
    pub air_util_tx: Option<Real32>,
    pub channel_utilization: Option<Real32>,
    pub uptime_seconds: Option<i64>,
    pub timestamp: i64,
}

/// The chart of no reading at all.
pub open spec fn empty_chart() -> Seq<char> {
    "────────────────────"@
}

/// The character that stands for one battery reading: a dash where there is none, a plug above
/// one hundred percent, and otherwise one of eight blocks of rising height.
pub open spec fn level_char(level: Option<i32>) -> char {
    match level {
        None => '─',
        Some(l) => if l > 100 {
            '🔌'
        } else if l <= 12 {
            '▁'
        } else if l <= 25 {
            '▂'
        } else if l <= 37 {
            '▃'
        } else if l <= 50 {
            '▄'
        } else if l <= 62 {
            '▅'
        } else if l <= 75 {
            '▆'
        } else if l <= 87 {
            '▇'
        } else {
            '█'
        },
    }
}

/// The chart of a series of battery readings: one character for each, in order.
pub open spec fn chart_of(levels: Seq<Option<i32>>) -> Seq<char> {
    if levels.len() == 0 {
        empty_chart()
    } else {
        levels.map_values(|level: Option<i32>| level_char(level))
    }
}

/// The character that stands for one battery reading.
fn chart_char(level: Option<i32>) -> (r: char)
    ensures
        r == level_char(level),
{
    match level {
        None => '─',
        Some(l) => if l > 100 {
            '🔌'
        } else if l <= 12 {
            '▁'
        } else if l <= 25 {
            '▂'
        } else if l <= 37 {
            '▃'
        } else if l <= 50 {
            '▄'
        } else if l <= 62 {
            '▅'
        } else if l <= 75 {
            '▆'
        } else if l <= 87 {
            '▇'
        } else {
            '█'
        },
    }
}

impl TelemetryDisplay {
    /// The chart of a series of battery readings, the oldest first.
    pub fn battery_levels_to_time_chart(battery_levels: &[Option<i32>]) -> (r: String)
        ensures
            r@ == chart_of(battery_levels@),
    {
        if battery_levels.len() == 0 {
            return "────────────────────".to_owned();
        }
        let mut r = String::new();
        let mut i: usize = 0;
        while i < battery_levels.len()
            invariant
                i <= battery_levels@.len(),
                r@ == battery_levels@.take(i as int).map_values(
                    |level: Option<i32>| level_char(level),
                ),
            decreases battery_levels@.len() - i,
        {
            r.push(chart_char(battery_levels[i]));
            proof {
                assert(r@ =~= battery_levels@.take(i + 1).map_values(
                    |level: Option<i32>| level_char(level),
                ));
            }
            i = i + 1;
        }
        proof {
            assert(battery_levels@.take(i as int) =~= battery_levels@);
        }
        r
    }

    /// The chart of a single battery reading.
    pub fn battery_level_to_chart(battery_level: Option<i32>) -> (r: String)
        ensures
            r@ == seq![level_char(battery_level)],
    {
        let r = Self::battery_levels_to_time_chart(&[battery_level]);
        proof {
            assert(r@ =~= seq![level_char(battery_level)]);
        }
        r
    }

    /// A series of readings has as many characters in its chart as it has readings.
    pub proof fn law_chart_length(levels: Seq<Option<i32>>)
        requires
            levels.len() > 0,
        ensures
            chart_of(levels).len() == levels.len(),
    {
    }

    /// Up to one hundred percent a higher reading never has a lower block.
    pub proof fn law_blocks_rise(low: i32, high: i32)
        requires
            low <= high <= 100,
        ensures
            level_char(Some(low)) <= level_char(Some(high)),
    {
    }
}

/// A webhook.
pub struct WebhookConfig {
    pub name: String,
    pub url: String,
    pub enabled: bool,
    pub message_types: Vec<MessageType>,
    pub headers: Option<TextMap<String>>,
    /// The devices whose messages are sent, by their number in hexadecimal, such as "2e268b50".
    /// Where there are none, those of every device are.
    pub devices: Vec<String>,
}

/// A webhook, as values.
#[verifier::ext_equal]
pub struct WebhookView {
    pub name: Seq<char>,
    pub url: Seq<char>,
    pub enabled: bool,
    pub message_types: Seq<MessageType>,
    pub headers: Option<Map<Seq<char>, Seq<char>>>,
    pub devices: Seq<Seq<char>>,
}

/// Texts as sequences of characters.
pub open spec fn texts_view(texts: Seq<String>) -> Seq<Seq<char>> {
    texts.map_values(|text: String| text@)
}

impl View for WebhookConfig {
    type V = WebhookView;

    open spec fn view(&self) -> WebhookView {
        WebhookView {
            name: self.name@,
            url: self.url@,
            enabled: self.enabled,
            message_types: self.message_types@,
            headers: (match self.headers {
                Some(headers) => Some(headers.texts()),
                None => None,
            }),
            devices: texts_view(self.devices@),
        }
    }
}

impl WebhookConfig {
    /// No header occurs twice.
    pub open spec fn wf(self) -> bool {
        self.headers matches Some(headers) ==> headers.wf()
    }
}

impl Clone for WebhookConfig {
    fn clone(&self) -> (r: Self)
        ensures
            r@ == self@,
            self.wf() ==> r.wf(),
    {
        let headers = match &self.headers {
            Some(headers) => Some(headers.copy()),
            None => None,
        };
        let r = WebhookConfig {
            name: self.name.clone(),
            url: self.url.clone(),
            enabled: self.enabled,
            message_types: self.message_types.clone(),
            headers,
            devices: self.devices.clone(),
        };
        proof {
            assert(r.message_types@ =~= self.message_types@);
            assert(texts_view(r.devices@) =~= texts_view(self.devices@));
        }
        r
    }
}

/// Whether each of these webhooks is well formed.
pub open spec fn all_wf(webhooks: Seq<WebhookConfig>) -> bool {
    forall|i: int| 0 <= i < webhooks.len() ==> (#[trigger] webhooks[i]).wf()
}

/// Webhooks, as values.
pub open spec fn webhooks_view(webhooks: Seq<WebhookConfig>) -> Seq<WebhookView> {
    webhooks.map_values(|webhook: WebhookConfig| webhook@)
}

/// What is sent to a webhook.
#[derive(Debug)]
pub struct WebhookEvent {
    /// The identifier of the event, a UUID read as a number.
    pub event_id: u128,
    pub timestamp: UtcTime,
    pub message_type: MessageType,
    pub node_id: String,
    pub data: serde_json::Value,
}

/// Application configuration.
pub struct AppConfig {
    pub mqtt: MqttConfig,
    pub database: DatabaseConfig,
    pub web: WebConfig,
    pub webhooks: Vec<WebhookConfig>,
}

/// MQTT configuration.
#[derive(Debug)]
pub struct MqttConfig {
    pub broker_host: String,
    pub broker_port: u16,
    pub username: Option<String>,
    pub password: Option<String>,
    pub topics: Vec<String>,
}

/// Database configuration.
#[derive(Debug)]
pub struct DatabaseConfig {
    pub url: String,
    pub max_connections: u32,
}

/// Web server configuration.
#[derive(Debug)]
pub struct WebConfig {
    pub bind_address: String,
    pub bind_port: u16,
    pub static_dir: String,
    pub templates_dir: String,
}

/// Position for the API.
#[derive(Debug)]
pub struct PositionResponse {
    pub node_id: String,
    pub timestamp: UtcTime,
    pub latitude: Real64,
    pub longitude: Real64,
    pub altitude: Option<i32>,
    pub battery_level: Option<i32>,
    pub rssi: Option<i32>,
    pub snr: Option<Real32>,
}

/// Position with node information, for the map.
#[derive(Debug)]
pub struct PositionResponseDisplay {
    pub node_id: String,
    pub timestamp: UtcTime,
    pub latitude: Real64,
    pub longitude: Real64,
    pub altitude: Option<i32>,
    pub battery_level: Option<i32>,
    pub rssi: Option<i32>,
    pub snr: Option<Real32>,
    pub long_name: Option<String>,
    pub short_name: Option<String>,
    pub hardware_type: i32,
    pub hardware_model: Option<String>,
}

/// Overview of the network.
#[derive(Clone, Copy, Debug)]
pub struct NetworkOverview {
    pub total_nodes: i32,
    pub active_nodes: i32,
    pub messages_today: i32,
    pub last_message: Option<UtcTime>,
}

/// Recent message for display.
#[derive(Debug)]
pub struct RecentMessage {
    pub id: i64,
    pub from_node: String,
    pub to_node: Option<String>,
    pub message_type: String,
    pub timestamp: UtcTime,
    pub channel: Option<i32>,
    pub gateway: Option<String>,
    pub raw_json: serde_json::Value,
}

/// What can go wrong, each with the text of its cause.
#[derive(Debug)]
pub enum MeshWatchyError {
    Database(String),
    Mqtt(String),
    Json(String),
    Config(String),
    Webhook(String),
}

impl MeshWatchyError {
    /// The text that describes the error.
    pub open spec fn text(self) -> Seq<char> {
        match self {
            MeshWatchyError::Database(cause) => "Database error: "@ + cause@,
            MeshWatchyError::Mqtt(cause) => "MQTT error: "@ + cause@,
            MeshWatchyError::Json(cause) => "JSON parsing error: "@ + cause@,
            MeshWatchyError::Config(cause) => "Configuration error: "@ + cause@,
            MeshWatchyError::Webhook(cause) => "Webhook error: "@ + cause@,
        }
    }

    /// The text that describes the error.
    pub fn to_string(&self) -> (r: String)
        ensures
            r@ == self.text(),
    {
        let mut r = String::new();
        match self {
            MeshWatchyError::Database(cause) => {
                r.append("Database error: ");
                r.append(cause.as_str());
            },
            MeshWatchyError::Mqtt(cause) => {
                r.append("MQTT error: ");
                r.append(cause.as_str());
            },
            MeshWatchyError::Json(cause) => {
                r.append("JSON parsing error: ");
                r.append(cause.as_str());
            },
            MeshWatchyError::Config(cause) => {
                r.append("Configuration error: ");
                r.append(cause.as_str());
            },
            MeshWatchyError::Webhook(cause) => {
                r.append("Webhook error: ");
                r.append(cause.as_str());
            },
        }
        proof {
            assert(r@ =~= self.text());
        }
        r
    }
}

/// What a battery reading is drawn as: nothing known as a dash, above one hundred percent as a plug,
/// and what is between zero and one hundred as that of eight blocks, twelve and a half percent each,
/// in which it lies.
pub proof fn law_block_by_height(level: i32)
    ensures
        level_char(None) == '─',
        level > 100 ==> level_char(Some(level)) == '🔌',
        level <= 0 ==> level_char(Some(level)) == '▁',
        1 <= level <= 100 ==> level_char(Some(level)) as int == '▁' as int + (2 * level - 1) / 25,
{
}

/// The chart of a series is drawn reading by reading, in order; that of no reading is twenty dashes.
pub proof fn law_chart_is_drawn_in_order(levels: Seq<Option<i32>>, i: int)
    ensures
        levels.len() == 0 ==> chart_of(levels).len() == 20,
        levels.len() == 0 && 0 <= i < 20 ==> chart_of(levels)[i] == '─',
        0 <= i < levels.len() ==> chart_of(levels).len() == levels.len(),
        0 <= i < levels.len() ==> chart_of(levels)[i] == level_char(levels[i]),
{
    reveal_strlit("────────────────────");
}

/// The name of each type, letter by letter.
pub proof fn law_names_are_spelled(t: MessageType)
    ensures
        t == MessageType::Position ==> t.name() =~= seq!['P', 'O', 'S', 'I', 'T', 'I', 'O', 'N'],
        t == MessageType::Nodeinfo ==> t.name() =~= seq!['N', 'O', 'D', 'E', 'I', 'N', 'F', 'O'],
        t == MessageType::Telemetry ==> t.name() =~= seq![
            'T',
            'E',
            'L',
            'E',
            'M',
            'E',
            'T',
            'R',
            'Y',
        ],
        t == MessageType::Text ==> t.name() =~= seq!['T', 'E', 'X', 'T'],
        t == MessageType::Unknown ==> t.name() =~= seq!['U', 'N', 'K', 'N', 'O', 'W', 'N'],
{
    reveal_strlit("POSITION");
    reveal_strlit("NODEINFO");
    reveal_strlit("TELEMETRY");
    reveal_strlit("TEXT");
    reveal_strlit("UNKNOWN");
}

/// A webhook as values has the name, the address, the state, the types, the headers and the devices
/// of the webhook.
pub proof fn law_webhook_view_is_whole(webhook: WebhookConfig)
    ensures
        webhook@.name == webhook.name@,
        webhook@.url == webhook.url@,
        webhook@.enabled == webhook.enabled,
        webhook@.message_types == webhook.message_types@,
        webhook@.devices.len() == webhook.devices@.len(),
        forall|i: int|
            0 <= i < webhook.devices@.len() ==> webhook@.devices[i] == (
            #[trigger] webhook.devices@[i])@,
        webhook@.headers is Some <==> webhook.headers is Some,
        webhook.headers matches Some(headers) ==> forall|name: Seq<char>|
            #[trigger] headers@.contains_key(name) ==> (webhook@.headers->0).contains_key(name)
                && (webhook@.headers->0)[name] == headers@[name]@,
        webhook.headers matches Some(headers) ==> forall|name: Seq<char>|
            #[trigger] (webhook@.headers->0).contains_key(name) ==> headers@.contains_key(name),
{
}

/// Webhooks as values are as many as the webhooks, each at its place.
pub proof fn law_webhooks_view_in_order(webhooks: Seq<WebhookConfig>, i: int)
    requires
        0 <= i < webhooks.len(),
    ensures
        webhooks_view(webhooks).len() == webhooks.len(),
        webhooks_view(webhooks)[i] == webhooks[i]@,
{
}

/// The text of an error ends with its cause, and what stands before that tells its kind: no two
/// kinds have one text for one cause.
pub proof fn law_error_text_tells_kind_and_cause(a: MeshWatchyError, b: MeshWatchyError)
    ensures
        ({
            let cause = match a {
                MeshWatchyError::Database(cause) => cause@,
                MeshWatchyError::Mqtt(cause) => cause@,
                MeshWatchyError::Json(cause) => cause@,
                MeshWatchyError::Config(cause) => cause@,
                MeshWatchyError::Webhook(cause) => cause@,
            };
            &&& a.text().len() > cause.len()
            &&& a.text().skip(a.text().len() - cause.len()) =~= cause
        }),
        a.text() == b.text() ==> (a is Database <==> b is Database) && (a is Mqtt <==> b is Mqtt)
            && (a is Json <==> b is Json) && (a is Config <==> b is Config) && (a is Webhook
            <==> b is Webhook),
{
    reveal_strlit("Database error: ");
    reveal_strlit("MQTT error: ");
    reveal_strlit("JSON parsing error: ");
    reveal_strlit("Configuration error: ");
    reveal_strlit("Webhook error: ");
    if a.text() == b.text() {
        assert(a.text()[0] == b.text()[0]);
    }
}

/// What stands before the cause in the text of each kind of error.
pub proof fn law_error_text_by_kind(cause: String)
    ensures
        MeshWatchyError::Database(cause).text() == "Database error: "@ + cause@,
        MeshWatchyError::Mqtt(cause).text() == "MQTT error: "@ + cause@,
        MeshWatchyError::Json(cause).text() == "JSON parsing error: "@ + cause@,
        MeshWatchyError::Config(cause).text() == "Configuration error: "@ + cause@,
        MeshWatchyError::Webhook(cause).text() == "Webhook error: "@ + cause@,
{
}

} // verus!
