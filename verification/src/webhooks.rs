//! Webhooks: which of them a message is sent to, what is sent, and how the answers are counted.

use vstd::prelude::*;
use vstd::utf8::{decode_utf8, encode_utf8, is_char_boundary};
use std::time::Duration;
use crate::identity::random_uuid;
use crate::json::{int_value, object_value};
use crate::models::{MeshWatchyError, MessageType, RawMqttMessage, WebhookConfig, WebhookEvent};
use crate::numbers::{bits_of, hex};
use crate::text::text_eq;
use crate::textmap::TextMap;
use crate::time::{utc_now, UtcTime};
#[allow(unused_imports)]
use crate::identity::is_random_uuid;
#[allow(unused_imports)]
use crate::json::{has_member, json_int_value, json_keys, json_object_value, members_view};
#[allow(unused_imports)]
use crate::models::{all_wf, texts_view, webhooks_view, WebhookView};
#[allow(unused_imports)]
use crate::mqtt::inferred_type;
#[allow(unused_imports)]
use crate::numbers::{hex8, twos_complement};
#[allow(unused_imports)]
use crate::time::clock_time;

verus! {

/// A device as webhooks name it: its number in at least eight hexadecimal digits.
pub open spec fn device_of(number: int) -> Seq<char> {
    hex8(twos_complement(number))
}

/// Whether a webhook takes messages of a type from a device: it is enabled, and each of its two
/// lists is empty or has what it filters by.
pub open spec fn takes(webhook: WebhookView, message_type: MessageType, device: Seq<char>) -> bool {
    &&& webhook.enabled
    &&& webhook.message_types.len() == 0 || webhook.message_types.contains(message_type)
    &&& webhook.devices.len() == 0 || webhook.devices.contains(device)
}

/// The webhooks that take messages of a type from a device, in their order.
pub open spec fn selected(
    webhooks: Seq<WebhookView>,
    message_type: MessageType,
    device: Seq<char>,
) -> Seq<WebhookView> {
    webhooks.filter(|webhook: WebhookView| takes(webhook, message_type, device))
}

/// Whether `event` tells of the message `m`.
pub open spec fn is_event(event: WebhookEvent, m: RawMqttMessage) -> bool {
    &&& event.message_type == m.message_type
    &&& event.node_id@ == seq!['!'] + device_of(m.from as int)
    &&& event.data == m.payload
}

/// The place of the first webhook with a name.
pub open spec fn first_named(webhooks: Seq<WebhookConfig>, name: Seq<char>) -> Option<int>
    decreases webhooks.len(),
{
    if webhooks.len() == 0 {
        None
    } else {
        match first_named(webhooks.drop_last(), name) {
            Some(i) => Some(i),
            None => if webhooks.last().name@ == name {
                Some(webhooks.len() - 1)
            } else {
                None
            },
        }
    }
}

/// Which webhooks have another name.
pub open spec fn other_than(name: Seq<char>) -> spec_fn(WebhookConfig) -> bool {
    |webhook: WebhookConfig| webhook.name@ != name
}

/// The webhooks whose name is another.
pub open spec fn without_named(webhooks: Seq<WebhookConfig>, name: Seq<char>) -> Seq<
    WebhookConfig,
> {
    webhooks.filter(other_than(name))
}

/// The webhooks, with the first of that name switched on or off.
pub open spec fn switched(
    webhooks: Seq<WebhookConfig>,
    name: Seq<char>,
    enabled: bool,
) -> Seq<WebhookConfig> {
    match first_named(webhooks, name) {
        Some(i) => webhooks.update(i, WebhookConfig { enabled, ..webhooks[i] }),
        None => webhooks,
    }
}

/// The webhooks that are enabled.
pub open spec fn enabled_ones(webhooks: Seq<WebhookConfig>) -> Seq<WebhookConfig> {
    webhooks.filter(|webhook: WebhookConfig| webhook.enabled)
}

/// Whether an HTTP status tells of success.
pub open spec fn is_success(status: u16) -> bool {
    200 <= status < 300
}

/// How many seconds a webhook has to answer.
pub const ANSWER_SECONDS: u64 = 10;

/// How many bytes of an answer are kept of a test.
pub const KEPT_BYTES: usize = 500;

/// Whether an answer can be cut to what is kept of it: it is no longer than that, or a character
/// ends there.
pub open spec fn can_clip(body: Seq<char>) -> bool {
    encode_utf8(body).len() > KEPT_BYTES ==> is_char_boundary(
        encode_utf8(body),
        KEPT_BYTES as int,
    )
}

/// What is kept of an answer: all of it, or its start and three dots.
pub open spec fn clipped(body: Seq<char>) -> Seq<char> {
    if encode_utf8(body).len() > KEPT_BYTES {
        decode_utf8(encode_utf8(body).take(KEPT_BYTES as int)) + "..."@
    } else {
        body
    }
}

/// The members of the position that a test sends.
pub open spec fn sample_members() -> Seq<(Seq<char>, serde_json::Value)> {
    seq![
        ("latitude_i"@, json_int_value(424041350)),
        ("longitude_i"@, json_int_value(-711257033)),
        ("altitude"@, json_int_value(26)),
        ("PDOP"@, json_int_value(156)),
        ("sats_in_view"@, json_int_value(7)),
    ]
}

/// Whether `event` is one that a test sends.
pub open spec fn is_test_event(event: WebhookEvent) -> bool {
    &&& event.message_type == MessageType::Position
    &&& event.node_id@ == "!test1234"@
    &&& event.data == json_object_value(sample_members())
}

/// Statistics of what was sent to webhooks.
pub struct WebhookStats {
    pub total_sent: u64,
    pub total_failed: u64,
    pub sent_by_webhook: TextMap<u64>,
    pub failed_by_webhook: TextMap<u64>,
    pub last_sent: Option<UtcTime>,
}

impl WebhookStats {
    /// The totals are the sums of what was counted for each webhook, and there is a time of the last
    /// success exactly where there was one.
    pub open spec fn wf(self) -> bool {
        &&& self.sent_by_webhook.wf()
        &&& self.failed_by_webhook.wf()
        &&& self.total_sent == self.sent_by_webhook.total()
        &&& self.total_failed == self.failed_by_webhook.total()
        &&& self.last_sent is None <==> self.total_sent == 0
    }

    /// Whether nothing was counted yet.
    pub open spec fn is_blank(self) -> bool {
        &&& self.total_sent == 0
        &&& self.total_failed == 0
        &&& self.sent_by_webhook@ == Map::<Seq<char>, u64>::empty()
        &&& self.failed_by_webhook@ == Map::<Seq<char>, u64>::empty()
        &&& self.last_sent is None
    }

    /// Whether the other statistics hold the same.
    pub open spec fn same(self, other: WebhookStats) -> bool {
        &&& self.total_sent == other.total_sent
        &&& self.total_failed == other.total_failed
        &&& self.sent_by_webhook@ == other.sent_by_webhook@
        &&& self.failed_by_webhook@ == other.failed_by_webhook@
        &&& self.last_sent == other.last_sent
    }
}

impl Default for WebhookStats {
    fn default() -> (r: Self)
        ensures
            r.wf(),
            r.is_blank(),
    {
        WebhookStats {
            total_sent: 0,
            total_failed: 0,
            sent_by_webhook: TextMap::new(),
            failed_by_webhook: TextMap::new(),
            last_sent: None,
        }
    }
}

impl Clone for WebhookStats {
    fn clone(&self) -> (r: Self)
        ensures
            r.same(*self),
            self.wf() ==> r.wf(),
    {
        WebhookStats {
            total_sent: self.total_sent,
            total_failed: self.total_failed,
            sent_by_webhook: self.sent_by_webhook.copy(),
            failed_by_webhook: self.failed_by_webhook.copy(),
            last_sent: self.last_sent,
        }
    }
}

/// An event, and the webhooks that it is to be sent to.
pub struct Dispatch {
    pub webhooks: Vec<WebhookConfig>,
    pub event: WebhookEvent,
}

/// How sending to a webhook ended.
#[derive(Debug)]
pub enum SendOutcome {
    /// An answer came, with this status.
    Answered(u16),
    /// No answer came, for the reason given.
    Failed(String),
}

/// Whether sending to a webhook ended well: an answer came that tells of success.
pub open spec fn succeeded(outcome: SendOutcome) -> bool {
    match outcome {
        SendOutcome::Answered(status) => is_success(status),
        SendOutcome::Failed(_) => false,
    }
}

/// Whether the outcome can still be counted.
pub open spec fn has_room(stats: WebhookStats, outcome: SendOutcome) -> bool {
    if succeeded(outcome) {
        stats.total_sent < u64::MAX
    } else {
        stats.total_failed < u64::MAX
    }
}

/// How a test of a webhook ended.
#[derive(Debug)]
pub enum TestOutcome {
    /// An answer came, with its status and body.
    Answered { status: u16, body: String },
    /// No answer came, for the reason given.
    Failed(String),
}

/// Result of webhook testing.
#[derive(Debug)]
pub struct TestResult {
    pub success: bool,
    pub status_code: u16,
    pub response_time: Duration,
    pub response_body: String,
}

/// Delivery status of a webhook.
#[derive(Debug)]
pub struct WebhookStatus {
    pub name: String,
    pub enabled: bool,
    pub url: String,
    pub message_types: Vec<MessageType>,
    pub total_sent: u64,
    pub total_failed: u64,
    pub last_sent: Option<UtcTime>,
}

/// Whether `s` is the status of a webhook under the statistics given.
pub open spec fn is_status(s: WebhookStatus, webhook: WebhookConfig, stats: WebhookStats) -> bool {
    &&& s.name == webhook.name
    &&& s.enabled == webhook.enabled
    &&& s.url == webhook.url
    &&& s.message_types@ == webhook.message_types@
    &&& s.total_sent == stats.sent_by_webhook.count(webhook.name@)
    &&& s.total_failed == stats.failed_by_webhook.count(webhook.name@)
    &&& s.last_sent == stats.last_sent
}

/// Whether a list of types has a type.
fn has_type(types: &Vec<MessageType>, wanted: MessageType) -> (r: bool)
    ensures
        r == types@.contains(wanted),
{
    let mut i: usize = 0;
    while i < types.len()
        invariant
            i <= types@.len(),
            forall|k: int| 0 <= k < i ==> types@[k] != wanted,
        decreases types@.len() - i,
    {
        if types[i] == wanted {
            return true;
        }
        i = i + 1;
    }
    false
}

/// Whether a list of texts has a text.
fn has_text(texts: &Vec<String>, wanted: &str) -> (r: bool)
    ensures
        r == texts_view(texts@).contains(wanted@),
{
    let mut i: usize = 0;
    while i < texts.len()
        invariant
            i <= texts@.len(),
            forall|k: int| 0 <= k < i ==> (#[trigger] texts@[k])@ != wanted@,
        decreases texts@.len() - i,
    {
        if text_eq(texts[i].as_str(), wanted) {
            proof {
                assert(texts_view(texts@)[i as int] == wanted@);
            }
            return true;
        }
        i = i + 1;
    }
    false
}

/// The place of the first webhook with a name.
pub(crate) fn find(webhooks: &Vec<WebhookConfig>, name: &str) -> (r: Option<usize>)
    ensures
        match r {
            Some(i) => first_named(webhooks@, name@) == Some(i as int),
            None => first_named(webhooks@, name@) is None,
        },
{
    let mut i: usize = 0;
    proof {
        assert(webhooks@.take(0) =~= Seq::empty());
    }
    while i < webhooks.len()
        invariant
            i <= webhooks@.len(),
            first_named(webhooks@.take(i as int), name@) is None,
        decreases webhooks@.len() - i,
    {
        let ghost longer = webhooks@.take(i + 1);
        proof {
            assert(longer.drop_last() =~= webhooks@.take(i as int));
            assert(longer.last() == webhooks@[i as int]);
        }
        if text_eq(webhooks[i].name.as_str(), name) {
            proof {
                lemma_first_named_prefix(webhooks@, name@, i + 1);
            }
            return Some(i);
        }
        i = i + 1;
    }
    proof {
        assert(webhooks@.take(i as int) =~= webhooks@);
    }
    None
}

/// The first webhook with a name among the first `n` is the first among all.
proof fn lemma_first_named_prefix(webhooks: Seq<WebhookConfig>, name: Seq<char>, n: int)
    requires
        0 <= n <= webhooks.len(),
        first_named(webhooks.take(n), name) is Some,
    ensures
        first_named(webhooks, name) == first_named(webhooks.take(n), name),
    decreases webhooks.len(),
{
    if n == webhooks.len() {
        assert(webhooks.take(n) =~= webhooks);
    } else {
        assert(webhooks.drop_last().take(n) =~= webhooks.take(n));
        lemma_first_named_prefix(webhooks.drop_last(), name, n);
    }
}

/// Webhooks that are the same as values have the first of a name at the same place.
pub proof fn lemma_first_named_by_view(
    one: Seq<WebhookConfig>,
    other: Seq<WebhookConfig>,
    name: Seq<char>,
)
    requires
        webhooks_view(one) == webhooks_view(other),
    ensures
        first_named(one, name) == first_named(other, name),
    decreases one.len(),
{
    assert(webhooks_view(one).len() == one.len() && webhooks_view(other).len() == other.len());
    if one.len() > 0 {
        let last = one.len() - 1;
        assert(webhooks_view(one)[last] == one[last]@);
        assert(webhooks_view(other)[last] == other[last]@);
        assert(webhooks_view(one.drop_last()) =~= webhooks_view(one).drop_last());
        assert(webhooks_view(other.drop_last()) =~= webhooks_view(other).drop_last());
        lemma_first_named_by_view(one.drop_last(), other.drop_last(), name);
    }
}

/// The first webhook with a name has that name, and none before it does; where there is no first
/// one, none has it.
pub proof fn law_first_named(webhooks: Seq<WebhookConfig>, name: Seq<char>)
    ensures
        match first_named(webhooks, name) {
            Some(i) => {
                &&& 0 <= i < webhooks.len()
                &&& webhooks[i].name@ == name
                &&& forall|k: int| 0 <= k < i ==> (#[trigger] webhooks[k]).name@ != name
            },
            None => forall|k: int|
                0 <= k < webhooks.len() ==> (#[trigger] webhooks[k]).name@ != name,
        },
    decreases webhooks.len(),
{
    if webhooks.len() > 0 {
        let shorter = webhooks.drop_last();
        law_first_named(shorter, name);
        match first_named(shorter, name) {
            Some(i) => {
                assert(webhooks[i] == shorter[i]);
                assert forall|k: int| 0 <= k < i implies (#[trigger] webhooks[k]).name@ != name by {
                    assert(webhooks[k] == shorter[k]);
                }
            },
            None => {
                assert forall|k: int| 0 <= k < webhooks.len() - 1 implies (
                #[trigger] webhooks[k]).name@ != name by {
                    assert(webhooks[k] == shorter[k]);
                }
            },
        }
    }
}

/// Keeps the webhooks and the statistics of what was sent to them.
pub struct WebhookManager {
    webhooks: Vec<WebhookConfig>,
    stats: WebhookStats,
}

impl WebhookManager {
    /// The webhooks, in their order.
    pub closed spec fn webhooks(self) -> Seq<WebhookConfig> {
        self.webhooks@
    }

    /// The statistics.
    pub closed spec fn stats(self) -> WebhookStats {
        self.stats
    }

    /// Each webhook and the statistics are well formed.
    pub open spec fn wf(self) -> bool {
        &&& self.stats().wf()
        &&& all_wf(self.webhooks())
    }

    /// A manager without webhooks.
    pub fn new() -> (r: Self)
        ensures
            r.wf(),
            r.webhooks() == Seq::<WebhookConfig>::empty(),
            r.stats().is_blank(),
    {
        WebhookManager { webhooks: Vec::new(), stats: WebhookStats::default() }
    }

    /// Takes these webhooks in place of those there were, and tells how many are enabled.
    pub fn load_webhooks(&mut self, webhooks: Vec<WebhookConfig>) -> (r: usize)
        requires
            old(self).wf(),
            all_wf(webhooks@),
        ensures
            final(self).wf(),
            final(self).webhooks() == webhooks@,
            final(self).stats() == old(self).stats(),
            r == enabled_ones(webhooks@).len(),
    {
        let mut enabled: usize = 0;
        let mut i: usize = 0;
        proof {
            reveal(Seq::filter);
            assert(webhooks@.take(0) =~= Seq::empty());
        }
        while i < webhooks.len()
            invariant
                i <= webhooks@.len(),
                enabled <= i,
                enabled == enabled_ones(webhooks@.take(i as int)).len(),
            decreases webhooks@.len() - i,
        {
            proof {
                reveal(Seq::filter);
                assert(webhooks@.take(i + 1).drop_last() =~= webhooks@.take(i as int));
            }
            if webhooks[i].enabled {
                enabled = enabled + 1;
            }
            i = i + 1;
        }
        proof {
            assert(webhooks@.take(i as int) =~= webhooks@);
        }
        self.webhooks = webhooks;
        enabled
    }

    /// Whether a webhook takes messages of a type from a device.
    fn is_match(webhook: &WebhookConfig, message_type: MessageType, device: &str) -> (r: bool)
        ensures
            r == takes(webhook@, message_type, device@),
    {
        if !webhook.enabled {
            return false;
        }
        if !webhook.message_types.is_empty() && !has_type(&webhook.message_types, message_type) {
            return false;
        }
        if !webhook.devices.is_empty() && !has_text(&webhook.devices, device) {
            return false;
        }
        true
    }

    /// The webhooks that take a message, in their order.
    pub fn matching_webhooks(&self, message: &RawMqttMessage) -> (r: Vec<WebhookConfig>)
        requires
            self.wf(),
        ensures
            webhooks_view(r@) == selected(
                webhooks_view(self.webhooks()),
                message.message_type,
                device_of(message.from as int),
            ),
            all_wf(r@),
    {
        let device = hex(bits_of(message.from));
        let ghost all = webhooks_view(self.webhooks@);
        let mut r: Vec<WebhookConfig> = Vec::new();
        let mut i: usize = 0;
        proof {
            reveal(Seq::filter);
            assert(all.take(0) =~= Seq::empty());
            assert(webhooks_view(r@) =~= Seq::empty());
        }
        while i < self.webhooks.len()
            invariant
                i <= self.webhooks@.len(),
                self.wf(),
                all == webhooks_view(self.webhooks@),
                device@ == device_of(message.from as int),
                webhooks_view(r@) == selected(all.take(i as int), message.message_type, device@),
                all_wf(r@),
            decreases self.webhooks@.len() - i,
        {
            proof {
                reveal(Seq::filter);
                assert(all.take(i + 1).drop_last() =~= all.take(i as int));
                assert(all.take(i + 1).last() == self.webhooks@[i as int]@);
                assert(self.webhooks()[i as int].wf());
            }
            let ghost before = r@;
            if Self::is_match(&self.webhooks[i], message.message_type, device.as_str()) {
                r.push(self.webhooks[i].clone());
                proof {
                    assert(webhooks_view(r@) =~= webhooks_view(before).push(
                        self.webhooks@[i as int]@,
                    ));
                }
            }
            i = i + 1;
        }
        proof {
            assert(all.take(i as int) =~= all);
        }
        r
    }

    /// The event that tells of a message, under the identifier and at the time given.
    pub fn event_at(message: &RawMqttMessage, id: u128, now: UtcTime) -> (r: WebhookEvent)
        ensures
            is_event(r, *message),
            r.event_id == id,
            r.timestamp == now,
    {
        let mut node_id = String::new();
        node_id.push('!');
        node_id.append(hex(bits_of(message.from)).as_str());
        proof {
            assert(node_id@ =~= seq!['!'] + device_of(message.from as int));
        }
        WebhookEvent {
            event_id: id,
            timestamp: now,
            message_type: message.message_type,
            node_id,
            data: message.payload.clone(),
        }
    }

    /// What is to be sent of a message: nothing where no webhook takes it, and otherwise one event,
    /// under a new identifier and at the present time, to each webhook that does.
    pub fn process_message(&self, message: &RawMqttMessage) -> (r: Option<Dispatch>)
        requires
            self.wf(),
        ensures
            ({
                let wanted = selected(
                    webhooks_view(self.webhooks()),
                    message.message_type,
                    device_of(message.from as int),
                );
                match r {
                    Some(dispatch) => {
                        &&& wanted.len() > 0
                        &&& webhooks_view(dispatch.webhooks@) == wanted
                        &&& is_event(dispatch.event, *message)
                        &&& is_random_uuid(dispatch.event.event_id)
                        &&& clock_time(dispatch.event.timestamp)
                    },
                    None => wanted.len() == 0,
                }
            }),
            r matches Some(dispatch) ==> all_wf(dispatch.webhooks@),
    {
        let webhooks = self.matching_webhooks(message);
        proof {
            assert(webhooks_view(webhooks@).len() == webhooks@.len());
        }
        if webhooks.is_empty() {
            return None;
        }
        let event = Self::event_at(message, random_uuid(), utc_now());
        Some(Dispatch { webhooks, event })
    }

    /// Whether the outcome can still be counted.
    pub fn can_count(&self, outcome: &SendOutcome) -> (r: bool)
        ensures
            r == has_room(self.stats(), *outcome),
    {
        let success = match outcome {
            SendOutcome::Answered(status) => 200 <= *status && *status < 300,
            SendOutcome::Failed(_) => false,
        };
        if success {
            self.stats.total_sent < u64::MAX
        } else {
            self.stats.total_failed < u64::MAX
        }
    }

    /// Counts the answer of the webhook `name`, where `now` is the time at which it was sent.
    pub fn send_webhook_at(&mut self, name: &str, outcome: SendOutcome, now: UtcTime) -> (r: Result<
        (),
        MeshWatchyError,
    >)
        requires
            old(self).wf(),
            has_room(old(self).stats(), outcome),
        ensures
            final(self).wf(),
            final(self).webhooks() == old(self).webhooks(),
            match outcome {
                SendOutcome::Answered(status) => if is_success(status) {
                    r is Ok && counts_success(old(self).stats(), final(self).stats(), name@, now)
                } else {
                    r is Ok && counts_failure(old(self).stats(), final(self).stats(), name@)
                },
                SendOutcome::Failed(cause) => {
                    &&& r matches Err(MeshWatchyError::Webhook(c)) && c == cause
                    &&& counts_failure(old(self).stats(), final(self).stats(), name@)
                },
            },
    {
        match outcome {
            SendOutcome::Answered(status) => {
                if 200 <= status && status < 300 {
                    self.update_stats_success(name, now);
                } else {
                    self.update_stats_failure(name);
                }
                Ok(())
            },
            SendOutcome::Failed(cause) => {
                self.update_stats_failure(name);
                Err(MeshWatchyError::Webhook(cause))
            },
        }
    }

    /// Counts the answer of the webhook `name`, sent at the present time.
    pub fn send_webhook(&mut self, name: &str, outcome: SendOutcome) -> (r: Result<
        (),
        MeshWatchyError,
    >)
        requires
            old(self).wf(),
            has_room(old(self).stats(), outcome),
        ensures
            final(self).wf(),
            final(self).webhooks() == old(self).webhooks(),
            match outcome {
                SendOutcome::Answered(status) => if is_success(status) {
                    &&& r is Ok
                    &&& final(self).stats().last_sent matches Some(now) && clock_time(now)
                        && counts_success(old(self).stats(), final(self).stats(), name@, now)
                } else {
                    r is Ok && counts_failure(old(self).stats(), final(self).stats(), name@)
                },
                SendOutcome::Failed(cause) => {
                    &&& r matches Err(MeshWatchyError::Webhook(c)) && c == cause
                    &&& counts_failure(old(self).stats(), final(self).stats(), name@)
                },
            },
    {
        self.send_webhook_at(name, outcome, utc_now())
    }

    /// Counts a success of the webhook `name` at the time `now`.
    pub fn update_stats_success(&mut self, name: &str, now: UtcTime)
        requires
            old(self).wf(),
            old(self).stats().total_sent < u64::MAX,
        ensures
            final(self).wf(),
            final(self).webhooks() == old(self).webhooks(),
            counts_success(old(self).stats(), final(self).stats(), name@, now),
    {
        proof {
            self.stats.sent_by_webhook.lemma_count_within_total(name@);
        }
        self.stats.total_sent = self.stats.total_sent + 1;
        self.stats.sent_by_webhook.bump(name);
        self.stats.last_sent = Some(now);
    }

    /// Counts a failure of the webhook `name`.
    pub fn update_stats_failure(&mut self, name: &str)
        requires
            old(self).wf(),
            old(self).stats().total_failed < u64::MAX,
        ensures
            final(self).wf(),
            final(self).webhooks() == old(self).webhooks(),
            counts_failure(old(self).stats(), final(self).stats(), name@),
    {
        proof {
            self.stats.failed_by_webhook.lemma_count_within_total(name@);
        }
        self.stats.total_failed = self.stats.total_failed + 1;
        self.stats.failed_by_webhook.bump(name);
    }

    /// The statistics as they stand.
    pub fn get_stats(&self) -> (r: WebhookStats)
        ensures
            r.same(self.stats()),
            self.wf() ==> r.wf(),
    {
        self.stats.clone()
    }

    /// The webhooks as they stand.
    pub fn get_webhooks(&self) -> (r: Vec<WebhookConfig>)
        ensures
            webhooks_view(r@) == webhooks_view(self.webhooks()),
            self.wf() ==> all_wf(r@),
    {
        let mut r: Vec<WebhookConfig> = Vec::new();
        let ghost all = webhooks_view(self.webhooks@);
        let mut i: usize = 0;
        while i < self.webhooks.len()
            invariant
                i <= self.webhooks@.len(),
                all == webhooks_view(self.webhooks@),
                r@.len() == i,
                webhooks_view(r@) == all.take(i as int),
                self.wf() ==> all_wf(r@),
            decreases self.webhooks@.len() - i,
        {
            let ghost before = r@;
            proof {
                if self.wf() {
                    assert(self.webhooks()[i as int].wf());
                }
            }
            r.push(self.webhooks[i].clone());
            proof {
                assert(webhooks_view(r@) =~= webhooks_view(before).push(self.webhooks@[i as int]@));
                assert(all.take(i + 1) =~= all.take(i as int).push(self.webhooks@[i as int]@));
            }
            i = i + 1;
        }
        proof {
            assert(all.take(i as int) =~= all);
        }
        r
    }

    /// Adds a webhook behind the others.
    pub fn add_webhook(&mut self, webhook: WebhookConfig)
        requires
            old(self).wf(),
            webhook.wf(),
        ensures
            final(self).wf(),
            final(self).webhooks() == old(self).webhooks().push(webhook),
            final(self).stats() == old(self).stats(),
    {
        self.webhooks.push(webhook);
    }

    /// Puts a webhook in place of the first with that name, and tells whether there was one.
    pub fn update_webhook(&mut self, name: &str, webhook: WebhookConfig) -> (r: bool)
        requires
            old(self).wf(),
            webhook.wf(),
        ensures
            final(self).wf(),
            final(self).stats() == old(self).stats(),
            match first_named(old(self).webhooks(), name@) {
                Some(i) => r && final(self).webhooks() == old(self).webhooks().update(i, webhook),
                None => !r && final(self).webhooks() == old(self).webhooks(),
            },
    {
        match find(&self.webhooks, name) {
            Some(i) => {
                proof {
                    law_first_named(self.webhooks(), name@);
                }
                self.webhooks.set(i, webhook);
                true
            },
            None => false,
        }
    }

    /// Removes the webhooks with that name, and tells whether there were any.
    pub fn remove_webhook(&mut self, name: &str) -> (r: bool)
        requires
            old(self).wf(),
        ensures
            final(self).wf(),
            final(self).stats() == old(self).stats(),
            final(self).webhooks() == without_named(old(self).webhooks(), name@),
            r == (first_named(old(self).webhooks(), name@) is Some),
    {
        let ghost all = self.webhooks@;
        let ghost mut k: int = 0;
        let mut removed = false;
        let mut i: usize = 0;
        proof {
            reveal(Seq::filter);
            assert(all.take(0) =~= Seq::empty());
            assert(all.skip(0) =~= all);
            assert(self.webhooks@ =~= without_named(all.take(0), name@) + all.skip(0));
        }
        while i < self.webhooks.len()
            invariant
                0 <= k <= all.len(),
                self.stats == old(self).stats,
                i == without_named(all.take(k), name@).len(),
                self.webhooks@ == without_named(all.take(k), name@) + all.skip(k),
                removed == (first_named(all.take(k), name@) is Some),
            decreases all.len() - k,
        {
            let ghost kept = without_named(all.take(k), name@);
            proof {
                reveal(Seq::filter);
                assert(k < all.len());
                assert(self.webhooks@[i as int] == all[k]);
                assert(all.take(k + 1).drop_last() =~= all.take(k));
                assert(all.take(k + 1).last() == all[k]);
            }
            if text_eq(self.webhooks[i].name.as_str(), name) {
                let _ = self.webhooks.remove(i);
                removed = true;
                proof {
                    assert(self.webhooks@ =~= kept + all.skip(k + 1));
                }
            } else {
                i = i + 1;
                proof {
                    assert(self.webhooks@ =~= kept.push(all[k]) + all.skip(k + 1));
                }
            }
            proof {
                k = k + 1;
            }
        }
        proof {
            assert(k == all.len());
            assert(all.take(k) =~= all);
            assert(self.webhooks@ =~= without_named(all, name@));
            assert forall|j: int| 0 <= j < self.webhooks().len() implies (
            #[trigger] self.webhooks()[j]).wf() by {
                lemma_kept_is_old(all, name@, j);
                assert(all.contains(self.webhooks()[j]));
                let from = choose|from: int| 0 <= from < all.len() && all[from]
                    == self.webhooks()[j];
                assert(old(self).webhooks()[from].wf());
            }
        }
        removed
    }

    /// Switches the first webhook with that name on or off, and tells whether there was one.
    pub fn set_webhook_enabled(&mut self, name: &str, enabled: bool) -> (r: bool)
        requires
            old(self).wf(),
        ensures
            final(self).wf(),
            final(self).stats() == old(self).stats(),
            final(self).webhooks() == switched(old(self).webhooks(), name@, enabled),
            r == (first_named(old(self).webhooks(), name@) is Some),
    {
        match find(&self.webhooks, name) {
            Some(i) => {
                proof {
                    law_first_named(self.webhooks(), name@);
                }
                self.webhooks[i].enabled = enabled;
                true
            },
            None => false,
        }
    }

    /// The event that a test sends, under the identifier and at the time given.
    pub fn test_event_at(id: u128, now: UtcTime) -> (r: WebhookEvent)
        ensures
            is_test_event(r),
            inferred_type(json_keys(r.data)) == r.message_type,
            r.event_id == id,
            r.timestamp == now,
    {
        let mut members: Vec<(String, serde_json::Value)> = Vec::new();
        members.push(("latitude_i".to_owned(), int_value(424041350)));
        members.push(("longitude_i".to_owned(), int_value(-711257033)));
        members.push(("altitude".to_owned(), int_value(26)));
        members.push(("PDOP".to_owned(), int_value(156)));
        members.push(("sats_in_view".to_owned(), int_value(7)));
        proof {
            assert(members_view(members@) =~= sample_members());
            assert(members_view(members@)[0].0 == "latitude_i"@);
            assert(has_member(members_view(members@), "latitude_i"@));
        }
        let data = object_value(members);
        WebhookEvent {
            event_id: id,
            timestamp: now,
            message_type: MessageType::Position,
            node_id: "!test1234".to_owned(),
            data,
        }
    }

    /// The event that a test sends, under a new identifier and at the present time.
    pub fn test_event() -> (r: WebhookEvent)
        ensures
            is_test_event(r),
            inferred_type(json_keys(r.data)) == r.message_type,
            is_random_uuid(r.event_id),
            clock_time(r.timestamp),
    {
        Self::test_event_at(random_uuid(), utc_now())
    }

    /// What is reported of a test that ended after the time given. An answer longer than what is
    /// kept of it must have a character end there.
    pub fn test_webhook(outcome: TestOutcome, response_time: Duration) -> (r: TestResult)
        requires
            outcome matches TestOutcome::Answered { body, .. } ==> can_clip(body@),
        ensures
            r.response_time == response_time,
            match outcome {
                TestOutcome::Answered { status, body } => {
                    &&& r.success == is_success(status)
                    &&& r.status_code == status
                    &&& r.response_body@ == clipped(body@)
                },
                TestOutcome::Failed(cause) => {
                    &&& !r.success
                    &&& r.status_code == 0
                    &&& r.response_body@ == "Connection error: "@ + cause@
                },
            },
    {
        match outcome {
            TestOutcome::Answered { status, body } => {
                let response_body = if body.as_str().as_bytes().len() > KEPT_BYTES {
                    let (start, _) = body.as_str().split_at(KEPT_BYTES);
                    proof {
                        vstd::utf8::encode_utf8_decode_utf8(start@);
                        assert(encode_utf8(start@) =~= encode_utf8(body@).take(KEPT_BYTES as int));
                    }
                    let mut text = start.to_owned();
                    text.append("...");
                    text
                } else {
                    body
                };
                TestResult {
                    success: 200 <= status && status < 300,
                    status_code: status,
                    response_time,
                    response_body,
                }
            },
            TestOutcome::Failed(cause) => {
                let mut text = "Connection error: ".to_owned();
                text.append(cause.as_str());
                TestResult { success: false, status_code: 0, response_time, response_body: text }
            },
        }
    }

    /// Starts the statistics anew.
    pub fn reset_stats(&mut self)
        requires
            old(self).wf(),
        ensures
            final(self).wf(),
            final(self).webhooks() == old(self).webhooks(),
            final(self).stats().is_blank(),
    {
        self.stats = WebhookStats::default();
    }

    /// The status of each webhook, in their order.
    pub fn get_webhook_status(&self) -> (r: Vec<WebhookStatus>)
        requires
            self.wf(),
        ensures
            r@.len() == self.webhooks().len(),
            forall|i: int|
                0 <= i < r@.len() ==> is_status(
                    #[trigger] r@[i],
                    self.webhooks()[i],
                    self.stats(),
                ),
    {
        let mut r: Vec<WebhookStatus> = Vec::new();
        let mut i: usize = 0;
        while i < self.webhooks.len()
            invariant
                i <= self.webhooks@.len(),
                self.wf(),
                r@.len() == i,
                forall|k: int|
                    0 <= k < r@.len() ==> is_status(
                        #[trigger] r@[k],
                        self.webhooks()[k],
                        self.stats(),
                    ),
            decreases self.webhooks@.len() - i,
        {
            let webhook = &self.webhooks[i];
            let total_sent: u64 = match self.stats.sent_by_webhook.get(webhook.name.as_str()) {
                Some(count) => *count,
                None => 0,
            };
            let total_failed: u64 = match self.stats.failed_by_webhook.get(webhook.name.as_str()) {
                Some(count) => *count,
                None => 0,
            };
            let message_types = webhook.message_types.clone();
            proof {
                assert(message_types@ =~= webhook.message_types@);
            }
            r.push(
                WebhookStatus {
                    name: webhook.name.clone(),
                    enabled: webhook.enabled,
                    url: webhook.url.clone(),
                    message_types,
                    total_sent,
                    total_failed,
                    last_sent: self.stats.last_sent,
                },
            );
            i = i + 1;
        }
        r
    }
}

impl Default for WebhookManager {
    fn default() -> (r: Self)
        ensures
            r.wf(),
            r.webhooks() == Seq::<WebhookConfig>::empty(),
            r.stats().is_blank(),
    {
        WebhookManager::new()
    }
}

/// Whether `after` is `before` with one more success of the webhook `name`, at the time `now`.
pub open spec fn counts_success(
    before: WebhookStats,
    after: WebhookStats,
    name: Seq<char>,
    now: UtcTime,
) -> bool {
    &&& after.total_sent == before.total_sent + 1
    &&& after.sent_by_webhook@ == before.sent_by_webhook@.insert(
        name,
        (before.sent_by_webhook.count(name) + 1) as u64,
    )
    &&& after.last_sent == Some(now)
    &&& after.total_failed == before.total_failed
    &&& after.failed_by_webhook == before.failed_by_webhook
}

/// Whether `after` is `before` with one more failure of the webhook `name`.
pub open spec fn counts_failure(
    before: WebhookStats,
    after: WebhookStats,
    name: Seq<char>,
) -> bool {
    &&& after.total_failed == before.total_failed + 1
    &&& after.failed_by_webhook@ == before.failed_by_webhook@.insert(
        name,
        (before.failed_by_webhook.count(name) + 1) as u64,
    )
    &&& after.total_sent == before.total_sent
    &&& after.sent_by_webhook == before.sent_by_webhook
    &&& after.last_sent == before.last_sent
}

/// What is left when a name is taken out was there before, and has another name.
proof fn lemma_kept_is_old(webhooks: Seq<WebhookConfig>, name: Seq<char>, i: int)
    requires
        0 <= i < without_named(webhooks, name).len(),
    ensures
        webhooks.contains(without_named(webhooks, name)[i]),
        without_named(webhooks, name)[i].name@ != name,
{
    let pred = other_than(name);
    let left = webhooks.filter(pred);
    webhooks.lemma_filter_pred(pred, i);
    assert(left.contains(left[i]));
    webhooks.lemma_filter_contains_rev(pred, left[i]);
}

/// The webhooks that an event is sent to are those that take the message, all of them and no
/// others.
pub proof fn law_selected_exactly(
    webhooks: Seq<WebhookView>,
    message_type: MessageType,
    device: Seq<char>,
    webhook: WebhookView,
)
    ensures
        selected(webhooks, message_type, device).contains(webhook) <==> webhooks.contains(webhook)
            && takes(webhook, message_type, device),
{
    let pred = |webhook: WebhookView| takes(webhook, message_type, device);
    let chosen = webhooks.filter(pred);
    if chosen.contains(webhook) {
        webhooks.lemma_filter_contains_rev(pred, webhook);
        let i = choose|i: int| 0 <= i < chosen.len() && chosen[i] == webhook;
        webhooks.lemma_filter_pred(pred, i);
    }
    if webhooks.contains(webhook) && takes(webhook, message_type, device) {
        let i = choose|i: int| 0 <= i < webhooks.len() && webhooks[i] == webhook;
        webhooks.lemma_filter_contains(pred, i);
    }
}

/// A webhook with empty lists takes every message where it is enabled, and none where it is not.
pub proof fn law_empty_lists_take_all(
    webhook: WebhookView,
    message_type: MessageType,
    device: Seq<char>,
)
    requires
        webhook.message_types.len() == 0,
        webhook.devices.len() == 0,
    ensures
        takes(webhook, message_type, device) == webhook.enabled,
{
}

/// A webhook that was switched off takes no message.
pub proof fn law_switched_off_takes_none(
    webhooks: Seq<WebhookConfig>,
    name: Seq<char>,
    message_type: MessageType,
    device: Seq<char>,
)
    requires
        first_named(webhooks, name) is Some,
    ensures
        ({
            let i = first_named(webhooks, name)->0;
            !takes(switched(webhooks, name, false)[i]@, message_type, device)
        }),
{
    law_first_named(webhooks, name);
}

/// Switching a webhook to the other state and back changes nothing.
pub proof fn law_switched_back(webhooks: Seq<WebhookConfig>, name: Seq<char>)
    requires
        first_named(webhooks, name) is Some,
    ensures
        ({
            let was = webhooks[first_named(webhooks, name)->0].enabled;
            let once = switched(webhooks, name, !was);
            &&& first_named(once, name) == first_named(webhooks, name)
            &&& once[first_named(once, name)->0].enabled == !was
            &&& switched(once, name, was) == webhooks
        }),
{
    law_first_named(webhooks, name);
    let i = first_named(webhooks, name)->0;
    let was = webhooks[i].enabled;
    let once = switched(webhooks, name, !was);
    law_first_named(once, name);
    assert(once[i].name@ == name);
    match first_named(once, name) {
        Some(j) => {
            assert(once[j].name == webhooks[j].name);
            if j < i {
                assert(webhooks[j].name@ != name);
            }
            if j > i {
                assert(once[i].name@ != name);
            }
            assert(i == j);
        },
        None => {},
    }
    assert(switched(once, name, was) =~= webhooks);
}

/// Webhooks that were removed are gone, and the others are still there.
pub proof fn law_removed_are_gone(webhooks: Seq<WebhookConfig>, name: Seq<char>)
    ensures
        first_named(without_named(webhooks, name), name) is None,
        forall|i: int|
            0 <= i < webhooks.len() && webhooks[i].name@ != name ==> without_named(
                webhooks,
                name,
            ).contains(#[trigger] webhooks[i]),
{
    let left = without_named(webhooks, name);
    law_first_named(left, name);
    match first_named(left, name) {
        Some(i) => {
            lemma_kept_is_old(webhooks, name, i);
        },
        None => {},
    }
    let pred = other_than(name);
    assert forall|i: int| 0 <= i < webhooks.len() && webhooks[i].name@ != name implies left.contains(
        #[trigger] webhooks[i],
    ) by {
        webhooks.lemma_filter_contains(pred, i);
    }
}

/// A webhook added under a new name can be removed again, which leaves what was there before.
pub proof fn law_add_and_remove(webhooks: Seq<WebhookConfig>, webhook: WebhookConfig)
    requires
        first_named(webhooks, webhook.name@) is None,
    ensures
        first_named(webhooks.push(webhook), webhook.name@) == Some(webhooks.len() as int),
        without_named(webhooks.push(webhook), webhook.name@) == webhooks,
{
    let name = webhook.name@;
    let more = webhooks.push(webhook);
    reveal(Seq::filter);
    assert(more.drop_last() =~= webhooks);
    law_first_named(webhooks, name);
    lemma_all_kept(webhooks, name);
}

/// Taking out a name that none has changes nothing.
proof fn lemma_all_kept(webhooks: Seq<WebhookConfig>, name: Seq<char>)
    requires
        forall|k: int| 0 <= k < webhooks.len() ==> (#[trigger] webhooks[k]).name@ != name,
    ensures
        without_named(webhooks, name) == webhooks,
    decreases webhooks.len(),
{
    reveal(Seq::filter);
    if webhooks.len() > 0 {
        let shorter = webhooks.drop_last();
        assert forall|k: int| 0 <= k < shorter.len() implies (#[trigger] shorter[k]).name@
            != name by {
            assert(webhooks[k].name@ != name);
        }
        lemma_all_kept(shorter, name);
        assert(webhooks[webhooks.len() - 1].name@ != name);
        assert(without_named(webhooks, name) =~= webhooks);
    } else {
        assert(without_named(webhooks, name) =~= webhooks);
    }
}

/// The totals are the sums over all webhooks, no single webhook has more than the total, and there is
/// a time of the last success exactly where there was one.
pub proof fn law_totals_are_sums(stats: WebhookStats, name: Seq<char>)
    requires
        stats.wf(),
    ensures
        stats.sent_by_webhook.total() == stats.total_sent,
        stats.failed_by_webhook.total() == stats.total_failed,
        stats.sent_by_webhook.count(name) <= stats.total_sent,
        stats.failed_by_webhook.count(name) <= stats.total_failed,
        stats.last_sent is None <==> stats.total_sent == 0,
{
    stats.sent_by_webhook.lemma_count_within_total(name);
    stats.failed_by_webhook.lemma_count_within_total(name);
}

/// The node that an event names is read back as the number of the message's sender.
pub proof fn law_event_names_sender(event: WebhookEvent, m: RawMqttMessage)
    requires
        is_event(event, m),
        m.from >= 0,
    ensures
        crate::mqtt::node_number(event.node_id@) == m.from,
{
    crate::mqtt::MqttClient::law_node_id_round_trip(m.from as nat);
}

/// A webhook that names message types takes no message of another type, whatever its devices are.
pub proof fn law_type_filter_refuses(
    webhook: WebhookView,
    message_type: MessageType,
    device: Seq<char>,
)
    requires
        webhook.message_types.len() > 0,
        !webhook.message_types.contains(message_type),
    ensures
        !takes(webhook, message_type, device),
{
}

/// A webhook that names devices takes no message of another device, whatever its types are.
pub proof fn law_device_filter_refuses(
    webhook: WebhookView,
    message_type: MessageType,
    device: Seq<char>,
)
    requires
        webhook.devices.len() > 0,
        !webhook.devices.contains(device),
    ensures
        !takes(webhook, message_type, device),
{
}

/// A webhook that is not enabled takes nothing; one that is takes each message that neither of its
/// lists refuses.
pub proof fn law_enabled_takes_what_nothing_refuses(
    webhook: WebhookView,
    message_type: MessageType,
    device: Seq<char>,
)
    ensures
        !webhook.enabled ==> !takes(webhook, message_type, device),
        webhook.enabled && (webhook.message_types.len() == 0 || webhook.message_types.contains(
            message_type,
        )) && (webhook.devices.len() == 0 || webhook.devices.contains(device)) ==> takes(
            webhook,
            message_type,
            device,
        ),
{
}

/// Each filter is asked by itself: whether a webhook takes a message is whether it would with its
/// devices left out and with its types left out.
pub proof fn law_filters_are_independent(
    webhook: WebhookView,
    message_type: MessageType,
    device: Seq<char>,
)
    ensures
        takes(webhook, message_type, device) <==> takes(
            WebhookView { devices: Seq::empty(), ..webhook },
            message_type,
            device,
        ) && takes(
            WebhookView { message_types: Seq::empty(), ..webhook },
            message_type,
            device,
        ),
        forall|other: Seq<char>| #[trigger]
            takes(WebhookView { devices: Seq::empty(), ..webhook }, message_type, other) == takes(
                WebhookView { devices: Seq::empty(), ..webhook },
                message_type,
                device,
            ),
        forall|other: MessageType| #[trigger]
            takes(WebhookView { message_types: Seq::empty(), ..webhook }, other, device) == takes(
                WebhookView { message_types: Seq::empty(), ..webhook },
                message_type,
                device,
            ),
{
}

/// Webhooks are selected one by one and in their order: those of two lists put together are those of
/// the one and then those of the other, and a single one is selected exactly where it takes the
/// message.
pub proof fn law_selection_keeps_order(
    one: Seq<WebhookView>,
    other: Seq<WebhookView>,
    webhook: WebhookView,
    message_type: MessageType,
    device: Seq<char>,
)
    ensures
        selected(one + other, message_type, device) == selected(one, message_type, device)
            + selected(other, message_type, device),
        selected(seq![webhook], message_type, device) == (if takes(webhook, message_type, device) {
            seq![webhook]
        } else {
            Seq::empty()
        }),
        selected(Seq::empty(), message_type, device) == Seq::<WebhookView>::empty(),
{
    let pred = |webhook: WebhookView| takes(webhook, message_type, device);
    Seq::filter_distributes_over_add(one, other, pred);
    reveal_with_fuel(Seq::filter, 2);
    assert(seq![webhook].drop_last() =~= Seq::<WebhookView>::empty());
    assert(selected(seq![webhook], message_type, device) =~= (if takes(
        webhook,
        message_type,
        device,
    ) {
        seq![webhook]
    } else {
        Seq::empty()
    }));
}

/// A device is named by the hexadecimal digits of its number, eight or more, in lower case.
pub proof fn law_device_is_hexadecimal(number: i64)
    ensures
        device_of(number as int).len() >= 8,
        0 <= number < 0x1_0000_0000 ==> device_of(number as int).len() == 8,
        crate::numbers::digits_value(device_of(number as int), 16) == Some(
            (number as int % 0x1_0000_0000_0000_0000) as nat,
        ),
{
    crate::numbers::law_pattern_is_residue(number);
    crate::numbers::law_hex_reads_back(twos_complement(number as int));
    crate::numbers::law_hex_width(twos_complement(number as int));
}

/// An event tells the type, the data and the sender of its message: an exclamation mark before the
/// name by which webhooks filter the device.
pub proof fn law_event_has_the_message(event: WebhookEvent, m: RawMqttMessage)
    requires
        is_event(event, m),
    ensures
        event.message_type == m.message_type,
        event.data == m.payload,
        event.node_id@.len() > 0,
        event.node_id@[0] == '!',
        event.node_id@.skip(1) =~= device_of(m.from as int),
{
}

/// Switching a webhook changes only whether it is enabled, and no other webhook.
pub proof fn law_switching_changes_one(
    webhooks: Seq<WebhookConfig>,
    name: Seq<char>,
    enabled: bool,
    k: int,
)
    requires
        0 <= k < webhooks.len(),
    ensures
        ({
            let after = switched(webhooks, name, enabled);
            &&& after.len() == webhooks.len()
            &&& after[k].name == webhooks[k].name
            &&& after[k].url == webhooks[k].url
            &&& after[k].message_types == webhooks[k].message_types
            &&& after[k].headers == webhooks[k].headers
            &&& after[k].devices == webhooks[k].devices
            &&& first_named(webhooks, name) == Some(k) ==> after[k].enabled == enabled
            &&& first_named(webhooks, name) != Some(k) ==> after[k] == webhooks[k]
        }),
{
    law_first_named(webhooks, name);
}

/// Webhooks are removed one by one and the others keep their order: what is left of two lists put
/// together is what is left of the one and then what is left of the other.
pub proof fn law_removal_keeps_order(
    one: Seq<WebhookConfig>,
    other: Seq<WebhookConfig>,
    webhook: WebhookConfig,
    name: Seq<char>,
)
    ensures
        without_named(one + other, name) == without_named(one, name) + without_named(other, name),
        without_named(seq![webhook], name) == (if webhook.name@ == name {
            Seq::empty()
        } else {
            seq![webhook]
        }),
{
    Seq::filter_distributes_over_add(one, other, other_than(name));
    reveal_with_fuel(Seq::filter, 2);
    assert(seq![webhook].drop_last() =~= Seq::<WebhookConfig>::empty());
    assert(without_named(seq![webhook], name) =~= (if webhook.name@ == name {
        Seq::empty()
    } else {
        seq![webhook]
    }));
}

/// Each enabled webhook is counted once and no other.
pub proof fn law_enabled_are_counted(webhooks: Seq<WebhookConfig>, webhook: WebhookConfig)
    ensures
        enabled_ones(Seq::empty()).len() == 0,
        enabled_ones(webhooks.push(webhook)).len() == enabled_ones(webhooks).len() + (
        if webhook.enabled {
            1int
        } else {
            0int
        }),
{
    reveal(Seq::filter);
    assert(webhooks.push(webhook).drop_last() =~= webhooks);
}

/// An answer tells of success exactly where the first of its three digits is a two.
pub proof fn law_success_by_first_digit(status: u16)
    ensures
        is_success(status) <==> status as int / 100 == 2,
        succeeded(SendOutcome::Answered(status)) <==> status as int / 100 == 2,
{
}

/// An outcome that is no success can be counted as long as failures can, and a success as long as
/// successes can.
pub proof fn law_room_for_outcome(stats: WebhookStats, outcome: SendOutcome)
    ensures
        outcome is Failed ==> (has_room(stats, outcome) <==> stats.total_failed
            < 0xffff_ffff_ffff_ffff),
        outcome matches SendOutcome::Answered(status) ==> (has_room(stats, outcome) <==> (
        if status as int / 100 == 2 {
            stats.total_sent
        } else {
            stats.total_failed
        }) < 0xffff_ffff_ffff_ffff),
{
}

/// An answer of up to five hundred bytes is kept as it is; of a longer one the start of five hundred
/// bytes is kept, with three dots behind it.
pub proof fn law_long_answers_are_cut(body: Seq<char>)
    requires
        can_clip(body),
    ensures
        encode_utf8(body).len() <= 500 ==> clipped(body) == body,
        encode_utf8(body).len() > 500 ==> {
            let kept = clipped(body).take(clipped(body).len() - 3);
            &&& clipped(body).len() >= 3
            &&& clipped(body).skip(clipped(body).len() - 3) =~= seq!['.', '.', '.']
            &&& encode_utf8(kept) =~= encode_utf8(body).take(500)
            &&& kept.len() <= body.len()
            &&& kept =~= body.take(kept.len() as int)
        },
{
    reveal_strlit("...");
    let bytes = encode_utf8(body);
    if bytes.len() > 500 {
        let start = bytes.take(500);
        let rest = bytes.skip(500);
        vstd::utf8::encode_utf8_valid_utf8(body);
        assert(is_char_boundary(bytes, 500));
        vstd::utf8::valid_utf8_split(bytes, 500);
        vstd::utf8::decode_utf8_split(bytes, 500);
        assert(start =~= bytes.subrange(0, 500));
        assert(rest =~= bytes.subrange(500, bytes.len() as int));
        vstd::utf8::decode_utf8_encode_utf8(start);
        vstd::utf8::encode_utf8_decode_utf8(body);
        let kept = clipped(body).take(clipped(body).len() - 3);
        assert(kept =~= decode_utf8(start));
        assert(body =~= decode_utf8(start) + decode_utf8(rest));
    }
}

/// A success adds one to the total of successes and to those of its webhook, and is the last at its
/// time; nothing else changes.
pub proof fn law_success_counts_once(
    before: WebhookStats,
    after: WebhookStats,
    name: Seq<char>,
    now: UtcTime,
    other: Seq<char>,
)
    requires
        before.wf(),
        before.total_sent < 0xffff_ffff_ffff_ffff,
        counts_success(before, after, name, now),
    ensures
        after.total_sent == before.total_sent + 1,
        after.sent_by_webhook.count(name) == before.sent_by_webhook.count(name) + 1,
        other != name ==> after.sent_by_webhook.count(other) == before.sent_by_webhook.count(other),
        after.last_sent == Some(now),
        after.total_failed == before.total_failed,
        after.failed_by_webhook.count(other) == before.failed_by_webhook.count(other),
{
    before.sent_by_webhook.lemma_count_within_total(name);
}

/// A failure adds one to the total of failures and to those of its webhook; nothing else changes.
pub proof fn law_failure_counts_once(
    before: WebhookStats,
    after: WebhookStats,
    name: Seq<char>,
    other: Seq<char>,
)
    requires
        before.wf(),
        before.total_failed < 0xffff_ffff_ffff_ffff,
        counts_failure(before, after, name),
    ensures
        after.total_failed == before.total_failed + 1,
        after.failed_by_webhook.count(name) == before.failed_by_webhook.count(name) + 1,
        other != name ==> after.failed_by_webhook.count(other) == before.failed_by_webhook.count(
            other,
        ),
        after.last_sent == before.last_sent,
        after.total_sent == before.total_sent,
        after.sent_by_webhook.count(other) == before.sent_by_webhook.count(other),
{
    before.failed_by_webhook.lemma_count_within_total(name);
}

/// Blank statistics count nothing for any webhook, and statistics that hold the same count the same.
pub proof fn law_same_counts_the_same(a: WebhookStats, b: WebhookStats, name: Seq<char>)
    ensures
        a.is_blank() ==> a.total_sent == 0 && a.total_failed == 0 && a.sent_by_webhook.count(name)
            == 0 && a.failed_by_webhook.count(name) == 0 && a.last_sent is None,
        a.same(b) ==> a.total_sent == b.total_sent && a.total_failed == b.total_failed
            && a.sent_by_webhook.count(name) == b.sent_by_webhook.count(name)
            && a.failed_by_webhook.count(name) == b.failed_by_webhook.count(name) && a.last_sent
            == b.last_sent,
{
}

/// The status of a webhook has its name, its address, its state and its types, and what was counted
/// under its name.
pub proof fn law_status_has_the_webhook(
    s: WebhookStatus,
    webhook: WebhookConfig,
    stats: WebhookStats,
)
    requires
        is_status(s, webhook, stats),
    ensures
        s.name@ == webhook.name@,
        s.url@ == webhook.url@,
        s.enabled == webhook.enabled,
        s.message_types@ == webhook.message_types@,
        s.total_sent == stats.sent_by_webhook.count(webhook.name@),
        s.total_failed == stats.failed_by_webhook.count(webhook.name@),
        s.last_sent == stats.last_sent,
{
}

/// A test sends a position of five values under the identifier of a test node.
pub proof fn law_test_sends_a_position(event: WebhookEvent)
    requires
        is_test_event(event),
    ensures
        event.message_type == MessageType::Position,
        event.node_id@ =~= seq!['!', 't', 'e', 's', 't', '1', '2', '3', '4'],
        event.data == json_object_value(
            seq![
                ("latitude_i"@, json_int_value(424041350)),
                ("longitude_i"@, json_int_value(-711257033)),
                ("altitude"@, json_int_value(26)),
                ("PDOP"@, json_int_value(156)),
                ("sats_in_view"@, json_int_value(7)),
            ],
        ),
{
    reveal_strlit("!test1234");
}

/// A webhook that is sent to has ten seconds to answer.
pub proof fn law_time_to_answer()
    ensures
        ANSWER_SECONDS * 1000 == 10_000,
{
}

} // verus!
