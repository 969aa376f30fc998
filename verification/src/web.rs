//! The web interface: what requests ask for, and what they are answered.

use vstd::prelude::*;
use crate::database::{BoundQuery, Database};
use crate::models::{
    MeshWatchyError, NetworkOverview, NodeInfo, RawMqttMessage, RecentMessage, WebhookConfig,
};
use crate::mqtt::MqttClient;
use crate::numbers::{decimal, parse_int};
use crate::text::{chars_of, split, string_of, trim};
use crate::webhooks::{find, WebhookManager, WebhookStatus};
#[allow(unused_imports)]
use crate::database::position_query;
#[allow(unused_imports)]
use crate::models::webhooks_view;
#[allow(unused_imports)]
use crate::mqtt::is_broadcast;
#[allow(unused_imports)]
use crate::numbers::{decimal_of, law_decimal_reads_back, parsed_int};
#[allow(unused_imports)]
use crate::text::{begins_with, is_space, join_with, split_on, trimmed};
#[allow(unused_imports)]
use crate::time::{clock_time, time_of, UtcTime};
#[allow(unused_imports)]
use crate::webhooks::{enabled_ones, first_named, switched, without_named};

verus! {

/// How many positions the dashboard shows.
pub const DASHBOARD_POSITIONS: i32 = 10;

/// How many messages the dashboard shows.
pub const DASHBOARD_MESSAGES: i32 = 20;

/// How many text messages the message page shows.
pub const PAGE_MESSAGES: i32 = 50;

/// How many positions the map shows.
pub const MAP_POSITIONS: i32 = 100;

/// How many telemetry readings are gathered.
pub const TELEMETRY_READINGS: i32 = 50;

/// How many telemetry readings of one node are shown.
pub const NODE_TELEMETRY_READINGS: i32 = 100;

/// What is sent to WebSocket clients.
#[derive(Debug)]
pub enum WsMessage {
    NewMessage { message: RecentMessage },
    NodeUpdate { node: NodeInfo },
    NetworkStats { overview: NetworkOverview },
}

/// Query parameters for position data.
#[derive(Debug)]
pub struct PositionQuery {
    pub limit: Option<i32>,
    /// Numbers of nodes, with commas between them.
    pub nodes: Option<String>,
}

/// Request body for webhook testing.
pub struct TestWebhookRequest {
    pub webhook: WebhookConfig,
}

/// How many entries a request gets: as many as it asks for, or else 50, but no more than 1000.
pub open spec fn capped(limit: Option<i32>) -> i32 {
    match limit {
        Some(limit) => if limit < 1000 {
            limit
        } else {
            1000
        },
        None => 50,
    }
}

/// How many entries a request gets.
pub fn entry_limit(limit: Option<i32>) -> (r: i32)
    ensures
        r == capped(limit),
{
    match limit {
        Some(limit) => if limit < 1000 {
            limit
        } else {
            1000
        },
        None => 50,
    }
}

/// The number that an entry of a list gives, where it gives one.
pub open spec fn entry_number(entry: Seq<char>) -> Option<int> {
    parsed_int(trimmed(entry), 10)
}

/// The numbers among the entries of a list; what is no number is passed over.
pub open spec fn listed_numbers(entries: Seq<Seq<char>>) -> Seq<int>
    decreases entries.len(),
{
    if entries.len() == 0 {
        Seq::empty()
    } else {
        let rest = listed_numbers(entries.drop_last());
        match entry_number(entries.last()) {
            Some(number) => rest.push(number),
            None => rest,
        }
    }
}

/// The nodes that a request asks for: none in particular where it names no list or a blank one.
pub open spec fn wanted_nodes(nodes: Option<Seq<char>>) -> Option<Seq<int>> {
    match nodes {
        Some(text) => if trimmed(text).len() == 0 {
            None
        } else {
            Some(listed_numbers(split_on(text, ',')))
        },
        None => None,
    }
}

/// Node numbers as integers.
pub open spec fn integers(numbers: Seq<i64>) -> Seq<int> {
    numbers.map_values(|number: i64| number as int)
}

/// The nodes that a request asks for.
pub fn node_filter(nodes: &Option<String>) -> (r: Option<Vec<i64>>)
    ensures
        (match r {
            Some(numbers) => Some(integers(numbers@)),
            None => None,
        }) == wanted_nodes(
            (match *nodes {
                Some(text) => Some(text@),
                None => None,
            }),
        ),
{
    let text = match nodes {
        Some(text) => text.as_str(),
        None => {
            return None;
        },
    };
    if trim(&chars_of(text)).len() == 0 {
        return None;
    }
    let entries = split(text, ',');
    let ghost all = split_on(text@, ',');
    let mut numbers: Vec<i64> = Vec::new();
    let mut i: usize = 0;
    proof {
        assert(all.take(0) =~= Seq::empty());
        assert(integers(numbers@) =~= Seq::empty());
    }
    while i < entries.len()
        invariant
            i <= entries@.len(),
            entries@.len() == all.len(),
            forall|k: int| 0 <= k < entries@.len() ==> (#[trigger] entries@[k])@ == all[k],
            integers(numbers@) == listed_numbers(all.take(i as int)),
        decreases entries@.len() - i,
    {
        proof {
            assert(all.take(i + 1).drop_last() =~= all.take(i as int));
            assert(all.take(i + 1).last() == entries@[i as int]@);
        }
        let ghost before = numbers@;
        match parse_int(&trim(&entries[i]), 10) {
            Some(number) => {
                numbers.push(number);
                proof {
                    assert(integers(numbers@) =~= integers(before).push(number as int));
                }
            },
            None => {},
        }
        i = i + 1;
    }
    proof {
        assert(all.take(i as int) =~= all);
    }
    Some(numbers)
}

/// The query that a request for positions makes: for the nodes it asks for, or for all of them
/// where it asks for none.
pub fn api_positions(query: &PositionQuery) -> (r: BoundQuery)
    ensures
        ({
            let wanted = wanted_nodes(
                (match query.nodes {
                    Some(text) => Some(text@),
                    None => None,
                }),
            );
            let numbers = match wanted {
                Some(numbers) => numbers,
                None => Seq::empty(),
            };
            &&& r.sql@ == position_query(numbers.len())
            &&& integers(r.binds@) == numbers.push(capped(query.limit) as int)
        }),
{
    let nodes = node_filter(&query.nodes);
    let r = Database::get_recent_positions_filtered(entry_limit(query.limit), &nodes);
    proof {
        let named = match nodes {
            Some(numbers) => numbers@,
            None => Seq::empty(),
        };
        assert(integers(named).len() == named.len());
        assert(integers(r.binds@) =~= integers(named).push(capped(query.limit) as int));
        assert(integers(Seq::<i64>::empty()) =~= Seq::<int>::empty());
    }
    r
}

/// What the webhook page tells of all webhooks.
#[derive(Clone, Copy, Debug)]
pub struct WebhookTotals {
    pub total_webhooks: usize,
    pub enabled_webhooks: usize,
    pub total_sent: u64,
    pub total_failed: u64,
}

/// How many of these webhooks are enabled.
pub open spec fn enabled_count(statuses: Seq<WebhookStatus>) -> nat
    decreases statuses.len(),
{
    if statuses.len() == 0 {
        0
    } else {
        enabled_count(statuses.drop_last()) + (if statuses.last().enabled {
            1nat
        } else {
            0nat
        })
    }
}

/// How much was sent to these webhooks.
pub open spec fn sent_sum(statuses: Seq<WebhookStatus>) -> nat
    decreases statuses.len(),
{
    if statuses.len() == 0 {
        0
    } else {
        sent_sum(statuses.drop_last()) + statuses.last().total_sent as nat
    }
}

/// How much failed to reach these webhooks.
pub open spec fn failed_sum(statuses: Seq<WebhookStatus>) -> nat
    decreases statuses.len(),
{
    if statuses.len() == 0 {
        0
    } else {
        failed_sum(statuses.drop_last()) + statuses.last().total_failed as nat
    }
}

/// The sums over the first webhooks do not exceed those over all.
proof fn lemma_sums_grow(statuses: Seq<WebhookStatus>, n: int)
    requires
        0 <= n <= statuses.len(),
    ensures
        sent_sum(statuses.take(n)) <= sent_sum(statuses),
        failed_sum(statuses.take(n)) <= failed_sum(statuses),
    decreases statuses.len(),
{
    if n == statuses.len() {
        assert(statuses.take(n) =~= statuses);
    } else {
        lemma_sums_grow(statuses.drop_last(), n);
        assert(statuses.drop_last().take(n) =~= statuses.take(n));
    }
}

/// What the webhook page tells of all webhooks; nothing where a sum does not fit in 64 bits.
pub fn webhook_totals(statuses: &Vec<WebhookStatus>) -> (r: Option<WebhookTotals>)
    ensures
        match r {
            Some(totals) => {
                &&& totals.total_webhooks == statuses@.len()
                &&& totals.enabled_webhooks == enabled_count(statuses@)
                &&& totals.total_sent == sent_sum(statuses@)
                &&& totals.total_failed == failed_sum(statuses@)
            },
            None => sent_sum(statuses@) > u64::MAX || failed_sum(statuses@) > u64::MAX,
        },
{
    let mut enabled_webhooks: usize = 0;
    let mut total_sent: u64 = 0;
    let mut total_failed: u64 = 0;
    let mut i: usize = 0;
    proof {
        assert(statuses@.take(0) =~= Seq::empty());
    }
    while i < statuses.len()
        invariant
            i <= statuses@.len(),
            enabled_webhooks <= i,
            enabled_webhooks == enabled_count(statuses@.take(i as int)),
            total_sent == sent_sum(statuses@.take(i as int)),
            total_failed == failed_sum(statuses@.take(i as int)),
        decreases statuses@.len() - i,
    {
        proof {
            assert(statuses@.take(i + 1).drop_last() =~= statuses@.take(i as int));
            lemma_sums_grow(statuses@, i + 1);
        }
        if statuses[i].enabled {
            enabled_webhooks = enabled_webhooks + 1;
        }
        match total_sent.checked_add(statuses[i].total_sent) {
            Some(sum) => {
                total_sent = sum;
            },
            None => {
                return None;
            },
        }
        match total_failed.checked_add(statuses[i].total_failed) {
            Some(sum) => {
                total_failed = sum;
            },
            None => {
                return None;
            },
        }
        i = i + 1;
    }
    proof {
        assert(statuses@.take(i as int) =~= statuses@);
    }
    Some(
        WebhookTotals {
            total_webhooks: statuses.len(),
            enabled_webhooks,
            total_sent,
            total_failed,
        },
    )
}

/// The pages.
#[derive(Clone, Copy, Debug, PartialEq, Eq, Structural)]
pub enum Page {
    Dashboard,
    Nodes,
    Messages,
    NodeMap,
    Webhooks,
}

/// The steps of making a page.
#[derive(Clone, Copy, Debug, PartialEq, Eq, Structural)]
pub enum PageStep {
    /// Get the overview of the network.
    Overview,
    /// Get the nodes.
    Nodes,
    /// Get at most so many positions.
    Positions(i32),
    /// Get at most so many messages.
    Messages(i32),
    /// Get the status of the webhooks.
    WebhookStatus,
    /// Get the counts of messages by type.
    MessageStats,
    /// Get at most so many text messages.
    TextMessages(i32),
    /// Get at most so many positions with what is known of their nodes.
    MapPositions(i32),
    /// Write these positions as JSON.
    PositionsJson,
    /// Sum up the status of the webhooks.
    WebhookTotals,
    /// Get the template of the page.
    Template,
    /// Fill the template in.
    Render,
}

/// The steps of making a page, in order.
pub open spec fn steps_of(page: Page) -> Seq<PageStep> {
    match page {
        Page::Dashboard => seq![
            PageStep::Overview,
            PageStep::Nodes,
            PageStep::Positions(DASHBOARD_POSITIONS),
            PageStep::Messages(DASHBOARD_MESSAGES),
            PageStep::WebhookStatus,
            PageStep::MessageStats,
            PageStep::Template,
            PageStep::Render,
        ],
        Page::Nodes => seq![PageStep::Nodes, PageStep::Template, PageStep::Render],
        Page::Messages => seq![
            PageStep::TextMessages(PAGE_MESSAGES),
            PageStep::Template,
            PageStep::Render,
        ],
        Page::NodeMap => seq![
            PageStep::MapPositions(MAP_POSITIONS),
            PageStep::PositionsJson,
            PageStep::Template,
            PageStep::Render,
        ],
        Page::Webhooks => seq![
            PageStep::WebhookStatus,
            PageStep::WebhookTotals,
            PageStep::Template,
            PageStep::Render,
        ],
    }
}

/// What to do next about a page.
#[derive(Clone, Copy, Debug, PartialEq, Eq, Structural)]
pub enum PageAction {
    /// Do this step.
    Perform(PageStep),
    /// Answer with this status.
    Answer(u16),
}

/// What to do next about a page of which `done` steps were done, the last with the outcome given: a
/// step that failed ends it.
pub open spec fn page_action(page: Page, done: int, succeeded: bool) -> PageAction {
    if !succeeded {
        PageAction::Answer(500)
    } else if 0 <= done < steps_of(page).len() {
        PageAction::Perform(steps_of(page)[done])
    } else {
        PageAction::Answer(200)
    }
}

/// What to do next about a page of which `done` steps were done, the last with the outcome given.
pub fn next_page_action(page: Page, done: usize, succeeded: bool) -> (r: PageAction)
    ensures
        r == page_action(page, done as int, succeeded),
{
    if !succeeded {
        return PageAction::Answer(500);
    }
    let steps = match page {
        Page::Dashboard => vec![
            PageStep::Overview,
            PageStep::Nodes,
            PageStep::Positions(DASHBOARD_POSITIONS),
            PageStep::Messages(DASHBOARD_MESSAGES),
            PageStep::WebhookStatus,
            PageStep::MessageStats,
            PageStep::Template,
            PageStep::Render,
        ],
        Page::Nodes => vec![PageStep::Nodes, PageStep::Template, PageStep::Render],
        Page::Messages => vec![
            PageStep::TextMessages(PAGE_MESSAGES),
            PageStep::Template,
            PageStep::Render,
        ],
        Page::NodeMap => vec![
            PageStep::MapPositions(MAP_POSITIONS),
            PageStep::PositionsJson,
            PageStep::Template,
            PageStep::Render,
        ],
        Page::Webhooks => vec![
            PageStep::WebhookStatus,
            PageStep::WebhookTotals,
            PageStep::Template,
            PageStep::Render,
        ],
    };
    proof {
        assert(steps@ =~= steps_of(page));
    }
    if done < steps.len() {
        PageAction::Perform(steps[done])
    } else {
        PageAction::Answer(200)
    }
}

/// The name of the template of a page.
pub fn template_name(page: Page) -> (r: &'static str)
    ensures
        r@ == (match page {
            Page::Dashboard => "dashboard.html"@,
            Page::Nodes => "nodes.html"@,
            Page::Messages => "messages.html"@,
            Page::NodeMap => "map.html"@,
            Page::Webhooks => "webhooks.html"@,
        }),
{
    match page {
        Page::Dashboard => "dashboard.html",
        Page::Nodes => "nodes.html",
        Page::Messages => "messages.html",
        Page::NodeMap => "map.html",
        Page::Webhooks => "webhooks.html",
    }
}

/// The status that answers a page from its step `done` on, where the steps end as `outcomes` says.
pub open spec fn page_status(page: Page, outcomes: Seq<bool>, done: int) -> u16
    decreases steps_of(page).len() - done,
{
    if 0 <= done < steps_of(page).len() {
        match page_action(page, done + 1, outcomes[done]) {
            PageAction::Answer(status) => status,
            PageAction::Perform(_) => page_status(page, outcomes, done + 1),
        }
    } else {
        200
    }
}

/// A page is answered with success exactly where each of its steps succeeds, and otherwise with the
/// status of a server error.
pub proof fn law_page_needs_every_step(page: Page, outcomes: Seq<bool>)
    requires
        outcomes.len() == steps_of(page).len(),
    ensures
        page_status(page, outcomes, 0) == (if forall|i: int|
            0 <= i < outcomes.len() ==> #[trigger] outcomes[i] {
            200u16
        } else {
            500u16
        }),
{
    lemma_page_status_from(page, outcomes, 0);
}

proof fn lemma_page_status_from(page: Page, outcomes: Seq<bool>, done: int)
    requires
        outcomes.len() == steps_of(page).len(),
        0 <= done <= outcomes.len(),
    ensures
        page_status(page, outcomes, done) == (if forall|i: int|
            done <= i < outcomes.len() ==> #[trigger] outcomes[i] {
            200u16
        } else {
            500u16
        }),
    decreases outcomes.len() - done,
{
    if done < outcomes.len() {
        lemma_page_status_from(page, outcomes, done + 1);
        if outcomes[done] {
            if forall|i: int| done + 1 <= i < outcomes.len() ==> #[trigger] outcomes[i] {
                assert forall|i: int| done <= i < outcomes.len() implies #[trigger] outcomes[i] by {
                    if i > done {
                        assert(outcomes[i]);
                    }
                }
            }
        }
    }
}

/// What comes of a request to change the webhooks.
pub enum WebhookChange {
    /// The webhooks were changed and are to be saved; the request is answered with this status
    /// where that succeeds.
    Save { webhooks: Vec<WebhookConfig>, status: u16 },
    /// There is no webhook of that name.
    NotFound,
}

/// Whether `change` asks to save the webhooks of a manager and to answer with that status.
pub open spec fn asks_to_save(
    change: WebhookChange,
    webhooks: Seq<WebhookConfig>,
    wanted: u16,
) -> bool {
    change matches WebhookChange::Save { webhooks: saved, status } && webhooks_view(saved@)
        == webhooks_view(webhooks) && status == wanted
}

/// Adds a webhook.
pub fn api_add_webhook(manager: &mut WebhookManager, webhook: WebhookConfig) -> (r: WebhookChange)
    requires
        old(manager).wf(),
        webhook.wf(),
    ensures
        final(manager).wf(),
        final(manager).stats() == old(manager).stats(),
        final(manager).webhooks() == old(manager).webhooks().push(webhook),
        asks_to_save(r, final(manager).webhooks(), 201),
{
    manager.add_webhook(webhook);
    WebhookChange::Save { webhooks: manager.get_webhooks(), status: 201 }
}

/// Puts a webhook in place of the first with that name.
pub fn api_update_webhook(manager: &mut WebhookManager, name: &str, webhook: WebhookConfig) -> (r:
    WebhookChange)
    requires
        old(manager).wf(),
        webhook.wf(),
    ensures
        final(manager).wf(),
        final(manager).stats() == old(manager).stats(),
        match first_named(old(manager).webhooks(), name@) {
            Some(i) => {
                &&& final(manager).webhooks() == old(manager).webhooks().update(i, webhook)
                &&& asks_to_save(r, final(manager).webhooks(), 200)
            },
            None => r is NotFound && final(manager).webhooks() == old(manager).webhooks(),
        },
{
    if manager.update_webhook(name, webhook) {
        WebhookChange::Save { webhooks: manager.get_webhooks(), status: 200 }
    } else {
        WebhookChange::NotFound
    }
}

/// Removes the webhooks with that name.
pub fn api_delete_webhook(manager: &mut WebhookManager, name: &str) -> (r: WebhookChange)
    requires
        old(manager).wf(),
    ensures
        final(manager).wf(),
        final(manager).stats() == old(manager).stats(),
        final(manager).webhooks() == without_named(old(manager).webhooks(), name@),
        if first_named(old(manager).webhooks(), name@) is Some {
            asks_to_save(r, final(manager).webhooks(), 200)
        } else {
            r is NotFound
        },
{
    if manager.remove_webhook(name) {
        WebhookChange::Save { webhooks: manager.get_webhooks(), status: 200 }
    } else {
        WebhookChange::NotFound
    }
}

/// Switches the first webhook with that name on where it is off, and off where it is on.
pub fn api_toggle_webhook(manager: &mut WebhookManager, name: &str) -> (r: WebhookChange)
    requires
        old(manager).wf(),
    ensures
        final(manager).wf(),
        final(manager).stats() == old(manager).stats(),
        match first_named(old(manager).webhooks(), name@) {
            Some(i) => {
                &&& final(manager).webhooks() == switched(
                    old(manager).webhooks(),
                    name@,
                    !old(manager).webhooks()[i].enabled,
                )
                &&& asks_to_save(r, final(manager).webhooks(), 200)
            },
            None => r is NotFound && final(manager).webhooks() == old(manager).webhooks(),
        },
{
    let webhooks = manager.get_webhooks();
    let ghost held = manager.webhooks();
    proof {
        crate::webhooks::lemma_first_named_by_view(webhooks@, held, name@);
        crate::webhooks::law_first_named(held, name@);
        crate::webhooks::law_first_named(webhooks@, name@);
    }
    match find(&webhooks, name) {
        Some(i) => {
            proof {
                assert(webhooks_view(webhooks@)[i as int] == webhooks@[i as int]@);
                assert(webhooks_view(held)[i as int] == held[i as int]@);
            }
            if manager.set_webhook_enabled(name, !webhooks[i].enabled) {
                WebhookChange::Save { webhooks: manager.get_webhooks(), status: 200 }
            } else {
                WebhookChange::NotFound
            }
        },
        None => WebhookChange::NotFound,
    }
}

/// The status that answers a request to change the webhooks, where `saved` says whether the
/// webhooks could be saved.
pub fn change_status(change: &WebhookChange, saved: bool) -> (r: u16)
    ensures
        r == (match *change {
            WebhookChange::Save { status, .. } => if saved {
                status
            } else {
                500
            },
            WebhookChange::NotFound => 404,
        }),
{
    match change {
        WebhookChange::Save { status, .. } => if saved {
            *status
        } else {
            500
        },
        WebhookChange::NotFound => 404,
    }
}

/// What a new WebSocket client gets first: the overview of the network, where there is one.
pub fn initial_message(overview: Option<NetworkOverview>) -> (r: Option<WsMessage>)
    ensures
        r == (match overview {
            Some(overview) => Some(WsMessage::NetworkStats { overview }),
            None => None,
        }),
{
    match overview {
        Some(overview) => Some(WsMessage::NetworkStats { overview }),
        None => None,
    }
}

/// What WebSocket clients get of a message from a topic.
pub fn new_message(message: &RawMqttMessage, topic: &str) -> (r: WsMessage)
    ensures
        r matches WsMessage::NewMessage { message: shown } && exists|fallback: UtcTime|
            (time_of(message.timestamp) is None ==> clock_time(fallback)) && #[trigger]
                is_broadcast(shown, *message, topic@, fallback),
{
    WsMessage::NewMessage { message: MqttClient::recent_message(message, topic) }
}

/// What happens on a WebSocket connection.
#[derive(Clone, Copy, Debug, PartialEq, Eq, Structural)]
pub enum WsEvent {
    /// A message is to be forwarded to the client.
    Broadcast,
    /// A message to be forwarded could not be written as JSON.
    NotWritten,
    /// A message was sent to the client.
    Sent,
    /// A message could not be sent to the client.
    SendFailed,
    /// No more messages are to be forwarded.
    BroadcastClosed,
    /// Messages to be forwarded were lost.
    BroadcastLagged,
    /// The client sent a text.
    Text,
    /// The client closed the connection.
    Close,
    /// The connection failed.
    Failed,
    /// The connection ended.
    Ended,
    /// The client sent something else.
    Other,
}

/// What to do about an event on a WebSocket connection.
#[derive(Clone, Copy, Debug, PartialEq, Eq, Structural)]
pub enum WsAction {
    /// Send the message to the client.
    Forward,
    /// Wait for the next event.
    Continue,
    /// Give the connection up.
    Stop,
}

/// What to do about an event on a WebSocket connection.
pub fn handle_websocket(event: WsEvent) -> (r: WsAction)
    ensures
        r == WsAction::Forward <==> event == WsEvent::Broadcast,
        r == WsAction::Stop <==> (event == WsEvent::SendFailed || event == WsEvent::BroadcastClosed
            || event == WsEvent::Close || event == WsEvent::Failed || event == WsEvent::Ended),
{
    match event {
        WsEvent::Broadcast => WsAction::Forward,
        WsEvent::NotWritten
        | WsEvent::Sent
        | WsEvent::BroadcastLagged
        | WsEvent::Text
        | WsEvent::Other => WsAction::Continue,
        WsEvent::SendFailed
        | WsEvent::BroadcastClosed
        | WsEvent::Close
        | WsEvent::Failed
        | WsEvent::Ended => WsAction::Stop,
    }
}

/// A path without the slashes at its start.
pub open spec fn unrooted(path: Seq<char>) -> Seq<char>
    decreases path.len(),
{
    if path.len() > 0 && path[0] == '/' {
        unrooted(path.skip(1))
    } else {
        path
    }
}

/// The place of an asset by the path of a request.
pub fn asset_place(path: &str) -> (r: String)
    ensures
        r@ == unrooted(path@),
{
    let chars = chars_of(path);
    let mut start: usize = 0;
    proof {
        assert(chars@.skip(0) =~= chars@);
    }
    while start < chars.len() && chars[start] == '/'
        invariant
            start <= chars@.len(),
            unrooted(chars@.skip(start as int)) == unrooted(chars@),
        decreases chars@.len() - start,
    {
        proof {
            assert(chars@.skip(start as int)[0] == '/');
            assert(chars@.skip(start as int).skip(1) =~= chars@.skip(start + 1));
        }
        start = start + 1;
    }
    let mut rest: Vec<char> = Vec::new();
    let mut i: usize = start;
    while i < chars.len()
        invariant
            start <= i <= chars@.len(),
            rest@ == chars@.subrange(start as int, i as int),
        decreases chars@.len() - i,
    {
        rest.push(chars[i]);
        proof {
            assert(chars@.subrange(start as int, i + 1) =~= chars@.subrange(
                start as int,
                i as int,
            ).push(chars@[i as int]));
        }
        i = i + 1;
    }
    proof {
        assert(chars@.subrange(start as int, i as int) =~= chars@.skip(start as int));
        assert(start < chars@.len() ==> chars@.skip(start as int)[0] == chars@[start as int]);
        assert(unrooted(chars@.skip(start as int)) == chars@.skip(start as int));
    }
    string_of(&rest)
}

/// The media type that `mime_guess` has for the extension of a path.
pub uninterp spec fn mime_of(path: Seq<char>) -> Seq<char>;

/// Whether a path has nothing that only some systems take for a part of its structure: no backslash,
/// no colon, and no two slashes at its start.
pub open spec fn plain_path(path: Seq<char>) -> bool {
    !path.contains('\\') && !path.contains(':') && !begins_with(path, "//"@)
}

/// Calls `mime_guess::from_path` and takes the first guess, or else that for arbitrary bytes.
/// Claimed of it: for a path without backslashes, colons and two slashes at its start, which systems
/// read differently, the media type depends on the path alone.
#[verifier::external_body]
fn guess_mime(path: &str) -> (r: String)
    ensures
        plain_path(path@) ==> r@ == mime_of(path@),
{
    mime_guess::from_path(path).first_or_octet_stream().as_ref().to_string()
}

/// How a request for an asset is answered.
#[derive(Debug)]
pub struct AssetAnswer {
    pub status: u16,
    /// Content type and cache control; an answer without an asset has neither.
    pub headers: Option<(String, String)>,
}

/// How a request for an asset of a media type is answered, where `found` says whether there is
/// one.
pub fn asset_answer_as(found: bool, content_type: String) -> (r: AssetAnswer)
    ensures
        if found {
            &&& r.status == 200
            &&& r.headers matches Some((mime, cache)) && mime == content_type && cache@
                == "public, max-age=31536000"@
        } else {
            r.status == 404 && r.headers is None
        },
{
    if found {
        AssetAnswer {
            status: 200,
            headers: Some((content_type, "public, max-age=31536000".to_owned())),
        }
    } else {
        AssetAnswer { status: 404, headers: None }
    }
}

/// How a request for an asset is answered, where `found` says whether there is one at its place.
pub fn asset_answer(place: &str, found: bool) -> (r: AssetAnswer)
    ensures
        if found {
            &&& r.status == 200
            &&& r.headers matches Some((mime, cache)) && (plain_path(place@) ==> mime@ == mime_of(
                place@,
            )) && cache@ == "public, max-age=31536000"@
        } else {
            r.status == 404 && r.headers is None
        },
{
    asset_answer_as(found, guess_mime(place))
}

/// Where a server listens.
pub open spec fn endpoint(address: Seq<char>, port: u16) -> Seq<char> {
    address + ":"@ + decimal_of(port as int)
}

/// Where a server listens.
pub fn bind_target(bind_address: &str, bind_port: u16) -> (r: String)
    ensures
        r@ == endpoint(bind_address@, bind_port),
{
    let mut r = bind_address.to_owned();
    r.append(":");
    r.append(decimal(bind_port as i64).as_str());
    r
}

/// The error of a server that cannot listen there.
pub fn bind_failed(bind_address: &str, bind_port: u16, cause: &str) -> (r: MeshWatchyError)
    ensures
        r matches MeshWatchyError::Config(text) && text@ == "Failed to bind to "@ + endpoint(
            bind_address@,
            bind_port,
        ) + ": "@ + cause@,
{
    let mut text = "Failed to bind to ".to_owned();
    text.append(bind_target(bind_address, bind_port).as_str());
    text.append(": ");
    text.append(cause);
    MeshWatchyError::Config(text)
}

/// The error of a server that stopped.
pub fn serve_failed(cause: &str) -> (r: MeshWatchyError)
    ensures
        r matches MeshWatchyError::Config(text) && text@ == "Web server error: "@ + cause@,
{
    let mut text = "Web server error: ".to_owned();
    text.append(cause);
    MeshWatchyError::Config(text)
}

/// No request gets more than 1000 entries, and none gets more than it asks for.
pub proof fn law_limit_is_capped(limit: Option<i32>)
    ensures
        capped(limit) <= 1000,
        limit matches Some(asked) ==> capped(limit) <= asked,
{
}

/// Toggling a webhook twice changes nothing.
pub proof fn law_toggled_back(webhooks: Seq<WebhookConfig>, name: Seq<char>)
    requires
        first_named(webhooks, name) is Some,
    ensures
        ({
            let was = webhooks[first_named(webhooks, name)->0].enabled;
            let once = switched(webhooks, name, !was);
            &&& first_named(once, name) is Some
            &&& switched(once, name, !once[first_named(once, name)->0].enabled) == webhooks
        }),
{
    crate::webhooks::law_switched_back(webhooks, name);
}

/// Numbers as a list: in decimal, with commas between them.
pub open spec fn list_of(numbers: Seq<i64>) -> Seq<char> {
    join_with(numbers.map_values(|number: i64| decimal_of(number as int)), ',')
}

/// The entries of a list are read back as the numbers that they were written for.
proof fn lemma_entries_read_back(numbers: Seq<i64>)
    ensures
        listed_numbers(numbers.map_values(|number: i64| decimal_of(number as int))) == integers(
            numbers,
        ),
    decreases numbers.len(),
{
    let entries = numbers.map_values(|number: i64| decimal_of(number as int));
    if numbers.len() > 0 {
        let shorter = numbers.drop_last();
        lemma_entries_read_back(shorter);
        assert(entries.drop_last() =~= shorter.map_values(
            |number: i64| decimal_of(number as int),
        ));
        let last = decimal_of(numbers.last() as int);
        assert(entries.last() == last);
        crate::numbers::lemma_decimal_chars(numbers.last() as int);
        assert(!is_space(last[0]));
        assert(!is_space(last[last.len() - 1]));
        crate::text::lemma_nothing_to_trim(last);
        law_decimal_reads_back(numbers.last());
        assert(integers(numbers) =~= integers(shorter).push(numbers.last() as int));
    } else {
        assert(integers(numbers) =~= Seq::empty());
    }
}

/// A list of numbers neither starts nor ends with white space.
proof fn lemma_list_ends(numbers: Seq<i64>)
    requires
        numbers.len() > 0,
    ensures
        list_of(numbers).len() > 0,
        !is_space(list_of(numbers)[0]),
        !is_space(list_of(numbers).last()),
    decreases numbers.len(),
{
    let entries = numbers.map_values(|number: i64| decimal_of(number as int));
    let last = decimal_of(numbers.last() as int);
    crate::numbers::lemma_decimal_chars(numbers.last() as int);
    assert(!is_space(last[0]));
    assert(!is_space(last[last.len() - 1]));
    assert(entries.last() == last);
    if numbers.len() > 1 {
        let shorter = numbers.drop_last();
        lemma_list_ends(shorter);
        assert(entries.drop_last() =~= shorter.map_values(
            |number: i64| decimal_of(number as int),
        ));
        assert(list_of(numbers) == list_of(shorter).push(',') + last);
    }
}

/// Nodes named in a list, in decimal with commas between them, are the nodes asked for.
pub proof fn law_list_is_read_back(numbers: Seq<i64>)
    requires
        numbers.len() > 0,
    ensures
        wanted_nodes(Some(list_of(numbers))) == Some(integers(numbers)),
{
    let entries = numbers.map_values(|number: i64| decimal_of(number as int));
    assert forall|k: int| 0 <= k < entries.len() implies !(#[trigger] entries[k]).contains(
        ',',
    ) by {
        crate::numbers::lemma_decimal_chars(numbers[k] as int);
    }
    crate::text::law_join_then_split(entries, ',');
    lemma_entries_read_back(numbers);
    lemma_list_ends(numbers);
    crate::text::lemma_nothing_to_trim(list_of(numbers));
}

/// A request gets as many entries as it asks for up to a thousand, a thousand where it asks for more,
/// and fifty where it does not say.
pub proof fn law_entries_by_request(limit: Option<i32>)
    ensures
        limit is None ==> capped(limit) == 50,
        limit matches Some(asked) ==> (asked <= 1000 ==> capped(limit) == asked) && (asked > 1000
            ==> capped(limit) == 1000),
{
}

/// Entries of a list are read one by one and in their order; one that is no number is passed over.
pub proof fn law_entries_one_by_one(entries: Seq<Seq<char>>, entry: Seq<char>)
    ensures
        listed_numbers(Seq::empty()) == Seq::<int>::empty(),
        parsed_int(trimmed(entry), 10) is None ==> listed_numbers(entries.push(entry))
            == listed_numbers(entries),
        parsed_int(trimmed(entry), 10) matches Some(number) ==> listed_numbers(entries.push(entry))
            == listed_numbers(entries).push(number),
{
    assert(entries.push(entry).drop_last() =~= entries);
}

/// No list and a blank list ask for no nodes in particular; any other asks for those that its entries
/// between the commas name.
pub proof fn law_nodes_by_list(text: Seq<char>)
    ensures
        wanted_nodes(None) is None,
        (forall|i: int| 0 <= i < text.len() ==> is_space(#[trigger] text[i])) ==> wanted_nodes(
            Some(text),
        ) is None,
        (exists|i: int| 0 <= i < text.len() && !is_space(#[trigger] text[i])) ==> wanted_nodes(
            Some(text),
        ) == Some(listed_numbers(split_on(text, ','))),
{
    crate::text::law_trimming_takes_spaces(text);
    if forall|i: int| 0 <= i < text.len() ==> is_space(#[trigger] text[i]) {
        crate::text::law_blank_is_trimmed_away(text);
    }
    if exists|i: int| 0 <= i < text.len() && !is_space(#[trigger] text[i]) {
        let i = choose|i: int| 0 <= i < text.len() && !is_space(#[trigger] text[i]);
        if trimmed(text).len() == 0 {
            crate::text::law_trimmed_away_is_blank(text);
        }
    }
}

/// Sums and counts over webhooks go one by one: each is counted where it is enabled, and adds what was
/// sent to it and what failed.
pub proof fn law_sums_one_by_one(statuses: Seq<WebhookStatus>, status: WebhookStatus)
    ensures
        enabled_count(Seq::empty()) == 0,
        sent_sum(Seq::empty()) == 0,
        failed_sum(Seq::empty()) == 0,
        status.enabled ==> enabled_count(statuses.push(status)) == enabled_count(statuses) + 1,
        !status.enabled ==> enabled_count(statuses.push(status)) == enabled_count(statuses),
        sent_sum(statuses.push(status)) == sent_sum(statuses) + status.total_sent,
        failed_sum(statuses.push(status)) == failed_sum(statuses) + status.total_failed,
{
    assert(statuses.push(status).drop_last() =~= statuses);
}

/// A step that failed ends a page with a server error; otherwise the next step is done, and behind the
/// last the page is answered.
pub proof fn law_page_action(page: Page, done: int)
    ensures
        page_action(page, done, false) == PageAction::Answer(500),
        0 <= done < steps_of(page).len() ==> page_action(page, done, true) == PageAction::Perform(
            steps_of(page)[done],
        ),
        done >= steps_of(page).len() ==> page_action(page, done, true) == PageAction::Answer(200),
{
}

/// Each page gets its template and fills it in when all it shows is there; and no step is done
/// twice.
pub proof fn law_page_is_rendered_last(page: Page, a: int, b: int)
    ensures
        steps_of(page).len() >= 3,
        steps_of(page)[steps_of(page).len() - 2] == PageStep::Template,
        steps_of(page)[steps_of(page).len() - 1] == PageStep::Render,
        0 <= a < b < steps_of(page).len() ==> steps_of(page)[a] != steps_of(page)[b],
{
}

/// What each page shows, and how much of it.
pub proof fn law_page_shows(page: Page, step: PageStep)
    requires
        step != PageStep::Template,
        step != PageStep::Render,
    ensures
        steps_of(Page::Dashboard).contains(step) <==> {
            ||| step == PageStep::Overview
            ||| step == PageStep::Nodes
            ||| step == PageStep::Positions(10)
            ||| step == PageStep::Messages(20)
            ||| step == PageStep::WebhookStatus
            ||| step == PageStep::MessageStats
        },
        steps_of(Page::Nodes).contains(step) <==> step == PageStep::Nodes,
        steps_of(Page::Messages).contains(step) <==> step == PageStep::TextMessages(50),
        steps_of(Page::NodeMap).contains(step) <==> step == PageStep::MapPositions(100) || step
            == PageStep::PositionsJson,
        steps_of(Page::Webhooks).contains(step) <==> step == PageStep::WebhookStatus || step
            == PageStep::WebhookTotals,
{
    let d = steps_of(Page::Dashboard);
    assert(d[0] == PageStep::Overview && d[1] == PageStep::Nodes && d[2] == PageStep::Positions(10)
        && d[3] == PageStep::Messages(20) && d[4] == PageStep::WebhookStatus && d[5]
        == PageStep::MessageStats);
    assert(steps_of(Page::Nodes)[0] == PageStep::Nodes);
    assert(steps_of(Page::Messages)[0] == PageStep::TextMessages(50));
    let m = steps_of(Page::NodeMap);
    assert(m[0] == PageStep::MapPositions(100) && m[1] == PageStep::PositionsJson);
    let w = steps_of(Page::Webhooks);
    assert(w[0] == PageStep::WebhookStatus && w[1] == PageStep::WebhookTotals);
}

/// A change asks to save the webhooks that there are then, each as it is and in their order, and is
/// answered with the status told.
pub proof fn law_saves_what_there_is(
    change: WebhookChange,
    webhooks: Seq<WebhookConfig>,
    wanted: u16,
    i: int,
)
    requires
        asks_to_save(change, webhooks, wanted),
        0 <= i < webhooks.len(),
    ensures
        change is Save,
        change->status == wanted,
        (change->webhooks)@.len() == webhooks.len(),
        (change->webhooks)@[i]@ == webhooks[i]@,
{
    let saved = (change->webhooks)@;
    assert(webhooks_view(saved).len() == webhooks_view(webhooks).len());
    assert(webhooks_view(saved)[i] == saved[i]@);
    assert(webhooks_view(webhooks)[i] == webhooks[i]@);
}

/// A path loses the slashes at its start and nothing else.
pub proof fn law_leading_slashes_go(path: Seq<char>)
    ensures
        unrooted(path).len() <= path.len(),
        path.skip(path.len() - unrooted(path).len()) =~= unrooted(path),
        forall|i: int|
            0 <= i < path.len() - unrooted(path).len() ==> #[trigger] path[i] == '/',
        unrooted(path).len() > 0 ==> unrooted(path)[0] != '/',
    decreases path.len(),
{
    if path.len() > 0 && path[0] == '/' {
        let rest = path.skip(1);
        law_leading_slashes_go(rest);
        assert(path.skip(path.len() - unrooted(path).len()) =~= rest.skip(
            rest.len() - unrooted(rest).len(),
        ));
        assert forall|i: int| 0 <= i < path.len() - unrooted(path).len() implies #[trigger] path[i]
            == '/' by {
            if i > 0 {
                assert(path[i] == rest[i - 1]);
            }
        }
    } else {
        assert(path.skip(0) =~= path);
    }
}

/// Where a server listens is told by its address, a colon and its port in decimal.
pub proof fn law_endpoint_parts(address: Seq<char>, port: u16)
    ensures
        endpoint(address, port).len() > address.len() + 1,
        endpoint(address, port).take(address.len() as int) =~= address,
        endpoint(address, port)[address.len() as int] == ':',
        parsed_int(endpoint(address, port).skip(address.len() as int + 1), 10) == Some(port as int),
{
    reveal_strlit(":");
    crate::numbers::lemma_decimal_chars(port as int);
    law_decimal_reads_back(port as i64);
    assert(endpoint(address, port).skip(address.len() as int + 1) =~= decimal_of(port as int));
}

/// A path is read alike by all systems where it holds no backslash and no colon and does not start
/// with two slashes.
pub proof fn law_plain_paths(path: Seq<char>)
    requires
        forall|i: int| 0 <= i < path.len() ==> #[trigger] path[i] != '\\' && path[i] != ':',
        path.len() < 2 || path[0] != '/' || path[1] != '/',
    ensures
        plain_path(path),
{
    reveal_strlit("//");
    if begins_with(path, "//"@) {
        assert(path.take(2)[0] == '/' && path.take(2)[1] == '/');
    }
}

} // verus!
