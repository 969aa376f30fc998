//! The configuration: its defaults, its validation and its example webhooks.

use vstd::prelude::*;
use crate::models::{
    AppConfig, DatabaseConfig, MeshWatchyError, MessageType, MqttConfig, WebConfig, WebhookConfig,
};
use crate::text::starts_with;
use crate::textmap::TextMap;
#[allow(unused_imports)]
use crate::models::{all_wf, texts_view, webhooks_view, WebhookView};
#[allow(unused_imports)]
use crate::text::begins_with;

verus! {

/// Whether these are the default MQTT settings.
pub open spec fn is_default_mqtt(c: MqttConfig) -> bool {
    &&& c.broker_host@ == "public.meshtastic.org"@
    &&& c.broker_port == 1883
    &&& c.username is None
    &&& c.password is None
    &&& texts_view(c.topics@) == seq!["msh/US/+/json/+/+"@]
}

/// Whether these are the default database settings.
pub open spec fn is_default_database(c: DatabaseConfig) -> bool {
    &&& c.url@ == "sqlite:mesh_watchy.db"@
    &&& c.max_connections == 10
}

/// Whether these are the default web server settings.
pub open spec fn is_default_web(c: WebConfig) -> bool {
    &&& c.bind_address@ == "127.0.0.1"@
    &&& c.bind_port == 3000
    &&& c.static_dir@ == "static"@
    &&& c.templates_dir@ == "templates"@
}

/// Whether this is the default configuration.
pub open spec fn is_default_config(c: AppConfig) -> bool {
    &&& is_default_mqtt(c.mqtt)
    &&& is_default_database(c.database)
    &&& is_default_web(c.web)
    &&& c.webhooks@.len() == 0
}

impl Default for MqttConfig {
    fn default() -> (r: Self)
        ensures
            is_default_mqtt(r),
    {
        let mut topics: Vec<String> = Vec::new();
        topics.push("msh/US/+/json/+/+".to_owned());
        proof {
            assert(texts_view(topics@) =~= seq!["msh/US/+/json/+/+"@]);
        }
        MqttConfig {
            broker_host: "public.meshtastic.org".to_owned(),
            broker_port: 1883,
            username: None,
            password: None,
            topics,
        }
    }
}

impl Default for DatabaseConfig {
    fn default() -> (r: Self)
        ensures
            is_default_database(r),
    {
        DatabaseConfig { url: "sqlite:mesh_watchy.db".to_owned(), max_connections: 10 }
    }
}

impl Default for WebConfig {
    fn default() -> (r: Self)
        ensures
            is_default_web(r),
    {
        WebConfig {
            bind_address: "127.0.0.1".to_owned(),
            bind_port: 3000,
            static_dir: "static".to_owned(),
            templates_dir: "templates".to_owned(),
        }
    }
}

impl Default for AppConfig {
    fn default() -> (r: Self)
        ensures
            is_default_config(r),
    {
        AppConfig {
            mqtt: MqttConfig::default(),
            database: DatabaseConfig::default(),
            web: WebConfig::default(),
            webhooks: Vec::new(),
        }
    }
}

/// What is wrong with a webhook, if anything. One that is not enabled may be anything.
pub open spec fn webhook_problem(webhook: WebhookView) -> Option<Seq<char>> {
    if !webhook.enabled {
        None
    } else if webhook.url.len() == 0 {
        Some("Webhook '"@ + webhook.name + "' URL cannot be empty"@)
    } else if !begins_with(webhook.url, "http://"@) && !begins_with(webhook.url, "https://"@) {
        Some("Webhook '"@ + webhook.name + "' URL must start with http:// or https://"@)
    } else {
        None
    }
}

/// What is wrong with the first of the webhooks with which something is.
pub open spec fn webhooks_problem(webhooks: Seq<WebhookView>) -> Option<Seq<char>>
    decreases webhooks.len(),
{
    if webhooks.len() == 0 {
        None
    } else if webhook_problem(webhooks[0]) is Some {
        webhook_problem(webhooks[0])
    } else {
        webhooks_problem(webhooks.skip(1))
    }
}

/// The first thing that is wrong with a configuration, if anything is.
pub open spec fn config_problem(config: AppConfig) -> Option<Seq<char>> {
    if config.mqtt.broker_host@.len() == 0 {
        Some("MQTT broker host cannot be empty"@)
    } else if config.mqtt.broker_port == 0 {
        Some("MQTT broker port must be valid"@)
    } else if config.mqtt.topics@.len() == 0 {
        Some("At least one MQTT topic must be specified"@)
    } else if config.database.url@.len() == 0 {
        Some("Database URL cannot be empty"@)
    } else if config.database.max_connections == 0 {
        Some("Max connections must be greater than 0"@)
    } else if config.web.bind_port == 0 {
        Some("Web server port must be valid"@)
    } else {
        webhooks_problem(webhooks_view(config.webhooks@))
    }
}

/// A configuration error.
fn config_error(text: &str) -> (r: Result<(), MeshWatchyError>)
    ensures
        r matches Err(MeshWatchyError::Config(cause)) && cause@ == text@,
{
    Err(MeshWatchyError::Config(text.to_owned()))
}

/// Checks a webhook.
fn validate_webhook(webhook: &WebhookConfig) -> (r: Result<(), MeshWatchyError>)
    ensures
        match webhook_problem(webhook@) {
            None => r is Ok,
            Some(problem) => r matches Err(MeshWatchyError::Config(cause)) && cause@ == problem,
        },
{
    if webhook.enabled {
        if webhook.url.as_str().is_empty() {
            let mut text = "Webhook '".to_owned();
            text.append(webhook.name.as_str());
            text.append("' URL cannot be empty");
            return config_error(text.as_str());
        }
        if !starts_with(webhook.url.as_str(), "http://") && !starts_with(
            webhook.url.as_str(),
            "https://",
        ) {
            let mut text = "Webhook '".to_owned();
            text.append(webhook.name.as_str());
            text.append("' URL must start with http:// or https://");
            return config_error(text.as_str());
        }
    }
    Ok(())
}

/// Checks a configuration.
pub fn validate_config(config: &AppConfig) -> (r: Result<(), MeshWatchyError>)
    ensures
        match config_problem(*config) {
            None => r is Ok,
            Some(problem) => r matches Err(MeshWatchyError::Config(cause)) && cause@ == problem,
        },
{
    if config.mqtt.broker_host.as_str().is_empty() {
        return config_error("MQTT broker host cannot be empty");
    }
    if config.mqtt.broker_port == 0 {
        return config_error("MQTT broker port must be valid");
    }
    if config.mqtt.topics.is_empty() {
        return config_error("At least one MQTT topic must be specified");
    }
    if config.database.url.as_str().is_empty() {
        return config_error("Database URL cannot be empty");
    }
    if config.database.max_connections == 0 {
        return config_error("Max connections must be greater than 0");
    }
    if config.web.bind_port == 0 {
        return config_error("Web server port must be valid");
    }
    let ghost all = webhooks_view(config.webhooks@);
    let mut i: usize = 0;
    proof {
        assert(all.skip(0) =~= all);
    }
    while i < config.webhooks.len()
        invariant
            i <= config.webhooks@.len(),
            all == webhooks_view(config.webhooks@),
            webhooks_problem(all.skip(i as int)) == webhooks_problem(all),
            webhooks_problem(all) == config_problem(*config),
        decreases config.webhooks@.len() - i,
    {
        proof {
            assert(all.skip(i as int)[0] == config.webhooks@[i as int]@);
            assert(all.skip(i as int).skip(1) =~= all.skip(i + 1));
        }
        let checked = validate_webhook(&config.webhooks[i]);
        if checked.is_err() {
            return checked;
        }
        i = i + 1;
    }
    Ok(())
}

/// The headers of the example webhooks.
pub open spec fn example_headers() -> Map<Seq<char>, Seq<char>> {
    Map::<Seq<char>, Seq<char>>::empty().insert("Content-Type"@, "application/json"@).insert(
        "Authorization"@,
        "Bearer YOUR_TOKEN_HERE"@,
    )
}

/// The example webhooks.
pub open spec fn example_webhooks() -> Seq<WebhookView> {
    seq![
        WebhookView {
            name: "Position Alerts"@,
            url: "https://your-webhook-url.com/position"@,
            enabled: false,
            message_types: seq![MessageType::Position],
            headers: Some(example_headers()),
            devices: Seq::empty(),
        },
        WebhookView {
            name: "Low Battery Alert"@,
            url: "https://your-webhook-url.com/battery"@,
            enabled: false,
            message_types: seq![MessageType::Telemetry],
            headers: Some(example_headers()),
            devices: Seq::empty(),
        },
        WebhookView {
            name: "All Messages"@,
            url: "https://webhook.site/unique-id"@,
            enabled: false,
            message_types: seq![
                MessageType::Position,
                MessageType::Nodeinfo,
                MessageType::Telemetry,
            ],
            headers: None,
            devices: Seq::empty(),
        },
    ]
}

/// The example webhooks.
pub fn create_example_webhook_config() -> (r: Vec<WebhookConfig>)
    ensures
        webhooks_view(r@) == example_webhooks(),
        all_wf(r@),
{
    let mut headers: TextMap<String> = TextMap::new();
    headers.insert("Content-Type".to_owned(), "application/json".to_owned());
    headers.insert("Authorization".to_owned(), "Bearer YOUR_TOKEN_HERE".to_owned());
    let copied = headers.copy();
    proof {
        assert(headers.texts() =~= example_headers());
    }
    let position = WebhookConfig {
        name: "Position Alerts".to_owned(),
        url: "https://your-webhook-url.com/position".to_owned(),
        enabled: false,
        message_types: vec![MessageType::Position],
        headers: Some(copied),
        devices: Vec::new(),
    };
    let battery = WebhookConfig {
        name: "Low Battery Alert".to_owned(),
        url: "https://your-webhook-url.com/battery".to_owned(),
        enabled: false,
        message_types: vec![MessageType::Telemetry],
        headers: Some(headers),
        devices: Vec::new(),
    };
    let everything = WebhookConfig {
        name: "All Messages".to_owned(),
        url: "https://webhook.site/unique-id".to_owned(),
        enabled: false,
        message_types: vec![
            MessageType::Position,
            MessageType::Nodeinfo,
            MessageType::Telemetry,
        ],
        headers: None,
        devices: Vec::new(),
    };
    proof {
        assert(position@ =~= example_webhooks()[0]) by {
            assert(position.message_types@ =~= seq![MessageType::Position]);
            assert(texts_view(position.devices@) =~= Seq::<Seq<char>>::empty());
        }
        assert(battery@ =~= example_webhooks()[1]) by {
            assert(battery.message_types@ =~= seq![MessageType::Telemetry]);
            assert(texts_view(battery.devices@) =~= Seq::<Seq<char>>::empty());
        }
        assert(everything@ =~= example_webhooks()[2]) by {
            assert(everything.message_types@ =~= seq![
                MessageType::Position,
                MessageType::Nodeinfo,
                MessageType::Telemetry,
            ]);
            assert(texts_view(everything.devices@) =~= Seq::<Seq<char>>::empty());
        }
    }
    let r = vec![position, battery, everything];
    proof {
        assert(webhooks_view(r@) =~= example_webhooks());
    }
    r
}

/// A configuration to go by, and whether it is still to be written to the file that was missing.
pub struct LoadedConfig {
    pub config: AppConfig,
    pub write_back: bool,
}

/// The configuration to go by. `file` is the configuration file's content, where the file exists;
/// `webhooks` is that of the separate webhook file, where that exists.
pub fn load_config(file: Option<AppConfig>, webhooks: Option<Vec<WebhookConfig>>) -> (r:
    LoadedConfig)
    ensures
        match file {
            Some(config) => {
                &&& !r.write_back
                &&& r.config == (match webhooks {
                    Some(list) => AppConfig { webhooks: list, ..config },
                    None => config,
                })
            },
            None => r.write_back && is_default_config(r.config),
        },
{
    match file {
        Some(config) => {
            let mut config = config;
            match webhooks {
                Some(list) => {
                    config.webhooks = list;
                },
                None => {},
            }
            LoadedConfig { config, write_back: false }
        },
        None => LoadedConfig { config: AppConfig::default(), write_back: true },
    }
}

/// Webhooks to go by, and whether they are still to be written to the file that was missing.
pub struct LoadedWebhooks {
    pub webhooks: Vec<WebhookConfig>,
    pub write_back: bool,
}

/// Whether these are the webhooks to go by, where `file` is the webhook file's content if the file
/// exists: what the file holds, or else the examples, which are then to be written to it.
pub open spec fn is_loaded(r: LoadedWebhooks, file: Option<Vec<WebhookConfig>>) -> bool {
    match file {
        Some(webhooks) => !r.write_back && r.webhooks == webhooks,
        None => r.write_back && webhooks_view(r.webhooks@) == example_webhooks(),
    }
}

/// The webhooks to go by. `file` is the webhook file's content, where the file exists.
pub fn load_webhook_config(file: Option<Vec<WebhookConfig>>) -> (r: LoadedWebhooks)
    ensures
        is_loaded(r, file),
        file is None ==> all_wf(r.webhooks@),
{
    match file {
        Some(webhooks) => LoadedWebhooks { webhooks, write_back: false },
        None => LoadedWebhooks { webhooks: create_example_webhook_config(), write_back: true },
    }
}

/// Webhooks are loaded as they were saved: where the file holds what was written to it, loading gives
/// the same webhooks in the same order, and asks for nothing to be written.
pub proof fn law_saved_webhooks_load(
    saved: Seq<WebhookConfig>,
    file: Vec<WebhookConfig>,
    loaded: LoadedWebhooks,
)
    requires
        webhooks_view(file@) == webhooks_view(saved),
        is_loaded(loaded, Some(file)),
    ensures
        webhooks_view(loaded.webhooks@) == webhooks_view(saved),
        !loaded.write_back,
{
}

/// The examples that were written for a missing file are loaded again unchanged, and written only
/// once.
pub proof fn law_examples_load_again(
    first: LoadedWebhooks,
    file: Vec<WebhookConfig>,
    later: LoadedWebhooks,
)
    requires
        is_loaded(first, None),
        webhooks_view(file@) == webhooks_view(first.webhooks@),
        is_loaded(later, Some(file)),
    ensures
        first.write_back,
        webhooks_view(first.webhooks@) == example_webhooks(),
        !later.write_back,
        webhooks_view(later.webhooks@) == example_webhooks(),
{
    law_saved_webhooks_load(first.webhooks@, file, later);
}

/// The steps of loading and saving configuration files, each of which can fail.
#[derive(Clone, Copy, Debug, PartialEq, Eq, Structural)]
pub enum ConfigStep {
    ReadConfig,
    ParseConfig,
    SerializeDefault,
    WriteDefault,
    ReadWebhooks,
    ParseWebhooks,
    SerializeWebhooks,
    WriteWebhooks,
}

/// What is said of a step that failed, before the cause.
pub open spec fn step_text(step: ConfigStep) -> Seq<char> {
    match step {
        ConfigStep::ReadConfig => "Failed to read config file: "@,
        ConfigStep::ParseConfig => "Failed to parse config: "@,
        ConfigStep::SerializeDefault => "Failed to serialize default config: "@,
        ConfigStep::WriteDefault => "Failed to write default config: "@,
        ConfigStep::ReadWebhooks => "Failed to read webhook config: "@,
        ConfigStep::ParseWebhooks => "Failed to parse webhook config: "@,
        ConfigStep::SerializeWebhooks => "Failed to serialize webhook config: "@,
        ConfigStep::WriteWebhooks => "Failed to write webhook config: "@,
    }
}

/// The error for a step that failed.
pub fn step_failed(step: ConfigStep, cause: &str) -> (r: MeshWatchyError)
    ensures
        r matches MeshWatchyError::Config(text) && text@ == step_text(step) + cause@,
{
    let start: &str = match step {
        ConfigStep::ReadConfig => "Failed to read config file: ",
        ConfigStep::ParseConfig => "Failed to parse config: ",
        ConfigStep::SerializeDefault => "Failed to serialize default config: ",
        ConfigStep::WriteDefault => "Failed to write default config: ",
        ConfigStep::ReadWebhooks => "Failed to read webhook config: ",
        ConfigStep::ParseWebhooks => "Failed to parse webhook config: ",
        ConfigStep::SerializeWebhooks => "Failed to serialize webhook config: ",
        ConfigStep::WriteWebhooks => "Failed to write webhook config: ",
    };
    let mut text = start.to_owned();
    text.append(cause);
    MeshWatchyError::Config(text)
}

/// The default configuration is valid.
pub proof fn law_default_is_valid(config: AppConfig)
    requires
        is_default_config(config),
    ensures
        config_problem(config) is None,
{
    reveal_strlit("public.meshtastic.org");
    reveal_strlit("sqlite:mesh_watchy.db");
    assert(texts_view(config.mqtt.topics@).len() == 1);
}

/// Webhooks pass exactly where each of them does.
pub proof fn law_webhooks_all_checked(webhooks: Seq<WebhookView>)
    ensures
        webhooks_problem(webhooks) is None <==> forall|i: int|
            0 <= i < webhooks.len() ==> webhook_problem(#[trigger] webhooks[i]) is None,
    decreases webhooks.len(),
{
    if webhooks.len() > 0 {
        let rest = webhooks.skip(1);
        law_webhooks_all_checked(rest);
        if webhooks_problem(webhooks) is None {
            assert forall|i: int| 0 <= i < webhooks.len() implies webhook_problem(
                #[trigger] webhooks[i],
            ) is None by {
                if i > 0 {
                    assert(webhooks[i] == rest[i - 1]);
                }
            }
        } else if webhook_problem(webhooks[0]) is None {
            let j = choose|j: int|
                0 <= j < rest.len() && !(webhook_problem(#[trigger] rest[j]) is None);
            assert(webhooks[j + 1] == rest[j]);
        }
    }
}

/// The example webhooks are valid, and none of them is enabled.
pub proof fn law_examples_are_harmless()
    ensures
        webhooks_problem(example_webhooks()) is None,
        forall|i: int|
            0 <= i < example_webhooks().len() ==> !(#[trigger] example_webhooks()[i]).enabled,
{
    law_webhooks_all_checked(example_webhooks());
}

/// A configuration is valid exactly where it names a broker, a port of it and a topic, a database and a
/// number of connections, a port of the web server, and for each enabled webhook an address that
/// starts with http:// or https://.
pub proof fn law_valid_configuration(config: AppConfig)
    ensures
        config_problem(config) is None <==> {
            &&& config.mqtt.broker_host@.len() > 0
            &&& config.mqtt.broker_port > 0
            &&& config.mqtt.topics@.len() > 0
            &&& config.database.url@.len() > 0
            &&& config.database.max_connections > 0
            &&& config.web.bind_port > 0
            &&& forall|i: int|
                0 <= i < config.webhooks@.len() && (#[trigger] config.webhooks@[i]).enabled ==> (
                begins_with(config.webhooks@[i].url@, "http://"@) || begins_with(
                    config.webhooks@[i].url@,
                    "https://"@,
                ))
        },
{
    reveal_strlit("http://");
    reveal_strlit("https://");
    let views = webhooks_view(config.webhooks@);
    law_webhooks_all_checked(views);
    assert forall|i: int| 0 <= i < views.len() implies (webhook_problem(#[trigger] views[i]) is None
        <==> (config.webhooks@[i].enabled ==> begins_with(config.webhooks@[i].url@, "http://"@)
        || begins_with(config.webhooks@[i].url@, "https://"@))) by {
        assert(views[i] == config.webhooks@[i]@);
    }
    if webhooks_problem(views) is None {
        assert forall|i: int|
            0 <= i < config.webhooks@.len() && (#[trigger] config.webhooks@[i]).enabled implies (
        begins_with(config.webhooks@[i].url@, "http://"@) || begins_with(
            config.webhooks@[i].url@,
            "https://"@,
        )) by {
            assert(webhook_problem(views[i]) is None);
        }
    } else {
        let i = choose|i: int|
            0 <= i < views.len() && !(webhook_problem(#[trigger] views[i]) is None);
        assert(config.webhooks@[i].enabled);
    }
}

/// What is wrong with a configuration is told by the first thing that is: the broker before its port
/// before the topics before the database before its connections before the web server's port before
/// the webhooks.
pub proof fn law_first_problem_is_told(config: AppConfig)
    ensures
        config.mqtt.broker_host@.len() == 0 ==> config_problem(config) == Some(
            "MQTT broker host cannot be empty"@,
        ),
        config.mqtt.broker_host@.len() > 0 && config.mqtt.broker_port == 0 ==> config_problem(config)
            == Some("MQTT broker port must be valid"@),
        config.mqtt.broker_host@.len() > 0 && config.mqtt.broker_port > 0
            && config.mqtt.topics@.len() == 0 ==> config_problem(config) == Some(
            "At least one MQTT topic must be specified"@,
        ),
        config.mqtt.broker_host@.len() > 0 && config.mqtt.broker_port > 0
            && config.mqtt.topics@.len() > 0 && config.database.url@.len() == 0 ==> config_problem(
            config,
        ) == Some("Database URL cannot be empty"@),
        config.mqtt.broker_host@.len() > 0 && config.mqtt.broker_port > 0
            && config.mqtt.topics@.len() > 0 && config.database.url@.len() > 0
            && config.database.max_connections == 0 ==> config_problem(config) == Some(
            "Max connections must be greater than 0"@,
        ),
        config.mqtt.broker_host@.len() > 0 && config.mqtt.broker_port > 0
            && config.mqtt.topics@.len() > 0 && config.database.url@.len() > 0
            && config.database.max_connections > 0 && config.web.bind_port == 0 ==> config_problem(
            config,
        ) == Some("Web server port must be valid"@),
{
}

/// What is wrong with an enabled webhook names it: that its address is empty, or else that it starts
/// with neither http:// nor https://. Nothing is wrong with one that is not enabled.
pub proof fn law_webhook_problem_names_it(webhook: WebhookView)
    ensures
        !webhook.enabled ==> webhook_problem(webhook) is None,
        webhook.enabled && webhook.url.len() == 0 ==> webhook_problem(webhook) == Some(
            "Webhook '"@ + webhook.name + "' URL cannot be empty"@,
        ),
        webhook.enabled && webhook.url.len() > 0 && webhook.url[0] != 'h' ==> webhook_problem(
            webhook,
        ) == Some("Webhook '"@ + webhook.name + "' URL must start with http:// or https://"@),
        webhook.enabled && begins_with(webhook.url, "http://"@) ==> webhook_problem(webhook) is None,
        webhook.enabled && begins_with(webhook.url, "https://"@) ==> webhook_problem(
            webhook,
        ) is None,
{
    reveal_strlit("http://");
    reveal_strlit("https://");
    if begins_with(webhook.url, "http://"@) {
        assert(webhook.url.take(7)[0] == 'h');
    }
    if begins_with(webhook.url, "https://"@) {
        assert(webhook.url.take(8)[0] == 'h');
    }
}

/// The first webhook with which something is wrong is the one told.
pub proof fn law_first_wrong_webhook_is_told(good: Seq<WebhookView>, bad: WebhookView)
    requires
        webhooks_problem(good) is None,
    ensures
        webhooks_problem(good.push(bad)) == webhook_problem(bad),
    decreases good.len(),
{
    let all = good.push(bad);
    if good.len() == 0 {
        assert(all.skip(1) =~= Seq::empty());
        assert(all[0] == bad);
        assert(webhooks_problem(all.skip(1)) is None);
    } else {
        assert(all[0] == good[0]);
        assert(webhook_problem(good[0]) is None);
        assert(all.skip(1) =~= good.skip(1).push(bad));
        assert(webhooks_problem(all) == webhooks_problem(all.skip(1)));
        law_first_wrong_webhook_is_told(good.skip(1), bad);
    }
}

/// The values of the default configuration.
pub proof fn law_default_values(config: AppConfig)
    requires
        is_default_config(config),
    ensures
        config.mqtt.broker_host@ == "public.meshtastic.org"@,
        config.mqtt.broker_port == 1883,
        config.mqtt.username is None,
        config.mqtt.password is None,
        config.mqtt.topics@.len() == 1,
        config.mqtt.topics@[0]@ == "msh/US/+/json/+/+"@,
        config.database.url@ == "sqlite:mesh_watchy.db"@,
        config.database.max_connections == 10,
        config.web.bind_address@ == "127.0.0.1"@,
        config.web.bind_port == 3000,
        config.web.static_dir@ == "static"@,
        config.web.templates_dir@ == "templates"@,
        config.webhooks@.len() == 0,
{
    assert(texts_view(config.mqtt.topics@).len() == 1);
    assert(texts_view(config.mqtt.topics@)[0] == config.mqtt.topics@[0]@);
}

/// The values of the example webhooks: one for positions, one for telemetry, one for all that nodes
/// tell of themselves; the first two with a content type and an authorization to fill in.
pub proof fn law_example_values(i: int)
    requires
        0 <= i < example_webhooks().len(),
    ensures
        example_webhooks().len() == 3,
        !example_webhooks()[i].enabled,
        example_webhooks()[i].devices.len() == 0,
        example_webhooks()[0].name == "Position Alerts"@,
        example_webhooks()[0].url == "https://your-webhook-url.com/position"@,
        example_webhooks()[0].message_types =~= seq![MessageType::Position],
        example_webhooks()[1].name == "Low Battery Alert"@,
        example_webhooks()[1].url == "https://your-webhook-url.com/battery"@,
        example_webhooks()[1].message_types =~= seq![MessageType::Telemetry],
        example_webhooks()[2].name == "All Messages"@,
        example_webhooks()[2].url == "https://webhook.site/unique-id"@,
        example_webhooks()[2].message_types =~= seq![
            MessageType::Position,
            MessageType::Nodeinfo,
            MessageType::Telemetry,
        ],
        example_webhooks()[2].headers is None,
        i < 2 ==> {
            let headers = example_webhooks()[i].headers->0;
            &&& example_webhooks()[i].headers is Some
            &&& headers.contains_key("Content-Type"@)
            &&& headers["Content-Type"@] == "application/json"@
            &&& headers.contains_key("Authorization"@)
            &&& headers["Authorization"@] == "Bearer YOUR_TOKEN_HERE"@
            &&& forall|name: Seq<char>| #[trigger]
                headers.contains_key(name) ==> name == "Content-Type"@ || name == "Authorization"@
        },
{
    reveal_strlit("Content-Type");
    reveal_strlit("Authorization");
    assert("Content-Type"@.len() != "Authorization"@.len());
}

/// What is said of a step that failed ends with a colon and a space before the cause, and no two steps
/// are said the same of.
pub proof fn law_steps_are_told_apart(a: ConfigStep, b: ConfigStep)
    ensures
        step_text(a) == step_text(b) ==> a == b,
        step_text(ConfigStep::ReadConfig) == "Failed to read config file: "@,
        step_text(ConfigStep::ParseConfig) == "Failed to parse config: "@,
        step_text(ConfigStep::SerializeDefault) == "Failed to serialize default config: "@,
        step_text(ConfigStep::WriteDefault) == "Failed to write default config: "@,
        step_text(ConfigStep::ReadWebhooks) == "Failed to read webhook config: "@,
        step_text(ConfigStep::ParseWebhooks) == "Failed to parse webhook config: "@,
        step_text(ConfigStep::SerializeWebhooks) == "Failed to serialize webhook config: "@,
        step_text(ConfigStep::WriteWebhooks) == "Failed to write webhook config: "@,
{
    reveal_strlit("Failed to read config file: ");
    reveal_strlit("Failed to parse config: ");
    reveal_strlit("Failed to serialize default config: ");
    reveal_strlit("Failed to write default config: ");
    reveal_strlit("Failed to read webhook config: ");
    reveal_strlit("Failed to parse webhook config: ");
    reveal_strlit("Failed to serialize webhook config: ");
    reveal_strlit("Failed to write webhook config: ");
    if step_text(a) == step_text(b) {
        assert(step_text(a).len() == step_text(b).len());
        assert(step_text(a)[10] == step_text(b)[10]);
        assert(step_text(a)[16] == step_text(b)[16]);
        assert(step_text(a)[20] == step_text(b)[20]);
    }
}

} // verus!
