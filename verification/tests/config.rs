use mesh_watchy::config::{
    create_example_webhook_config, load_config, load_webhook_config, step_failed, validate_config,
    ConfigStep,
};
use mesh_watchy::models::{AppConfig, MeshWatchyError, MessageType, WebhookConfig};

fn webhook(name: &str, url: &str, enabled: bool) -> WebhookConfig {
    WebhookConfig {
        name: name.to_string(),
        url: url.to_string(),
        enabled,
        message_types: vec![],
        headers: None,
        devices: vec![],
    }
}

fn problem(config: &AppConfig) -> String {
    match validate_config(config) {
        Ok(()) => String::new(),
        Err(MeshWatchyError::Config(text)) => text,
        Err(_) => panic!("an error of another kind"),
    }
}

#[test]
fn test_config_validation() {
    let mut config = AppConfig::default();
    assert!(validate_config(&config).is_ok());

    config.mqtt.broker_host = String::new();
    assert!(validate_config(&config).is_err());
}

#[test]
fn test_default_config_creation() {
    let loaded = load_config(None, None);
    assert!(loaded.write_back);
    let config = loaded.config;
    assert_eq!(config.mqtt.broker_host, "public.meshtastic.org");
    assert_eq!(config.web.bind_port, 3000);
}

#[test]
fn default_values() {
    let config = AppConfig::default();
    assert_eq!(config.mqtt.broker_port, 1883);
    assert_eq!(config.mqtt.username, None);
    assert_eq!(config.mqtt.password, None);
    assert_eq!(config.mqtt.topics, vec!["msh/US/+/json/+/+".to_string()]);
    assert_eq!(config.database.url, "sqlite:mesh_watchy.db");
    assert_eq!(config.database.max_connections, 10);
    assert_eq!(config.web.bind_address, "127.0.0.1");
    assert_eq!(config.web.static_dir, "static");
    assert_eq!(config.web.templates_dir, "templates");
    assert!(config.webhooks.is_empty());
}

#[test]
fn each_problem_has_its_text() {
    let mut config = AppConfig::default();
    config.mqtt.broker_host = String::new();
    assert_eq!(problem(&config), "MQTT broker host cannot be empty");

    let mut config = AppConfig::default();
    config.mqtt.broker_port = 0;
    assert_eq!(problem(&config), "MQTT broker port must be valid");

    let mut config = AppConfig::default();
    config.mqtt.topics = vec![];
    assert_eq!(problem(&config), "At least one MQTT topic must be specified");

    let mut config = AppConfig::default();
    config.database.url = String::new();
    assert_eq!(problem(&config), "Database URL cannot be empty");

    let mut config = AppConfig::default();
    config.database.max_connections = 0;
    assert_eq!(problem(&config), "Max connections must be greater than 0");

    let mut config = AppConfig::default();
    config.web.bind_port = 0;
    assert_eq!(problem(&config), "Web server port must be valid");
}

#[test]
fn enabled_webhooks_need_an_http_url() {
    let mut config = AppConfig::default();
    config.webhooks = vec![webhook("off", "", false), webhook("on", "", true)];
    assert_eq!(problem(&config), "Webhook 'on' URL cannot be empty");

    config.webhooks = vec![webhook("on", "ftp://example.org", true)];
    assert_eq!(
        problem(&config),
        "Webhook 'on' URL must start with http:// or https://"
    );

    config.webhooks = vec![
        webhook("a", "http://example.org", true),
        webhook("b", "https://example.org", true),
    ];
    assert_eq!(problem(&config), "");
}

#[test]
fn example_webhooks_are_disabled_and_valid() {
    let examples = create_example_webhook_config();
    assert_eq!(examples.len(), 3);
    assert_eq!(examples[0].name, "Position Alerts");
    assert_eq!(examples[1].name, "Low Battery Alert");
    assert_eq!(examples[2].name, "All Messages");
    assert!(examples.iter().all(|w| !w.enabled && w.devices.is_empty()));
    assert_eq!(
        examples[2].message_types,
        vec![MessageType::Position, MessageType::Nodeinfo, MessageType::Telemetry]
    );
    let headers = examples[1].headers.as_ref().unwrap();
    assert_eq!(headers.get("Content-Type"), Some(&"application/json".to_string()));
    assert_eq!(headers.get("Authorization"), Some(&"Bearer YOUR_TOKEN_HERE".to_string()));
    assert_eq!(headers.get("Accept"), None);
    assert!(examples[2].headers.is_none());

    let mut config = AppConfig::default();
    config.webhooks = examples;
    assert!(validate_config(&config).is_ok());
}

#[test]
fn webhooks_of_their_own_file_win() {
    let mut file = AppConfig::default();
    file.web.bind_port = 8080;
    file.webhooks = vec![webhook("from config", "http://a", true)];
    let loaded = load_config(Some(file), Some(vec![webhook("from file", "http://b", true)]));
    assert!(!loaded.write_back);
    assert_eq!(loaded.config.web.bind_port, 8080);
    assert_eq!(loaded.config.webhooks.len(), 1);
    assert_eq!(loaded.config.webhooks[0].name, "from file");

    let mut file = AppConfig::default();
    file.webhooks = vec![webhook("from config", "http://a", true)];
    let loaded = load_config(Some(file), None);
    assert_eq!(loaded.config.webhooks[0].name, "from config");
}

#[test]
fn missing_webhook_file_gives_the_examples() {
    let loaded = load_webhook_config(None);
    assert!(loaded.write_back);
    assert_eq!(loaded.webhooks.len(), 3);

    let names: Vec<String> = loaded.webhooks.iter().map(|w| w.name.clone()).collect();
    let later = load_webhook_config(Some(loaded.webhooks));
    assert!(!later.write_back);
    let later_names: Vec<String> = later.webhooks.iter().map(|w| w.name.clone()).collect();
    assert_eq!(later_names, names);

    let loaded = load_webhook_config(Some(vec![]));
    assert!(!loaded.write_back);
    assert!(loaded.webhooks.is_empty());
}

#[test]
fn steps_that_fail_say_so() {
    let cases = [
        (ConfigStep::ReadConfig, "Failed to read config file: x"),
        (ConfigStep::ParseConfig, "Failed to parse config: x"),
        (ConfigStep::SerializeDefault, "Failed to serialize default config: x"),
        (ConfigStep::WriteDefault, "Failed to write default config: x"),
        (ConfigStep::ReadWebhooks, "Failed to read webhook config: x"),
        (ConfigStep::ParseWebhooks, "Failed to parse webhook config: x"),
        (ConfigStep::SerializeWebhooks, "Failed to serialize webhook config: x"),
        (ConfigStep::WriteWebhooks, "Failed to write webhook config: x"),
    ];
    for (step, text) in cases {
        match step_failed(step, "x") {
            MeshWatchyError::Config(cause) => assert_eq!(cause, text),
            _ => panic!("an error of another kind"),
        }
    }
}
