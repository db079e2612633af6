use packet_flow::config::Config;
use packet_flow::error::AppError;
use packet_flow::influx::create_influx_client;
use packet_flow::measurement::{Kind, Report};
use packet_flow::reporter::InfluxReporter;

fn config() -> Config {
    let mut config = Config::default();
    config.influx_url = "http://influx.test:8086".to_string();
    config.database = "flows".to_string();
    config
}

#[test]
fn client_needs_authentication() {
    let mut config = config();
    assert!(matches!(create_influx_client(&config), Err(AppError::MissingAuthentication)));
    config.username = Some("me".to_string());
    assert!(matches!(create_influx_client(&config), Err(AppError::MissingAuthentication)));
    config.username = None;
    config.password = Some("secret".to_string());
    assert!(matches!(create_influx_client(&config), Err(AppError::MissingAuthentication)));
}

#[test]
fn client_with_a_token_sends_the_database_only() {
    let mut config = config();
    config.token = Some("abc".to_string());
    config.username = Some("me".to_string());
    config.password = Some("secret".to_string());
    let client = create_influx_client(&config).unwrap();
    assert_eq!(client.database_url(), "http://influx.test:8086");
    assert_eq!(client.database_name(), "flows");
    assert!(format!("{:?}", client).contains("parameters: {\"db\": \"flows\"}"));
}

#[test]
fn client_with_a_user_sends_user_and_password() {
    let mut config = config();
    config.username = Some("me".to_string());
    config.password = Some("secret".to_string());
    let client = create_influx_client(&config).unwrap();
    assert_eq!(client.database_url(), "http://influx.test:8086");
    assert_eq!(client.database_name(), "flows");
    assert!(format!("{:?}", client)
        .contains("parameters: {\"db\": \"flows\", \"p\": \"<redacted>\", \"u\": \"me\"}"));
}

/// Why a write through a client made of `config` fails where no server can be reached.
fn failure_of(mut config: Config) -> String {
    config.influx_url = "http://127.0.0.1:1".to_string();
    let client = create_influx_client(&config).unwrap();
    let report = Report {
        kind: Kind::Latency,
        source: "a:1".to_string(),
        destination: "b:2".to_string(),
        value: 12,
    };
    let queries = InfluxReporter::flush_batch(&mut vec![report.at(34)]);
    let runtime = tokio::runtime::Builder::new_current_thread().enable_all().build().unwrap();
    runtime.block_on(client.query(&queries)).unwrap_err().to_string()
}

#[test]
fn user_and_password_are_sent_with_a_write() {
    let mut config = config();
    config.username = Some("me".to_string());
    config.password = Some("secret".to_string());
    let failure = failure_of(config);
    assert!(failure.contains("http://127.0.0.1:1/write?"), "{}", failure);
    for parameter in ["db=flows", "u=me", "p=secret", "precision=ns"] {
        assert!(failure.contains(parameter), "{}", failure);
    }
}

#[test]
fn token_is_sent_with_a_write_and_goes_before_a_user() {
    let mut config = config();
    config.username = Some("me".to_string());
    config.password = Some("secret".to_string());
    config.token = Some("abc".to_string());
    let failure = failure_of(config);
    assert!(failure.contains("db=flows"), "{}", failure);
    assert!(!failure.contains("u=me"), "{}", failure);
    assert!(!failure.contains("p=secret"), "{}", failure);
    assert!(!failure.contains("builder error"), "{}", failure);
}

#[test]
fn token_that_fits_no_header_spoils_the_request() {
    let mut config = config();
    config.token = Some("a\nb".to_string());
    let failure = failure_of(config);
    assert!(failure.contains("builder error"), "{}", failure);
}
