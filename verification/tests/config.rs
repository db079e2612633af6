use packet_flow::config::{parse_mode, Args, Config, ConfigFile, Mode};
use packet_flow::environment::{Environment, CONFIG_FILE_ENV_VAR};
use packet_flow::error::AppError;

fn no_args() -> Args {
    Args {
        mode: None,
        local_addr: None,
        remote_addr: None,
        rate: None,
        influx_url: None,
        database: None,
        token: None,
        username: None,
        password: None,
    }
}

fn environment(vars: &[(&str, &str)]) -> Environment {
    let mut env = Environment::new();
    for (name, value) in vars {
        env.set(name.to_string(), value.to_string());
    }
    env
}

fn load(args: &Args, vars: &[(&str, &str)], file: ConfigFile) -> Config {
    Config::load(args, &environment(vars), file).unwrap()
}

fn fault(config: &Config) -> AppError {
    config.validate().unwrap_err()
}

#[test]
fn default_values() {
    let config = Config::default();
    assert_eq!(config.mode, None);
    assert_eq!(config.local_addr, "0.0.0.0:8000");
    assert_eq!(config.remote_addr, "127.0.0.1:8000");
    assert_eq!(config.rate, 1000);
    assert_eq!(config.influx_url, "http://localhost:8086");
    assert_eq!(config.database, "packet_flow");
    assert_eq!(config.token, None);
    assert_eq!(config.username, None);
    assert_eq!(config.password, None);
    assert!(config.validate().is_ok());
    assert!(!config.has_authentication());
}

#[test]
fn missing_and_malformed_files_give_the_default() {
    for file in [ConfigFile::Missing, ConfigFile::Malformed] {
        let config = load(&no_args(), &[], file);
        assert_eq!(config.fmt(), Config::default().fmt());
    }
}

#[test]
fn command_line_goes_before_environment_before_file() {
    let file = || {
        let mut config = Config::default();
        config.mode = Some("sender".to_string());
        config.local_addr = "file:1".to_string();
        config.remote_addr = "file:2".to_string();
        config.rate = 11;
        config.influx_url = "http://file".to_string();
        config.database = "file".to_string();
        config.token = Some("file-token".to_string());
        config.username = Some("file-user".to_string());
        config.password = Some("file-password".to_string());
        ConfigFile::Parsed(config)
    };
    let vars = [
        ("PACKET_FLOW_MODE", "receiver"),
        ("PACKET_FLOW_LOCAL_ADDR", "env:1"),
        ("PACKET_FLOW_REMOTE_ADDR", "env:2"),
        ("PACKET_FLOW_RATE", "22"),
        ("PACKET_FLOW_INFLUX_URL", "https://env"),
        ("PACKET_FLOW_DATABASE", "env"),
        ("PACKET_FLOW_TOKEN", "env-token"),
        ("PACKET_FLOW_USERNAME", "env-user"),
        ("PACKET_FLOW_PASSWORD", "env-password"),
    ];
    let args = Args {
        mode: Some("both".to_string()),
        local_addr: Some("args:1".to_string()),
        remote_addr: Some("args:2".to_string()),
        rate: Some(33),
        influx_url: Some("http://args".to_string()),
        database: Some("args".to_string()),
        token: Some("args-token".to_string()),
        username: Some("args-user".to_string()),
        password: Some("args-password".to_string()),
    };

    let config = load(&no_args(), &[], file());
    assert_eq!(config.mode.as_deref(), Some("sender"));
    assert_eq!(config.local_addr, "file:1");
    assert_eq!(config.remote_addr, "file:2");
    assert_eq!(config.rate, 11);
    assert_eq!(config.influx_url, "http://file");
    assert_eq!(config.database, "file");
    assert_eq!(config.token.as_deref(), Some("file-token"));
    assert_eq!(config.username.as_deref(), Some("file-user"));
    assert_eq!(config.password.as_deref(), Some("file-password"));

    let config = load(&no_args(), &vars, file());
    assert_eq!(config.mode.as_deref(), Some("receiver"));
    assert_eq!(config.local_addr, "env:1");
    assert_eq!(config.remote_addr, "env:2");
    assert_eq!(config.rate, 22);
    assert_eq!(config.influx_url, "https://env");
    assert_eq!(config.database, "env");
    assert_eq!(config.token.as_deref(), Some("env-token"));
    assert_eq!(config.username.as_deref(), Some("env-user"));
    assert_eq!(config.password.as_deref(), Some("env-password"));

    let config = load(&args, &vars, file());
    assert_eq!(config.mode.as_deref(), Some("both"));
    assert_eq!(config.local_addr, "args:1");
    assert_eq!(config.remote_addr, "args:2");
    assert_eq!(config.rate, 33);
    assert_eq!(config.influx_url, "http://args");
    assert_eq!(config.database, "args");
    assert_eq!(config.token.as_deref(), Some("args-token"));
    assert_eq!(config.username.as_deref(), Some("args-user"));
    assert_eq!(config.password.as_deref(), Some("args-password"));
}

#[test]
fn rate_that_is_no_number_is_ignored() {
    for value in ["", "fast", "-1", "1.5", "18446744073709551616"] {
        let mut config = Config::default();
        config.rate = 77;
        config.apply_env_vars(&environment(&[("PACKET_FLOW_RATE", value)]));
        assert_eq!(config.rate, 77, "{:?}", value);
    }
    let mut config = Config::default();
    config.apply_env_vars(&environment(&[("PACKET_FLOW_RATE", "+250")]));
    assert_eq!(config.rate, 250);
}

#[test]
fn nothing_given_leaves_the_configuration() {
    let mut config = Config::default();
    config.token = Some("t".to_string());
    config.apply_env_vars(&environment(&[("UNRELATED", "x")]));
    config.apply_args(&no_args());
    assert_eq!(config.token.as_deref(), Some("t"));
    config.token = None;
    assert_eq!(config.fmt(), Config::default().fmt());
}

#[test]
fn faults_are_named_in_their_order() {
    let mut config = Config::default();
    config.mode = Some("sideways".to_string());
    config.local_addr = "nowhere".to_string();
    config.remote_addr = "::1:80".to_string();
    config.rate = 0;
    config.influx_url = "ftp://host".to_string();
    assert!(matches!(fault(&config), AppError::InvalidMode(text)
        if text == "sideways, choose from 'sender', 'receiver', or 'both'."));
    config.mode = Some("both".to_string());
    assert!(matches!(fault(&config), AppError::InvalidConfig(text)
        if text == "Invalid local address: nowhere"));
    config.local_addr = "localhost:80".to_string();
    assert!(matches!(fault(&config), AppError::InvalidConfig(text)
        if text == "Invalid remote address: ::1:80"));
    config.remote_addr = ":".to_string();
    assert!(matches!(fault(&config), AppError::InvalidConfig(text)
        if text == "Rate must be between 1 and 10000, got 0"));
    config.rate = 10001;
    assert!(matches!(fault(&config), AppError::InvalidConfig(text)
        if text == "Rate must be between 1 and 10000, got 10001"));
    config.rate = 10000;
    assert!(matches!(fault(&config), AppError::InvalidConfig(text)
        if text == "InfluxDB URL must start with http:// or https://"));
    config.influx_url = "https://".to_string();
    assert!(config.validate().is_ok());
}

#[test]
fn faulty_configuration_is_not_loaded() {
    let mut args = no_args();
    args.rate = Some(0);
    let error = Config::load(&args, &Environment::new(), ConfigFile::Missing).unwrap_err();
    assert_eq!(
        error.message(),
        "Invalid configuration: Rate must be between 1 and 10000, got 0"
    );
}

#[test]
fn error_messages() {
    assert_eq!(
        AppError::InvalidConfig("x".to_string()).message(),
        "Invalid configuration: x"
    );
    assert_eq!(
        AppError::MissingAuthentication.message(),
        "No InfluxDB authentication provided"
    );
    assert_eq!(AppError::InvalidMode("x".to_string()).message(), "Invalid mode: x");
}

#[test]
fn authentication_is_a_token_or_a_user_with_a_password() {
    let some = || Some("x".to_string());
    for (token, username, password, expected) in [
        (None, None, None, false),
        (some(), None, None, true),
        (None, some(), None, false),
        (None, None, some(), false),
        (None, some(), some(), true),
        (some(), some(), some(), true),
    ] {
        let mut config = Config::default();
        config.token = token;
        config.username = username;
        config.password = password;
        assert_eq!(config.has_authentication(), expected);
    }
}

#[test]
fn modes_go_by_their_names() {
    assert_eq!(parse_mode("sender"), Some(Mode::Sender));
    assert_eq!(parse_mode("receiver"), Some(Mode::Receiver));
    assert_eq!(parse_mode("both"), Some(Mode::Both));
    assert_eq!(parse_mode("Sender"), None);
    assert_eq!(parse_mode(""), None);
}

#[test]
fn mode_to_run_in() {
    let mut config = Config::default();
    assert!(matches!(config.run_mode(), Err(AppError::InvalidMode(name)) if name.is_empty()));
    config.mode = Some("nothing".to_string());
    assert!(matches!(config.run_mode(), Err(AppError::InvalidMode(name)) if name == "nothing"));
    config.mode = Some("sender".to_string());
    assert!(matches!(config.run_mode(), Ok(Mode::Sender)));
    config.mode = Some("receiver".to_string());
    assert!(matches!(config.run_mode(), Err(AppError::MissingAuthentication)));
    config.token = Some("t".to_string());
    assert!(matches!(config.run_mode(), Ok(Mode::Receiver)));
    config.mode = Some("both".to_string());
    assert!(matches!(config.run_mode(), Ok(Mode::Both)));
}

#[test]
fn display_hides_secrets() {
    let mut config = Config::default();
    assert_eq!(
        config.fmt(),
        "Config {\n  mode: Not set\n  local bind address: 0.0.0.0:8000\n  \
         remote address: 127.0.0.1:8000\n  rate: 1000ms\n  influx url: http://localhost:8086\n  \
         database (bucket): packet_flow\n  token: Not set\n  username: Not set\n  \
         password: Not set\n}"
    );
    config.mode = Some("both".to_string());
    config.token = Some("hush".to_string());
    config.username = Some("me".to_string());
    config.password = Some("secret".to_string());
    let text = config.fmt();
    assert_eq!(
        text,
        "Config {\n  mode: both\n  local bind address: 0.0.0.0:8000\n  \
         remote address: 127.0.0.1:8000\n  rate: 1000ms\n  influx url: http://localhost:8086\n  \
         database (bucket): packet_flow\n  token: ****\n  username: me\n  password: ****\n}"
    );
    config.token = Some("other".to_string());
    config.password = Some("another".to_string());
    assert_eq!(config.fmt(), text);
}

#[test]
fn environment_names_and_config_path() {
    assert_eq!(CONFIG_FILE_ENV_VAR, "PACKET_FLOW_CONFIG");
    let names = Environment::names();
    assert_eq!(names.len(), 10);
    assert_eq!(names[0], "PACKET_FLOW_CONFIG");
    assert_eq!(names[9], "PACKET_FLOW_PASSWORD");
    assert_eq!(Environment::new().config_path(), None);
    let env = environment(&[("PACKET_FLOW_CONFIG", "/etc/flow.toml")]);
    assert_eq!(env.config_path().as_deref(), Some("/etc/flow.toml"));
    assert_eq!(env.var("PACKET_FLOW_MODE"), None);
}

#[test]
fn credentials_and_database_are_no_matter_of_soundness() {
    let mut config = Config::default();
    config.database = String::new();
    config.token = Some(String::new());
    config.username = Some("me".to_string());
    assert!(config.validate().is_ok());
    config.rate = 0;
    assert_eq!(fault(&config).message(), {
        let mut other = Config::default();
        other.rate = 0;
        fault(&other).message()
    });
}
