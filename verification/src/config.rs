//! The configuration: where its values come from, and which of them are sound.
use vstd::prelude::*;

use crate::environment::Environment;
use crate::error::{AppError, ErrorView};
use crate::text::{
    decimal, format_u64, occurrences, occurs_once, parse_u64, parsed_u64, same_text, starts_with,
};

verus! {

/// How the program is set up.
#[derive(Clone, Debug)]
pub struct Config {
    pub mode: Option<String>,
    pub local_addr: String,
    pub remote_addr: String,
    pub rate: u64,
    pub influx_url: String,
    pub database: String,
    pub token: Option<String>,
    pub username: Option<String>,
    pub password: Option<String>,
}

/// The values that the command line gives.
#[derive(Debug)]
pub struct Args {
    pub mode: Option<String>,
    pub local_addr: Option<String>,
    pub remote_addr: Option<String>,
    pub rate: Option<u64>,
    pub influx_url: Option<String>,
    pub database: Option<String>,
    pub token: Option<String>,
    pub username: Option<String>,
    pub password: Option<String>,
}

/// What the configuration file holds.
#[derive(Debug)]
pub enum ConfigFile {
    /// There is no such file.
    Missing,
    /// The file is no configuration.
    Malformed,
    /// The file gives this configuration.
    Parsed(Config),
}

/// What the program is to do.
#[derive(Clone, Copy, Debug, PartialEq, Eq, Structural)]
pub enum Mode {
    Sender,
    Receiver,
    Both,
}

/// The content of a [`Config`].
#[verifier::ext_equal]
pub struct ConfigView {
    pub mode: Option<Seq<char>>,
    pub local_addr: Seq<char>,
    pub remote_addr: Seq<char>,
    pub rate: u64,
    pub influx_url: Seq<char>,
    pub database: Seq<char>,
    pub token: Option<Seq<char>>,
    pub username: Option<Seq<char>>,
    pub password: Option<Seq<char>>,
}

/// The content of an [`Args`].
#[verifier::ext_equal]
pub struct ArgsView {
    pub mode: Option<Seq<char>>,
    pub local_addr: Option<Seq<char>>,
    pub remote_addr: Option<Seq<char>>,
    pub rate: Option<u64>,
    pub influx_url: Option<Seq<char>>,
    pub database: Option<Seq<char>>,
    pub token: Option<Seq<char>>,
    pub username: Option<Seq<char>>,
    pub password: Option<Seq<char>>,
}

impl View for Config {
    type V = ConfigView;

    open spec fn view(&self) -> ConfigView {
        ConfigView {
            mode: self.mode.deep_view(),
            local_addr: self.local_addr@,
            remote_addr: self.remote_addr@,
            rate: self.rate,
            influx_url: self.influx_url@,
            database: self.database@,
            token: self.token.deep_view(),
            username: self.username.deep_view(),
            password: self.password.deep_view(),
        }
    }
}

impl View for Args {
    type V = ArgsView;

    open spec fn view(&self) -> ArgsView {
        ArgsView {
            mode: self.mode.deep_view(),
            local_addr: self.local_addr.deep_view(),
            remote_addr: self.remote_addr.deep_view(),
            rate: self.rate,
            influx_url: self.influx_url.deep_view(),
            database: self.database.deep_view(),
            token: self.token.deep_view(),
            username: self.username.deep_view(),
            password: self.password.deep_view(),
        }
    }
}

/// The value that is given, or else the one that was there.
pub open spec fn given_or<T>(given: Option<T>, otherwise: T) -> T {
    match given {
        Some(value) => value,
        None => otherwise,
    }
}

/// The value that is given, if one is, or else the one that was there, if one was.
pub open spec fn either<T>(given: Option<T>, otherwise: Option<T>) -> Option<T> {
    match given {
        Some(value) => Some(value),
        None => otherwise,
    }
}

/// The rate that the environment gives: none where the variable is not set or is no number.
pub open spec fn env_rate(env: Map<Seq<char>, Seq<char>>) -> Option<u64> {
    match env.get("PACKET_FLOW_RATE"@) {
        Some(value) => parsed_u64(value),
        None => None,
    }
}

/// The mode that goes by a name.
pub open spec fn mode_named(name: Seq<char>) -> Option<Mode> {
    if name == "sender"@ {
        Some(Mode::Sender)
    } else if name == "receiver"@ {
        Some(Mode::Receiver)
    } else if name == "both"@ {
        Some(Mode::Both)
    } else {
        None
    }
}

/// Whether `address` has the form of a host and a port: split at its colons it has two parts.
pub open spec fn is_address(address: Seq<char>) -> bool {
    occurrences(address, ':') + 1 == 2
}

/// One line of a displayed configuration.
pub open spec fn line(label: Seq<char>, value: Seq<char>) -> Seq<char> {
    "  "@ + label + ": "@ + value + "\n"@
}

/// A value as it is displayed.
pub open spec fn shown(value: Option<Seq<char>>) -> Seq<char> {
    given_or(value, "Not set"@)
}

/// A secret as it is displayed: only whether there is one.
pub open spec fn hidden(value: Option<Seq<char>>) -> Seq<char> {
    if value is Some {
        "****"@
    } else {
        "Not set"@
    }
}

/// The configuration that holds where nothing else is said.
pub open spec fn default_config() -> ConfigView {
    ConfigView {
        mode: None,
        local_addr: "0.0.0.0:8000"@,
        remote_addr: "127.0.0.1:8000"@,
        rate: 1000,
        influx_url: "http://localhost:8086"@,
        database: "packet_flow"@,
        token: None,
        username: None,
        password: None,
    }
}

/// The configuration that a file gives. Where it gives none, the default holds.
pub open spec fn config_of(file: ConfigFile) -> ConfigView {
    match file {
        ConfigFile::Parsed(config) => config@,
        _ => default_config(),
    }
}

impl ConfigView {
    /// The configuration with what the environment gives in place of its own values.
    pub open spec fn with_env(self, env: Map<Seq<char>, Seq<char>>) -> ConfigView {
        ConfigView {
            mode: either(env.get("PACKET_FLOW_MODE"@), self.mode),
            local_addr: given_or(env.get("PACKET_FLOW_LOCAL_ADDR"@), self.local_addr),
            remote_addr: given_or(env.get("PACKET_FLOW_REMOTE_ADDR"@), self.remote_addr),
            rate: given_or(env_rate(env), self.rate),
            influx_url: given_or(env.get("PACKET_FLOW_INFLUX_URL"@), self.influx_url),
            database: given_or(env.get("PACKET_FLOW_DATABASE"@), self.database),
            token: either(env.get("PACKET_FLOW_TOKEN"@), self.token),
            username: either(env.get("PACKET_FLOW_USERNAME"@), self.username),
            password: either(env.get("PACKET_FLOW_PASSWORD"@), self.password),
        }
    }

    /// The configuration with what the command line gives in place of its own values.
    pub open spec fn with_args(self, args: ArgsView) -> ConfigView {
        ConfigView {
            mode: either(args.mode, self.mode),
            local_addr: given_or(args.local_addr, self.local_addr),
            remote_addr: given_or(args.remote_addr, self.remote_addr),
            rate: given_or(args.rate, self.rate),
            influx_url: given_or(args.influx_url, self.influx_url),
            database: given_or(args.database, self.database),
            token: either(args.token, self.token),
            username: either(args.username, self.username),
            password: either(args.password, self.password),
        }
    }

    /// The first fault of the configuration, if it has one.
    pub open spec fn fault(self) -> Option<ErrorView> {
        if self.mode is Some && mode_named(self.mode->0) is None {
            Some(
                ErrorView::InvalidMode(
                    self.mode->0 + ", choose from 'sender', 'receiver', or 'both'."@,
                ),
            )
        } else if !is_address(self.local_addr) {
            Some(ErrorView::InvalidConfig("Invalid local address: "@ + self.local_addr))
        } else if !is_address(self.remote_addr) {
            Some(ErrorView::InvalidConfig("Invalid remote address: "@ + self.remote_addr))
        } else if !(1 <= self.rate <= 10000) {
            Some(
                ErrorView::InvalidConfig(
                    "Rate must be between 1 and 10000, got "@ + decimal(self.rate as nat),
                ),
            )
        } else if !"http://"@.is_prefix_of(self.influx_url) && !"https://"@.is_prefix_of(
            self.influx_url,
        ) {
            Some(ErrorView::InvalidConfig("InfluxDB URL must start with http:// or https://"@))
        } else {
            None
        }
    }

    /// Whether the configuration says who is to write to InfluxDB.
    pub open spec fn authenticates(self) -> bool {
        self.token is Some || (self.username is Some && self.password is Some)
    }

    /// The mode to run in, or why the program cannot run.
    pub open spec fn run_mode(self) -> Result<Mode, ErrorView> {
        let name = given_or(self.mode, ""@);
        match mode_named(name) {
            None => Err(ErrorView::InvalidMode(name)),
            Some(Mode::Sender) => Ok(Mode::Sender),
            Some(mode) => if self.authenticates() {
                Ok(mode)
            } else {
                Err(ErrorView::MissingAuthentication)
            },
        }
    }

    /// The configuration as text for people.
    pub open spec fn displayed(self) -> Seq<char> {
        "Config {\n"@ + line("mode"@, shown(self.mode)) + line(
            "local bind address"@,
            self.local_addr,
        ) + line("remote address"@, self.remote_addr) + line(
            "rate"@,
            decimal(self.rate as nat) + "ms"@,
        ) + line("influx url"@, self.influx_url) + line("database (bucket)"@, self.database) + line(
            "token"@,
            hidden(self.token),
        ) + line("username"@, shown(self.username)) + line("password"@, hidden(self.password))
            + "}"@
    }
}

/// The mode that goes by a name.
pub fn parse_mode(name: &str) -> (mode: Option<Mode>)
    ensures
        mode == mode_named(name@),
{
    if same_text(name, "sender") {
        Some(Mode::Sender)
    } else if same_text(name, "receiver") {
        Some(Mode::Receiver)
    } else if same_text(name, "both") {
        Some(Mode::Both)
    } else {
        None
    }
}

/// Appends a line to a text.
fn append_line(text: &mut String, label: &str, value: &str)
    ensures
        final(text)@ == old(text)@ + line(label@, value@),
{
    let ghost before = text@;
    text.append("  ");
    text.append(label);
    text.append(": ");
    text.append(value);
    text.append("\n");
    assert(text@ =~= before + line(label@, value@));
}

/// A value as it is displayed.
fn show(value: &Option<String>) -> (text: &str)
    ensures
        text@ == shown(value.deep_view()),
{
    match value {
        Some(value) => value.as_str(),
        None => "Not set",
    }
}

/// A secret as it is displayed.
fn hide_secret(value: &Option<String>) -> (text: &'static str)
    ensures
        text@ == hidden(value.deep_view()),
{
    match value {
        Some(_) => "****",
        None => "Not set",
    }
}

impl Config {
    /// The configuration that holds where nothing else is said.
    pub fn default() -> (config: Config)
        ensures
            config@ == default_config(),
    {
        Config {
            mode: None,
            local_addr: "0.0.0.0:8000".to_string(),
            remote_addr: "127.0.0.1:8000".to_string(),
            rate: 1000,
            influx_url: "http://localhost:8086".to_string(),
            database: "packet_flow".to_string(),
            token: None,
            username: None,
            password: None,
        }
    }

    /// Puts what the environment gives in place of the configuration's own values. A rate that is
    /// no number is ignored.
    pub fn apply_env_vars(&mut self, env: &Environment)
        ensures
            final(self)@ == old(self)@.with_env(env@),
    {
        if let Some(value) = env.var("PACKET_FLOW_MODE") {
            self.mode = Some(value);
        }
        if let Some(value) = env.var("PACKET_FLOW_LOCAL_ADDR") {
            self.local_addr = value;
        }
        if let Some(value) = env.var("PACKET_FLOW_REMOTE_ADDR") {
            self.remote_addr = value;
        }
        if let Some(value) = env.var("PACKET_FLOW_RATE") {
            if let Some(rate) = parse_u64(value.as_str()) {
                self.rate = rate;
            }
        }
        if let Some(value) = env.var("PACKET_FLOW_INFLUX_URL") {
            self.influx_url = value;
        }
        if let Some(value) = env.var("PACKET_FLOW_DATABASE") {
            self.database = value;
        }
        if let Some(value) = env.var("PACKET_FLOW_TOKEN") {
            self.token = Some(value);
        }
        if let Some(value) = env.var("PACKET_FLOW_USERNAME") {
            self.username = Some(value);
        }
        if let Some(value) = env.var("PACKET_FLOW_PASSWORD") {
            self.password = Some(value);
        }
    }

    /// Puts what the command line gives in place of the configuration's own values.
    pub fn apply_args(&mut self, args: &Args)
        ensures
            final(self)@ == old(self)@.with_args(args@),
    {
        if let Some(mode) = &args.mode {
            self.mode = Some(mode.clone());
        }
        if let Some(addr) = &args.local_addr {
            self.local_addr = addr.clone();
        }
        if let Some(addr) = &args.remote_addr {
            self.remote_addr = addr.clone();
        }
        if let Some(rate) = args.rate {
            self.rate = rate;
        }
        if let Some(url) = &args.influx_url {
            self.influx_url = url.clone();
        }
        if let Some(database) = &args.database {
            self.database = database.clone();
        }
        if let Some(token) = &args.token {
            self.token = Some(token.clone());
        }
        if let Some(username) = &args.username {
            self.username = Some(username.clone());
        }
        if let Some(password) = &args.password {
            self.password = Some(password.clone());
        }
    }

    /// Checks the configuration, and says what its first fault is.
    pub fn validate(&self) -> (result: Result<(), AppError>)
        ensures
            match result {
                Ok(_) => self@.fault() is None,
                Err(error) => self@.fault() == Some(error@),
            },
    {
        if let Some(mode) = &self.mode {
            if parse_mode(mode.as_str()).is_none() {
                return Err(
                    AppError::InvalidMode(
                        mode.clone().concat(", choose from 'sender', 'receiver', or 'both'."),
                    ),
                );
            }
        }
        if !occurs_once(self.local_addr.as_str(), ':') {
            return Err(
                AppError::InvalidConfig(
                    "Invalid local address: ".to_string().concat(self.local_addr.as_str()),
                ),
            );
        }
        if !occurs_once(self.remote_addr.as_str(), ':') {
            return Err(
                AppError::InvalidConfig(
                    "Invalid remote address: ".to_string().concat(self.remote_addr.as_str()),
                ),
            );
        }
        if self.rate < 1 || self.rate > 10000 {
            return Err(
                AppError::InvalidConfig(
                    "Rate must be between 1 and 10000, got ".to_string().concat(
                        format_u64(self.rate).as_str(),
                    ),
                ),
            );
        }
        if !starts_with(self.influx_url.as_str(), "http://") && !starts_with(
            self.influx_url.as_str(),
            "https://",
        ) {
            return Err(
                AppError::InvalidConfig(
                    "InfluxDB URL must start with http:// or https://".to_string(),
                ),
            );
        }
        Ok(())
    }

    /// Whether the configuration says who is to write to InfluxDB.
    pub fn has_authentication(&self) -> (yes: bool)
        ensures
            yes == self@.authenticates(),
    {
        self.token.is_some() || (self.username.is_some() && self.password.is_some())
    }

    /// Puts the configuration together: what the file gives, or else the default; over that what
    /// the environment gives; over that what the command line gives. Only a sound configuration is
    /// handed out.
    pub fn load(args: &Args, env: &Environment, file: ConfigFile) -> (result: Result<
        Config,
        AppError,
    >)
        ensures
            ({
                let loaded = config_of(file).with_env(env@).with_args(args@);
                match result {
                    Ok(config) => config@ == loaded && loaded.fault() is None,
                    Err(error) => loaded.fault() == Some(error@),
                }
            }),
    {
        let mut config: Config = match file {
            ConfigFile::Parsed(config) => config,
            _ => Config::default(),
        };
        config.apply_env_vars(env);
        config.apply_args(args);
        match config.validate() {
            Ok(_) => Ok(config),
            Err(error) => Err(error),
        }
    }

    /// The mode to run in, or why the program cannot run: there must be a mode, and a mode that
    /// receives needs someone who may write to InfluxDB.
    pub fn run_mode(&self) -> (result: Result<Mode, AppError>)
        ensures
            match result {
                Ok(mode) => self@.run_mode() == Ok::<Mode, ErrorView>(mode),
                Err(error) => self@.run_mode() == Err::<Mode, ErrorView>(error@),
            },
    {
        let name: &str = match &self.mode {
            Some(mode) => mode.as_str(),
            None => "",
        };
        match parse_mode(name) {
            None => Err(AppError::InvalidMode(name.to_string())),
            Some(Mode::Sender) => Ok(Mode::Sender),
            Some(mode) => {
                if self.has_authentication() {
                    Ok(mode)
                } else {
                    Err(AppError::MissingAuthentication)
                }
            },
        }
    }

    /// The configuration as text for people. Secrets are not shown.
    pub fn fmt(&self) -> (text: String)
        ensures
            text@ == self@.displayed(),
    {
        let mut text: String = "Config {\n".to_string();
        append_line(&mut text, "mode", show(&self.mode));
        append_line(&mut text, "local bind address", self.local_addr.as_str());
        append_line(&mut text, "remote address", self.remote_addr.as_str());
        append_line(&mut text, "rate", format_u64(self.rate).concat("ms").as_str());
        append_line(&mut text, "influx url", self.influx_url.as_str());
        append_line(&mut text, "database (bucket)", self.database.as_str());
        append_line(&mut text, "token", hide_secret(&self.token));
        append_line(&mut text, "username", show(&self.username));
        append_line(&mut text, "password", hide_secret(&self.password));
        text.append("}");
        text
    }
}

} // verus!
