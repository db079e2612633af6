//! What holds of every configuration.
use vstd::prelude::*;

use crate::config::{
    config_of, default_config, either, env_rate, given_or, is_address, line, mode_named, Args,
    ArgsView, Config, ConfigFile, ConfigView, Mode,
};
use crate::error::ErrorView;
use crate::text::{decimal, decimal_reads_back, occurrences_add_up, parsed_u64};

verus! {

/// The command line goes before the environment, the environment before the file, and the file
/// before the default, for each value on its own.
pub proof fn sources_have_an_order(
    args: ArgsView,
    env: Map<Seq<char>, Seq<char>>,
    file: ConfigFile,
)
    ensures
        ({
            let base = config_of(file);
            let loaded = base.with_env(env).with_args(args);
            &&& loaded.mode == either(args.mode, either(env.get("PACKET_FLOW_MODE"@), base.mode))
            &&& loaded.local_addr == given_or(
                args.local_addr,
                given_or(env.get("PACKET_FLOW_LOCAL_ADDR"@), base.local_addr),
            )
            &&& loaded.remote_addr == given_or(
                args.remote_addr,
                given_or(env.get("PACKET_FLOW_REMOTE_ADDR"@), base.remote_addr),
            )
            &&& loaded.rate == given_or(args.rate, given_or(env_rate(env), base.rate))
            &&& loaded.influx_url == given_or(
                args.influx_url,
                given_or(env.get("PACKET_FLOW_INFLUX_URL"@), base.influx_url),
            )
            &&& loaded.database == given_or(
                args.database,
                given_or(env.get("PACKET_FLOW_DATABASE"@), base.database),
            )
            &&& loaded.token == either(
                args.token,
                either(env.get("PACKET_FLOW_TOKEN"@), base.token),
            )
            &&& loaded.username == either(
                args.username,
                either(env.get("PACKET_FLOW_USERNAME"@), base.username),
            )
            &&& loaded.password == either(
                args.password,
                either(env.get("PACKET_FLOW_PASSWORD"@), base.password),
            )
        }),
{
}

/// An environment in which nothing is set, and a command line on which nothing is given, leave a
/// configuration as it is.
pub proof fn nothing_given_changes_nothing(config: ConfigView)
    ensures
        config.with_env(Map::empty()) == config,
        config.with_args(
            ArgsView {
                mode: None,
                local_addr: None,
                remote_addr: None,
                rate: None,
                influx_url: None,
                database: None,
                token: None,
                username: None,
                password: None,
            },
        ) == config,
{
}

/// A rate that the environment gives in decimal is the rate that holds, unless the command line
/// gives another.
pub proof fn written_rate_is_read(config: ConfigView, env: Map<Seq<char>, Seq<char>>, rate: u64)
    requires
        env.get("PACKET_FLOW_RATE"@) == Some(decimal(rate as nat)),
    ensures
        config.with_env(env).rate == rate,
{
    decimal_reads_back(rate);
}

/// A configuration is sound exactly where its mode, if it has one, is known, both addresses have a
/// host and a port, the rate lies between 1 and 10000, and the URL is one of HTTP.
pub proof fn soundness_is_all_checks(config: ConfigView)
    ensures
        config.fault() is None <==> {
            &&& config.mode matches Some(mode) ==> mode_named(mode) is Some
            &&& is_address(config.local_addr)
            &&& is_address(config.remote_addr)
            &&& 1 <= config.rate <= 10000
            &&& "http://"@.is_prefix_of(config.influx_url) || "https://"@.is_prefix_of(
                config.influx_url,
            )
        },
{
}

/// Neither the credentials nor the database are a matter of soundness: a fault lies in other
/// values.
pub proof fn credentials_and_database_make_no_fault(one: ConfigView, other: ConfigView)
    requires
        one == (ConfigView {
            token: one.token,
            username: one.username,
            password: one.password,
            database: one.database,
            ..other
        }),
    ensures
        one.fault() == other.fault(),
{
}

/// A sound configuration that has a mode can be run, unless its mode receives and nobody is named
/// who may write to InfluxDB.
pub proof fn sound_mode_can_run(config: ConfigView)
    requires
        config.fault() is None,
        config.mode is Some,
    ensures
        config.run_mode() is Ok || config.run_mode() == Err::<Mode, ErrorView>(
            ErrorView::MissingAuthentication,
        ),
        config.authenticates() ==> config.run_mode() is Ok,
{
}

/// Without a mode there is nothing to run, and the error says so with an empty name.
pub proof fn no_mode_cannot_run(config: ConfigView)
    requires
        config.mode is None,
    ensures
        config.run_mode() == Err::<Mode, ErrorView>(ErrorView::InvalidMode(""@)),
{
    reveal_strlit("");
    reveal_strlit("sender");
    reveal_strlit("receiver");
    reveal_strlit("both");
    assert(""@.len() != "sender"@.len());
    assert(""@.len() != "receiver"@.len());
    assert(""@.len() != "both"@.len());
}

/// A program that receives can authenticate itself, so that its client can be made.
pub proof fn who_receives_authenticates(config: ConfigView)
    requires
        config.run_mode() is Ok,
        !(config.run_mode()->Ok_0 is Sender),
    ensures
        config.authenticates(),
{
}

/// Secrets do not show: configurations that differ in their token and password only, where each
/// has both or lacks the same, are displayed alike.
pub proof fn secrets_do_not_show(one: ConfigView, other: ConfigView)
    requires
        one == (ConfigView { token: one.token, password: one.password, ..other }),
        one.token is Some == other.token is Some,
        one.password is Some == other.password is Some,
    ensures
        one.displayed() == other.displayed(),
{
}

/// Whether `text` has one colon and no more.
pub open spec fn has_one_colon(text: Seq<char>) -> bool {
    exists|i: int|
        0 <= i < text.len() && #[trigger] text[i] == ':' && forall|j: int|
            0 <= j < text.len() && #[trigger] text[j] == ':' ==> j == i
}

proof fn lemma_address_has_one_colon(text: Seq<char>)
    ensures
        is_address(text) <==> has_one_colon(text),
{
    occurrences_add_up(text, Seq::empty(), ':');
    if text.contains(':') {
        let i = choose|i: int| 0 <= i < text.len() && text[i] == ':';
        let left = text.take(i);
        let right = text.skip(i + 1);
        assert(text =~= left + (seq![':'] + right));
        occurrences_add_up(left, seq![':'] + right, ':');
        occurrences_add_up(seq![':'], right, ':');
        occurrences_add_up(right, Seq::empty(), ':');
        if is_address(text) {
            assert forall|j: int| 0 <= j < text.len() && #[trigger] text[j] == ':' implies j
                == i by {
                if j < i {
                    assert(left[j] == ':');
                } else if j > i {
                    assert(right[j - i - 1] == ':');
                }
            }
        }
        if has_one_colon(text) {
            let only = choose|only: int|
                0 <= only < text.len() && #[trigger] text[only] == ':' && forall|j: int|
                    0 <= j < text.len() && #[trigger] text[j] == ':' ==> j == only;
            if left.contains(':') {
                let j = choose|j: int| 0 <= j < left.len() && left[j] == ':';
                assert(text[j] == ':');
            }
            if right.contains(':') {
                let j = choose|j: int| 0 <= j < right.len() && right[j] == ':';
                assert(text[i + 1 + j] == ':');
            }
        }
    }
}

/// Which configurations are sound, in terms of the texts themselves: the mode is one of three words
/// or missing, each address has one colon and no more, the rate is at least 1 and at most 10000,
/// and the URL begins as one of HTTP.
pub proof fn soundness_in_plain_terms(config: ConfigView)
    ensures
        config.fault() is None <==> {
            &&& config.mode matches Some(mode) ==> mode == "sender"@ || mode == "receiver"@ || mode
                == "both"@
            &&& has_one_colon(config.local_addr)
            &&& has_one_colon(config.remote_addr)
            &&& 1 <= config.rate <= 10000
            &&& "http://"@.is_prefix_of(config.influx_url) || "https://"@.is_prefix_of(
                config.influx_url,
            )
        },
{
    lemma_address_has_one_colon(config.local_addr);
    lemma_address_has_one_colon(config.remote_addr);
}

/// Any host and any port without a colon, of any length, joined by a colon are an address that a
/// sound configuration can have in place of the ones it has. With a text that has no colon, or one
/// that has several, it is sound no more.
pub proof fn host_and_port_make_an_address(
    config: ConfigView,
    host: Seq<char>,
    port: Seq<char>,
    text: Seq<char>,
)
    requires
        config.fault() is None,
        !host.contains(':'),
        !port.contains(':'),
        !text.contains(':') || exists|i: int, j: int|
            0 <= i < j < text.len() && #[trigger] text[i] == ':' && #[trigger] text[j] == ':',
    ensures
        (ConfigView { local_addr: host + seq![':'] + port, ..config }).fault() is None,
        (ConfigView { remote_addr: host + seq![':'] + port, ..config }).fault() is None,
        (ConfigView { local_addr: text, ..config }).fault() == Some(
            ErrorView::InvalidConfig("Invalid local address: "@ + text),
        ),
        (ConfigView { remote_addr: text, ..config }).fault() == Some(
            ErrorView::InvalidConfig("Invalid remote address: "@ + text),
        ),
{
    let address = host + seq![':'] + port;
    assert(address[host.len() as int] == ':');
    assert forall|j: int| 0 <= j < address.len() && #[trigger] address[j] == ':' implies j
        == host.len() by {
        if j < host.len() {
            assert(host[j] == ':');
        } else if j > host.len() {
            assert(port[j - host.len() - 1] == ':');
        }
    }
    lemma_address_has_one_colon(address);
    lemma_address_has_one_colon(text);
    if has_one_colon(text) {
        let only = choose|only: int|
            0 <= only < text.len() && #[trigger] text[only] == ':' && forall|j: int|
                0 <= j < text.len() && #[trigger] text[j] == ':' ==> j == only;
        assert(text.contains(text[only]));
    }
}

/// The first fault decides what is said: an unknown mode goes before a bad local address, that
/// before a bad remote address, that before a bad rate, and that before a bad URL. The value at
/// fault is named as it was given, the URL excepted.
pub proof fn first_fault_is_named(config: ConfigView)
    ensures
        ({
            let mode_is_known = config.mode matches Some(mode) ==> mode == "sender"@ || mode
                == "receiver"@ || mode == "both"@;
            let addresses_are_sound = has_one_colon(config.local_addr) && has_one_colon(
                config.remote_addr,
            );
            &&& !mode_is_known ==> config.fault() == Some(
                ErrorView::InvalidMode(
                    config.mode->0 + ", choose from 'sender', 'receiver', or 'both'."@,
                ),
            )
            &&& mode_is_known && !has_one_colon(config.local_addr) ==> config.fault() == Some(
                ErrorView::InvalidConfig("Invalid local address: "@ + config.local_addr),
            )
            &&& mode_is_known && has_one_colon(config.local_addr) && !has_one_colon(
                config.remote_addr,
            ) ==> config.fault() == Some(
                ErrorView::InvalidConfig("Invalid remote address: "@ + config.remote_addr),
            )
            &&& mode_is_known && addresses_are_sound && (config.rate < 1 || config.rate > 10000)
                ==> config.fault() == Some(
                ErrorView::InvalidConfig(
                    "Rate must be between 1 and 10000, got "@ + decimal(config.rate as nat),
                ),
            )
            &&& mode_is_known && addresses_are_sound && 1 <= config.rate <= 10000
                && config.fault() is Some ==> config.fault() == Some(
                ErrorView::InvalidConfig("InfluxDB URL must start with http:// or https://"@),
            )
        }),
{
    lemma_address_has_one_colon(config.local_addr);
    lemma_address_has_one_colon(config.remote_addr);
}

/// Whoever may write to InfluxDB has a token, or a user name and a password, whatever these are.
pub proof fn token_or_user_authenticates(config: ConfigView)
    ensures
        config.token is Some ==> config.authenticates(),
        config.username is Some && config.password is Some ==> config.authenticates(),
        config.token is None && config.username is None ==> !config.authenticates(),
        config.token is None && config.password is None ==> !config.authenticates(),
{
}

/// Which mode the program runs in goes by its name. Sending needs nobody who may write to InfluxDB;
/// receiving does, alone or beside sending. Any other name is refused as it was given.
pub proof fn mode_goes_by_its_name(config: ConfigView)
    ensures
        ({
            let name = match config.mode {
                Some(name) => name,
                None => ""@,
            };
            let may_write = config.token is Some || (config.username is Some && config.password
                is Some);
            &&& mode_named("sender"@) == Some(Mode::Sender)
            &&& mode_named("receiver"@) == Some(Mode::Receiver)
            &&& mode_named("both"@) == Some(Mode::Both)
            &&& mode_named(name) is None <==> name != "sender"@ && name != "receiver"@ && name
                != "both"@
            &&& name == "sender"@ ==> config.run_mode() == Ok::<Mode, ErrorView>(Mode::Sender)
            &&& name == "receiver"@ && may_write ==> config.run_mode() == Ok::<Mode, ErrorView>(
                Mode::Receiver,
            )
            &&& name == "both"@ && may_write ==> config.run_mode() == Ok::<Mode, ErrorView>(
                Mode::Both,
            )
            &&& (name == "receiver"@ || name == "both"@) && !may_write ==> config.run_mode()
                == Err::<Mode, ErrorView>(ErrorView::MissingAuthentication)
            &&& name != "sender"@ && name != "receiver"@ && name != "both"@ ==> config.run_mode()
                == Err::<Mode, ErrorView>(ErrorView::InvalidMode(name))
        }),
{
    reveal_strlit("");
    reveal_strlit("sender");
    reveal_strlit("receiver");
    reveal_strlit("both");
    assert("sender"@.len() != "receiver"@.len());
    assert("sender"@.len() != "both"@.len());
    assert("receiver"@.len() != "both"@.len());
}

/// The first of two values that is given.
pub open spec fn first_given<T>(one: Option<T>, other: Option<T>) -> Option<T> {
    if one is Some {
        one
    } else {
        other
    }
}

/// The text of a value that may be given.
pub open spec fn text_of(value: Option<String>) -> Option<Seq<char>> {
    match value {
        Some(text) => Some(text@),
        None => None,
    }
}

/// Each value is the one on the command line; or else the one in the environment variable that is
/// named after it; or else the one in the file; or else, where there is no file or none that can
/// be read, a fixed one. A rate in the environment counts only where it is a number.
pub proof fn each_value_has_its_source(args: Args, env: Map<Seq<char>, Seq<char>>, file: ConfigFile)
    ensures
        ({
            let loaded = config_of(file).with_env(env).with_args(args@);
            &&& loaded.mode == match first_given(
                text_of(args.mode),
                env.get("PACKET_FLOW_MODE"@),
            ) {
                Some(value) => Some(value),
                None => match file {
                    ConfigFile::Parsed(config) => text_of(config.mode),
                    _ => None,
                },
            }
            &&& loaded.local_addr == match first_given(
                text_of(args.local_addr),
                env.get("PACKET_FLOW_LOCAL_ADDR"@),
            ) {
                Some(value) => value,
                None => match file {
                    ConfigFile::Parsed(config) => config.local_addr@,
                    _ => "0.0.0.0:8000"@,
                },
            }
            &&& loaded.remote_addr == match first_given(
                text_of(args.remote_addr),
                env.get("PACKET_FLOW_REMOTE_ADDR"@),
            ) {
                Some(value) => value,
                None => match file {
                    ConfigFile::Parsed(config) => config.remote_addr@,
                    _ => "127.0.0.1:8000"@,
                },
            }
            &&& loaded.influx_url == match first_given(
                text_of(args.influx_url),
                env.get("PACKET_FLOW_INFLUX_URL"@),
            ) {
                Some(value) => value,
                None => match file {
                    ConfigFile::Parsed(config) => config.influx_url@,
                    _ => "http://localhost:8086"@,
                },
            }
            &&& loaded.database == match first_given(
                text_of(args.database),
                env.get("PACKET_FLOW_DATABASE"@),
            ) {
                Some(value) => value,
                None => match file {
                    ConfigFile::Parsed(config) => config.database@,
                    _ => "packet_flow"@,
                },
            }
            &&& loaded.token == match first_given(
                text_of(args.token),
                env.get("PACKET_FLOW_TOKEN"@),
            ) {
                Some(value) => Some(value),
                None => match file {
                    ConfigFile::Parsed(config) => text_of(config.token),
                    _ => None,
                },
            }
            &&& loaded.username == match first_given(
                text_of(args.username),
                env.get("PACKET_FLOW_USERNAME"@),
            ) {
                Some(value) => Some(value),
                None => match file {
                    ConfigFile::Parsed(config) => text_of(config.username),
                    _ => None,
                },
            }
            &&& loaded.password == match first_given(
                text_of(args.password),
                env.get("PACKET_FLOW_PASSWORD"@),
            ) {
                Some(value) => Some(value),
                None => match file {
                    ConfigFile::Parsed(config) => text_of(config.password),
                    _ => None,
                },
            }
            &&& loaded.rate == match first_given(
                args.rate,
                match env.get("PACKET_FLOW_RATE"@) {
                    Some(value) => parsed_u64(value),
                    None => None,
                },
            ) {
                Some(value) => value,
                None => match file {
                    ConfigFile::Parsed(config) => config.rate,
                    _ => 1000,
                },
            }
        }),
{
}

/// A configuration that nobody changed has these values. It is sound, and it names nobody who may
/// write to InfluxDB.
pub proof fn default_values()
    ensures
        default_config().mode is None,
        default_config().local_addr == "0.0.0.0:8000"@,
        default_config().remote_addr == "127.0.0.1:8000"@,
        default_config().rate == 1000,
        default_config().influx_url == "http://localhost:8086"@,
        default_config().database == "packet_flow"@,
        default_config().fault() is None,
        !default_config().authenticates(),
{
    let config = default_config();
    reveal_strlit("0.0.0.0:8000");
    reveal_strlit("127.0.0.1:8000");
    reveal_strlit("http://localhost:8086");
    reveal_strlit("http://");
    assert(config.local_addr[7] == ':');
    assert(config.remote_addr[9] == ':');
    soundness_in_plain_terms(config);
    assert("http://"@ =~= config.influx_url.take(7));
}

/// What is said of a configuration's content is said of the values that it holds.
pub proof fn content_is_what_is_held(config: Config, args: Args)
    ensures
        config@.mode == text_of(config.mode),
        config@.local_addr == config.local_addr@,
        config@.remote_addr == config.remote_addr@,
        config@.rate == config.rate,
        config@.influx_url == config.influx_url@,
        config@.database == config.database@,
        config@.token == text_of(config.token),
        config@.username == text_of(config.username),
        config@.password == text_of(config.password),
        args@.mode == text_of(args.mode),
        args@.local_addr == text_of(args.local_addr),
        args@.remote_addr == text_of(args.remote_addr),
        args@.rate == args.rate,
        args@.influx_url == text_of(args.influx_url),
        args@.database == text_of(args.database),
        args@.token == text_of(args.token),
        args@.username == text_of(args.username),
        args@.password == text_of(args.password),
{
}

proof fn lemma_line(before: Seq<char>, label: Seq<char>, head: Seq<char>, value: Seq<char>)
    requires
        head == "  "@ + label + ": "@,
    ensures
        before + line(label, value) == before + head + value + "\n"@,
{
    assert(before + line(label, value) =~= before + head + value + "\n"@);
}

/// A configuration is displayed line by line, each value behind its name as it was given. Of the
/// token and of the password only four stars show, where there is one.
pub proof fn display_goes_line_by_line(config: ConfigView)
    ensures
        ({
            let mode = match config.mode {
                Some(mode) => mode,
                None => "Not set"@,
            };
            let username = match config.username {
                Some(username) => username,
                None => "Not set"@,
            };
            let token = if config.token is Some {
                "****"@
            } else {
                "Not set"@
            };
            let password = if config.password is Some {
                "****"@
            } else {
                "Not set"@
            };
            config.displayed() == "Config {\n"@ + "  mode: "@ + mode + "\n"@
                + "  local bind address: "@ + config.local_addr + "\n"@ + "  remote address: "@
                + config.remote_addr + "\n"@ + "  rate: "@ + (decimal(config.rate as nat) + "ms"@)
                + "\n"@ + "  influx url: "@ + config.influx_url + "\n"@ + "  database (bucket): "@
                + config.database + "\n"@ + "  token: "@ + token + "\n"@ + "  username: "@
                + username + "\n"@ + "  password: "@ + password + "\n"@ + "}"@
        }),
{
    assert("  mode: "@ =~= "  "@ + "mode"@ + ": "@) by {
        reveal_strlit("  mode: ");
        reveal_strlit("  ");
        reveal_strlit("mode");
        reveal_strlit(": ");
    }
    assert("  local bind address: "@ =~= "  "@ + "local bind address"@ + ": "@) by {
        reveal_strlit("  local bind address: ");
        reveal_strlit("  ");
        reveal_strlit("local bind address");
        reveal_strlit(": ");
    }
    assert("  remote address: "@ =~= "  "@ + "remote address"@ + ": "@) by {
        reveal_strlit("  remote address: ");
        reveal_strlit("  ");
        reveal_strlit("remote address");
        reveal_strlit(": ");
    }
    assert("  rate: "@ =~= "  "@ + "rate"@ + ": "@) by {
        reveal_strlit("  rate: ");
        reveal_strlit("  ");
        reveal_strlit("rate");
        reveal_strlit(": ");
    }
    assert("  influx url: "@ =~= "  "@ + "influx url"@ + ": "@) by {
        reveal_strlit("  influx url: ");
        reveal_strlit("  ");
        reveal_strlit("influx url");
        reveal_strlit(": ");
    }
    assert("  database (bucket): "@ =~= "  "@ + "database (bucket)"@ + ": "@) by {
        reveal_strlit("  database (bucket): ");
        reveal_strlit("  ");
        reveal_strlit("database (bucket)");
        reveal_strlit(": ");
    }
    assert("  token: "@ =~= "  "@ + "token"@ + ": "@) by {
        reveal_strlit("  token: ");
        reveal_strlit("  ");
        reveal_strlit("token");
        reveal_strlit(": ");
    }
    assert("  username: "@ =~= "  "@ + "username"@ + ": "@) by {
        reveal_strlit("  username: ");
        reveal_strlit("  ");
        reveal_strlit("username");
        reveal_strlit(": ");
    }
    assert("  password: "@ =~= "  "@ + "password"@ + ": "@) by {
        reveal_strlit("  password: ");
        reveal_strlit("  ");
        reveal_strlit("password");
        reveal_strlit(": ");
    }
    let mode = match config.mode {
        Some(mode) => mode,
        None => "Not set"@,
    };
    let username = match config.username {
        Some(username) => username,
        None => "Not set"@,
    };
    let token = if config.token is Some {
        "****"@
    } else {
        "Not set"@
    };
    let password = if config.password is Some {
        "****"@
    } else {
        "Not set"@
    };
    let rate = decimal(config.rate as nat) + "ms"@;
    let line0 = "Config {\n"@;
    lemma_line(line0, "mode"@, "  mode: "@, mode);
    let line1 = line0 + "  mode: "@ + mode + "\n"@;
    lemma_line(line1, "local bind address"@, "  local bind address: "@, config.local_addr);
    let line2 = line1 + "  local bind address: "@ + config.local_addr + "\n"@;
    lemma_line(line2, "remote address"@, "  remote address: "@, config.remote_addr);
    let line3 = line2 + "  remote address: "@ + config.remote_addr + "\n"@;
    lemma_line(line3, "rate"@, "  rate: "@, rate);
    let line4 = line3 + "  rate: "@ + rate + "\n"@;
    lemma_line(line4, "influx url"@, "  influx url: "@, config.influx_url);
    let line5 = line4 + "  influx url: "@ + config.influx_url + "\n"@;
    lemma_line(line5, "database (bucket)"@, "  database (bucket): "@, config.database);
    let line6 = line5 + "  database (bucket): "@ + config.database + "\n"@;
    lemma_line(line6, "token"@, "  token: "@, token);
    let line7 = line6 + "  token: "@ + token + "\n"@;
    lemma_line(line7, "username"@, "  username: "@, username);
    let line8 = line7 + "  username: "@ + username + "\n"@;
    lemma_line(line8, "password"@, "  password: "@, password);
    let line9 = line8 + "  password: "@ + password + "\n"@;
}

} // verus!
