//! Measurements as InfluxDB points, and the client that sends them.
use influxdb::{Client, WriteQuery};
use vstd::prelude::*;

use crate::config::{Config, ConfigView};
use crate::error::AppError;
use crate::measurement::{
    report_keeps_its_content, Kind, Latency, Measurement, MeasurementView, PacketLoss, Report,
};

verus! {

/// The value of a field of a point.
pub enum FieldValue {
    Text(Seq<char>),
    Unsigned(u64),
}

/// A point under construction in the client library.
#[verifier::external_type_specification]
#[verifier::external_body]
pub struct ExWriteQuery(influxdb::WriteQuery);

/// The fields that a point holds, in the order in which they were added.
pub uninterp spec fn query_fields(query: WriteQuery) -> Seq<(Seq<char>, FieldValue)>;

/// The tags that a point holds, in the order in which they were added.
pub uninterp spec fn query_tags(query: WriteQuery) -> Seq<(Seq<char>, FieldValue)>;

/// The measurement name that a point was made with.
pub uninterp spec fn query_measurement(query: WriteQuery) -> Seq<char>;

/// The timestamp that a point was made with, in nanoseconds since the Unix epoch.
pub uninterp spec fn query_nanoseconds(query: WriteQuery) -> u128;

/// Calls `influxdb::WriteQuery::new` with a timestamp in nanoseconds. The point has that timestamp
/// and that measurement name, and neither fields nor tags.
#[verifier::external_body]
fn new_query(nanoseconds: u128, measurement: &str) -> (query: WriteQuery)
    ensures
        query_nanoseconds(query) == nanoseconds,
        query_measurement(query) == measurement@,
        query_fields(query) == Seq::<(Seq<char>, FieldValue)>::empty(),
        query_tags(query) == Seq::<(Seq<char>, FieldValue)>::empty(),
{
    WriteQuery::new(influxdb::Timestamp::Nanoseconds(nanoseconds), measurement)
}

/// Calls `influxdb::WriteQuery::add_field` with a text value. The field comes behind those that the
/// point has; nothing else of the point changes.
#[verifier::external_body]
fn add_text_field(query: WriteQuery, field: &str, value: String) -> (result: WriteQuery)
    ensures
        query_fields(result) == query_fields(query).push((field@, FieldValue::Text(value@))),
        query_tags(result) == query_tags(query),
        query_measurement(result) == query_measurement(query),
        query_nanoseconds(result) == query_nanoseconds(query),
{
    query.add_field(field, value)
}

/// Calls `influxdb::WriteQuery::add_field` with an unsigned integer. The field comes behind those
/// that the point has; nothing else of the point changes.
#[verifier::external_body]
fn add_unsigned_field(query: WriteQuery, field: &str, value: u64) -> (result: WriteQuery)
    ensures
        query_fields(result) == query_fields(query).push((field@, FieldValue::Unsigned(value))),
        query_tags(result) == query_tags(query),
        query_measurement(result) == query_measurement(query),
        query_nanoseconds(result) == query_nanoseconds(query),
{
    query.add_field(field, value)
}

/// The InfluxDB measurement that a kind of finding is written to.
pub open spec fn series_name(kind: Kind) -> Seq<char> {
    match kind {
        Kind::PacketLoss => "packet_loss"@,
        Kind::Latency => "latency"@,
    }
}

/// Whether `query` is the point of the measurement `name` that has these values as its fields, no
/// others, and no tags.
pub open spec fn is_point(
    query: WriteQuery,
    name: Seq<char>,
    time: u128,
    source: Seq<char>,
    destination: Seq<char>,
    value: u64,
) -> bool {
    &&& query_measurement(query) == name
    &&& query_nanoseconds(query) == time
    &&& query_tags(query) == Seq::<(Seq<char>, FieldValue)>::empty()
    &&& query_fields(query) == seq![
        ("source"@, FieldValue::Text(source)),
        ("destination"@, FieldValue::Text(destination)),
        ("value"@, FieldValue::Unsigned(value)),
    ]
}

/// Whether `query` writes `measurement`, all of it and nothing else.
pub open spec fn writes(query: WriteQuery, measurement: MeasurementView) -> bool {
    is_point(
        query,
        series_name(measurement.report.kind),
        measurement.time,
        measurement.report.source,
        measurement.report.destination,
        measurement.report.value,
    )
}

/// Whether `queries` write `measurements`, one each and in their order.
pub open spec fn writes_all(queries: Seq<WriteQuery>, measurements: Seq<Measurement>) -> bool {
    &&& queries.len() == measurements.len()
    &&& forall|i: int| 0 <= i < queries.len() ==> writes(#[trigger] queries[i], measurements[i]@)
}

/// Makes the point of a measurement.
fn make_point(
    name: &str,
    time: u128,
    source: String,
    destination: String,
    value: u64,
) -> (query: WriteQuery)
    ensures
        is_point(query, name@, time, source@, destination@, value),
{
    let query: WriteQuery = new_query(time, name);
    let query: WriteQuery = add_text_field(query, "source", source);
    let query: WriteQuery = add_text_field(query, "destination", destination);
    let query: WriteQuery = add_unsigned_field(query, "value", value);
    assert(query_fields(query) =~= seq![
        ("source"@, FieldValue::Text(source@)),
        ("destination"@, FieldValue::Text(destination@)),
        ("value"@, FieldValue::Unsigned(value)),
    ]);
    query
}

impl PacketLoss {
    /// The point that writes this loss to the measurement `name`.
    pub fn into_query(self, name: &str) -> (query: WriteQuery)
        ensures
            is_point(query, name@, self.time, self.source@, self.destination@, self.value),
    {
        make_point(name, self.time, self.source, self.destination, self.value)
    }
}

impl Latency {
    /// The point that writes this latency to the measurement `name`.
    pub fn into_query(self, name: &str) -> (query: WriteQuery)
        ensures
            is_point(query, name@, self.time, self.source@, self.destination@, self.value),
    {
        make_point(name, self.time, self.source, self.destination, self.value)
    }
}

/// A client of an InfluxDB server.
#[verifier::external_type_specification]
#[verifier::external_body]
pub struct ExClient(influxdb::Client);

/// The parameters that a client holds and sends with every request, by name.
pub uninterp spec fn client_parameters(client: Client) -> Map<Seq<char>, Seq<char>>;

/// The URL that a client was made with.
pub uninterp spec fn client_url(client: Client) -> Seq<char>;

/// The token that a client was given, if it was.
pub uninterp spec fn client_token(client: Client) -> Option<Seq<char>>;

/// Calls `influxdb::Client::new`. The client has that URL, sends the database as the parameter
/// `db` and no other, and has no token.
#[verifier::external_body]
fn new_client(url: &str, database: &str) -> (client: Client)
    ensures
        client_url(client) == url@,
        client_parameters(client) == map!["db"@ => database@],
        client_token(client) is None,
{
    Client::new(url, database)
}

/// Calls `influxdb::Client::with_token`. The client has that token; nothing else of it changes.
#[verifier::external_body]
fn with_token(client: Client, token: &str) -> (result: Client)
    ensures
        client_url(result) == client_url(client),
        client_parameters(result) == client_parameters(client),
        client_token(result) == Some(token@),
{
    client.with_token(token)
}

/// Calls `influxdb::Client::with_auth`. The client sends the user name as the parameter `u` and the
/// password as the parameter `p`; nothing else of it changes.
#[verifier::external_body]
fn with_auth(client: Client, username: &str, password: &str) -> (result: Client)
    ensures
        client_url(result) == client_url(client),
        client_parameters(result) == client_parameters(client).insert("u"@, username@).insert(
            "p"@,
            password@,
        ),
        client_token(result) == client_token(client),
{
    client.with_auth(username, password)
}

/// Whether `client` is set up as `config` says: with its URL and database, and with its token, or
/// where there is none with its user name and password.
pub open spec fn is_client_for(client: Client, config: ConfigView) -> bool {
    let database = map!["db"@ => config.database];
    &&& client_url(client) == config.influx_url
    &&& client_token(client) == config.token
    &&& client_parameters(client) == if config.token is Some {
        database
    } else {
        database.insert("u"@, config.username->0).insert("p"@, config.password->0)
    }
}

/// Makes the client that writes measurements. A token goes before a user name and password; one of
/// the two must be there.
pub fn create_influx_client(config: &Config) -> (result: Result<Client, AppError>)
    ensures
        match result {
            Ok(client) => config@.authenticates() && is_client_for(client, config@),
            Err(error) => !config@.authenticates() && error is MissingAuthentication,
        },
        result is Ok <==> config.token is Some || (config.username is Some && config.password
            is Some),
        result matches Ok(client) ==> {
            &&& client_url(client) == config.influx_url@
            &&& config.token matches Some(token) ==> client_token(client) == Some(token@)
            &&& config.token is None ==> client_token(client) is None
        },
{
    let client: Client = new_client(config.influx_url.as_str(), config.database.as_str());
    if let Some(token) = &config.token {
        return Ok(with_token(client, token.as_str()));
    }
    match (&config.username, &config.password) {
        (Some(username), Some(password)) => Ok(
            with_auth(client, username.as_str(), password.as_str()),
        ),
        _ => Err(AppError::MissingAuthentication),
    }
}

/// Whether `query` has the name, the time, the three fields and no tags that `measurement` calls
/// for.
pub open spec fn is_point_of(query: WriteQuery, measurement: Measurement) -> bool {
    let fields = query_fields(query);
    &&& query_tags(query).len() == 0
    &&& fields.len() == 3
    &&& match measurement {
        Measurement::PacketLoss(loss) => {
            &&& query_measurement(query) == "packet_loss"@
            &&& query_nanoseconds(query) == loss.time
            &&& fields[0] == ("source"@, FieldValue::Text(loss.source@))
            &&& fields[1] == ("destination"@, FieldValue::Text(loss.destination@))
            &&& fields[2] == ("value"@, FieldValue::Unsigned(loss.value))
        },
        Measurement::Latency(latency) => {
            &&& query_measurement(query) == "latency"@
            &&& query_nanoseconds(query) == latency.time
            &&& fields[0] == ("source"@, FieldValue::Text(latency.source@))
            &&& fields[1] == ("destination"@, FieldValue::Text(latency.destination@))
            &&& fields[2] == ("value"@, FieldValue::Unsigned(latency.value))
        },
    }
}

/// A point of any name has the time that it was made with, the source, the destination and the
/// value as its fields, in this order, and no tags.
pub proof fn point_has_three_fields(
    query: WriteQuery,
    name: Seq<char>,
    time: u128,
    source: Seq<char>,
    destination: Seq<char>,
    value: u64,
)
    requires
        is_point(query, name, time, source, destination, value),
    ensures
        query_measurement(query) == name,
        query_nanoseconds(query) == time,
        query_tags(query).len() == 0,
        query_fields(query).len() == 3,
        query_fields(query)[0] == ("source"@, FieldValue::Text(source)),
        query_fields(query)[1] == ("destination"@, FieldValue::Text(destination)),
        query_fields(query)[2] == ("value"@, FieldValue::Unsigned(value)),
{
}

/// Points write the measurements that they were made of, one each and in the same order: losses
/// under one name, latencies under another, with nothing of them changed or left out.
pub proof fn points_hold_the_measurements(
    queries: Seq<WriteQuery>,
    measurements: Seq<Measurement>,
)
    requires
        writes_all(queries, measurements),
    ensures
        queries.len() == measurements.len(),
        forall|i: int|
            0 <= i < queries.len() ==> is_point_of(#[trigger] queries[i], measurements[i]),
{
    assert forall|i: int| 0 <= i < queries.len() implies is_point_of(
        #[trigger] queries[i],
        measurements[i],
    ) by {
        assert(writes(queries[i], measurements[i]@));
    }
}

/// What a receiver reports is what the database gets: the point made of a report at some time has
/// that time, and the report's source, destination and value, under the name of its kind.
pub proof fn report_reaches_the_database(
    report: Report,
    time: u128,
    measurement: Measurement,
    query: WriteQuery,
)
    requires
        measurement@ == (MeasurementView { report: report@, time }),
        writes(query, measurement@),
    ensures
        query_measurement(query) == match report.kind {
            Kind::PacketLoss => "packet_loss"@,
            Kind::Latency => "latency"@,
        },
        query_nanoseconds(query) == time,
        query_tags(query).len() == 0,
        query_fields(query).len() == 3,
        query_fields(query)[0] == ("source"@, FieldValue::Text(report.source@)),
        query_fields(query)[1] == ("destination"@, FieldValue::Text(report.destination@)),
        query_fields(query)[2] == ("value"@, FieldValue::Unsigned(report.value)),
{
    report_keeps_its_content(report, measurement, time);
    points_hold_the_measurements(seq![query], seq![measurement]);
    assert(is_point_of(seq![query][0], measurement));
}

/// A client has the configured URL and database. Where there is a token, it has exactly that text
/// as its token and sends no user name; where there is none, it has no token and sends exactly the
/// configured user name and password.
pub proof fn client_has_what_is_configured(client: Client, config: Config)
    requires
        is_client_for(client, config@),
    ensures
        client_url(client) == config.influx_url@,
        client_parameters(client).contains_pair("db"@, config.database@),
        config.token matches Some(token) ==> {
            &&& client_token(client) == Some(token@)
            &&& client_parameters(client).dom() == set!["db"@]
        },
        config.token is None ==> client_token(client) is None,
        config.token is None && config.username is Some && config.password is Some ==> {
            &&& client_parameters(client).contains_pair("u"@, config.username->0@)
            &&& client_parameters(client).contains_pair("p"@, config.password->0@)
            &&& client_parameters(client).dom() == set!["db"@, "u"@, "p"@]
        },
{
    reveal_strlit("db");
    reveal_strlit("u");
    reveal_strlit("p");
    assert("u"@[0] != "p"@[0]);
    assert("db"@.len() != "u"@.len());
    assert("db"@.len() != "p"@.len());
    assert(config.token is Some ==> client_parameters(client).dom() =~= set!["db"@]);
    assert(config.token is None ==> client_parameters(client).dom() =~= set!["db"@, "u"@, "p"@]);
}

} // verus!
