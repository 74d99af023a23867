//! The connection to an MQTT broker.

use vstd::prelude::*;

use crate::error;
use crate::error::{Error, ErrorWithMeta, ForeignError};
use crate::event_manager;
use crate::event_manager::{EventCore, EventType};
use crate::text;
use crate::with_source;
use crate::with_source::ValueWithSource;

verus! {

/// Whether the levels of a topic match those of a pattern: `+` stands for any one level, and `#` for
/// all levels that remain, of which there may be none.
pub open spec fn levels_match(pattern: Seq<Seq<char>>, topic: Seq<Seq<char>>) -> bool
    decreases pattern.len(),
{
    if pattern.len() == 0 {
        topic.len() == 0
    } else if pattern[0] == "#"@ {
        true
    } else if topic.len() == 0 {
        false
    } else {
        (pattern[0] == "+"@ || pattern[0] == topic[0]) && levels_match(
            pattern.drop_first(),
            topic.drop_first(),
        )
    }
}

/// Whether a topic matches a pattern following the MQTT wildcard rules.
pub open spec fn topic_matches(pattern: Seq<char>, topic: Seq<char>) -> bool {
    levels_match(text::levels(pattern, '/'), text::levels(topic, '/'))
}

/// Check whether a topic matches a pattern following the MQTT wildcard rules.
pub fn topic_match(pattern: &str, topic: &str) -> (r: bool)
    ensures
        r == topic_matches(pattern@, topic@),
{
    let pattern_parts = text::split_levels(pattern, '/');
    let topic_parts = text::split_levels(topic, '/');
    let ghost wanted = text::levels(pattern@, '/');
    let ghost given = text::levels(topic@, '/');
    let mut i: usize = 0;
    proof {
        assert(wanted.skip(0) =~= wanted);
        assert(given.skip(0) =~= given);
    }
    while i < pattern_parts.len()
        invariant
            wanted == text::texts(pattern_parts@),
            given == text::texts(topic_parts@),
            i <= wanted.len(),
            i <= given.len(),
            levels_match(wanted, given) == levels_match(
                wanted.skip(i as int),
                given.skip(i as int),
            ),
            wanted == text::levels(pattern@, '/'),
            given == text::levels(topic@, '/'),
        decreases pattern_parts@.len() - i,
    {
        let part = pattern_parts[i].as_str();
        proof {
            assert(wanted[i as int] == part@);
            assert(wanted.skip(i as int).drop_first() =~= wanted.skip(i + 1));
        }
        if text::same_text(part, "#") {
            return true;
        }
        if i >= topic_parts.len() {
            return false;
        }
        proof {
            assert(given[i as int] == topic_parts@[i as int]@);
            assert(given.skip(i as int).drop_first() =~= given.skip(i + 1));
        }
        if !text::same_text(part, "+") && !text::same_text(part, topic_parts[i].as_str()) {
            return false;
        }
        i = i + 1;
    }
    i == topic_parts.len()
}

/// Everything matches the pattern that consists of `#` alone.
pub proof fn hash_matches_everything(topic: Seq<char>)
    ensures
        topic_matches("#"@, topic),
{
    reveal_strlit("#");
    let pattern = "#"@;
    reveal_with_fuel(text::levels, 2);
    assert(pattern.drop_last() =~= Seq::empty());
    assert(text::levels(pattern, '/')[0] =~= pattern);
}

/// Whether a level is a wildcard.
pub open spec fn is_wildcard(level: Seq<char>) -> bool {
    level == "#"@ || level == "+"@
}

proof fn lemma_literal_levels(pattern: Seq<Seq<char>>, topic: Seq<Seq<char>>)
    requires
        forall|i: int| 0 <= i < pattern.len() ==> !is_wildcard(#[trigger] pattern[i]),
    ensures
        levels_match(pattern, topic) == (pattern == topic),
    decreases pattern.len(),
{
    if pattern.len() == 0 {
        assert(topic.len() == 0 ==> pattern =~= topic);
    } else {
        assert(!is_wildcard(pattern[0]));
        if topic.len() > 0 {
            let rest = pattern.drop_first();
            assert forall|i: int| 0 <= i < rest.len() implies !is_wildcard(#[trigger] rest[i]) by {
                assert(rest[i] == pattern[i + 1]);
            }
            lemma_literal_levels(rest, topic.drop_first());
            if pattern[0] == topic[0] && rest == topic.drop_first() {
                assert(pattern =~= seq![pattern[0]] + rest);
                assert(topic =~= seq![topic[0]] + topic.drop_first());
            }
        }
    }
}

/// A pattern without wildcards matches the topic that it spells, and no other.
pub proof fn literal_matches_itself_only(pattern: Seq<char>, topic: Seq<char>)
    requires
        forall|i: int|
            0 <= i < text::levels(pattern, '/').len() ==> !is_wildcard(
                #[trigger] text::levels(pattern, '/')[i],
            ),
    ensures
        topic_matches(pattern, topic) == (pattern == topic),
{
    lemma_literal_levels(text::levels(pattern, '/'), text::levels(topic, '/'));
    text::levels_join(pattern, '/');
    text::levels_join(topic, '/');
}

/// Whether levels match one by one, where `+` matches any level.
pub open spec fn each_level_matches(pattern: Seq<Seq<char>>, topic: Seq<Seq<char>>) -> bool {
    &&& pattern.len() == topic.len()
    &&& forall|i: int|
        0 <= i < pattern.len() ==> (#[trigger] pattern[i] == "+"@ || pattern[i] == topic[i])
}

proof fn lemma_each_level(pattern: Seq<Seq<char>>, topic: Seq<Seq<char>>)
    requires
        forall|i: int| 0 <= i < pattern.len() ==> #[trigger] pattern[i] != "#"@,
    ensures
        levels_match(pattern, topic) == each_level_matches(pattern, topic),
    decreases pattern.len(),
{
    if pattern.len() > 0 && topic.len() > 0 {
        let rest = pattern.drop_first();
        let below = topic.drop_first();
        assert forall|i: int| 0 <= i < rest.len() implies #[trigger] rest[i] != "#"@ by {
            assert(rest[i] == pattern[i + 1]);
        }
        lemma_each_level(rest, below);
        assert(pattern[0] != "#"@);
        if each_level_matches(pattern, topic) {
            assert forall|i: int| 0 <= i < rest.len() implies (#[trigger] rest[i] == "+"@ || rest[i]
                == below[i]) by {
                assert(rest[i] == pattern[i + 1]);
            }
        }
        if (pattern[0] == "+"@ || pattern[0] == topic[0]) && each_level_matches(rest, below) {
            assert forall|i: int| 0 <= i < pattern.len() implies (#[trigger] pattern[i] == "+"@
                || pattern[i] == topic[i]) by {
                if i > 0 {
                    assert(rest[i - 1] == pattern[i]);
                }
            }
        }
    }
}

/// A pattern without `#` matches the topics that have as many levels, each of which is the one that
/// the pattern has there, or any where the pattern has `+`.
pub proof fn levels_match_one_by_one(pattern: Seq<char>, topic: Seq<char>)
    requires
        forall|i: int|
            0 <= i < text::levels(pattern, '/').len() ==> #[trigger] text::levels(pattern, '/')[i]
                != "#"@,
    ensures
        topic_matches(pattern, topic) == each_level_matches(
            text::levels(pattern, '/'),
            text::levels(topic, '/'),
        ),
{
    lemma_each_level(text::levels(pattern, '/'), text::levels(topic, '/'));
}

proof fn lemma_trailing_hash(pattern: Seq<Seq<char>>, topic: Seq<Seq<char>>)
    requires
        pattern.len() > 0,
        pattern.last() == "#"@,
        forall|i: int| 0 <= i < pattern.len() - 1 ==> #[trigger] pattern[i] != "#"@,
    ensures
        levels_match(pattern, topic) == (topic.len() >= pattern.len() - 1 && each_level_matches(
            pattern.drop_last(),
            topic.take(pattern.len() - 1),
        )),
    decreases pattern.len(),
{
    let front = pattern.drop_last();
    if pattern.len() > 1 {
        assert(pattern[0] != "#"@);
        if topic.len() > 0 {
            let rest = pattern.drop_first();
            let below = topic.drop_first();
            assert forall|i: int| 0 <= i < rest.len() - 1 implies #[trigger] rest[i] != "#"@ by {
                assert(rest[i] == pattern[i + 1]);
            }
            lemma_trailing_hash(rest, below);
            if topic.len() >= pattern.len() - 1 {
                let given = topic.take(pattern.len() - 1);
                let given_below = below.take(rest.len() - 1);
                if each_level_matches(front, given) {
                    assert(front[0] == "+"@ || front[0] == given[0]);
                    assert forall|i: int| 0 <= i < rest.len() - 1 implies (
                    #[trigger] rest.drop_last()[i] == "+"@ || rest.drop_last()[i]
                        == given_below[i]) by {
                        assert(rest.drop_last()[i] == front[i + 1]);
                        assert(given_below[i] == given[i + 1]);
                    }
                }
                if (pattern[0] == "+"@ || pattern[0] == topic[0]) && each_level_matches(
                    rest.drop_last(),
                    given_below,
                ) {
                    assert forall|i: int| 0 <= i < front.len() implies (#[trigger] front[i] == "+"@
                        || front[i] == given[i]) by {
                        if i > 0 {
                            assert(front[i] == rest.drop_last()[i - 1]);
                            assert(given[i] == given_below[i - 1]);
                        }
                    }
                }
            }
        }
    }
}

/// A pattern that ends in `#`, and has no other `#`, matches the topics that begin with levels which
/// match the ones before it one by one, whatever levels follow.
pub proof fn trailing_hash_matches_the_rest(pattern: Seq<char>, topic: Seq<char>)
    requires
        text::levels(pattern, '/').last() == "#"@,
        forall|i: int|
            0 <= i < text::levels(pattern, '/').len() - 1 ==> #[trigger] text::levels(
                pattern,
                '/',
            )[i] != "#"@,
    ensures
        ({
            let wanted = text::levels(pattern, '/');
            let given = text::levels(topic, '/');
            topic_matches(pattern, topic) == (given.len() >= wanted.len() - 1
                && each_level_matches(wanted.drop_last(), given.take(wanted.len() - 1)))
        }),
{
    text::levels_nonempty(pattern, '/');
    lemma_trailing_hash(text::levels(pattern, '/'), text::levels(topic, '/'));
}

/// The state of the connection to the broker.
#[derive(Debug)]
pub enum ConnectionStatus {
    /// The connection is being made.
    Pending,
    /// There is a connection.
    Active,
    /// The connection was closed from this side.
    Inactive,
    /// The connection was closed by the broker.
    Closed,
    /// The connection could not be made, or was lost.
    Failed(String),
    /// The broker has refused the connection.
    Refused(String),
}

/// The model of a [`ConnectionStatus`].
#[verifier::ext_equal]
pub enum ConnectionModel {
    /// See [`ConnectionStatus::Pending`].
    Pending,
    /// See [`ConnectionStatus::Active`].
    Active,
    /// See [`ConnectionStatus::Inactive`].
    Inactive,
    /// See [`ConnectionStatus::Closed`].
    Closed,
    /// See [`ConnectionStatus::Failed`].
    Failed(Seq<char>),
    /// See [`ConnectionStatus::Refused`].
    Refused(Seq<char>),
}

impl View for ConnectionStatus {
    type V = ConnectionModel;

    open spec fn view(&self) -> ConnectionModel {
        match *self {
            ConnectionStatus::Pending => ConnectionModel::Pending,
            ConnectionStatus::Active => ConnectionModel::Active,
            ConnectionStatus::Inactive => ConnectionModel::Inactive,
            ConnectionStatus::Closed => ConnectionModel::Closed,
            ConnectionStatus::Failed(err) => ConnectionModel::Failed(err@),
            ConnectionStatus::Refused(err) => ConnectionModel::Refused(err@),
        }
    }
}

impl Clone for ConnectionStatus {
    fn clone(&self) -> (r: Self)
        ensures
            r == *self,
    {
        match self {
            ConnectionStatus::Pending => ConnectionStatus::Pending,
            ConnectionStatus::Active => ConnectionStatus::Active,
            ConnectionStatus::Inactive => ConnectionStatus::Inactive,
            ConnectionStatus::Closed => ConnectionStatus::Closed,
            ConnectionStatus::Failed(err) => ConnectionStatus::Failed(err.clone()),
            ConnectionStatus::Refused(err) => ConnectionStatus::Refused(err.clone()),
        }
    }
}

impl PartialEq for ConnectionStatus {
    fn eq(&self, other: &Self) -> (r: bool) {
        match (self, other) {
            (ConnectionStatus::Pending, ConnectionStatus::Pending) => true,
            (ConnectionStatus::Active, ConnectionStatus::Active) => true,
            (ConnectionStatus::Inactive, ConnectionStatus::Inactive) => true,
            (ConnectionStatus::Closed, ConnectionStatus::Closed) => true,
            (ConnectionStatus::Failed(a), ConnectionStatus::Failed(b)) => text::same_text(
                a.as_str(),
                b.as_str(),
            ),
            (ConnectionStatus::Refused(a), ConnectionStatus::Refused(b)) => text::same_text(
                a.as_str(),
                b.as_str(),
            ),
            _ => false,
        }
    }
}

impl vstd::std_specs::cmp::PartialEqSpecImpl for ConnectionStatus {
    open spec fn obeys_eq_spec() -> bool {
        true
    }

    open spec fn eq_spec(&self, other: &Self) -> bool {
        self@ == other@
    }
}

/// The model of an event without a path.
pub open spec fn plain_event(
    action: Seq<char>,
    note: Seq<char>,
    reason: Seq<char>,
    type_: EventType,
) -> event_manager::EventCoreModel {
    event_manager::EventCoreModel { action, note: Some(note), reason, type_, field_path: None }
}

fn create_event(action: &str, note: String, reason: &str, type_: EventType) -> (r: EventCore)
    ensures
        r@ == plain_event(action@, note@, reason@, type_),
{
    EventCore {
        action: action.to_owned(),
        note: Some(note),
        reason: reason.to_owned(),
        type_,
        field_path: None,
    }
}

/// The event about the state of the connection.
pub open spec fn connection_event(status: ConnectionModel) -> event_manager::EventCoreModel {
    let action = "Connecting"@;
    match status {
        ConnectionModel::Pending => plain_event(
            action,
            "connecting to broker"@,
            "Created"@,
            EventType::Normal,
        ),
        ConnectionModel::Active => plain_event(
            action,
            "successfully connected to broker"@,
            "Created"@,
            EventType::Normal,
        ),
        ConnectionModel::Inactive => plain_event(
            action,
            "disconnected from broker"@,
            "Deleted"@,
            EventType::Normal,
        ),
        ConnectionModel::Closed => plain_event(
            action,
            "connection closed by broker."@,
            "Disconnected"@,
            EventType::Warning,
        ),
        ConnectionModel::Failed(err) => plain_event(
            action,
            "connection failed: "@ + err,
            "Created"@,
            EventType::Warning,
        ),
        ConnectionModel::Refused(err) => plain_event(
            action,
            "connection refused: "@ + err,
            "Created"@,
            EventType::Warning,
        ),
    }
}

impl ConnectionStatus {
    /// The event about this state.
    pub fn event(&self) -> (r: EventCore)
        ensures
            r@ == connection_event(self@),
    {
        match self {
            ConnectionStatus::Pending => create_event(
                "Connecting",
                "connecting to broker".to_owned(),
                "Created",
                EventType::Normal,
            ),
            ConnectionStatus::Active => create_event(
                "Connecting",
                "successfully connected to broker".to_owned(),
                "Created",
                EventType::Normal,
            ),
            ConnectionStatus::Inactive => create_event(
                "Connecting",
                "disconnected from broker".to_owned(),
                "Deleted",
                EventType::Normal,
            ),
            ConnectionStatus::Closed => create_event(
                "Connecting",
                "connection closed by broker.".to_owned(),
                "Disconnected",
                EventType::Warning,
            ),
            ConnectionStatus::Failed(err) => create_event(
                "Connecting",
                "connection failed: ".to_owned().concat(err.as_str()),
                "Created",
                EventType::Warning,
            ),
            ConnectionStatus::Refused(err) => create_event(
                "Connecting",
                "connection refused: ".to_owned().concat(err.as_str()),
                "Created",
                EventType::Warning,
            ),
        }
    }
}

/// How the broker answers a request for a connection.
#[derive(Clone, Copy, Debug, PartialEq, Eq, Structural)]
pub enum ConnectReturnCode {
    /// The connection is accepted.
    Success,
    /// The broker doesn't support the version of the protocol.
    RefusedProtocolVersion,
    /// The broker doesn't accept the client id.
    BadClientId,
    /// The broker is not available.
    ServiceUnavailable,
    /// The broker doesn't accept the credentials.
    BadUserNamePassword,
    /// The client is not allowed to connect.
    NotAuthorized,
}

/// The state of the connection after an answer of the broker.
pub open spec fn answered_status(code: ConnectReturnCode) -> ConnectionModel {
    match code {
        ConnectReturnCode::Success => ConnectionModel::Active,
        ConnectReturnCode::RefusedProtocolVersion => ConnectionModel::Refused(
            "invalid protocol version"@,
        ),
        ConnectReturnCode::BadClientId => ConnectionModel::Refused("invalid client id"@),
        ConnectReturnCode::ServiceUnavailable => ConnectionModel::Refused("service unavailable"@),
        ConnectReturnCode::BadUserNamePassword => ConnectionModel::Refused(
            "bad username/password"@,
        ),
        ConnectReturnCode::NotAuthorized => ConnectionModel::Refused("not authorized"@),
    }
}

impl ConnectReturnCode {
    /// The state of the connection after this answer.
    pub fn status(self) -> (r: ConnectionStatus)
        ensures
            r@ == answered_status(self),
    {
        match self {
            ConnectReturnCode::Success => ConnectionStatus::Active,
            ConnectReturnCode::RefusedProtocolVersion => ConnectionStatus::Refused(
                "invalid protocol version".to_owned(),
            ),
            ConnectReturnCode::BadClientId => ConnectionStatus::Refused(
                "invalid client id".to_owned(),
            ),
            ConnectReturnCode::ServiceUnavailable => ConnectionStatus::Refused(
                "service unavailable".to_owned(),
            ),
            ConnectReturnCode::BadUserNamePassword => ConnectionStatus::Refused(
                "bad username/password".to_owned(),
            ),
            ConnectReturnCode::NotAuthorized => ConnectionStatus::Refused(
                "not authorized".to_owned(),
            ),
        }
    }
}

/// Something that happens on the connection to the broker, as far as it matters.
#[derive(Debug)]
pub enum MqttEvent {
    /// The broker has answered a request for a connection.
    ConnAck {
        /// The answer.
        code: ConnectReturnCode,
        /// Whether the broker continues an existing session.
        session_present: bool,
    },
    /// The broker has closed the connection.
    Disconnect,
    /// The connection was closed from this side.
    OutgoingDisconnect,
    /// The broker has confirmed a subscription.
    SubAck,
    /// The broker has confirmed the end of a subscription.
    UnsubAck,
    /// The broker has sent a message.
    Publish {
        /// The topic of the message.
        topic: String,
    },
    /// The broker has sent a ping request.
    PingReq,
    /// Anything else.
    Other,
}

/// The state of the connection after an event, if it has an influence on it.
pub open spec fn event_status(event: MqttEvent) -> Option<ConnectionModel> {
    match event {
        MqttEvent::ConnAck { code, .. } => Some(answered_status(code)),
        MqttEvent::Disconnect => Some(ConnectionModel::Closed),
        MqttEvent::OutgoingDisconnect => Some(ConnectionModel::Inactive),
        _ => None,
    }
}

impl MqttEvent {
    /// The state of the connection after this event, if it has an influence on it.
    pub fn status(&self) -> (r: Option<ConnectionStatus>)
        ensures
            match r {
                Some(status) => event_status(*self) == Some(status@),
                None => event_status(*self) is None,
            },
    {
        match self {
            MqttEvent::ConnAck { code, .. } => Some(code.status()),
            MqttEvent::Disconnect => Some(ConnectionStatus::Closed),
            MqttEvent::OutgoingDisconnect => Some(ConnectionStatus::Inactive),
            _ => None,
        }
    }
}

/// An error of the connection to the broker.
#[derive(Debug)]
pub enum ConnectionError {
    /// The broker has refused the connection.
    ConnectionRefused(ConnectReturnCode),
    /// Anything else, by its message.
    Other(String),
}

/// The state of the connection after an error.
pub open spec fn error_status(error: ConnectionError) -> ConnectionModel {
    match error {
        ConnectionError::ConnectionRefused(code) => answered_status(code),
        ConnectionError::Other(message) => ConnectionModel::Failed(message@),
    }
}

impl ConnectionError {
    /// The state of the connection after this error.
    pub fn status(&self) -> (r: ConnectionStatus)
        ensures
            r@ == error_status(*self),
    {
        match self {
            ConnectionError::ConnectionRefused(code) => code.status(),
            ConnectionError::Other(message) => ConnectionStatus::Failed(message.clone()),
        }
    }
}

/// The state of Zigbee2MQTT.
#[derive(Debug)]
pub enum Z2MStatus {
    /// Zigbee2MQTT is healthy.
    HealthOk,
    /// Zigbee2MQTT is not healthy.
    HealthError(String),
}

/// The event about the state of Zigbee2MQTT.
pub open spec fn health_event(status: Z2MStatus) -> event_manager::EventCoreModel {
    match status {
        Z2MStatus::HealthOk => plain_event(
            "Healthcheck"@,
            "zigbee2mqtt healthcheck succeeded"@,
            "Healthcheck"@,
            EventType::Normal,
        ),
        Z2MStatus::HealthError(err) => plain_event(
            "Healthcheck"@,
            "zigbee2mqtt healthcheck failed: "@ + err@,
            "Healthcheck"@,
            EventType::Warning,
        ),
    }
}

impl Z2MStatus {
    /// The event about this state.
    pub fn event(&self) -> (r: EventCore)
        ensures
            r@ == health_event(*self),
    {
        match self {
            Z2MStatus::HealthOk => create_event(
                "Healthcheck",
                "zigbee2mqtt healthcheck succeeded".to_owned(),
                "Healthcheck",
                EventType::Normal,
            ),
            Z2MStatus::HealthError(err) => create_event(
                "Healthcheck",
                "zigbee2mqtt healthcheck failed: ".to_owned().concat(err.as_str()),
                "Healthcheck",
                EventType::Warning,
            ),
        }
    }

    /// The state that the outcome of a healthcheck shows.
    pub fn of_healthcheck(outcome: &Result<(), ErrorWithMeta>) -> (r: Z2MStatus)
        ensures
            match *outcome {
                Ok(_) => r is HealthOk,
                Err(e) => r matches Z2MStatus::HealthError(message) && message@
                    == error::message_of(e@.error),
            },
    {
        match outcome {
            Ok(_) => Z2MStatus::HealthOk,
            Err(e) => Z2MStatus::HealthError(e.error().message()),
        }
    }
}

/// Something that is reported about an instance.
#[derive(Debug)]
pub enum Status {
    /// The state of the connection to the broker.
    ConnectionStatus(ConnectionStatus),
    /// The state of Zigbee2MQTT.
    Z2MStatus(Z2MStatus),
}

/// The event about what is reported.
pub open spec fn status_event(status: Status) -> event_manager::EventCoreModel {
    match status {
        Status::ConnectionStatus(s) => connection_event(s@),
        Status::Z2MStatus(s) => health_event(s),
    }
}

impl Status {
    /// The event about what is reported.
    pub fn event(&self) -> (r: EventCore)
        ensures
            r@ == status_event(*self),
    {
        match self {
            Status::ConnectionStatus(s) => s.event(),
            Status::Z2MStatus(s) => s.event(),
        }
    }
}

/// The user name and the password for the broker.
pub struct OptionsCredentials {
    /// The user name.
    pub username: ValueWithSource<String>,
    /// The password.
    pub password: ValueWithSource<String>,
}

/// The certificate that the client identifies itself with.
pub struct OptionsTLSClient {
    /// The certificate.
    pub cert: ValueWithSource<String>,
    /// The key of the certificate.
    pub key: ValueWithSource<String>,
}

/// How the connection is encrypted.
pub struct OptionsTLS {
    /// The certificates of the authorities that are trusted. The ones of the system are used if there
    /// are none.
    pub ca: ValueWithSource<Option<String>>,
    /// The certificate that the client identifies itself with.
    pub client: ValueWithSource<Option<OptionsTLSClient>>,
}

/// How to connect to the broker.
pub struct Options {
    /// The name of the client.
    pub client_id: String,
    /// The host of the broker.
    pub host: ValueWithSource<String>,
    /// The port of the broker.
    pub port: ValueWithSource<u16>,
    /// How the connection is encrypted, if it is.
    pub tls: ValueWithSource<Option<OptionsTLS>>,
    /// The credentials, if they are needed.
    pub credentials: ValueWithSource<Option<OptionsCredentials>>,
    /// The topic that all topics of Zigbee2MQTT are below.
    pub base_topic: ValueWithSource<String>,
}

/// The model of [`OptionsTLS`].
#[verifier::ext_equal]
pub struct TlsModel {
    /// See [`OptionsTLS::ca`].
    pub ca: Option<Seq<char>>,
    /// See [`OptionsTLS::client`]: the certificate and its key.
    pub client: Option<(Seq<char>, Seq<char>)>,
}

/// The model of [`Options`]: their values, without the sources of these.
#[verifier::ext_equal]
pub struct OptionsModel {
    /// See [`Options::client_id`].
    pub client_id: Seq<char>,
    /// See [`Options::host`].
    pub host: Seq<char>,
    /// See [`Options::port`].
    pub port: u16,
    /// See [`Options::tls`].
    pub tls: Option<TlsModel>,
    /// See [`Options::credentials`]: the user name and the password.
    pub credentials: Option<(Seq<char>, Seq<char>)>,
    /// See [`Options::base_topic`].
    pub base_topic: Seq<char>,
}

impl View for OptionsCredentials {
    type V = (Seq<char>, Seq<char>);

    open spec fn view(&self) -> (Seq<char>, Seq<char>) {
        (self.username.inner()@, self.password.inner()@)
    }
}

impl View for OptionsTLSClient {
    type V = (Seq<char>, Seq<char>);

    open spec fn view(&self) -> (Seq<char>, Seq<char>) {
        (self.cert.inner()@, self.key.inner()@)
    }
}

impl View for OptionsTLS {
    type V = TlsModel;

    open spec fn view(&self) -> TlsModel {
        TlsModel {
            ca: with_source::path_of(self.ca.inner()),
            client: match self.client.inner() {
                Some(client) => Some(client@),
                None => None,
            },
        }
    }
}

impl View for Options {
    type V = OptionsModel;

    open spec fn view(&self) -> OptionsModel {
        OptionsModel {
            client_id: self.client_id@,
            host: self.host.inner()@,
            port: self.port.inner(),
            tls: match self.tls.inner() {
                Some(tls) => Some(tls@),
                None => None,
            },
            credentials: match self.credentials.inner() {
                Some(credentials) => Some(credentials@),
                None => None,
            },
            base_topic: self.base_topic.inner()@,
        }
    }
}

fn same_strings(a: &ValueWithSource<String>, b: &ValueWithSource<String>) -> (r: bool)
    ensures
        r == (a.inner()@ == b.inner()@),
{
    text::same_text(a.value().as_str(), b.value().as_str())
}

impl PartialEq for OptionsCredentials {
    fn eq(&self, other: &Self) -> (r: bool) {
        same_strings(&self.username, &other.username) && same_strings(
            &self.password,
            &other.password,
        )
    }
}

impl vstd::std_specs::cmp::PartialEqSpecImpl for OptionsCredentials {
    open spec fn obeys_eq_spec() -> bool {
        true
    }

    open spec fn eq_spec(&self, other: &Self) -> bool {
        self@ == other@
    }
}

impl PartialEq for OptionsTLSClient {
    fn eq(&self, other: &Self) -> (r: bool) {
        same_strings(&self.cert, &other.cert) && same_strings(&self.key, &other.key)
    }
}

impl vstd::std_specs::cmp::PartialEqSpecImpl for OptionsTLSClient {
    open spec fn obeys_eq_spec() -> bool {
        true
    }

    open spec fn eq_spec(&self, other: &Self) -> bool {
        self@ == other@
    }
}

impl PartialEq for OptionsTLS {
    fn eq(&self, other: &Self) -> (r: bool) {
        let same_ca = match (self.ca.value(), other.ca.value()) {
            (Some(a), Some(b)) => text::same_text(a.as_str(), b.as_str()),
            (None, None) => true,
            _ => false,
        };
        let same_client = match (self.client.value(), other.client.value()) {
            (Some(a), Some(b)) => *a == *b,
            (None, None) => true,
            _ => false,
        };
        same_ca && same_client
    }
}

impl vstd::std_specs::cmp::PartialEqSpecImpl for OptionsTLS {
    open spec fn obeys_eq_spec() -> bool {
        true
    }

    open spec fn eq_spec(&self, other: &Self) -> bool {
        self@ == other@
    }
}

impl PartialEq for Options {
    fn eq(&self, other: &Self) -> (r: bool) {
        let same_tls = match (self.tls.value(), other.tls.value()) {
            (Some(a), Some(b)) => *a == *b,
            (None, None) => true,
            _ => false,
        };
        let same_credentials = match (self.credentials.value(), other.credentials.value()) {
            (Some(a), Some(b)) => *a == *b,
            (None, None) => true,
            _ => false,
        };
        text::same_text(self.client_id.as_str(), other.client_id.as_str()) && same_strings(
            &self.host,
            &other.host,
        ) && *self.port.value() == *other.port.value() && same_tls && same_credentials
            && same_strings(&self.base_topic, &other.base_topic)
    }
}

impl vstd::std_specs::cmp::PartialEqSpecImpl for Options {
    open spec fn obeys_eq_spec() -> bool {
        true
    }

    open spec fn eq_spec(&self, other: &Self) -> bool {
        self@ == other@
    }
}

/// A section of a bundle of certificates.
#[derive(Debug)]
pub enum PemItem {
    /// A certificate, in its binary form.
    Certificate(Vec<u8>),
    /// Something else, by its technical description.
    Other(String),
    /// Something that could not be read, by the message about it.
    Invalid(String),
}

/// The model of a [`PemItem`].
#[verifier::ext_equal]
pub enum PemModel {
    /// See [`PemItem::Certificate`].
    Certificate(Seq<u8>),
    /// See [`PemItem::Other`].
    Other(Seq<char>),
    /// See [`PemItem::Invalid`].
    Invalid(Seq<char>),
}

impl View for PemItem {
    type V = PemModel;

    open spec fn view(&self) -> PemModel {
        match *self {
            PemItem::Certificate(der) => PemModel::Certificate(der@),
            PemItem::Other(description) => PemModel::Other(description@),
            PemItem::Invalid(message) => PemModel::Invalid(message@),
        }
    }
}

/// The models of sections.
pub open spec fn pem_models(items: Seq<PemItem>) -> Seq<PemModel> {
    items.map_values(|item: PemItem| item@)
}

/// The sections of a bundle in the PEM format.
pub uninterp spec fn pem_sections(bundle: Seq<char>) -> Seq<PemModel>;

/// `rustls_pemfile::read_all`: the sections of a bundle in the PEM format, which are named
/// [`pem_sections`].
#[verifier::external_body]
fn read_pem(bundle: &str) -> (r: Vec<PemItem>)
    ensures
        pem_models(r@) == pem_sections(bundle@),
{
    let mut bytes = bundle.as_bytes();
    rustls_pemfile::read_all(&mut bytes).map(
        |section| match section {
            Ok(rustls_pemfile::Item::X509Certificate(der)) => PemItem::Certificate(der.to_vec()),
            Ok(item) => PemItem::Other(format!("{item:?}")),
            Err(err) => PemItem::Invalid(err.to_string()),
        },
    ).collect()
}

/// Why a certificate can't be trusted as an authority, if this is so.
pub uninterp spec fn certificate_error(der: Seq<u8>) -> Option<Seq<char>>;

/// `rustls::RootCertStore::add` of a certificate to an empty store: the message of the error, if
/// there is one, which is named [`certificate_error`].
#[verifier::external_body]
fn certificate_problem(der: &Vec<u8>) -> (r: Option<String>)
    ensures
        with_source::path_of(r) == certificate_error(der@),
{
    let mut store = rumqttc::tokio_rustls::rustls::RootCertStore::empty();
    store.add(der.as_slice().into()).err().map(|err| err.to_string())
}

/// How many certificates can be trusted as authorities.
pub open spec fn usable_count(certificates: Seq<Seq<u8>>) -> nat
    decreases certificates.len(),
{
    if certificates.len() == 0 {
        0
    } else {
        usable_count(certificates.drop_last()) + if certificate_error(certificates.last()) is None {
            1nat
        } else {
            0nat
        }
    }
}

/// The contents of binary data.
pub open spec fn contents(list: Seq<Vec<u8>>) -> Seq<Seq<u8>> {
    list.map_values(|bytes: Vec<u8>| bytes@)
}

/// `rustls::RootCertStore::add_parsable_certificates` of certificates to an empty store: how many were
/// added. These are the ones that `add` accepts on their own, see [`certificate_error`].
#[verifier::external_body]
fn count_usable(certificates: &Vec<Vec<u8>>) -> (r: usize)
    ensures
        r == usable_count(contents(certificates@)),
{
    let mut store = rumqttc::tokio_rustls::rustls::RootCertStore::empty();
    store.add_parsable_certificates(certificates.iter().map(|der| der.as_slice().into())).0
}

/// The largest packet that is sent or received, in bytes.
pub const MAX_PACKET_SIZE: usize = 50_000_000;

/// How often the connection is kept alive, in seconds.
pub const KEEP_ALIVE: u64 = 15;

/// What the client of the broker is set up with.
#[derive(Debug)]
pub struct BrokerOptions {
    /// The name of the client.
    pub client_id: String,
    /// The host of the broker.
    pub host: String,
    /// The port of the broker.
    pub port: u16,
    /// The certificates of the authorities that are trusted, if the connection is encrypted. The ones
    /// that can't be used are skipped.
    pub authorities: Option<Vec<Vec<u8>>>,
    /// The user name and the password.
    pub credentials: Option<(String, String)>,
    /// Whether to start with a new session.
    pub clean_session: bool,
    /// How often the connection is kept alive, in seconds.
    pub keep_alive: u64,
    /// The largest packet that is sent or received, in bytes.
    pub max_packet_size: usize,
}

/// Why a section of a bundle of authorities can't be used, if this is so.
pub open spec fn section_problem(section: PemModel) -> Option<Seq<char>> {
    match section {
        PemModel::Invalid(message) => Some("unable to parse ca certificates: "@ + message),
        PemModel::Certificate(der) => match certificate_error(der) {
            Some(message) => Some("unable to parse ca certificate: "@ + message),
            None => None,
        },
        PemModel::Other(description) => Some(
            "found non-certificate in pem bundle: "@ + description,
        ),
    }
}

/// The problem of the first section that has one.
pub open spec fn bundle_problem(sections: Seq<PemModel>) -> Option<Seq<char>>
    decreases sections.len(),
{
    if sections.len() == 0 {
        None
    } else {
        match section_problem(sections[0]) {
            Some(message) => Some(message),
            None => bundle_problem(sections.drop_first()),
        }
    }
}

/// The certificates of a bundle.
pub open spec fn bundle_certificates(sections: Seq<PemModel>) -> Seq<Seq<u8>> {
    sections.map_values(|section: PemModel| section->Certificate_0)
}

/// The message about a certificate of a bundle that can't be used, given the problem that it has.
pub fn certificate_message(problem: Option<String>) -> (r: Option<String>)
    ensures
        with_source::path_of(r) == match problem {
            Some(message) => Some("unable to parse ca certificate: "@ + message@),
            None => None,
        },
{
    match problem {
        Some(message) => Some(
            "unable to parse ca certificate: ".to_owned().concat(message.as_str()),
        ),
        None => None,
    }
}

fn check_section(section: &PemItem) -> (r: Option<String>)
    ensures
        with_source::path_of(r) == section_problem(section@),
{
    match section {
        PemItem::Invalid(message) => Some(
            "unable to parse ca certificates: ".to_owned().concat(message.as_str()),
        ),
        PemItem::Certificate(der) => certificate_message(certificate_problem(der)),
        PemItem::Other(description) => Some(
            "found non-certificate in pem bundle: ".to_owned().concat(description.as_str()),
        ),
    }
}

fn copy_bytes(bytes: &Vec<u8>) -> (r: Vec<u8>)
    ensures
        r@ == bytes@,
{
    let r = bytes.clone();
    proof {
        assert(r@ =~= bytes@);
    }
    r
}

/// The certificates of the sections of a bundle, or the message about the first section that can't be
/// used.
pub fn use_sections(sections: &Vec<PemItem>) -> (r: Result<Vec<Vec<u8>>, String>)
    ensures
        match r {
            Ok(certificates) => bundle_problem(pem_models(sections@)) is None && contents(
                certificates@,
            ) == bundle_certificates(pem_models(sections@)),
            Err(message) => bundle_problem(pem_models(sections@)) == Some(message@),
        },
{
    let mut certificates: Vec<Vec<u8>> = Vec::new();
    let ghost all = pem_models(sections@);
    proof {
        assert(all.skip(0) =~= all);
    }
    for i in 0..sections.len()
        invariant
            all == pem_models(sections@),
            bundle_problem(all) == bundle_problem(all.skip(i as int)),
            certificates@.len() == i,
            forall|j: int|
                0 <= j < i ==> (#[trigger] certificates@[j])@ == all[j]->Certificate_0,
    {
        proof {
            assert(all.skip(i as int).drop_first() =~= all.skip(i + 1));
            assert(all.skip(i as int)[0] == sections@[i as int]@);
        }
        match check_section(&sections[i]) {
            Some(message) => {
                return Err(message);
            },
            None => {},
        }
        if let PemItem::Certificate(der) = &sections[i] {
            certificates.push(copy_bytes(der));
        }
    }
    proof {
        assert(contents(certificates@) =~= bundle_certificates(all));
    }
    Ok(certificates)
}

/// Why the certificates of the system can't be used, if this is so, given how many there are and how
/// many of them can be trusted as authorities.
pub open spec fn system_problem(count: nat, usable: nat) -> Option<Seq<char>> {
    if count == 0 {
        Some("unable to load default certificates, specify root ca"@)
    } else if usable == 0 {
        Some("unable to load any of the system certificates, specify root ca"@)
    } else {
        None
    }
}

/// See [`system_problem`].
pub fn check_system(count: usize, usable: usize) -> (r: Option<String>)
    ensures
        with_source::path_of(r) == system_problem(count as nat, usable as nat),
{
    if count == 0 {
        Some("unable to load default certificates, specify root ca".to_owned())
    } else if usable == 0 {
        Some("unable to load any of the system certificates, specify root ca".to_owned())
    } else {
        None
    }
}

/// Whether the certificates of the authorities are the right ones: those of the bundle if there is
/// one, or else those of the system.
pub open spec fn authorities_outcome(
    ca: Option<Seq<char>>,
    system: Seq<Seq<u8>>,
) -> Result<Seq<Seq<u8>>, Seq<char>> {
    match ca {
        Some(bundle) => match bundle_problem(pem_sections(bundle)) {
            Some(message) => Err(message),
            None => Ok(bundle_certificates(pem_sections(bundle))),
        },
        None => match system_problem(system.len(), usable_count(system)) {
            Some(message) => Err(message),
            None => Ok(system),
        },
    }
}

fn copy_certificates(list: &Vec<Vec<u8>>) -> (r: Vec<Vec<u8>>)
    ensures
        contents(r@) == contents(list@),
{
    let mut out: Vec<Vec<u8>> = Vec::new();
    for i in 0..list.len()
        invariant
            out@.len() == i,
            forall|j: int| 0 <= j < i ==> (#[trigger] out@[j])@ == list@[j]@,
    {
        out.push(copy_bytes(&list[i]));
    }
    proof {
        assert(contents(out@) =~= contents(list@));
    }
    out
}

fn authorities(ca: &Option<String>, system: &Vec<Vec<u8>>) -> (r: Result<Vec<Vec<u8>>, String>)
    ensures
        match (r, authorities_outcome(with_source::path_of(*ca), contents(system@))) {
            (Ok(certificates), Ok(expected)) => contents(certificates@) == expected,
            (Err(message), Err(expected)) => message@ == expected,
            _ => false,
        },
{
    match ca {
        Some(bundle) => use_sections(&read_pem(bundle.as_str())),
        None => {
            proof {
                assert(contents(system@).len() == system@.len());
            }
            match check_system(system.len(), count_usable(system)) {
                Some(message) => Err(message),
                None => Ok(copy_certificates(system)),
            }
        },
    }
}

impl Options {
    /// Whether the certificates of the system are needed.
    pub fn needs_system_certificates(&self) -> (r: bool)
        ensures
            r <==> (self@.tls matches Some(tls) && tls.ca is None),
    {
        match self.tls.value() {
            Some(tls) => tls.ca.value().is_none(),
            None => false,
        }
    }

    /// Set up the client of the broker. The certificates of the system are used only if they are
    /// needed.
    pub fn to_rumqtt(&self, system: &Vec<Vec<u8>>) -> (r: Result<BrokerOptions, ErrorWithMeta>)
        ensures
            ({
                let outcome = match self@.tls {
                    Some(tls) => match authorities_outcome(tls.ca, contents(system@)) {
                        Ok(certificates) => Ok(Some(certificates)),
                        Err(message) => Err(message),
                    },
                    None => Ok(None),
                };
                match (r, outcome) {
                    (Ok(options), Ok(expected)) => {
                        &&& options.client_id@ == self@.client_id
                        &&& options.host@ == self@.host
                        &&& options.port == self@.port
                        &&& match (options.authorities, expected) {
                            (Some(list), Some(certificates)) => contents(list@) == certificates,
                            (None, None) => true,
                            _ => false,
                        }
                        &&& match (options.credentials, self@.credentials) {
                            (Some((a, b)), Some((username, password))) => a@ == username && b@
                                == password,
                            (None, None) => true,
                            _ => false,
                        }
                        &&& !options.clean_session
                        &&& options.keep_alive == KEEP_ALIVE
                        &&& options.max_packet_size == MAX_PACKET_SIZE
                    },
                    (Err(e), Err(message)) => e@ == (error::ErrorWithMetaModel {
                        error: error::ErrorModel::InvalidResource { field_path: ""@, message },
                        source: self.tls.inner()->0.ca.path(),
                        published: false,
                    }),
                    _ => false,
                }
            }),
    {
        let certificates = match self.tls.value() {
            Some(tls) => match authorities(tls.ca.value(), system) {
                Ok(list) => Some(list),
                Err(message) => {
                    let error = Error::InvalidResource { field_path: "".to_owned(), message };
                    return Err(error.caused_by(&tls.ca));
                },
            },
            None => None,
        };
        let credentials = match self.credentials.value() {
            Some(credentials) => Some(
                (credentials.username.value().clone(), credentials.password.value().clone()),
            ),
            None => None,
        };
        Ok(
            BrokerOptions {
                client_id: self.client_id.clone(),
                host: self.host.value().clone(),
                port: *self.port.value(),
                authorities: certificates,
                credentials,
                clean_session: false,
                keep_alive: KEEP_ALIVE,
                max_packet_size: MAX_PACKET_SIZE,
            },
        )
    }
}

/// Whether a character is an ASCII letter or digit.
pub open spec fn is_alphanumeric(c: char) -> bool {
    ('a' <= c <= 'z') || ('A' <= c <= 'Z') || ('0' <= c <= '9')
}

/// As many characters as asked for, which `rand::distributions::Alphanumeric` picks with
/// `rand::thread_rng`. Each is an ASCII letter or digit; which ones are picked is random.
#[verifier::external_body]
fn random_suffix(length: usize) -> (r: String)
    requires
        length <= SUFFIX_LENGTH,
    ensures
        r@.len() == length,
        forall|i: int| 0 <= i < length ==> is_alphanumeric(#[trigger] r@[i]),
{
    rand::Rng::sample_iter(rand::thread_rng(), &rand::distributions::Alphanumeric).take(
        length,
    ).map(char::from).collect()
}

/// How many random characters the name of a manager ends with.
pub const SUFFIX_LENGTH: usize = 8;

/// The name of a manager: the name of its client, with something added that tells it from others.
pub fn manager_id(client_id: &str, suffix: &str) -> (r: String)
    ensures
        r@ == client_id@ + "#"@ + suffix@,
{
    client_id.to_owned().concat("#").concat(suffix)
}

/// Pick the name of a new manager.
pub fn new_manager_id(client_id: &str) -> (r: String)
    ensures
        r@.len() == client_id@.len() + 1 + SUFFIX_LENGTH,
        r@.take(client_id@.len() as int) == client_id@,
        r@[client_id@.len() as int] == '#',
        forall|i: int|
            client_id@.len() < i < r@.len() ==> is_alphanumeric(#[trigger] r@[i]),
{
    let suffix = random_suffix(SUFFIX_LENGTH);
    let r = manager_id(client_id, suffix.as_str());
    proof {
        reveal_strlit("#");
        assert(r@.take(client_id@.len() as int) =~= client_id@);
        assert forall|i: int| client_id@.len() < i < r@.len() implies is_alphanumeric(
            #[trigger] r@[i],
        ) by {
            assert(r@[i] == suffix@[i - client_id@.len() - 1]);
        }
    }
    r
}

/// What the broker is expected to do next while the session is set up.
#[derive(Clone, Copy, Debug, PartialEq, Eq, Structural)]
pub enum HandshakeStage {
    /// The connection with a clean session, which clears any existing session for the client, is
    /// accepted. No session is present, regardless of whether one existed.
    Clear,
    /// This connection is closed.
    Cleared,
    /// The connection that starts a persistent session is accepted. No session is present, as there
    /// is none to continue.
    Create,
    /// This connection is closed.
    Created,
    /// The connection that continues the session is accepted. The session is present.
    Resume,
}

/// What to do next while the session is set up.
#[derive(Debug)]
pub enum HandshakeStep {
    /// Wait for the next event.
    Wait,
    /// From now on continue the session, and close the connection. The client then makes a new one.
    Reconnect,
    /// The session has been set up, which is to be reported.
    Connected(ConnectionStatus),
    /// The session can't be set up.
    Failed(Error),
}

/// The event that a stage of the handshake expects.
pub open spec fn is_expected(stage: HandshakeStage, event: MqttEvent) -> bool {
    match stage {
        HandshakeStage::Clear => event == MqttEvent::ConnAck {
            code: ConnectReturnCode::Success,
            session_present: false,
        },
        HandshakeStage::Cleared => event is OutgoingDisconnect,
        HandshakeStage::Create => event == MqttEvent::ConnAck {
            code: ConnectReturnCode::Success,
            session_present: false,
        },
        HandshakeStage::Created => event is OutgoingDisconnect,
        HandshakeStage::Resume => event == MqttEvent::ConnAck {
            code: ConnectReturnCode::Success,
            session_present: true,
        },
    }
}

/// How an expected event reads.
pub open spec fn expectation(stage: HandshakeStage) -> Seq<char> {
    match stage {
        HandshakeStage::Clear =>
            "Ok(Event::Incoming(Packet::ConnAck(ConnAck { code: ConnectReturnCode::Success, session_present: false })))"@,
        HandshakeStage::Cleared => "Ok(Event::Outgoing(Outgoing::Disconnect))"@,
        HandshakeStage::Create =>
            "Ok(Event::Incoming(Packet::ConnAck(ConnAck { code: ConnectReturnCode::Success, session_present: false })))"@,
        HandshakeStage::Created => "Ok(Event::Outgoing(Outgoing::Disconnect))"@,
        HandshakeStage::Resume =>
            "Ok(Event::Incoming(Packet::ConnAck(ConnAck { code: ConnectReturnCode::Success, session_present: true })))"@,
    }
}

/// The message about an event that wasn't expected.
pub open spec fn unexpected_note(stage: HandshakeStage, event: Seq<char>) -> Seq<char> {
    "unexpected event during initial handshake, expected "@ + expectation(stage) + ", got "@ + event
}

/// The setup of a session with the broker.
///
/// We want a persistent session for when we need to reconnect due to connection issues/credential
/// changes, but we don't want state from an earlier manager.
#[derive(Debug)]
pub struct Handshake {
    stage: HandshakeStage,
    refusal_fails: bool,
}

/// What follows an expected event.
pub open spec fn after_expected(stage: HandshakeStage) -> (HandshakeStage, HandshakeStep) {
    match stage {
        HandshakeStage::Clear => (HandshakeStage::Cleared, HandshakeStep::Reconnect),
        HandshakeStage::Cleared => (HandshakeStage::Create, HandshakeStep::Wait),
        HandshakeStage::Create => (HandshakeStage::Created, HandshakeStep::Reconnect),
        HandshakeStage::Created => (HandshakeStage::Resume, HandshakeStep::Wait),
        HandshakeStage::Resume => (
            HandshakeStage::Resume,
            HandshakeStep::Connected(ConnectionStatus::Active),
        ),
    }
}

/// Whether an error ends the handshake. Errors other than a refusal are ignored: the client makes
/// another attempt by itself.
pub open spec fn error_fails(refusal_fails: bool, error: ConnectionError) -> bool {
    refusal_fails && error_status(error) is Refused
}

impl Handshake {
    /// The current stage.
    pub closed spec fn at(self) -> HandshakeStage {
        self.stage
    }

    /// Whether being refused ends the handshake.
    pub closed spec fn is_strict(self) -> bool {
        self.refusal_fails
    }

    /// Start setting up a session. The first connection is made with a clean session. That the
    /// connection is pending is reported.
    pub fn new(refusal_fails: bool) -> (r: (Self, ConnectionStatus))
        ensures
            r.0.at() == HandshakeStage::Clear,
            r.0.is_strict() == refusal_fails,
            r.1@ == ConnectionModel::Pending,
    {
        (Handshake { stage: HandshakeStage::Clear, refusal_fails }, ConnectionStatus::Pending)
    }

    fn fail(&self, event: &str) -> (r: HandshakeStep)
        ensures
            r matches HandshakeStep::Failed(e) && e@ == error::ErrorModel::ActionFailed(
                unexpected_note(self.at(), event@),
                None,
            ),
    {
        let expected = match self.stage {
            HandshakeStage::Clear =>
                "Ok(Event::Incoming(Packet::ConnAck(ConnAck { code: ConnectReturnCode::Success, session_present: false })))",
            HandshakeStage::Cleared => "Ok(Event::Outgoing(Outgoing::Disconnect))",
            HandshakeStage::Create =>
                "Ok(Event::Incoming(Packet::ConnAck(ConnAck { code: ConnectReturnCode::Success, session_present: false })))",
            HandshakeStage::Created => "Ok(Event::Outgoing(Outgoing::Disconnect))",
            HandshakeStage::Resume =>
                "Ok(Event::Incoming(Packet::ConnAck(ConnAck { code: ConnectReturnCode::Success, session_present: true })))",
        };
        HandshakeStep::Failed(
            Error::ActionFailed(
                "unexpected event during initial handshake, expected ".to_owned().concat(
                    expected,
                ).concat(", got ").concat(event),
                None,
            ),
        )
    }

    /// Decide what follows an event, which is also given as it reads in a technical description.
    pub fn observe(
        &mut self,
        polled: &Result<MqttEvent, ConnectionError>,
        description: &str,
    ) -> (r: HandshakeStep)
        ensures
            final(self).is_strict() == old(self).is_strict(),
            match *polled {
                Ok(event) => if is_expected(old(self).at(), event) {
                    (final(self).at(), r) == after_expected(old(self).at())
                } else {
                    &&& final(self).at() == old(self).at()
                    &&& r matches HandshakeStep::Failed(e) && e@ == error::ErrorModel::ActionFailed(
                        unexpected_note(old(self).at(), description@),
                        None,
                    )
                },
                Err(error) => if error_fails(old(self).is_strict(), error) {
                    &&& final(self).at() == old(self).at()
                    &&& r matches HandshakeStep::Failed(e) && e@ == error::ErrorModel::ActionFailed(
                        unexpected_note(old(self).at(), description@),
                        None,
                    )
                } else {
                    &&& final(self).at() == old(self).at()
                    &&& r is Wait
                },
            },
    {
        match polled {
            Ok(event) => {
                let accepted = match event {
                    MqttEvent::ConnAck { code: ConnectReturnCode::Success, session_present } => Some(
                        *session_present,
                    ),
                    _ => None,
                };
                let closed = match event {
                    MqttEvent::OutgoingDisconnect => true,
                    _ => false,
                };
                match (self.stage, accepted, closed) {
                    (HandshakeStage::Clear, Some(false), _) => {
                        self.stage = HandshakeStage::Cleared;
                        HandshakeStep::Reconnect
                    },
                    (HandshakeStage::Cleared, _, true) => {
                        self.stage = HandshakeStage::Create;
                        HandshakeStep::Wait
                    },
                    (HandshakeStage::Create, Some(false), _) => {
                        self.stage = HandshakeStage::Created;
                        HandshakeStep::Reconnect
                    },
                    (HandshakeStage::Created, _, true) => {
                        self.stage = HandshakeStage::Resume;
                        HandshakeStep::Wait
                    },
                    (HandshakeStage::Resume, Some(true), _) => HandshakeStep::Connected(
                        ConnectionStatus::Active,
                    ),
                    _ => self.fail(description),
                }
            },
            Err(error) => {
                let refused = match error.status() {
                    ConnectionStatus::Refused(_) => true,
                    _ => false,
                };
                if refused && self.refusal_fails {
                    self.fail(description)
                } else {
                    HandshakeStep::Wait
                }
            },
        }
    }
}

/// How a handshake ends with the given events, if it does.
pub open spec fn handshake_succeeds(
    stage: HandshakeStage,
    strict: bool,
    events: Seq<Result<MqttEvent, ConnectionError>>,
) -> bool
    decreases events.len(),
{
    if events.len() == 0 {
        false
    } else {
        match events[0] {
            Ok(event) => is_expected(stage, event) && (stage == HandshakeStage::Resume
                || handshake_succeeds(after_expected(stage).0, strict, events.drop_first())),
            Err(error) => !error_fails(strict, error) && handshake_succeeds(
                stage,
                strict,
                events.drop_first(),
            ),
        }
    }
}

/// The events that are left when errors are dropped.
pub open spec fn without_errors(events: Seq<Result<MqttEvent, ConnectionError>>) -> Seq<MqttEvent>
    decreases events.len(),
{
    if events.len() == 0 {
        Seq::empty()
    } else {
        match events[0] {
            Ok(event) => seq![event] + without_errors(events.drop_first()),
            Err(_) => without_errors(events.drop_first()),
        }
    }
}

/// The events that remain to be seen from a stage of the handshake on.
pub open spec fn remaining_stages(stage: HandshakeStage) -> Seq<HandshakeStage> {
    match stage {
        HandshakeStage::Clear => seq![
            HandshakeStage::Clear,
            HandshakeStage::Cleared,
            HandshakeStage::Create,
            HandshakeStage::Created,
            HandshakeStage::Resume,
        ],
        HandshakeStage::Cleared => seq![
            HandshakeStage::Cleared,
            HandshakeStage::Create,
            HandshakeStage::Created,
            HandshakeStage::Resume,
        ],
        HandshakeStage::Create => seq![
            HandshakeStage::Create,
            HandshakeStage::Created,
            HandshakeStage::Resume,
        ],
        HandshakeStage::Created => seq![HandshakeStage::Created, HandshakeStage::Resume],
        HandshakeStage::Resume => seq![HandshakeStage::Resume],
    }
}

/// Whether the events are just what the stages of a handshake expect, one after the other, with
/// nothing but errors between them that don't end it.
pub open spec fn meets_all_stages(
    stage: HandshakeStage,
    strict: bool,
    events: Seq<Result<MqttEvent, ConnectionError>>,
) -> bool {
    let seen = without_errors(events);
    let stages = remaining_stages(stage);
    &&& seen.len() == stages.len()
    &&& forall|i: int| 0 <= i < stages.len() ==> is_expected(#[trigger] stages[i], seen[i])
    &&& forall|i: int|
        0 <= i < events.len() ==> (#[trigger] events[i] matches Err(error) ==> !error_fails(
            strict,
            error,
        ))
}

/// A handshake that succeeds does so because the events begin with what all of its stages expect, one
/// after the other, with nothing but errors between them that don't end it. Gives how many events
/// that takes.
pub proof fn handshake_sees_all_stages(
    stage: HandshakeStage,
    strict: bool,
    events: Seq<Result<MqttEvent, ConnectionError>>,
) -> (n: int)
    requires
        handshake_succeeds(stage, strict, events),
    ensures
        0 < n <= events.len(),
        meets_all_stages(stage, strict, events.take(n)),
    decreases events.len(),
{
    let stages = remaining_stages(stage);
    if events[0] is Ok && stage == HandshakeStage::Resume {
        let start = events.take(1);
        assert(start.drop_first() =~= Seq::empty());
        assert(without_errors(start) =~= seq![events[0]->Ok_0]) by {
            assert(without_errors(start.drop_first()) =~= Seq::empty());
        }
        1
    } else {
        let next = if events[0] is Ok {
            after_expected(stage).0
        } else {
            stage
        };
        let rest = events.drop_first();
        let m = handshake_sees_all_stages(next, strict, rest);
        let start = events.take(m + 1);
        assert(start.drop_first() =~= rest.take(m));
        assert(start[0] == events[0]);
        let seen = without_errors(start);
        let below = without_errors(rest.take(m));
        if events[0] is Ok {
            assert(stages =~= seq![stage] + remaining_stages(next));
            assert(seen =~= seq![events[0]->Ok_0] + below);
            assert forall|i: int| 0 <= i < stages.len() implies is_expected(
                #[trigger] stages[i],
                seen[i],
            ) by {
                if i > 0 {
                    assert(stages[i] == remaining_stages(next)[i - 1]);
                }
            }
        }
        assert forall|i: int| 0 <= i < start.len() implies (
        #[trigger] start[i] matches Err(error) ==> !error_fails(strict, error)) by {
            if i > 0 {
                assert(start[i] == rest.take(m)[i - 1]);
            }
        }
        m + 1
    }
}

/// A handshake succeeds if the events begin with what all of its stages expect, one after the other,
/// with nothing but errors between them that don't end it.
pub proof fn all_stages_make_handshake(
    stage: HandshakeStage,
    strict: bool,
    events: Seq<Result<MqttEvent, ConnectionError>>,
    n: int,
)
    requires
        0 <= n <= events.len(),
        meets_all_stages(stage, strict, events.take(n)),
    ensures
        handshake_succeeds(stage, strict, events),
    decreases events.len(),
{
    let start = events.take(n);
    let stages = remaining_stages(stage);
    let seen = without_errors(start);
    assert(stages[0] == stage);
    assert(n > 0);
    assert(start[0] == events[0]);
    let rest = events.drop_first();
    assert(start.drop_first() =~= rest.take(n - 1));
    let below = without_errors(rest.take(n - 1));
    assert forall|i: int| 0 <= i < n - 1 implies (#[trigger] rest.take(n - 1)[i] matches Err(error)
        ==> !error_fails(strict, error)) by {
        assert(rest.take(n - 1)[i] == start[i + 1]);
    }
    match events[0] {
        Ok(event) => {
            assert(seen =~= seq![event] + below);
            if stage != HandshakeStage::Resume {
                let next = after_expected(stage).0;
                assert(stages =~= seq![stage] + remaining_stages(next));
                assert forall|i: int| 0 <= i < remaining_stages(next).len() implies is_expected(
                    #[trigger] remaining_stages(next)[i],
                    below[i],
                ) by {
                    assert(stages[i + 1] == remaining_stages(next)[i]);
                    assert(seen[i + 1] == below[i]);
                }
                all_stages_make_handshake(next, strict, rest, n - 1);
            }
        },
        Err(_) => {
            all_stages_make_handshake(stage, strict, rest, n - 1);
        },
    }
}

/// How long the same error isn't reported again, in milliseconds.
pub const STATUS_DEBOUNCE: u64 = 10_000;

/// What to do after something has happened on the connection.
#[derive(Debug)]
pub enum ListenerStep {
    /// Keep listening.
    Listen {
        /// What to report about the connection, if there is something to report.
        status: Option<ConnectionStatus>,
        /// Whether a subscription, or the end of one, has been confirmed.
        confirmed: bool,
    },
    /// Stop listening, as the connection is being closed.
    Stop,
    /// Stop listening, and shut the manager down for the given reason.
    Shutdown(Error),
}

/// Listens to what happens on the connection, and decides what is reported about it.
#[derive(Debug)]
pub struct Listener {
    last_time: u64,
    last_status: ConnectionStatus,
}

/// The time that has passed, in milliseconds.
pub open spec fn elapsed(from: u64, to: u64) -> int {
    if to >= from {
        to - from
    } else {
        0
    }
}

impl Listener {
    /// When something was last reported.
    pub closed spec fn reported_at(self) -> u64 {
        self.last_time
    }

    /// What was last reported.
    pub closed spec fn reported(self) -> ConnectionModel {
        self.last_status@
    }

    /// Start listening. That the connection is pending is reported.
    pub fn new(now: u64) -> (r: (Self, ConnectionStatus))
        ensures
            r.0.reported_at() == now,
            r.0.reported() == ConnectionModel::Pending,
            r.1@ == ConnectionModel::Pending,
    {
        (
            Listener { last_time: now, last_status: ConnectionStatus::Pending },
            ConnectionStatus::Pending,
        )
    }

    /// Decide what follows an event or an error.
    ///
    /// (Some) errors are retried immediately, potentially leading to many attempts per second, so we
    /// throttle the rate they are reported at to avoid spamming.
    pub fn observe(&mut self, now: u64, polled: &Result<MqttEvent, ConnectionError>) -> (r:
        ListenerStep)
        ensures
            match *polled {
                Ok(MqttEvent::ConnAck { session_present: false, .. }) => {
                    &&& r matches ListenerStep::Shutdown(e) && e@ == error::ErrorModel::MQTTError(
                        "reconnect failed to continue existing session"@,
                        None,
                    )
                    &&& *final(self) == *old(self)
                },
                Ok(MqttEvent::OutgoingDisconnect) => r is Stop && *final(self) == *old(self),
                Ok(event) => {
                    &&& r matches ListenerStep::Listen { status, confirmed }
                    &&& confirmed == (event is SubAck || event is UnsubAck)
                    &&& match status {
                        Some(s) => {
                            &&& event_status(event) == Some(s@)
                            &&& final(self).reported() == s@
                            &&& final(self).reported_at() == now
                        },
                        None => event_status(event) is None && *final(self) == *old(self),
                    }
                },
                Err(error) => {
                    &&& r matches ListenerStep::Listen { status, confirmed }
                    &&& !confirmed
                    &&& if error_status(error) == old(self).reported() && elapsed(
                        old(self).reported_at(),
                        now,
                    ) < STATUS_DEBOUNCE {
                        status is None && *final(self) == *old(self)
                    } else {
                        &&& status matches Some(s) && s@ == error_status(error)
                        &&& final(self).reported() == error_status(error)
                        &&& final(self).reported_at() == now
                    }
                },
            },
    {
        match polled {
            Ok(event) => {
                match event {
                    MqttEvent::ConnAck { session_present: false, .. } => {
                        return ListenerStep::Shutdown(
                            Error::MQTTError(
                                "reconnect failed to continue existing session".to_owned(),
                                None,
                            ),
                        );
                    },
                    MqttEvent::OutgoingDisconnect => {
                        return ListenerStep::Stop;
                    },
                    _ => {},
                }
                let confirmed = match event {
                    MqttEvent::SubAck => true,
                    MqttEvent::UnsubAck => true,
                    _ => false,
                };
                let status = event.status();
                if let Some(s) = &status {
                    self.last_time = now;
                    self.last_status = s.clone();
                }
                ListenerStep::Listen { status, confirmed }
            },
            Err(error) => {
                let status = error.status();
                let passed: u64 = if now >= self.last_time {
                    now - self.last_time
                } else {
                    0
                };
                if status == self.last_status && passed < STATUS_DEBOUNCE {
                    return ListenerStep::Listen { status: None, confirmed: false };
                }
                self.last_time = now;
                self.last_status = status.clone();
                ListenerStep::Listen { status: Some(status), confirmed: false }
            },
        }
    }
}

/// Whether closing the connection has come to its end: it has been closed, an event has been missed
/// which could have been this one, or it takes too long.
pub fn closing_is_done(received: &Option<Result<MqttEvent, ()>>) -> (r: bool)
    ensures
        r == match *received {
            Some(Ok(event)) => event is OutgoingDisconnect,
            Some(Err(_)) => true,
            None => true,
        },
{
    match received {
        Some(Ok(MqttEvent::OutgoingDisconnect)) => true,
        Some(Ok(_)) => false,
        Some(Err(_)) => true,
        None => true,
    }
}

/// What to report once closing the connection has come to its end, which is nothing before that: that
/// the connection was closed from this side.
pub fn closing_status(received: &Option<Result<MqttEvent, ()>>) -> (r: Option<ConnectionStatus>)
    ensures
        match r {
            Some(status) => {
                &&& status@ == ConnectionModel::Inactive
                &&& !(received matches Some(Ok(event)) && !(event is OutgoingDisconnect))
            },
            None => received matches Some(Ok(event)) && !(event is OutgoingDisconnect),
        },
{
    if closing_is_done(received) {
        Some(ConnectionStatus::Inactive)
    } else {
        None
    }
}

/// Why a manager has been shut down. Only the first reason counts.
#[derive(Debug)]
pub struct ShutdownReason {
    reason: Option<Option<Box<Error>>>,
}

impl ShutdownReason {
    /// The reason, if the manager has been shut down.
    pub closed spec fn given(self) -> Option<Option<Box<Error>>> {
        self.reason
    }

    /// The manager has not been shut down.
    pub fn new() -> (r: Self)
        ensures
            r.given() is None,
    {
        ShutdownReason { reason: None }
    }

    /// Shut the manager down. Returns whether this is the first time.
    pub fn set(&mut self, error: Option<Box<Error>>) -> (r: bool)
        ensures
            r == old(self).given() is None,
            final(self).given() == match old(self).given() {
                Some(reason) => Some(reason),
                None => Some(error),
            },
    {
        match &self.reason {
            Some(_) => false,
            None => {
                self.reason = Some(error);
                true
            },
        }
    }

    /// Whether the manager has been shut down.
    pub fn initialized(&self) -> (r: bool)
        ensures
            r == self.given() is Some,
    {
        self.reason.is_some()
    }

    /// The error that any attempt to use the manager is answered with, if it has been shut down.
    pub fn error(&self) -> (r: Option<Error>)
        ensures
            r == match self.given() {
                Some(reason) => Some(Error::ManagerShutDown(reason)),
                None => None,
            },
    {
        match &self.reason {
            Some(reason) => Some(
                Error::ManagerShutDown(
                    match reason {
                        Some(error) => Some(Box::new((&**error).clone())),
                        None => None,
                    },
                ),
            ),
            None => None,
        }
    }
}

/// The names of the options that can't be changed while connected and that differ.
pub open spec fn changed_options(old_options: OptionsModel, new_options: OptionsModel) -> Seq<
    Seq<char>,
> {
    let a = if new_options.client_id != old_options.client_id {
        seq!["client_id"@]
    } else {
        Seq::<Seq<char>>::empty()
    };
    let b = if new_options.host != old_options.host {
        a.push("host"@)
    } else {
        a
    };
    let c = if new_options.port != old_options.port {
        b.push("port"@)
    } else {
        b
    };
    if new_options.base_topic != old_options.base_topic {
        c.push("base_topic"@)
    } else {
        c
    }
}

fn list_changed_options(old_options: &Options, new_options: &Options) -> (r: Vec<String>)
    ensures
        text::texts(r@) == changed_options(old_options@, new_options@),
{
    let mut changes: Vec<String> = Vec::new();
    if !text::same_text(new_options.client_id.as_str(), old_options.client_id.as_str()) {
        changes.push("client_id".to_owned());
    }
    if !same_strings(&new_options.host, &old_options.host) {
        changes.push("host".to_owned());
    }
    if *new_options.port.value() != *old_options.port.value() {
        changes.push("port".to_owned());
    }
    if !same_strings(&new_options.base_topic, &old_options.base_topic) {
        changes.push("base_topic".to_owned());
    }
    proof {
        assert(text::texts(changes@) =~= changed_options(old_options@, new_options@));
    }
    changes
}

/// The topics that there is a subscription for.
#[derive(Debug)]
pub struct Subscriptions {
    topics: Vec<String>,
}

impl Subscriptions {
    #[verifier::type_invariant]
    spec fn distinct(self) -> bool {
        forall|i: int, j: int|
            0 <= i < j < self.topics@.len() ==> (#[trigger] self.topics@[i])@ != (
            #[trigger] self.topics@[j])@
    }

    /// The topics.
    pub closed spec fn topics(self) -> Set<Seq<char>> {
        Set::new(|t: Seq<char>| exists|i: int| 0 <= i < self.topics@.len() && #[trigger] self.topics@[i]@ == t)
    }

    /// There are no subscriptions.
    pub fn new() -> (r: Self)
        ensures
            r.topics() == Set::<Seq<char>>::empty(),
    {
        let r = Subscriptions { topics: Vec::new() };
        proof {
            assert(r.topics() =~= Set::<Seq<char>>::empty());
        }
        r
    }

    fn find(&self, topic: &str) -> (r: Option<usize>)
        ensures
            match r {
                Some(i) => i < self.topics@.len() && self.topics@[i as int]@ == topic@,
                None => forall|i: int|
                    0 <= i < self.topics@.len() ==> (#[trigger] self.topics@[i])@ != topic@,
            },
    {
        for i in 0..self.topics.len()
            invariant
                forall|j: int| 0 <= j < i ==> (#[trigger] self.topics@[j])@ != topic@,
        {
            if text::same_text(self.topics[i].as_str(), topic) {
                return Some(i);
            }
        }
        None
    }

    /// Whether there is a subscription for a topic.
    pub fn contains(&self, topic: &str) -> (r: bool)
        ensures
            r == self.topics().contains(topic@),
    {
        self.find(topic).is_some()
    }

    /// Add the subscription for a topic. Returns whether there wasn't one yet.
    pub fn insert(&mut self, topic: &str) -> (r: bool)
        ensures
            r == !old(self).topics().contains(topic@),
            final(self).topics() == old(self).topics().insert(topic@),
    {
        proof {
            use_type_invariant(&*self);
        }
        if self.find(topic).is_some() {
            proof {
                assert(self.topics() =~= old(self).topics().insert(topic@));
            }
            return false;
        }
        let mut topics: Vec<String> = Vec::new();
        std::mem::swap(&mut topics, &mut self.topics);
        let ghost before = topics@;
        topics.push(topic.to_owned());
        self.topics = topics;
        proof {
            assert forall|t: Seq<char>| #[trigger]
                self.topics().contains(t) == old(self).topics().insert(topic@).contains(t) by {
                if old(self).topics().contains(t) {
                    let i = choose|i: int| 0 <= i < before.len() && #[trigger] before[i]@ == t;
                    assert(self.topics@[i]@ == t);
                }
                assert(self.topics@[before.len() as int]@ == topic@);
                if self.topics().contains(t) {
                    let i = choose|i: int|
                        0 <= i < self.topics@.len() && #[trigger] self.topics@[i]@ == t;
                    if i < before.len() {
                        assert(before[i]@ == t);
                    }
                }
            }
            assert(self.topics() =~= old(self).topics().insert(topic@));
        }
        true
    }

    /// Remove the subscription for a topic.
    pub fn remove(&mut self, topic: &str)
        ensures
            final(self).topics() == old(self).topics().remove(topic@),
    {
        proof {
            use_type_invariant(&*self);
        }
        match self.find(topic) {
            None => {
                proof {
                    assert(self.topics() =~= old(self).topics().remove(topic@));
                }
            },
            Some(k) => {
                let mut topics: Vec<String> = Vec::new();
                std::mem::swap(&mut topics, &mut self.topics);
                let ghost before = topics@;
                let removed = topics.remove(k);
                self.topics = topics;
                proof {
                    assert forall|t: Seq<char>| #[trigger]
                        self.topics().contains(t) == old(self).topics().remove(topic@).contains(
                            t,
                        ) by {
                        if old(self).topics().contains(t) && t != topic@ {
                            let i = choose|i: int|
                                0 <= i < before.len() && #[trigger] before[i]@ == t;
                            if i < k {
                                assert(self.topics@[i]@ == t);
                            } else {
                                assert(self.topics@[i - 1]@ == t);
                            }
                        }
                        if self.topics().contains(t) {
                            let i = choose|i: int|
                                0 <= i < self.topics@.len() && #[trigger] self.topics@[i]@ == t;
                            let j = if i < k {
                                i
                            } else {
                                i + 1
                            };
                            assert(before[j]@ == t);
                        }
                    }
                    assert(self.topics() =~= old(self).topics().remove(topic@));
                }
            },
        }
    }
}

/// What to do with an event for the subscription to a topic.
#[derive(Clone, Copy, Debug, PartialEq, Eq, Structural)]
pub enum ForwardStep {
    /// Hand the message on. If nobody listens any more the subscription ends.
    Forward,
    /// Do nothing.
    Skip,
    /// Nobody listens any more, so the subscription ends.
    End,
}

/// Decide what to do with an event for the subscription to a topic, given how many listeners it has.
/// A ping is used to notice that there are none left. This is mostly useful for topics that receive
/// little traffic as these might not forward anything for a while.
pub fn forward_step(topic: &str, event: &MqttEvent, listeners: usize) -> (r: ForwardStep)
    ensures
        r == match *event {
            MqttEvent::Publish { topic: name } => if topic_matches(topic@, name@) {
                ForwardStep::Forward
            } else {
                ForwardStep::Skip
            },
            MqttEvent::PingReq => if listeners == 0 {
                ForwardStep::End
            } else {
                ForwardStep::Skip
            },
            _ => ForwardStep::Skip,
        },
{
    match event {
        MqttEvent::Publish { topic: name } => if topic_match(topic, name.as_str()) {
            ForwardStep::Forward
        } else {
            ForwardStep::Skip
        },
        MqttEvent::PingReq => if listeners == 0 {
            ForwardStep::End
        } else {
            ForwardStep::Skip
        },
        _ => ForwardStep::Skip,
    }
}

/// What a manager knows about its connection.
pub struct Manager {
    id: String,
    options: Options,
    shutdown_reason: ShutdownReason,
    subscriptions: Subscriptions,
}

/// What to do after the listener has stopped.
#[derive(Clone, Copy, Debug, PartialEq, Eq, Structural)]
pub enum MainStep {
    /// Make a new connection, with the current options.
    Reconnect,
    /// Close the connection.
    Close,
}

/// What to do to subscribe to a topic.
#[derive(Debug)]
pub struct SubscribePlan {
    /// The topic, which always has to be subscribed to, as this will trigger a re-send of retained
    /// messages.
    pub topic: String,
    /// Whether messages for the topic aren't forwarded yet.
    pub is_new: bool,
}

impl Manager {
    /// The name of the manager.
    pub closed spec fn name(self) -> Seq<char> {
        self.id@
    }

    /// The current options.
    pub closed spec fn current(self) -> Options {
        self.options
    }

    /// Why the manager has been shut down, if it has.
    pub closed spec fn reason(self) -> Option<Option<Box<Error>>> {
        self.shutdown_reason.given()
    }

    /// The topics that there is a subscription for.
    pub closed spec fn topics(self) -> Set<Seq<char>> {
        self.subscriptions.topics()
    }

    /// Create a manager, once its session has been set up.
    pub fn new(id: String, options: Options) -> (r: Self)
        ensures
            r.name() == id@,
            r.current() == options,
            r.reason() is None,
            r.topics() == Set::<Seq<char>>::empty(),
    {
        Manager {
            id,
            options,
            shutdown_reason: ShutdownReason::new(),
            subscriptions: Subscriptions::new(),
        }
    }

    /// The name of the manager.
    pub fn id(&self) -> (r: &str)
        ensures
            r@ == self.name(),
    {
        self.id.as_str()
    }

    /// The current options.
    pub fn options(&self) -> (r: &Options)
        ensures
            *r == self.current(),
    {
        &self.options
    }

    /// Decide what to do after the listener has stopped: until the manager is shut down new
    /// connections are made when needed.
    pub fn task_main(&self) -> (r: MainStep)
        ensures
            r == match self.reason() {
                Some(_) => MainStep::Close,
                None => MainStep::Reconnect,
            },
    {
        if self.shutdown_reason.initialized() {
            MainStep::Close
        } else {
            MainStep::Reconnect
        }
    }

    /// Use new options. Returns whether the connection has to be closed, so that a new one is made.
    pub fn update_options(&mut self, new_options: Options) -> (r: Result<bool, Error>)
        ensures
            final(self).name() == old(self).name(),
            final(self).reason() == old(self).reason(),
            final(self).topics() == old(self).topics(),
            match old(self).reason() {
                Some(reason) => {
                    &&& r == Err::<bool, Error>(Error::ManagerShutDown(reason))
                    &&& final(self).current() == old(self).current()
                },
                None => {
                    let changes = changed_options(old(self).current()@, new_options@);
                    if changes.len() > 0 {
                        &&& r matches Err(e) && e@ == error::ErrorModel::ActionFailed(
                            "manager must be recreated to apply change to option(s) "@
                                + text::joined(changes, ", "@),
                            None,
                        )
                        &&& final(self).current() == old(self).current()
                    } else if old(self).current()@ == new_options@ {
                        &&& r == Ok::<bool, Error>(false)
                        &&& final(self).current() == old(self).current()
                    } else {
                        &&& r == Ok::<bool, Error>(true)
                        &&& final(self).current() == new_options
                    }
                },
            },
    {
        if let Some(error) = self.shutdown_reason.error() {
            return Err(error);
        }
        let changes = list_changed_options(&self.options, &new_options);
        proof {
            assert(text::texts(changes@).len() == changes@.len());
        }
        if changes.len() > 0 {
            return Err(
                Error::ActionFailed(
                    "manager must be recreated to apply change to option(s) ".to_owned().concat(
                        text::join(&changes, ", ").as_str(),
                    ),
                    None,
                ),
            );
        }
        if self.options == new_options {
            return Ok(false);
        }
        self.options = new_options;
        Ok(true)
    }

    /// Shut the manager down. Returns whether the connection has to be closed. Any further attempts
    /// to use the manager will return the error, which will signal to the reconciler that a new
    /// instance must be created.
    pub fn start_shutdown(&mut self, error: Option<Box<Error>>) -> (r: bool)
        ensures
            r == old(self).reason() is None,
            final(self).reason() == match old(self).reason() {
                Some(reason) => Some(reason),
                None => Some(error),
            },
            final(self).name() == old(self).name(),
            final(self).current() == old(self).current(),
            final(self).topics() == old(self).topics(),
    {
        self.shutdown_reason.set(error)
    }

    /// The error that any attempt to use the manager is answered with, if it has been shut down.
    pub fn close(&self) -> (r: Option<Error>)
        ensures
            r == match self.reason() {
                Some(reason) => Some(Error::ManagerShutDown(reason)),
                None => None,
            },
    {
        self.shutdown_reason.error()
    }

    /// The full name of a topic of Zigbee2MQTT.
    pub fn full_topic(&self, topic: &str) -> (r: String)
        ensures
            r@ == self.current()@.base_topic + "/"@ + topic@,
    {
        self.options.base_topic.value().clone().concat("/").concat(topic)
    }

    /// Subscribe to incoming messages on a topic pattern.
    pub fn subscribe_topic(&mut self, topic: &str) -> (r: SubscribePlan)
        ensures
            r.topic@ == old(self).current()@.base_topic + "/"@ + topic@,
            r.is_new == !old(self).topics().contains(r.topic@),
            final(self).topics() == old(self).topics().insert(r.topic@),
            final(self).name() == old(self).name(),
            final(self).current() == old(self).current(),
            final(self).reason() == old(self).reason(),
    {
        let topic = self.full_topic(topic);
        let is_new = self.subscriptions.insert(topic.as_str());
        SubscribePlan { topic, is_new }
    }

    /// End the subscription to a topic.
    pub fn unsubscribe_topic(&mut self, topic: &str)
        ensures
            final(self).topics() == old(self).topics().remove(topic@),
            final(self).name() == old(self).name(),
            final(self).current() == old(self).current(),
            final(self).reason() == old(self).reason(),
    {
        self.subscriptions.remove(topic)
    }
}

/// What was tried with a topic.
#[derive(Clone, Copy, Debug, PartialEq, Eq, Structural)]
pub enum TopicAction {
    /// Subscribing to it.
    Subscribe,
    /// Ending a subscription to it.
    Unsubscribe,
    /// Publishing a message to it.
    Publish,
}

/// The error for something that failed with a topic.
pub fn topic_error(action: TopicAction, topic: &str, cause: ForeignError) -> (r: Error)
    ensures
        r@ == error::ErrorModel::MQTTError(
            match action {
                TopicAction::Subscribe => "subscribe to "@,
                TopicAction::Unsubscribe => "unsubscribe from "@,
                TopicAction::Publish => "publish to "@,
            } + topic@ + " failed"@,
            Some(cause@),
        ),
{
    let start = match action {
        TopicAction::Subscribe => "subscribe to ",
        TopicAction::Unsubscribe => "unsubscribe from ",
        TopicAction::Publish => "publish to ",
    };
    Error::MQTTError(start.to_owned().concat(topic).concat(" failed"), Some(cause))
}

} // verus!
