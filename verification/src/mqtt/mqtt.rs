//! A plain connection to an MQTT broker, which knows nothing about Zigbee2MQTT.

use vstd::prelude::*;

use super::manager::{
    BrokerOptions, ConnectionError, MainStep, MqttEvent, ShutdownReason, SubscribePlan,
    Subscriptions, KEEP_ALIVE,
};
use crate::error;
use crate::error::Error;
use crate::text;

verus! {

/// The largest packet that is sent or received, in bytes.
pub const MAX_PACKET_SIZE: usize = 50_000;

/// The user name and the password for the broker.
pub struct MQTTCredentials {
    /// The user name.
    pub username: String,
    /// The password.
    pub password: String,
}

/// How to connect to the broker.
pub struct MQTTOptions {
    /// The name of the client.
    pub id: String,
    /// The host of the broker.
    pub host: String,
    /// The port of the broker.
    pub port: u16,
    /// The credentials, if they are needed.
    pub credentials: Option<MQTTCredentials>,
}

/// The model of [`MQTTOptions`].
#[verifier::ext_equal]
pub struct MQTTOptionsModel {
    /// See [`MQTTOptions::id`].
    pub id: Seq<char>,
    /// See [`MQTTOptions::host`].
    pub host: Seq<char>,
    /// See [`MQTTOptions::port`].
    pub port: u16,
    /// See [`MQTTOptions::credentials`]: the user name and the password.
    pub credentials: Option<(Seq<char>, Seq<char>)>,
}

impl View for MQTTCredentials {
    type V = (Seq<char>, Seq<char>);

    open spec fn view(&self) -> (Seq<char>, Seq<char>) {
        (self.username@, self.password@)
    }
}

impl View for MQTTOptions {
    type V = MQTTOptionsModel;

    open spec fn view(&self) -> MQTTOptionsModel {
        MQTTOptionsModel {
            id: self.id@,
            host: self.host@,
            port: self.port,
            credentials: match self.credentials {
                Some(credentials) => Some(credentials@),
                None => None,
            },
        }
    }
}

impl PartialEq for MQTTCredentials {
    fn eq(&self, other: &Self) -> (r: bool) {
        text::same_text(self.username.as_str(), other.username.as_str()) && text::same_text(
            self.password.as_str(),
            other.password.as_str(),
        )
    }
}

impl vstd::std_specs::cmp::PartialEqSpecImpl for MQTTCredentials {
    open spec fn obeys_eq_spec() -> bool {
        true
    }

    open spec fn eq_spec(&self, other: &Self) -> bool {
        self@ == other@
    }
}

impl PartialEq for MQTTOptions {
    fn eq(&self, other: &Self) -> (r: bool) {
        let same_credentials = match (&self.credentials, &other.credentials) {
            (Some(a), Some(b)) => *a == *b,
            (None, None) => true,
            _ => false,
        };
        text::same_text(self.id.as_str(), other.id.as_str()) && text::same_text(
            self.host.as_str(),
            other.host.as_str(),
        ) && self.port == other.port && same_credentials
    }
}

impl vstd::std_specs::cmp::PartialEqSpecImpl for MQTTOptions {
    open spec fn obeys_eq_spec() -> bool {
        true
    }

    open spec fn eq_spec(&self, other: &Self) -> bool {
        self@ == other@
    }
}

impl MQTTOptions {
    /// Set up the client of the broker.
    pub fn to_rumqtt(&self) -> (r: BrokerOptions)
        ensures
            r.client_id@ == self@.id,
            r.host@ == self@.host,
            r.port == self@.port,
            r.authorities is None,
            match (r.credentials, self@.credentials) {
                (Some((a, b)), Some((username, password))) => a@ == username && b@ == password,
                (None, None) => true,
                _ => false,
            },
            !r.clean_session,
            r.keep_alive == KEEP_ALIVE,
            r.max_packet_size == MAX_PACKET_SIZE,
    {
        BrokerOptions {
            client_id: self.id.clone(),
            host: self.host.clone(),
            port: self.port,
            authorities: None,
            credentials: match &self.credentials {
                Some(credentials) => Some(
                    (credentials.username.clone(), credentials.password.clone()),
                ),
                None => None,
            },
            clean_session: false,
            keep_alive: KEEP_ALIVE,
            max_packet_size: MAX_PACKET_SIZE,
        }
    }
}

/// The name of the first option that can't be changed while connected and that differs.
pub open spec fn changed_option(
    old_options: MQTTOptionsModel,
    new_options: MQTTOptionsModel,
) -> Option<Seq<char>> {
    if new_options.id != old_options.id {
        Some("id"@)
    } else if new_options.host != old_options.host {
        Some("host"@)
    } else if new_options.port != old_options.port {
        Some("port"@)
    } else {
        None
    }
}

fn find_changed_option(old_options: &MQTTOptions, new_options: &MQTTOptions) -> (r: Option<
    &'static str,
>)
    ensures
        match r {
            Some(name) => changed_option(old_options@, new_options@) == Some(name@),
            None => changed_option(old_options@, new_options@) is None,
        },
{
    if !text::same_text(new_options.id.as_str(), old_options.id.as_str()) {
        Some("id")
    } else if !text::same_text(new_options.host.as_str(), old_options.host.as_str()) {
        Some("host")
    } else if new_options.port != old_options.port {
        Some("port")
    } else {
        None
    }
}

/// What to do after something has happened on the connection.
#[derive(Clone, Copy, Debug, PartialEq, Eq, Structural)]
pub enum ListenerStep {
    /// Keep listening.
    Listen,
    /// Stop listening, as the connection is being closed, either from this side or because the
    /// manager is shut down.
    Stop,
}

/// What a manager knows about its connection.
pub struct MQTTManager {
    id: String,
    options: MQTTOptions,
    shutdown_reason: ShutdownReason,
    subscriptions: Subscriptions,
}

impl MQTTManager {
    /// The name of the manager.
    pub closed spec fn name(self) -> Seq<char> {
        self.id@
    }

    /// The current options.
    pub closed spec fn current(self) -> MQTTOptions {
        self.options
    }

    /// Why the manager has been shut down, if it has.
    pub closed spec fn reason(self) -> Option<Option<Box<Error>>> {
        self.shutdown_reason.given()
    }

    /// The topics that there is a subscription for.
    pub closed spec fn topics(self) -> Set<Seq<char>> {
        self.subscriptions.topics()
    }

    /// Create a manager, once its session has been set up.
    pub fn new(id: String, options: MQTTOptions) -> (r: Self)
        ensures
            r.name() == id@,
            r.current() == options,
            r.reason() is None,
            r.topics() == Set::<Seq<char>>::empty(),
    {
        MQTTManager {
            id,
            options,
            shutdown_reason: ShutdownReason::new(),
            subscriptions: Subscriptions::new(),
        }
    }

    /// The name of the manager.
    pub fn get_id(&self) -> (r: &String)
        ensures
            r@ == self.name(),
    {
        &self.id
    }

    /// The current options.
    pub fn options(&self) -> (r: &MQTTOptions)
        ensures
            *r == self.current(),
    {
        &self.options
    }

    /// Use new options. Returns whether the connection has to be closed, so that a new one is made.
    pub fn update_options(&mut self, new_options: MQTTOptions) -> (r: Result<bool, Error>)
        ensures
            final(self).name() == old(self).name(),
            final(self).reason() == old(self).reason(),
            final(self).topics() == old(self).topics(),
            match (old(self).reason(), changed_option(old(self).current()@, new_options@)) {
                (Some(reason), _) => {
                    &&& r == Err::<bool, Error>(Error::ManagerShutDown(reason))
                    &&& final(self).current() == old(self).current()
                },
                (None, Some(name)) => {
                    &&& r matches Err(e) && e@ == error::ErrorModel::ActionFailed(
                        "manager must be recreated to apply change to option "@ + name,
                        None,
                    )
                    &&& final(self).current() == old(self).current()
                },
                (None, None) => if old(self).current()@ == new_options@ {
                    &&& r == Ok::<bool, Error>(false)
                    &&& final(self).current() == old(self).current()
                } else {
                    &&& r == Ok::<bool, Error>(true)
                    &&& final(self).current() == new_options
                },
            },
    {
        if let Some(error) = self.shutdown_reason.error() {
            return Err(error);
        }
        if let Some(name) = find_changed_option(&self.options, &new_options) {
            return Err(
                Error::ActionFailed(
                    "manager must be recreated to apply change to option ".to_owned().concat(name),
                    None,
                ),
            );
        }
        if self.options == new_options {
            return Ok(false);
        }
        self.options = new_options;
        Ok(true)
    }

    /// Shut the manager down. Only the first reason counts, which is the one that is returned.
    pub fn close(&mut self, error: Option<Box<Error>>) -> (r: Error)
        ensures
            final(self).reason() == match old(self).reason() {
                Some(reason) => Some(reason),
                None => Some(error),
            },
            final(self).reason() matches Some(reason) && r == Error::ManagerShutDown(reason),
            final(self).name() == old(self).name(),
            final(self).current() == old(self).current(),
            final(self).topics() == old(self).topics(),
    {
        self.shutdown_reason.set(error);
        match self.shutdown_reason.error() {
            Some(error) => error,
            None => Error::ManagerShutDown(None),
        }
    }

    /// Decide what to do after the listener has stopped: until the manager is shut down new
    /// connections are made when needed.
    pub fn task_main(&self) -> (r: MainStep)
        ensures
            r == match self.reason() {
                Some(_) => MainStep::Close,
                None => MainStep::Reconnect,
            },
    {
        if self.shutdown_reason.initialized() {
            MainStep::Close
        } else {
            MainStep::Reconnect
        }
    }

    /// Decide what follows an event or an error. The manager is shut down if the broker didn't
    /// continue the session.
    pub fn start_listener(&mut self, polled: &Result<MqttEvent, ConnectionError>) -> (r:
        ListenerStep)
        ensures
            final(self).name() == old(self).name(),
            final(self).current() == old(self).current(),
            final(self).topics() == old(self).topics(),
            match *polled {
                Ok(MqttEvent::ConnAck { session_present: false, .. }) => {
                    &&& r is Stop
                    &&& match old(self).reason() {
                        Some(reason) => final(self).reason() == Some(reason),
                        None => final(self).reason() matches Some(Some(e)) && e@
                            == error::ErrorModel::MQTTError(
                            "reconnect failed to continue existing session"@,
                            None,
                        ),
                    }
                },
                Ok(MqttEvent::OutgoingDisconnect) => {
                    &&& r is Stop
                    &&& final(self).reason() == old(self).reason()
                },
                _ => {
                    &&& r is Listen
                    &&& final(self).reason() == old(self).reason()
                },
            },
    {
        match polled {
            Ok(MqttEvent::ConnAck { session_present: false, .. }) => {
                self.shutdown_reason.set(
                    Some(
                        Box::new(
                            Error::MQTTError(
                                "reconnect failed to continue existing session".to_owned(),
                                None,
                            ),
                        ),
                    ),
                );
                ListenerStep::Stop
            },
            Ok(MqttEvent::OutgoingDisconnect) => ListenerStep::Stop,
            _ => ListenerStep::Listen,
        }
    }

    /// Subscribe to incoming messages on a topic pattern.
    pub fn subscribe_topic(&mut self, topic: &str) -> (r: SubscribePlan)
        ensures
            r.topic@ == topic@,
            r.is_new == !old(self).topics().contains(topic@),
            final(self).topics() == old(self).topics().insert(topic@),
            final(self).name() == old(self).name(),
            final(self).current() == old(self).current(),
            final(self).reason() == old(self).reason(),
    {
        let is_new = self.subscriptions.insert(topic);
        SubscribePlan { topic: topic.to_owned(), is_new }
    }

    /// End the subscription to a topic.
    pub fn unsubscribe_topic(&mut self, topic: &str)
        ensures
            final(self).topics() == old(self).topics().remove(topic@),
            final(self).name() == old(self).name(),
            final(self).current() == old(self).current(),
            final(self).reason() == old(self).reason(),
    {
        self.subscriptions.remove(topic)
    }
}

} // verus!
