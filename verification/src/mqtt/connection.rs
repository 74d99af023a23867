//! What holds of the connection to the broker.

use vstd::prelude::*;
use vstd::std_specs::cmp::*;

use super::manager;
use super::manager::{
    ConnectReturnCode, ConnectionError, ConnectionModel, ConnectionStatus, HandshakeStage,
    MqttEvent, Options, PemModel, Status,
};
use super::mqtt;
use super::mqtt::MQTTOptions;
use super::subscription;
use super::subscription::LastStep;
use crate::error::Error;
use crate::event_manager::EventType;
use crate::text;

verus! {

/// A connection is refused by every answer of the broker but success, each with a reason of its own,
/// and it is active after success.
pub proof fn only_success_is_accepted(code: ConnectReturnCode, other: ConnectReturnCode)
    ensures
        manager::answered_status(code) is Active <==> code == ConnectReturnCode::Success,
        manager::answered_status(code) is Refused <==> code != ConnectReturnCode::Success,
        manager::answered_status(code) == manager::answered_status(other) <==> code == other,
        code == ConnectReturnCode::BadUserNamePassword ==> manager::answered_status(code)
            == ConnectionModel::Refused("bad username/password"@),
        code == ConnectReturnCode::NotAuthorized ==> manager::answered_status(code)
            == ConnectionModel::Refused("not authorized"@),
        code == ConnectReturnCode::BadClientId ==> manager::answered_status(code)
            == ConnectionModel::Refused("invalid client id"@),
        code == ConnectReturnCode::ServiceUnavailable ==> manager::answered_status(code)
            == ConnectionModel::Refused("service unavailable"@),
{
    reveal_strlit("invalid protocol version");
    reveal_strlit("invalid client id");
    reveal_strlit("service unavailable");
    reveal_strlit("bad username/password");
    reveal_strlit("not authorized");
    assert("invalid protocol version"@.len() == 24);
    assert("invalid client id"@.len() == 17);
    assert("service unavailable"@.len() == 19);
    assert("bad username/password"@.len() == 21);
    assert("not authorized"@.len() == 14);
    let a = manager::answered_status(code);
    let b = manager::answered_status(other);
    if code != other && a is Refused && b is Refused {
        assert(a->Refused_0.len() != b->Refused_0.len());
    }
}

/// Which events have an influence on the state of the connection: the answers of the broker, and the
/// end of a connection, from either side. No other event has one.
pub proof fn connections_start_and_end(event: MqttEvent)
    ensures
        manager::event_status(event) is Some <==> event is ConnAck || event is Disconnect
            || event is OutgoingDisconnect,
        event is Disconnect ==> manager::event_status(event) == Some(ConnectionModel::Closed),
        event is OutgoingDisconnect ==> manager::event_status(event) == Some(
            ConnectionModel::Inactive,
        ),
        event is ConnAck && event->code == ConnectReturnCode::Success ==> manager::event_status(
            event,
        ) == Some(ConnectionModel::Active),
        event is ConnAck && event->code != ConnectReturnCode::Success ==> manager::event_status(
            event,
        )->0 is Refused,
{
}

/// An error is a refusal if the broker says so, and otherwise a failure with its message.
pub proof fn errors_are_refusals_or_failures(error: ConnectionError)
    ensures
        error is ConnectionRefused && error->ConnectionRefused_0 != ConnectReturnCode::Success
            ==> manager::error_status(error) is Refused,
        error is ConnectionRefused ==> !(manager::error_status(error) is Failed),
        error is Other ==> manager::error_status(error) == ConnectionModel::Failed(
            error->Other_0@,
        ),
{
}

/// What is reported is announced with a warning if something is wrong, and as normal otherwise. The
/// reason for it is part of the note.
pub proof fn reports_are_announced(report: Status)
    ensures
        ({
            let event = manager::status_event(report);
            let connection = report->ConnectionStatus_0;
            let health = report->Z2MStatus_0;
            let wrong = report is ConnectionStatus && (connection is Closed || connection is Failed
                || connection is Refused) || report is Z2MStatus && health is HealthError;
            &&& wrong ==> event.type_ == EventType::Warning
            &&& !wrong ==> event.type_ == EventType::Normal
            &&& event.field_path is None
            &&& report is ConnectionStatus && connection is Failed ==> event.note == Some(
                "connection failed: "@ + connection->Failed_0@,
            )
            &&& report is ConnectionStatus && connection is Refused ==> event.note == Some(
                "connection refused: "@ + connection->Refused_0@,
            )
            &&& report is Z2MStatus && health is HealthError ==> event.note == Some(
                "zigbee2mqtt healthcheck failed: "@ + health->HealthError_0@,
            )
            &&& report is ConnectionStatus && connection is Pending ==> event.note == Some(
                "connecting to broker"@,
            )
            &&& report is ConnectionStatus && connection is Active ==> event.note == Some(
                "successfully connected to broker"@,
            )
            &&& report is ConnectionStatus && connection is Inactive ==> event.note == Some(
                "disconnected from broker"@,
            ) && event.reason == "Deleted"@
            &&& report is ConnectionStatus && connection is Closed ==> event.note == Some(
                "connection closed by broker."@,
            ) && event.reason == "Disconnected"@
            &&& report is ConnectionStatus && !(connection is Inactive) && !(connection is Closed)
                ==> event.reason == "Created"@
            &&& report is Z2MStatus && health is HealthOk ==> event.note == Some(
                "zigbee2mqtt healthcheck succeeded"@,
            )
            &&& report is ConnectionStatus ==> event.action == "Connecting"@
            &&& report is Z2MStatus ==> event.action == "Healthcheck"@ && event.reason
                == "Healthcheck"@
        }),
{
}

/// Two states of the connection are equal if and only if they are of one kind, with the same reason
/// where there is one.
pub proof fn states_differ_by_kind_and_reason(a: ConnectionStatus, b: ConnectionStatus)
    ensures
        PartialEqSpec::eq_spec(&a, &b) <==> {
            ||| a is Pending && b is Pending
            ||| a is Active && b is Active
            ||| a is Inactive && b is Inactive
            ||| a is Closed && b is Closed
            ||| a is Failed && b is Failed && a->Failed_0@ == b->Failed_0@
            ||| a is Refused && b is Refused && a->Refused_0@ == b->Refused_0@
        },
{
}

/// Which error ends a handshake: being refused, where this is final. Any other error is ignored.
pub proof fn refusals_end_handshakes(strict: bool, error: ConnectionError)
    ensures
        manager::error_fails(strict, error) <==> strict && error is ConnectionRefused
            && error->ConnectionRefused_0 != ConnectReturnCode::Success,
{
}

/// What is done in each stage of a handshake: the first two connections are closed so that another one
/// is made, the third one is kept, which is reported as active.
pub proof fn handshakes_reconnect_twice(stage: HandshakeStage)
    ensures
        ({
            let step = manager::after_expected(stage).1;
            &&& step is Reconnect <==> stage == HandshakeStage::Clear || stage
                == HandshakeStage::Create
            &&& step is Connected <==> stage == HandshakeStage::Resume
            &&& step is Connected ==> step->Connected_0 is Active
            &&& !(step is Failed)
        }),
{
}

/// A handshake succeeds if and only if the events begin with three connections that are accepted, the
/// first two without a session and closed again, the third one with the session, and with nothing but
/// errors between them, of which none is a refusal where this is final.
pub proof fn handshakes_take_three_connections(
    strict: bool,
    events: Seq<Result<MqttEvent, ConnectionError>>,
)
    ensures
        manager::handshake_succeeds(HandshakeStage::Clear, strict, events) <==> exists|n: int|
            #![trigger events.take(n)]
            0 <= n <= events.len() && {
                let fresh = MqttEvent::ConnAck {
                    code: ConnectReturnCode::Success,
                    session_present: false,
                };
                let continued = MqttEvent::ConnAck {
                    code: ConnectReturnCode::Success,
                    session_present: true,
                };
                let closed = MqttEvent::OutgoingDisconnect;
                &&& manager::without_errors(events.take(n)) == seq![
                    fresh,
                    closed,
                    fresh,
                    closed,
                    continued,
                ]
                &&& forall|i: int|
                    0 <= i < n && #[trigger] events[i] is Err && strict ==> !(
                    events[i]->Err_0 is ConnectionRefused
                        && events[i]->Err_0->ConnectionRefused_0 != ConnectReturnCode::Success)
            },
{
    let stage = HandshakeStage::Clear;
    let fresh = MqttEvent::ConnAck { code: ConnectReturnCode::Success, session_present: false };
    let continued = MqttEvent::ConnAck { code: ConnectReturnCode::Success, session_present: true };
    let closed = MqttEvent::OutgoingDisconnect;
    let expected = seq![fresh, closed, fresh, closed, continued];
    let stages = manager::remaining_stages(stage);
    if manager::handshake_succeeds(stage, strict, events) {
        let n = manager::handshake_sees_all_stages(stage, strict, events);
        let start = events.take(n);
        let seen = manager::without_errors(start);
        assert(manager::is_expected(stages[0], seen[0]));
        assert(manager::is_expected(stages[1], seen[1]));
        assert(manager::is_expected(stages[2], seen[2]));
        assert(manager::is_expected(stages[3], seen[3]));
        assert(manager::is_expected(stages[4], seen[4]));
        assert(seen =~= expected);
        assert forall|i: int| 0 <= i < n && #[trigger] events[i] is Err && strict implies !(
        events[i]->Err_0 is ConnectionRefused && events[i]->Err_0->ConnectionRefused_0
            != ConnectReturnCode::Success) by {
            assert(start[i] == events[i]);
        }
    }
    if exists|n: int|
        #![trigger events.take(n)]
        0 <= n <= events.len() && manager::without_errors(events.take(n)) == expected && forall|
            i: int,
        |
            0 <= i < n && #[trigger] events[i] is Err && strict ==> !(
            events[i]->Err_0 is ConnectionRefused && events[i]->Err_0->ConnectionRefused_0
                != ConnectReturnCode::Success) {
        let n = choose|n: int|
            #![trigger events.take(n)]
            0 <= n <= events.len() && manager::without_errors(events.take(n)) == expected && forall|
                i: int,
            |
                0 <= i < n && #[trigger] events[i] is Err && strict ==> !(
                events[i]->Err_0 is ConnectionRefused && events[i]->Err_0->ConnectionRefused_0
                    != ConnectReturnCode::Success);
        let start = events.take(n);
        let seen = manager::without_errors(start);
        assert forall|i: int| 0 <= i < stages.len() implies manager::is_expected(
            #[trigger] stages[i],
            seen[i],
        ) by {
            assert(i == 0 || i == 1 || i == 2 || i == 3 || i == 4);
        }
        assert forall|i: int| 0 <= i < start.len() implies (
        #[trigger] start[i] matches Err(error) ==> !manager::error_fails(strict, error)) by {
            assert(start[i] == events[i]);
        }
        assert(manager::meets_all_stages(stage, strict, start));
        manager::all_stages_make_handshake(stage, strict, events, n);
    }
}

/// Options are compared in full: they are equal if and only if everything that they say is, whatever
/// the sources.
pub proof fn options_are_compared_in_full(a: Options, b: Options)
    ensures
        PartialEqSpec::eq_spec(&a, &b) <==> a@ == b@,
        a@ == b@ <==> {
            &&& a.client_id@ == b.client_id@
            &&& a.host.inner()@ == b.host.inner()@
            &&& a.port.inner() == b.port.inner()
            &&& a.base_topic.inner()@ == b.base_topic.inner()@
            &&& a.credentials.inner() is Some <==> b.credentials.inner() is Some
            &&& a.credentials.inner() is Some ==> {
                &&& a.credentials.inner()->0.username.inner()@
                    == b.credentials.inner()->0.username.inner()@
                &&& a.credentials.inner()->0.password.inner()@
                    == b.credentials.inner()->0.password.inner()@
            }
            &&& a.tls.inner() is Some <==> b.tls.inner() is Some
            &&& a.tls.inner() is Some ==> {
                let x = a.tls.inner()->0;
                let y = b.tls.inner()->0;
                &&& x.ca.inner() is Some <==> y.ca.inner() is Some
                &&& x.ca.inner() is Some ==> x.ca.inner()->0@ == y.ca.inner()->0@
                &&& x.client.inner() is Some <==> y.client.inner() is Some
                &&& x.client.inner() is Some ==> x.client.inner()->0.cert.inner()@
                    == y.client.inner()->0.cert.inner()@ && x.client.inner()->0.key.inner()@
                    == y.client.inner()->0.key.inner()@
            }
        },
{
}

/// A manager can't take over options that ask for another client, host, port or base topic, and can
/// take over any others. Each of these that changes is named.
pub proof fn some_options_need_a_new_manager(a: Options, b: Options)
    ensures
        ({
            let changed = manager::changed_options(a@, b@);
            &&& changed.contains("client_id"@) <==> a.client_id@ != b.client_id@
            &&& changed.contains("host"@) <==> a.host.inner()@ != b.host.inner()@
            &&& changed.contains("port"@) <==> a.port.inner() != b.port.inner()
            &&& changed.contains("base_topic"@) <==> a.base_topic.inner()@ != b.base_topic.inner()@
            &&& changed.len() == 0 <==> a.client_id@ == b.client_id@ && a.host.inner()@
                == b.host.inner()@ && a.port.inner() == b.port.inner() && a.base_topic.inner()@
                == b.base_topic.inner()@
        }),
{
    reveal_strlit("client_id");
    reveal_strlit("host");
    reveal_strlit("port");
    reveal_strlit("base_topic");
    assert("host"@[0] != "port"@[0]);
    let changed = manager::changed_options(a@, b@);
    let first = if b@.client_id != a@.client_id {
        1int
    } else {
        0
    };
    let second = first + if b@.host != a@.host {
        1int
    } else {
        0
    };
    let third = second + if b@.port != a@.port {
        1int
    } else {
        0
    };
    if b@.client_id != a@.client_id {
        assert(changed[0] == "client_id"@);
    }
    if b@.host != a@.host {
        assert(changed[first] == "host"@);
    }
    if b@.port != a@.port {
        assert(changed[second] == "port"@);
    }
    if b@.base_topic != a@.base_topic {
        assert(changed[third] == "base_topic"@);
    }
}

/// A plain connection can't take over options that ask for another client, host or port, of which the
/// first one is named, and can take over any others.
pub proof fn some_options_need_a_new_connection(a: MQTTOptions, b: MQTTOptions)
    ensures
        ({
            let changed = mqtt::changed_option(a@, b@);
            &&& changed is None <==> a.id@ == b.id@ && a.host@ == b.host@ && a.port == b.port
            &&& a.id@ != b.id@ ==> changed == Some("id"@)
            &&& a.id@ == b.id@ && a.host@ != b.host@ ==> changed == Some("host"@)
            &&& a.id@ == b.id@ && a.host@ == b.host@ && a.port != b.port ==> changed == Some(
                "port"@,
            )
        }),
        PartialEqSpec::eq_spec(&a, &b) <==> {
            &&& a.id@ == b.id@ && a.host@ == b.host@ && a.port == b.port
            &&& a.credentials is Some <==> b.credentials is Some
            &&& a.credentials is Some ==> a.credentials->0.username@ == b.credentials->0.username@
                && a.credentials->0.password@ == b.credentials->0.password@
        },
{
}

proof fn lemma_bundle(sections: Seq<PemModel>)
    ensures
        match manager::bundle_problem(sections) {
            Some(message) => exists|i: int|
                0 <= i < sections.len() && manager::section_problem(#[trigger] sections[i]) == Some(
                    message,
                ) && forall|j: int|
                    0 <= j < i ==> manager::section_problem(#[trigger] sections[j]) is None,
            None => forall|j: int|
                0 <= j < sections.len() ==> manager::section_problem(#[trigger] sections[j]) is None,
        },
    decreases sections.len(),
{
    if sections.len() > 0 && manager::section_problem(sections[0]) is None {
        let rest = sections.drop_first();
        lemma_bundle(rest);
        match manager::bundle_problem(rest) {
            Some(message) => {
                let i = choose|i: int|
                    0 <= i < rest.len() && manager::section_problem(#[trigger] rest[i]) == Some(
                        message,
                    ) && forall|j: int|
                        0 <= j < i ==> manager::section_problem(#[trigger] rest[j]) is None;
                assert(sections[i + 1] == rest[i]);
                assert forall|j: int| 0 <= j < i + 1 implies manager::section_problem(
                    #[trigger] sections[j],
                ) is None by {
                    if j > 0 {
                        assert(rest[j - 1] == sections[j]);
                    }
                }
            },
            None => {
                assert forall|j: int| 0 <= j < sections.len() implies manager::section_problem(
                    #[trigger] sections[j],
                ) is None by {
                    if j > 0 {
                        assert(rest[j - 1] == sections[j]);
                    }
                }
            },
        }
    }
}

/// A bundle of authorities can be used if and only if all of its sections are certificates that can,
/// and gives all of these. It isn't used in part.
pub proof fn bundles_are_used_as_a_whole(bundle: Seq<char>, system: Seq<Seq<u8>>)
    ensures
        ({
            let sections = manager::pem_sections(bundle);
            let outcome = manager::authorities_outcome(Some(bundle), system);
            &&& outcome is Ok <==> forall|i: int|
                0 <= i < sections.len() ==> #[trigger] sections[i] is Certificate
                    && manager::certificate_error(sections[i]->Certificate_0) is None
            &&& outcome matches Ok(list) ==> list.len() == sections.len() && forall|i: int|
                0 <= i < sections.len() ==> #[trigger] list[i] == sections[i]->Certificate_0
        }),
{
    let sections = manager::pem_sections(bundle);
    lemma_bundle(sections);
    if manager::bundle_problem(sections) is None {
        assert forall|i: int| 0 <= i < sections.len() implies #[trigger] sections[i] is Certificate
            && manager::certificate_error(sections[i]->Certificate_0) is None by {
            assert(manager::section_problem(sections[i]) is None);
        }
    } else {
        let i = choose|i: int|
            0 <= i < sections.len() && manager::section_problem(#[trigger] sections[i])
                == manager::bundle_problem(sections) && forall|j: int|
                0 <= j < i ==> manager::section_problem(#[trigger] sections[j]) is None;
        assert(!(sections[i] is Certificate && manager::certificate_error(
            sections[i]->Certificate_0,
        ) is None));
    }
}

proof fn lemma_usable(certificates: Seq<Seq<u8>>)
    ensures
        manager::usable_count(certificates) > 0 <==> exists|i: int|
            0 <= i < certificates.len() && manager::certificate_error(#[trigger] certificates[i])
                is None,
    decreases certificates.len(),
{
    if certificates.len() > 0 {
        let front = certificates.drop_last();
        let last = certificates.len() - 1;
        lemma_usable(front);
        assert(certificates[last] == certificates.last());
        assert(forall|i: int| 0 <= i < last ==> #[trigger] front[i] == certificates[i]);
        if exists|i: int|
            0 <= i < front.len() && manager::certificate_error(#[trigger] front[i]) is None {
            let i = choose|i: int|
                0 <= i < front.len() && manager::certificate_error(#[trigger] front[i]) is None;
            assert(manager::certificate_error(certificates[i]) is None);
        }
        if exists|i: int|
            0 <= i < certificates.len() && manager::certificate_error(#[trigger] certificates[i])
                is None {
            let i = choose|i: int|
                0 <= i < certificates.len() && manager::certificate_error(
                    #[trigger] certificates[i],
                ) is None;
            if i < last {
                assert(manager::certificate_error(front[i]) is None);
            }
        }
    }
}

/// Without a bundle the authorities are those of the system, as long as one of them can be used.
pub proof fn system_certificates_need_one_that_works(system: Seq<Seq<u8>>)
    ensures
        manager::authorities_outcome(None, system) is Ok <==> exists|i: int|
            0 <= i < system.len() && manager::certificate_error(#[trigger] system[i]) is None,
        manager::authorities_outcome(None, system) matches Ok(list) ==> list == system,
{
    lemma_usable(system);
}

proof fn lemma_first_hash(pattern: Seq<Seq<char>>, topic: Seq<Seq<char>>, k: int)
    requires
        0 <= k < pattern.len(),
        pattern[k] == "#"@,
        forall|i: int| 0 <= i < k ==> #[trigger] pattern[i] != "#"@,
    ensures
        manager::levels_match(pattern, topic) <==> topic.len() >= k && forall|i: int|
            0 <= i < k ==> (#[trigger] pattern[i] == "+"@ || pattern[i] == topic[i]),
    decreases pattern.len(),
{
    if k > 0 {
        assert(pattern[0] != "#"@);
        if topic.len() > 0 {
            let rest = pattern.drop_first();
            let below = topic.drop_first();
            assert forall|i: int| 0 <= i < k - 1 implies #[trigger] rest[i] != "#"@ by {
                assert(rest[i] == pattern[i + 1]);
            }
            lemma_first_hash(rest, below, k - 1);
            if topic.len() >= k && forall|i: int|
                0 <= i < k ==> (#[trigger] pattern[i] == "+"@ || pattern[i] == topic[i]) {
                assert forall|i: int| 0 <= i < k - 1 implies (#[trigger] rest[i] == "+"@ || rest[i]
                    == below[i]) by {
                    assert(rest[i] == pattern[i + 1]);
                }
                assert(pattern[0] == "+"@ || pattern[0] == topic[0]);
            }
            if manager::levels_match(pattern, topic) {
                assert forall|i: int| 0 <= i < k implies (#[trigger] pattern[i] == "+"@
                    || pattern[i] == topic[i]) by {
                    if i > 0 {
                        assert(rest[i - 1] == pattern[i]);
                    }
                }
            }
        }
    }
}

/// From the first `#` on a pattern matches everything: a topic matches if it has the levels before it,
/// each of which is the one that the pattern has there, or any where the pattern has `+`.
pub proof fn hash_ends_the_comparison(pattern: Seq<char>, topic: Seq<char>, k: int)
    requires
        0 <= k < text::levels(pattern, '/').len(),
        text::levels(pattern, '/')[k] == "#"@,
        forall|i: int| 0 <= i < k ==> #[trigger] text::levels(pattern, '/')[i] != "#"@,
    ensures
        manager::topic_matches(pattern, topic) <==> text::levels(topic, '/').len() >= k && forall|
            i: int,
        |
            0 <= i < k ==> (#[trigger] text::levels(pattern, '/')[i] == "+"@ || text::levels(
                pattern,
                '/',
            )[i] == text::levels(topic, '/')[i]),
{
    lemma_first_hash(text::levels(pattern, '/'), text::levels(topic, '/'), k);
}

/// Without `#` a topic matches a pattern if and only if it has as many levels, each of which is the one
/// that the pattern has there, or any where the pattern has `+`.
pub proof fn levels_are_compared(pattern: Seq<char>, topic: Seq<char>)
    requires
        forall|i: int|
            0 <= i < text::levels(pattern, '/').len() ==> #[trigger] text::levels(pattern, '/')[i]
                != "#"@,
    ensures
        manager::topic_matches(pattern, topic) <==> text::levels(topic, '/').len() == text::levels(
            pattern,
            '/',
        ).len() && forall|i: int|
            0 <= i < text::levels(pattern, '/').len() ==> (#[trigger] text::levels(pattern, '/')[i]
                == "+"@ || text::levels(pattern, '/')[i] == text::levels(topic, '/')[i]),
{
    manager::levels_match_one_by_one(pattern, topic);
}

/// Waiting goes on as long as items come, and ends with an error, or with the latest item once nothing
/// comes for too long.
pub proof fn waiting_ends_without_items<V>(latest: V, item: V, error: Error)
    ensures
        subscription::last_step(latest, Some(Ok::<V, Error>(item))) == LastStep::Wait(item),
        subscription::last_step(latest, Some(Err::<V, Error>(error))) == LastStep::<V>::Done(
            Err(error),
        ),
        subscription::last_step(latest, None) == LastStep::Done(Ok::<V, Error>(latest)),
{
}

/// The message about an event that doesn't belong to a handshake names the event, and the kind of event
/// that was expected instead.
pub proof fn unexpected_events_are_named(stage: HandshakeStage, event: Seq<char>)
    ensures
        ({
            let expected = match stage {
                HandshakeStage::Cleared => "Ok(Event::Outgoing(Outgoing::Disconnect))"@,
                HandshakeStage::Created => "Ok(Event::Outgoing(Outgoing::Disconnect))"@,
                HandshakeStage::Resume =>
                    "Ok(Event::Incoming(Packet::ConnAck(ConnAck { code: ConnectReturnCode::Success, session_present: true })))"@,
                _ =>
                    "Ok(Event::Incoming(Packet::ConnAck(ConnAck { code: ConnectReturnCode::Success, session_present: false })))"@,
            };
            manager::unexpected_note(stage, event)
                == "unexpected event during initial handshake, expected "@ + expected + ", got "@
                + event
        }),
{
}

/// Time that goes backwards counts as no time.
pub proof fn time_passes(from: u64, to: u64)
    ensures
        to >= from ==> manager::elapsed(from, to) == to - from,
        to <= from ==> manager::elapsed(from, to) == 0,
{
}

/// The first section of a bundle that isn't a certificate that can be used decides what is said about
/// the bundle.
pub proof fn problems_of_bundles_are_explained(
    bundle: Seq<char>,
    system: Seq<Seq<u8>>,
    k: int,
)
    requires
        0 <= k < manager::pem_sections(bundle).len(),
        forall|i: int|
            0 <= i < k ==> #[trigger] manager::pem_sections(bundle)[i] is Certificate
                && manager::certificate_error(
                manager::pem_sections(bundle)[i]->Certificate_0,
            ) is None,
        !(manager::pem_sections(bundle)[k] is Certificate && manager::certificate_error(
            manager::pem_sections(bundle)[k]->Certificate_0,
        ) is None),
    ensures
        manager::authorities_outcome(Some(bundle), system) == Err::<Seq<Seq<u8>>, Seq<char>>(
            match manager::pem_sections(bundle)[k] {
                PemModel::Invalid(message) => "unable to parse ca certificates: "@ + message,
                PemModel::Certificate(der) => "unable to parse ca certificate: "@
                    + manager::certificate_error(der)->0,
                PemModel::Other(description) => "found non-certificate in pem bundle: "@
                    + description,
            },
        ),
{
    let sections = manager::pem_sections(bundle);
    lemma_bundle(sections);
    assert(manager::section_problem(sections[k]) is Some);
    let message = manager::bundle_problem(sections)->0;
    let i = choose|i: int|
        0 <= i < sections.len() && manager::section_problem(#[trigger] sections[i]) == Some(message)
            && forall|j: int| 0 <= j < i ==> manager::section_problem(#[trigger] sections[j]) is None;
    if i < k {
        assert(sections[i] is Certificate);
    }
    if k < i {
        assert(manager::section_problem(sections[k]) is None);
    }
}

/// What is said about the certificates of the system if they can't be used: that there are none, or
/// that none of them works.
pub proof fn problems_of_the_system_are_explained(system: Seq<Seq<u8>>)
    requires
        forall|i: int|
            0 <= i < system.len() ==> manager::certificate_error(#[trigger] system[i]) is Some,
    ensures
        system.len() == 0 ==> manager::authorities_outcome(None, system) == Err::<
            Seq<Seq<u8>>,
            Seq<char>,
        >("unable to load default certificates, specify root ca"@),
        system.len() > 0 ==> manager::authorities_outcome(None, system) == Err::<
            Seq<Seq<u8>>,
            Seq<char>,
        >("unable to load any of the system certificates, specify root ca"@),
{
    lemma_usable(system);
}

/// How a connection is kept: a ping every 15 seconds, and packets of up to 50 megabytes, or 50 kilobytes
/// for a plain connection. The same error is reported again after ten seconds.
pub proof fn connections_have_limits()
    ensures
        manager::KEEP_ALIVE == 15,
        manager::MAX_PACKET_SIZE == 50_000_000,
        mqtt::MAX_PACKET_SIZE == 50_000,
        manager::STATUS_DEBOUNCE == 10 * 1000,
{
}

} // verus!
