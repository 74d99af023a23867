use zigbee2mqtt_operator::error::{
    describe_invalid, describe_subscription, enclose, enclose_both, EmittableResult, Error,
    ForeignError,
};
use zigbee2mqtt_operator::event_manager::EventType;
use zigbee2mqtt_operator::with_source::ValueWithSource;
use zigbee2mqtt_operator::{background_task_error, configured_seconds, failure_seconds};

fn foreign() -> ForeignError {
    ForeignError { display: "shown".to_owned(), debug: "Debugged".to_owned() }
}

fn invalid() -> Error {
    Error::InvalidResource { field_path: ".a".to_owned(), message: "bad".to_owned() }
}

fn all_errors() -> Vec<Error> {
    vec![
        Error::FinalizerError(foreign()),
        invalid(),
        Error::MQTTError("m".to_owned(), None),
        Error::MQTTError("m".to_owned(), Some(foreign())),
        Error::Zigbee2MQTTError("z \"q\"".to_owned()),
        Error::SubscriptionError {
            topic: "t".to_owned(),
            message: "s".to_owned(),
            source: None,
        },
        Error::SubscriptionError {
            topic: "t".to_owned(),
            message: "s".to_owned(),
            source: Some(foreign()),
        },
        Error::ManagerShutDown(None),
        Error::ManagerShutDown(Some(Box::new(invalid()))),
        Error::InvariantFailed("i".to_owned(), None),
        Error::InvariantFailed("i\n".to_owned(), Some(Box::new(Error::ManagerShutDown(None)))),
        Error::ActionFailed("a".to_owned(), None),
        Error::ActionFailed("a".to_owned(), Some(foreign())),
    ]
}

#[test]
fn every_error_has_a_message() {
    let messages: Vec<String> = all_errors().iter().map(Error::message).collect();
    assert_eq!(
        messages,
        vec![
            "Finalizer error: shown",
            "Invalid resource at .a: bad",
            "MQTT error: m",
            "MQTT error: m: Debugged",
            "Zigbee2MQTT error: z \"q\"",
            "Subscription error on topic t: s",
            "Subscription error on topic t: s: Debugged",
            "Manager has been shut down",
            "Manager has been shut down: InvalidResource { field_path: \".a\", message: \"bad\" }",
            "Invariant failed: i",
            "Invariant failed: i\n: ManagerShutDown(None)",
            "Action failed: a",
            "Action failed: a",
        ],
    );
}

#[test]
fn every_error_has_a_description() {
    let descriptions: Vec<String> = all_errors().iter().map(Error::describe).collect();
    assert_eq!(
        descriptions,
        vec![
            "FinalizerError(Debugged)",
            "InvalidResource { field_path: \".a\", message: \"bad\" }",
            "MQTTError(\"m\", None)",
            "MQTTError(\"m\", Some(Debugged))",
            "Zigbee2MQTTError(\"z \\\"q\\\"\")",
            "SubscriptionError { topic: \"t\", message: \"s\", source: None }",
            "SubscriptionError { topic: \"t\", message: \"s\", source: Some(Debugged) }",
            "ManagerShutDown(None)",
            "ManagerShutDown(Some(InvalidResource { field_path: \".a\", message: \"bad\" }))",
            "InvariantFailed(\"i\", None)",
            "InvariantFailed(\"i\\n\", Some(ManagerShutDown(None)))",
            "ActionFailed(\"a\", None)",
            "ActionFailed(\"a\", Some(Debugged))",
        ],
    );
}

#[test]
fn copies_are_the_same() {
    for error in all_errors() {
        assert_eq!(error.clone().describe(), error.describe());
    }
}

#[test]
fn causes_have_sources() {
    let value = ValueWithSource::new(1, Some("spec.a".to_owned()));
    let error = invalid().caused_by(&value);
    assert_eq!(error.source().as_deref(), Some("spec.a"));
    assert!(!error.published());
    let error = error.mark_published();
    assert!(error.published());
    assert_eq!(error.source().as_deref(), Some("spec.a"));
    assert_eq!(error.error().message(), "Invalid resource at .a: bad");
    assert_eq!(*invalid().unknown_cause().source(), None);
}

#[test]
fn paths_are_combined() {
    let (result, event) = Err::<(), Error>(invalid()).emit_event("spec");
    assert_eq!(result.unwrap_err().0.message(), "Invalid resource at spec.a: bad");
    let event = event.unwrap();
    assert_eq!(event.action, "Reconciling");
    assert_eq!(event.reason, "Created");
    assert_eq!(event.note.as_deref(), Some("Invalid resource at spec.a: bad"));
    assert_eq!(event.field_path.as_deref(), Some("spec.a"));
    assert_eq!(event.type_, EventType::Warning);
}

#[test]
fn other_errors_keep_their_text() {
    let (result, event) =
        Err::<(), Error>(Error::Zigbee2MQTTError("z".to_owned())).emit_event("spec");
    assert_eq!(result.unwrap_err().0.message(), "Zigbee2MQTT error: z");
    assert_eq!(event.unwrap().field_path.as_deref(), Some("spec"));
}

#[test]
fn events_without_a_path() {
    let (result, event) = Err::<(), Error>(invalid()).emit_event_nopath();
    assert_eq!(result.unwrap_err().0.message(), "Invalid resource at .a: bad");
    assert_eq!(event.unwrap().field_path, None);
}

#[test]
fn success_emits_nothing() {
    let (result, event) = Ok::<u8, Error>(3).emit_event("spec");
    assert_eq!(result.unwrap(), 3);
    assert!(event.is_none());
    let (result, event) = Ok::<u8, Error>(3).emit_event_nopath();
    assert_eq!(result.unwrap(), 3);
    assert!(event.is_none());
    assert_eq!(Ok::<u8, Error>(3).fake_emit_event().unwrap(), 3);
    let error = Err::<u8, Error>(invalid()).fake_emit_event().unwrap_err();
    assert_eq!(error.0.message(), "Invalid resource at .a: bad");
}

#[test]
fn stopped_tasks_are_errors() {
    assert_eq!(
        background_task_error("task", Ok(())).message(),
        "Invariant failed: task closed",
    );
    assert_eq!(
        background_task_error("task", Err(Error::ManagerShutDown(None))).message(),
        "Invariant failed: task encountered an error: ManagerShutDown(None)",
    );
}

#[test]
fn intervals_are_configured() {
    assert_eq!(configured_seconds(Some("42"), 60), Some(42));
    assert_eq!(configured_seconds(Some("+7"), 60), Some(7));
    assert_eq!(configured_seconds(None, 60), Some(60));
    for wrong in ["", "+", "-1", "1s", " 1", "18446744073709551616"] {
        assert_eq!(configured_seconds(Some(wrong), 60), wrong.parse::<u64>().ok());
        assert_eq!(configured_seconds(Some(wrong), 60), None);
    }
    assert_eq!(
        configured_seconds(Some("18446744073709551615"), 60),
        Some(u64::MAX),
    );
}

#[test]
fn failures_have_their_own_interval() {
    assert_eq!(failure_seconds(Some("3"), Some("100")), Some(3));
    assert_eq!(failure_seconds(None, Some("100")), Some(100));
    assert_eq!(failure_seconds(None, None), Some(15));
    assert_eq!(failure_seconds(Some("x"), Some("100")), None);
}

#[test]
fn descriptions_are_put_together() {
    assert_eq!(enclose("Some(", "x"), "Some(x)");
    assert_eq!(enclose_both("F(", "x", "y"), "F(x, y)");
    assert_eq!(
        describe_invalid("\"p\"", "\"m\""),
        "InvalidResource { field_path: \"p\", message: \"m\" }",
    );
    assert_eq!(
        describe_subscription("\"t\"", "\"m\"", "None"),
        "SubscriptionError { topic: \"t\", message: \"m\", source: None }",
    );
}
