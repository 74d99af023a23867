//! Errors & utilities to manage them.

use vstd::prelude::*;

use crate::event_manager;
use crate::event_manager::{EventCore, EventType};
use crate::with_source;
use crate::with_source::ValueWithSource;

verus! {

/// An error that was generated outside of this crate, by its texts.
#[derive(Debug)]
pub struct ForeignError {
    /// The message of the error.
    pub display: String,
    /// The technical description of the error.
    pub debug: String,
}

/// The error type of this crate.
///
/// Any error that needs to propagate up needs to be of this type, and any error generated by another
/// crate that isn't handled needs to be wrapped in this type.
#[derive(Debug)]
pub enum Error {
    /// Wrapped errors for a failed reconcile action.
    FinalizerError(ForeignError),
    /// A misconfiguration of a Kubernetes resource. This is only for problems that require a change
    /// to a resource to resolve, not for temporary failures that might resolve by themselves.
    InvalidResource {
        /// The path of the portion of the resource that is problematic.
        ///
        /// This should be a partial JSON path that can be appended directly to another path (e.g.
        /// `.foo` or `[12]`) so that the full path can be emitted easily.
        field_path: String,
        /// A human-readable message describing the problem with the value.
        message: String,
    },
    /// The MQTT broker responded in an unexpected manner.
    MQTTError(String, Option<ForeignError>),
    /// The Zigbee2MQTT application responded in an unexpected manner.
    Zigbee2MQTTError(String),
    /// Something in the process of reading and processing messages for a subscription failed.
    SubscriptionError {
        /// The topic of the subscription that generated this error.
        topic: String,
        /// A human-readable message describing the issue.
        message: String,
        /// The underlying error that caused this issue, if any.
        source: Option<ForeignError>,
    },
    /// A manager has been shut down and should no longer be used.
    ManagerShutDown(Option<Box<Error>>),
    /// Some invariant failed. This probably indicates a bug, and it will cause the affected
    /// subsystem to be restarted to get back to a known state.
    InvariantFailed(String, Option<Box<Error>>),
    /// Something prevented the requested action from completing successfully. This is the catch-all
    /// for all errors that don't fit any of the more specific types.
    ActionFailed(String, Option<ForeignError>),
}

/// The model of a [`ForeignError`].
#[verifier::ext_equal]
pub struct ForeignErrorModel {
    /// The message of the error.
    pub display: Seq<char>,
    /// The technical description of the error.
    pub debug: Seq<char>,
}

/// The model of an [`Error`].
#[verifier::ext_equal]
pub enum ErrorModel {
    /// See [`Error::FinalizerError`].
    FinalizerError(ForeignErrorModel),
    /// See [`Error::InvalidResource`].
    InvalidResource {
        /// The path.
        field_path: Seq<char>,
        /// The message.
        message: Seq<char>,
    },
    /// See [`Error::MQTTError`].
    MQTTError(Seq<char>, Option<ForeignErrorModel>),
    /// See [`Error::Zigbee2MQTTError`].
    Zigbee2MQTTError(Seq<char>),
    /// See [`Error::SubscriptionError`].
    SubscriptionError {
        /// The topic.
        topic: Seq<char>,
        /// The message.
        message: Seq<char>,
        /// The cause.
        source: Option<ForeignErrorModel>,
    },
    /// See [`Error::ManagerShutDown`].
    ManagerShutDown(Option<Box<ErrorModel>>),
    /// See [`Error::InvariantFailed`].
    InvariantFailed(Seq<char>, Option<Box<ErrorModel>>),
    /// See [`Error::ActionFailed`].
    ActionFailed(Seq<char>, Option<ForeignErrorModel>),
}

impl View for ForeignError {
    type V = ForeignErrorModel;

    open spec fn view(&self) -> ForeignErrorModel {
        ForeignErrorModel { display: self.display@, debug: self.debug@ }
    }
}

/// The model of a cause that may be missing.
pub open spec fn cause_model(cause: Option<ForeignError>) -> Option<ForeignErrorModel> {
    match cause {
        Some(e) => Some(e@),
        None => None,
    }
}

/// The model of an error that may be missing.
pub open spec fn optional_model(error: Option<Box<Error>>) -> Option<Box<ErrorModel>>
    decreases error,
{
    match error {
        Some(e) => Some(Box::new(error_model(*e))),
        None => None,
    }
}

/// The model of an error.
pub open spec fn error_model(error: Error) -> ErrorModel
    decreases error,
{
    match error {
        Error::FinalizerError(e) => ErrorModel::FinalizerError(e@),
        Error::InvalidResource { field_path, message } => ErrorModel::InvalidResource {
            field_path: field_path@,
            message: message@,
        },
        Error::MQTTError(message, cause) => ErrorModel::MQTTError(message@, cause_model(cause)),
        Error::Zigbee2MQTTError(message) => ErrorModel::Zigbee2MQTTError(message@),
        Error::SubscriptionError { topic, message, source } => ErrorModel::SubscriptionError {
            topic: topic@,
            message: message@,
            source: cause_model(source),
        },
        Error::ManagerShutDown(reason) => ErrorModel::ManagerShutDown(optional_model(reason)),
        Error::InvariantFailed(message, cause) => ErrorModel::InvariantFailed(
            message@,
            optional_model(cause),
        ),
        Error::ActionFailed(message, cause) => ErrorModel::ActionFailed(
            message@,
            cause_model(cause),
        ),
    }
}

impl View for Error {
    type V = ErrorModel;

    open spec fn view(&self) -> ErrorModel {
        error_model(*self)
    }
}

impl Clone for ForeignError {
    fn clone(&self) -> (r: Self)
        ensures
            r == *self,
    {
        ForeignError { display: self.display.clone(), debug: self.debug.clone() }
    }
}

fn cloned_cause(cause: &Option<ForeignError>) -> (r: Option<ForeignError>)
    ensures
        r == *cause,
{
    match cause {
        Some(e) => Some(e.clone()),
        None => None,
    }
}

fn cloned_error(error: &Error) -> (r: Error)
    ensures
        r == *error,
    decreases error,
{
    match error {
        Error::FinalizerError(e) => Error::FinalizerError(e.clone()),
        Error::InvalidResource { field_path, message } => Error::InvalidResource {
            field_path: field_path.clone(),
            message: message.clone(),
        },
        Error::MQTTError(message, cause) => Error::MQTTError(message.clone(), cloned_cause(cause)),
        Error::Zigbee2MQTTError(message) => Error::Zigbee2MQTTError(message.clone()),
        Error::SubscriptionError { topic, message, source } => Error::SubscriptionError {
            topic: topic.clone(),
            message: message.clone(),
            source: cloned_cause(source),
        },
        Error::ManagerShutDown(reason) => Error::ManagerShutDown(
            match reason {
                Some(e) => Some(Box::new(cloned_error(e))),
                None => None,
            },
        ),
        Error::InvariantFailed(message, cause) => Error::InvariantFailed(
            message.clone(),
            match cause {
                Some(e) => Some(Box::new(cloned_error(e))),
                None => None,
            },
        ),
        Error::ActionFailed(message, cause) => Error::ActionFailed(
            message.clone(),
            cloned_cause(cause),
        ),
    }
}

impl Clone for Error {
    fn clone(&self) -> (r: Self)
        ensures
            r == *self,
    {
        cloned_error(self)
    }
}

/// A string as it reads in a technical description: in quotes, with the escapes that it needs.
pub uninterp spec fn described(s: Seq<char>) -> Seq<char>;

/// The `{:?}` notation that `std` gives to a string, which is named [`described`].
#[verifier::external_body]
pub(crate) fn describe_text(s: &str) -> (r: String)
    ensures
        r@ == described(s@),
{
    format!("{:?}", s)
}

/// The technical description of a cause that may be missing.
pub open spec fn cause_description(cause: Option<ForeignErrorModel>) -> Seq<char> {
    match cause {
        Some(e) => "Some("@ + e.debug + ")"@,
        None => "None"@,
    }
}

/// The technical description of an error that may be missing.
pub open spec fn optional_description(error: Option<Box<ErrorModel>>) -> Seq<char>
    decreases error,
{
    match error {
        Some(e) => "Some("@ + description(*e) + ")"@,
        None => "None"@,
    }
}

/// The technical description of an error.
pub open spec fn description(error: ErrorModel) -> Seq<char>
    decreases error,
{
    match error {
        ErrorModel::FinalizerError(e) => "FinalizerError("@ + e.debug + ")"@,
        ErrorModel::InvalidResource { field_path, message } => "InvalidResource { field_path: "@
            + described(field_path) + ", message: "@ + described(message) + " }"@,
        ErrorModel::MQTTError(message, cause) => "MQTTError("@ + described(message) + ", "@
            + cause_description(cause) + ")"@,
        ErrorModel::Zigbee2MQTTError(message) => "Zigbee2MQTTError("@ + described(message) + ")"@,
        ErrorModel::SubscriptionError { topic, message, source } => "SubscriptionError { topic: "@
            + described(topic) + ", message: "@ + described(message) + ", source: "@
            + cause_description(source) + " }"@,
        ErrorModel::ManagerShutDown(reason) => "ManagerShutDown("@ + optional_description(reason)
            + ")"@,
        ErrorModel::InvariantFailed(message, cause) => "InvariantFailed("@ + described(message)
            + ", "@ + optional_description(cause) + ")"@,
        ErrorModel::ActionFailed(message, cause) => "ActionFailed("@ + described(message) + ", "@
            + cause_description(cause) + ")"@,
    }
}

/// A description that ends with something in parentheses, given how it starts and how that reads.
pub fn enclose(start: &str, argument: &str) -> (r: String)
    ensures
        r@ == start@ + argument@ + ")"@,
{
    start.to_owned().concat(argument).concat(")")
}

/// A description that ends with two things in parentheses, given how it starts and how these read.
pub fn enclose_both(start: &str, first: &str, second: &str) -> (r: String)
    ensures
        r@ == start@ + first@ + ", "@ + second@ + ")"@,
{
    start.to_owned().concat(first).concat(", ").concat(second).concat(")")
}

/// The technical description of an [`Error::InvalidResource`], given how its fields read.
pub fn describe_invalid(field_path: &str, message: &str) -> (r: String)
    ensures
        r@ == "InvalidResource { field_path: "@ + field_path@ + ", message: "@ + message@ + " }"@,
{
    "InvalidResource { field_path: ".to_owned().concat(field_path).concat(", message: ").concat(
        message,
    ).concat(" }")
}

/// The technical description of an [`Error::SubscriptionError`], given how its fields read.
pub fn describe_subscription(topic: &str, message: &str, source: &str) -> (r: String)
    ensures
        r@ == "SubscriptionError { topic: "@ + topic@ + ", message: "@ + message@ + ", source: "@
            + source@ + " }"@,
{
    "SubscriptionError { topic: ".to_owned().concat(topic).concat(", message: ").concat(
        message,
    ).concat(", source: ").concat(source).concat(" }")
}

fn describe_cause(cause: &Option<ForeignError>) -> (r: String)
    ensures
        r@ == cause_description(cause_model(*cause)),
{
    match cause {
        Some(e) => enclose("Some(", e.debug.as_str()),
        None => "None".to_owned(),
    }
}

fn describe_optional(error: &Option<Box<Error>>) -> (r: String)
    ensures
        r@ == optional_description(optional_model(*error)),
    decreases error,
{
    match error {
        Some(e) => enclose("Some(", describe_error(e).as_str()),
        None => "None".to_owned(),
    }
}

fn describe_error(error: &Error) -> (r: String)
    ensures
        r@ == description(error@),
    decreases error,
{
    match error {
        Error::FinalizerError(e) => enclose("FinalizerError(", e.debug.as_str()),
        Error::InvalidResource { field_path, message } => describe_invalid(
            describe_text(field_path.as_str()).as_str(),
            describe_text(message.as_str()).as_str(),
        ),
        Error::MQTTError(message, cause) => enclose_both(
            "MQTTError(",
            describe_text(message.as_str()).as_str(),
            describe_cause(cause).as_str(),
        ),
        Error::Zigbee2MQTTError(message) => enclose(
            "Zigbee2MQTTError(",
            describe_text(message.as_str()).as_str(),
        ),
        Error::SubscriptionError { topic, message, source } => describe_subscription(
            describe_text(topic.as_str()).as_str(),
            describe_text(message.as_str()).as_str(),
            describe_cause(source).as_str(),
        ),
        Error::ManagerShutDown(reason) => enclose(
            "ManagerShutDown(",
            describe_optional(reason).as_str(),
        ),
        Error::InvariantFailed(message, cause) => enclose_both(
            "InvariantFailed(",
            describe_text(message.as_str()).as_str(),
            describe_optional(cause).as_str(),
        ),
        Error::ActionFailed(message, cause) => enclose_both(
            "ActionFailed(",
            describe_text(message.as_str()).as_str(),
            describe_cause(cause).as_str(),
        ),
    }
}

/// The part of a message that names a cause, if there is one.
pub open spec fn cause_suffix(cause: Option<ForeignErrorModel>) -> Seq<char> {
    match cause {
        Some(e) => ": "@ + e.debug,
        None => ""@,
    }
}

/// The part of a message that names an underlying error, if there is one.
pub open spec fn error_suffix(error: Option<Box<ErrorModel>>) -> Seq<char> {
    match error {
        Some(e) => ": "@ + description(*e),
        None => ""@,
    }
}

/// The human-readable message of an error.
pub open spec fn message_of(error: ErrorModel) -> Seq<char> {
    match error {
        ErrorModel::FinalizerError(e) => "Finalizer error: "@ + e.display,
        ErrorModel::InvalidResource { field_path, message } => "Invalid resource at "@ + field_path
            + ": "@ + message,
        ErrorModel::MQTTError(message, cause) => "MQTT error: "@ + message + cause_suffix(cause),
        ErrorModel::Zigbee2MQTTError(message) => "Zigbee2MQTT error: "@ + message,
        ErrorModel::SubscriptionError { topic, message, source } => "Subscription error on topic "@
            + topic + ": "@ + message + cause_suffix(source),
        ErrorModel::ManagerShutDown(reason) => "Manager has been shut down"@ + error_suffix(reason),
        ErrorModel::InvariantFailed(message, cause) => "Invariant failed: "@ + message
            + error_suffix(cause),
        ErrorModel::ActionFailed(message, _) => "Action failed: "@ + message,
    }
}

fn suffix_of_cause(cause: &Option<ForeignError>) -> (r: String)
    ensures
        r@ == cause_suffix(cause_model(*cause)),
{
    match cause {
        Some(e) => ": ".to_owned().concat(e.debug.as_str()),
        None => "".to_owned(),
    }
}

fn suffix_of_error(error: &Option<Box<Error>>) -> (r: String)
    ensures
        r@ == error_suffix(optional_model(*error)),
{
    match error {
        Some(e) => ": ".to_owned().concat(describe_error(e).as_str()),
        None => "".to_owned(),
    }
}

impl Error {
    /// The human-readable message of this error.
    pub fn message(&self) -> (r: String)
        ensures
            r@ == message_of(self@),
    {
        match self {
            Error::FinalizerError(e) => "Finalizer error: ".to_owned().concat(e.display.as_str()),
            Error::InvalidResource { field_path, message } => "Invalid resource at ".to_owned().concat(
            field_path.as_str()).concat(": ").concat(message.as_str()),
            Error::MQTTError(message, cause) => "MQTT error: ".to_owned().concat(
                message.as_str(),
            ).concat(suffix_of_cause(cause).as_str()),
            Error::Zigbee2MQTTError(message) => "Zigbee2MQTT error: ".to_owned().concat(
                message.as_str(),
            ),
            Error::SubscriptionError { topic, message, source } => "Subscription error on topic ".to_owned().concat(
            topic.as_str()).concat(": ").concat(message.as_str()).concat(
                suffix_of_cause(source).as_str(),
            ),
            Error::ManagerShutDown(reason) => "Manager has been shut down".to_owned().concat(
                suffix_of_error(reason).as_str(),
            ),
            Error::InvariantFailed(message, cause) => "Invariant failed: ".to_owned().concat(
                message.as_str(),
            ).concat(suffix_of_error(cause).as_str()),
            Error::ActionFailed(message, _) => "Action failed: ".to_owned().concat(
                message.as_str(),
            ),
        }
    }

    /// The technical description of this error.
    pub fn describe(&self) -> (r: String)
        ensures
            r@ == description(self@),
    {
        describe_error(self)
    }

    /// Add the source of the value that caused this error.
    pub fn caused_by<T>(self, value: &ValueWithSource<T>) -> (r: ErrorWithMeta)
        ensures
            r@ == (ErrorWithMetaModel { error: self@, source: value.path(), published: false }),
    {
        let source = match value.source() {
            Some(s) => Some(s.clone()),
            None => None,
        };
        ErrorWithMeta { error: self, source, published: false }
    }

    /// Wrap the error without a source, for errors that aren't caused by a specific value.
    pub fn unknown_cause(self) -> (r: ErrorWithMeta)
        ensures
            r@ == (ErrorWithMetaModel { error: self@, source: None, published: false }),
    {
        ErrorWithMeta { error: self, source: None, published: false }
    }
}

/// An error together with what is known about its circumstances.
#[derive(Debug)]
pub struct ErrorWithMeta {
    error: Error,
    source: Option<String>,
    published: bool,
}

/// The model of an [`ErrorWithMeta`].
#[verifier::ext_equal]
pub struct ErrorWithMetaModel {
    /// The error.
    pub error: ErrorModel,
    /// The source of the value that caused the error, if known.
    pub source: Option<Seq<char>>,
    /// Whether an event has already been published for the error.
    pub published: bool,
}

impl View for ErrorWithMeta {
    type V = ErrorWithMetaModel;

    closed spec fn view(&self) -> ErrorWithMetaModel {
        ErrorWithMetaModel {
            error: self.error@,
            source: with_source::path_of(self.source),
            published: self.published,
        }
    }
}

impl ErrorWithMeta {
    /// The error itself.
    pub fn error(&self) -> (r: &Error)
        ensures
            r@ == self@.error,
    {
        &self.error
    }

    /// The source of the value that caused the error, if known.
    pub fn source(&self) -> (r: &Option<String>)
        ensures
            with_source::path_of(*r) == self@.source,
    {
        &self.source
    }

    /// Whether an event has already been published for the error.
    pub fn published(&self) -> (r: bool)
        ensures
            r == self@.published,
    {
        self.published
    }

    /// Mark the error as published.
    pub fn mark_published(self) -> (r: Self)
        ensures
            r@ == (ErrorWithMetaModel { published: true, ..self@ }),
    {
        ErrorWithMeta { error: self.error, source: self.source, published: true }
    }
}

/// An [`enum@Error`] for which an event has already been published.
///
/// Created with [`EmittableResult`].
#[derive(Debug)]
pub struct EmittedError(pub Error);

/// The error with the path at which the event about it is published: for a misconfiguration the two
/// paths are combined.
pub open spec fn relocated(error: ErrorModel, field_path: Seq<char>) -> ErrorModel {
    match error {
        ErrorModel::InvalidResource { field_path: inner, message } => ErrorModel::InvalidResource {
            field_path: field_path + inner,
            message,
        },
        _ => error,
    }
}

/// The path at which the event about an error is published.
pub open spec fn event_path(error: ErrorModel, field_path: Seq<char>) -> Seq<char> {
    match error {
        ErrorModel::InvalidResource { field_path: inner, .. } => field_path + inner,
        _ => field_path,
    }
}

/// Helper to emit an [`enum@Error`] contained inside a [`Result`], converting it to an
/// [`EmittedError`] in the process. The event is handed back, and is to be published.
pub trait EmittableResult<V>: Sized {
    /// The result that the error, if any, is contained in.
    spec fn outcome(self) -> Result<V, Error>;

    /// Emit the event, using the given path as context for the source of the error (see
    /// [`EventCore::field_path`]).
    ///
    /// For [`Error::InvalidResource`] the paths will be combined as
    /// `{field_path}{error.field_path}`.
    fn emit_event(self, field_path: &str) -> (r: (Result<V, EmittedError>, Option<EventCore>))
        ensures
            match self.outcome() {
                Ok(value) => r.0 == Ok::<V, EmittedError>(value) && r.1 is None,
                Err(error) => {
                    &&& r.0 matches Err(emitted) && emitted.0@ == relocated(error@, field_path@)
                    &&& r.1 matches Some(event) && event@ == event_manager::reconciling(
                        message_of(relocated(error@, field_path@)),
                        EventType::Warning,
                        Some(event_path(error@, field_path@)),
                    )
                },
            },
    ;

    /// Emit the event.
    fn emit_event_nopath(self) -> (r: (Result<V, EmittedError>, Option<EventCore>))
        ensures
            match self.outcome() {
                Ok(value) => r.0 == Ok::<V, EmittedError>(value) && r.1 is None,
                Err(error) => {
                    &&& r.0 == Err::<V, EmittedError>(EmittedError(error))
                    &&& r.1 matches Some(event) && event@ == event_manager::reconciling(
                        message_of(error@),
                        EventType::Warning,
                        None,
                    )
                },
            },
    ;

    /// Mark error as published without actually publishing anything. This should only be used in
    /// cases where one or more events have already been published for the error manually.
    fn fake_emit_event(self) -> (r: Result<V, EmittedError>)
        ensures
            match self.outcome() {
                Ok(value) => r == Ok::<V, EmittedError>(value),
                Err(error) => r == Err::<V, EmittedError>(EmittedError(error)),
            },
    ;
}

impl<V> EmittableResult<V> for Result<V, Error> {
    open spec fn outcome(self) -> Result<V, Error> {
        self
    }

    fn emit_event(self, field_path: &str) -> (r: (Result<V, EmittedError>, Option<EventCore>)) {
        match self {
            Ok(value) => (Ok(value), None),
            // Special case for Error::InvalidResource where we combine the two paths and use the
            // result for both the InvalidResource path and the EventCore path.
            Err(Error::InvalidResource { field_path: inner, message }) => {
                let combined = field_path.to_owned().concat(inner.as_str());
                let error = Error::InvalidResource { field_path: combined.clone(), message };
                let event = event_manager::reconciling_event(
                    error.message(),
                    EventType::Warning,
                    Some(combined),
                );
                (Err(EmittedError(error)), Some(event))
            },
            Err(error) => {
                let event = event_manager::reconciling_event(
                    error.message(),
                    EventType::Warning,
                    Some(field_path.to_owned()),
                );
                (Err(EmittedError(error)), Some(event))
            },
        }
    }

    fn emit_event_nopath(self) -> (r: (Result<V, EmittedError>, Option<EventCore>)) {
        match self {
            Ok(value) => (Ok(value), None),
            Err(error) => {
                let event = event_manager::reconciling_event(
                    error.message(),
                    EventType::Warning,
                    None,
                );
                (Err(EmittedError(error)), Some(event))
            },
        }
    }

    fn fake_emit_event(self) -> (r: Result<V, EmittedError>) {
        match self {
            Ok(value) => Ok(value),
            Err(error) => Err(EmittedError(error)),
        }
    }
}

} // verus!
