//! Subscriptions to MQTT topics, and what becomes of the messages that they receive.

use vstd::prelude::*;

use crate::error;
use crate::error::{Error, ForeignError};

verus! {

/// Some messages were lost, because they weren't read fast enough.
#[derive(Clone, Copy, Debug, PartialEq, Eq, Structural)]
pub struct Lagged(pub u64);

/// An error of the subscription to a topic.
pub open spec fn subscription_error(topic: Seq<char>, message: Seq<char>) -> error::ErrorModel {
    error::ErrorModel::SubscriptionError { topic, message, source: None }
}

fn fail(topic: &String, message: &str) -> (r: Error)
    ensures
        r@ == subscription_error(topic@, message@),
{
    Error::SubscriptionError { topic: topic.clone(), message: message.to_owned(), source: None }
}

/// A subscription to an MQTT topic.
#[derive(Debug)]
pub struct TopicSubscription<R> {
    receiver: R,
    topic: String,
}

impl<R> TopicSubscription<R> {
    /// What receives the messages.
    pub closed spec fn source(self) -> R {
        self.receiver
    }

    /// The topic.
    pub closed spec fn name(self) -> Seq<char> {
        self.topic@
    }

    /// Create a subscription from what receives its messages.
    pub fn new(receiver: R, topic: String) -> (r: Self)
        ensures
            r.source() == receiver,
            r.name() == topic@,
    {
        Self { receiver, topic }
    }

    /// What receives the messages.
    pub fn receiver(&self) -> (r: &R)
        ensures
            *r == self.source(),
    {
        &self.receiver
    }

    /// The topic.
    pub fn get_topic(&self) -> (r: &String)
        ensures
            r@ == self.name(),
    {
        &self.topic
    }

    /// Create a copy of this subscription with a receiver of its own. This copy will not get any of
    /// the currently pending messages, it will only get messages that are received after its
    /// creation.
    pub fn resubscribe(&self, receiver: R) -> (r: Self)
        ensures
            r.source() == receiver,
            r.name() == self.name(),
    {
        Self { receiver, topic: self.topic.clone() }
    }

    /// Create a TopicStream from this subscription, consuming it in the process.
    pub fn stream(self) -> (r: TopicStream<R>)
        ensures
            r.inner() == self.source(),
            r.name() == self.name(),
    {
        TopicStream { stream: self.receiver, topic: self.topic }
    }

    /// Create a TopicStream from this subscription, leaving a copy with a new receiver in its place.
    pub fn stream_swap(&mut self, receiver: R) -> (r: TopicStream<R>)
        ensures
            r.inner() == old(self).source(),
            r.name() == old(self).name(),
            final(self).source() == receiver,
            final(self).name() == old(self).name(),
    {
        let mut receiver = receiver;
        std::mem::swap(&mut receiver, &mut self.receiver);
        TopicStream { stream: receiver, topic: self.topic.clone() }
    }
}

/// A streaming wrapper for a subscription to an MQTT topic.
#[derive(Debug)]
pub struct TopicStream<St> {
    stream: St,
    topic: String,
}

/// What to do after waiting for another item.
#[derive(Debug)]
pub enum LastStep<V> {
    /// Wait for another item, with this one being the last so far.
    Wait(V),
    /// Nothing more is to come.
    Done(Result<V, Error>),
}

/// What to do after waiting for another item, which brought an item, an error, or nothing for too
/// long.
pub open spec fn last_step<V>(latest: V, waited: Option<Result<V, Error>>) -> LastStep<V> {
    match waited {
        Some(Ok(item)) => LastStep::Wait(item),
        Some(Err(error)) => LastStep::Done(Err(error)),
        None => LastStep::Done(Ok(latest)),
    }
}

/// The outcome of waiting again and again, until there is nothing more to come.
pub open spec fn last_outcome<V>(latest: V, events: Seq<Option<Result<V, Error>>>) -> Option<
    Result<V, Error>,
>
    decreases events.len(),
{
    if events.len() == 0 {
        None
    } else {
        match last_step(latest, events[0]) {
            LastStep::Wait(next) => last_outcome(next, events.drop_first()),
            LastStep::Done(outcome) => Some(outcome),
        }
    }
}

/// Once nothing has come for too long the item that came last is the outcome.
pub proof fn last_is_latest<V>(first: V, items: Seq<V>)
    ensures
        last_outcome(
            first,
            items.map_values(|item: V| Some(Ok::<V, Error>(item))).push(None),
        ) == Some(
            Ok::<V, Error>(
                if items.len() == 0 {
                    first
                } else {
                    items.last()
                },
            ),
        ),
    decreases items.len(),
{
    let events = items.map_values(|item: V| Some(Ok::<V, Error>(item))).push(None);
    if items.len() > 0 {
        last_is_latest(items[0], items.drop_first());
        assert(events.drop_first() =~= items.drop_first().map_values(
            |item: V| Some(Ok::<V, Error>(item)),
        ).push(None));
    }
}

impl<St> TopicStream<St> {
    /// What the items come from.
    pub closed spec fn inner(self) -> St {
        self.stream
    }

    /// The topic.
    pub closed spec fn name(self) -> Seq<char> {
        self.topic@
    }

    /// What the items come from.
    pub fn stream(&mut self) -> (r: &mut St)
        ensures
            *r == old(self).inner(),
            final(self).inner() == *final(r),
            final(self).name() == old(self).name(),
    {
        &mut self.stream
    }

    /// Filter out any lag events.
    pub fn filter_lag<V>(&self, value: Result<V, Lagged>) -> (r: Option<Result<V, Error>>)
        ensures
            match value {
                Ok(item) => r == Some(Ok::<V, Error>(item)),
                Err(_) => r is None,
            },
    {
        match value {
            Ok(item) => Some(Ok(item)),
            Err(_) => None,
        }
    }

    /// Convert lag events to errors.
    pub fn map_lag_to_error<V>(&self, value: Result<V, Lagged>) -> (r: Result<V, Error>)
        ensures
            match value {
                Ok(item) => r == Ok::<V, Error>(item),
                Err(_) => r matches Err(e) && e@ == subscription_error(
                    self.name(),
                    "subscription lagged, some messages have been lost"@,
                ),
            },
    {
        match value {
            Ok(item) => Ok(item),
            Err(_) => Err(fail(&self.topic, "subscription lagged, some messages have been lost")),
        }
    }

    /// Take what a payload was parsed to, or convert to an error if parsing failed. The payload and
    /// the type are given as they read in a message.
    pub fn parse_payload<T>(
        &self,
        payload: &str,
        type_: &str,
        parsed: Result<T, ForeignError>,
    ) -> (r: Result<T, Error>)
        ensures
            match parsed {
                Ok(value) => r == Ok::<T, Error>(value),
                Err(cause) => r matches Err(e) && e@ == (error::ErrorModel::SubscriptionError {
                    topic: self.name(),
                    message: "failed to parse message "@ + payload@ + " to "@ + type_@,
                    source: Some(cause@),
                }),
            },
    {
        match parsed {
            Ok(value) => Ok(value),
            Err(cause) => Err(
                Error::SubscriptionError {
                    topic: self.topic.clone(),
                    message: "failed to parse message ".to_owned().concat(payload).concat(
                        " to ",
                    ).concat(type_),
                    source: Some(cause),
                },
            ),
        }
    }

    /// Take what a payload was parsed to, or filter out the message if the parsing failed.
    pub fn parse_payload_or_skip<T>(&self, parsed: Result<T, ForeignError>) -> (r: Option<
        Result<T, Error>,
    >)
        ensures
            match parsed {
                Ok(value) => r == Some(Ok::<T, Error>(value)),
                Err(_) => r is None,
            },
    {
        match parsed {
            Ok(value) => Some(Ok(value)),
            Err(_) => None,
        }
    }

    /// Filter non-errors.
    pub fn filter_ok<V, F: Fn(&V) -> bool>(&self, value: Result<V, Error>, f: F) -> (r: Option<
        Result<V, Error>,
    >)
        requires
            value matches Ok(item) ==> f.requires((&item,)),
        ensures
            match value {
                Ok(item) => {
                    ||| r == Some(value) && f.ensures((&item,), true)
                    ||| r is None && f.ensures((&item,), false)
                },
                Err(_) => r == Some(value),
            },
    {
        match value {
            Ok(item) => if f(&item) {
                Some(Ok(item))
            } else {
                None
            },
            Err(error) => Some(Err(error)),
        }
    }

    /// Map non-errors.
    pub fn map_ok<V, NV, F: FnOnce(V) -> Result<NV, Error>>(
        &self,
        value: Result<V, Error>,
        f: F,
    ) -> (r: Result<NV, Error>)
        requires
            value matches Ok(item) ==> f.requires((item,)),
        ensures
            match value {
                Ok(item) => f.ensures((item,), r),
                Err(error) => r == Err::<NV, Error>(error),
            },
    {
        match value {
            Ok(item) => f(item),
            Err(error) => Err(error),
        }
    }

    /// Filter & map non-errors.
    pub fn filter_map_ok<V, NV, F: FnOnce(V) -> Option<Result<NV, Error>>>(
        &self,
        value: Result<V, Error>,
        f: F,
    ) -> (r: Option<Result<NV, Error>>)
        requires
            value matches Ok(item) ==> f.requires((item,)),
        ensures
            match value {
                Ok(item) => f.ensures((item,), r),
                Err(error) => r == Some(Err::<NV, Error>(error)),
            },
    {
        match value {
            Ok(item) => f(item),
            Err(error) => Some(Err(error)),
        }
    }

    /// Take the next value, or return an error if the stream has ended.
    pub fn next_noclose<V>(&self, next: Option<Result<V, Error>>) -> (r: Result<V, Error>)
        ensures
            match next {
                Some(value) => r == value,
                None => r matches Err(e) && e@ == subscription_error(
                    self.name(),
                    "subscription closed"@,
                ),
            },
    {
        match next {
            Some(value) => value,
            None => Err(fail(&self.topic, "subscription closed")),
        }
    }

    /// Take the outcome of waiting for the next value, or return an error if there was none within
    /// the timeout.
    pub fn next_noclose_timeout<V>(&self, waited: Option<Result<V, Error>>) -> (r: Result<V, Error>)
        ensures
            match waited {
                Some(value) => r == value,
                None => r matches Err(e) && e@ == subscription_error(
                    self.name(),
                    "timeout while waiting for message"@,
                ),
            },
    {
        match waited {
            Some(value) => value,
            None => Err(fail(&self.topic, "timeout while waiting for message")),
        }
    }

    /// Keep reading the next item from the stream until:
    /// - the result is an error (which will be returned immediately).
    /// - getting the next item takes longer than the provided timeout (at which point the last item
    ///   will be returned).
    /// - the steam closes (which will result in an error, as next_noclose).
    ///
    /// This takes the last item so far and the outcome of waiting for another one, which is none if
    /// the timeout has elapsed.
    pub fn last<V>(&self, latest: V, waited: Option<Result<V, Error>>) -> (r: LastStep<V>)
        ensures
            r == last_step(latest, waited),
    {
        match waited {
            Some(Ok(item)) => LastStep::Wait(item),
            Some(Err(error)) => LastStep::Done(Err(error)),
            None => LastStep::Done(Ok(latest)),
        }
    }
}

} // verus!
