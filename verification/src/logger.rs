//! The sink: a threshold, a topic and a producer handle.

use crate::broker::{
    begins_visibly, bootstrap_servers, create_producer, drain, enqueue, message_timeout_ms,
    ProducerHandle,
};
use crate::level::{Level, LevelFilter};
use crate::record::{encoded, Record, RecordView};
use crate::text::{contains_char, has_prefix};
use rdkafka::error::KafkaError;
use vstd::prelude::*;

verus! {

/// How long the client may try to deliver one record, in milliseconds.
pub const MESSAGE_TIMEOUT_MS: u64 = 5000;

/// How long a flush may block, in seconds.
pub const FLUSH_TIMEOUT_SECS: u64 = 2;

/// Why a sink could not be set up.
#[derive(Clone, Copy, Debug, PartialEq, Eq, Structural)]
pub enum InitError {
    /// The broker client could not be constructed.
    ProducerCreationFailed,
    /// A sink is installed already.
    AlreadyInitialized,
}

/// Why a flush gave up.
#[derive(Clone, Copy, Debug, PartialEq, Eq, Structural)]
pub enum FlushError {
    /// Records were still waiting when the bound had passed.
    TimedOut,
}

/// What became of one log call.
#[derive(Clone, Copy, Debug, PartialEq, Eq, Structural)]
pub enum Delivery {
    /// The record did not pass the sink's filter; nothing was published.
    Suppressed,
    /// The client took the record into its buffer.
    Enqueued,
    /// The record passed the filter, but the client did not take it.
    Dropped,
}

impl InitError {
    /// What setting up the broker client comes to: the handle where the
    /// client gave one, and `ProducerCreationFailed` for any error of the
    /// client.
    pub fn check(created: Result<ProducerHandle, KafkaError>) -> (connected: Result<
        ProducerHandle,
        InitError,
    >)
        ensures
            match created {
                Ok(handle) => connected == Ok::<ProducerHandle, InitError>(handle),
                Err(_) => connected == Err::<ProducerHandle, InitError>(
                    InitError::ProducerCreationFailed,
                ),
            },
    {
        match created {
            Ok(handle) => Ok(handle),
            Err(_) => Err(InitError::ProducerCreationFailed),
        }
    }
}

impl FlushError {
    /// What a flush comes to: success where the client reported none of its
    /// records left, and `TimedOut` for any error of the client.
    pub fn check(drained: Result<(), KafkaError>) -> (flushed: Result<(), FlushError>)
        ensures
            flushed is Ok <==> drained is Ok,
            flushed is Err ==> flushed == Err::<(), FlushError>(FlushError::TimedOut),
    {
        match drained {
            Ok(_) => Ok(()),
            Err(_) => Err(FlushError::TimedOut),
        }
    }
}

impl Delivery {
    /// What became of a record that was handed to the broker client: it is
    /// enqueued where the client took it, and dropped for any error of the
    /// client.
    pub fn of(sent: Result<(), KafkaError>) -> (delivery: Delivery)
        ensures
            sent is Ok ==> delivery == Delivery::Enqueued,
            sent is Err ==> delivery == Delivery::Dropped,
    {
        match sent {
            Ok(_) => Delivery::Enqueued,
            Err(_) => Delivery::Dropped,
        }
    }
}

/// The namespace under which the broker client itself logs.
pub open spec fn suppressed_namespace() -> Seq<char> {
    "rdkafka"@
}

/// Whether a target belongs to the broker client's own namespace. Records
/// from there are never forwarded, since publishing them would make the
/// client log again.
pub open spec fn is_suppressed(target: Seq<char>) -> bool {
    suppressed_namespace().is_prefix_of(target)
}

/// What a sink is configured with: the servers and the delivery time of its
/// broker client, its threshold and its topic.
pub ghost struct LoggerView {
    pub servers: Seq<char>,
    pub message_timeout_ms: u64,
    pub filter: LevelFilter,
    pub topic: Seq<char>,
}

impl LoggerView {
    /// Whether this is what a sink that was asked for with `server`, `filter`
    /// and `topic` is configured with: the threshold, the topic and
    /// [`MESSAGE_TIMEOUT_MS`] as they are, and the servers as they were given
    /// where the list begins with a visible character.
    pub open spec fn is_configured(self, server: Seq<char>, filter: LevelFilter, topic: Seq<char>) -> bool {
        &&& self.filter == filter
        &&& self.topic == topic
        &&& self.message_timeout_ms == MESSAGE_TIMEOUT_MS
        &&& begins_visibly(server) ==> self.servers == server
    }

    /// What the sink hands to the broker client for a log call, if it hands
    /// anything: the payload, addressed to the sink's topic.
    pub open spec fn publication(self, level: Level, target: Seq<char>, message: Seq<char>) -> Option<
        PublicationView,
    > {
        match self.payload(level, target, message) {
            Some(payload) => Some(PublicationView { topic: self.topic, payload }),
            None => None,
        }
    }

    /// Whether the sink forwards a record of severity `level` from `target`:
    /// the level must be at least as severe as the threshold, and the target
    /// must lie outside the suppressed namespace.
    pub open spec fn accepts(self, level: Level, target: Seq<char>) -> bool {
        self.filter.admits(level) && !is_suppressed(target)
    }

    /// The payload that the sink publishes for a log call, if it publishes
    /// one.
    pub open spec fn payload(self, level: Level, target: Seq<char>, message: Seq<char>) -> Option<
        Seq<char>,
    > {
        if self.accepts(level, target) {
            Some(encoded(RecordView { level: level.name(), target, message }))
        } else {
            None
        }
    }

    /// Whether the broker client can be handed records for the topic.
    pub open spec fn deliverable(self) -> bool {
        !self.topic.contains('\0')
    }
}

/// One request to the broker client: a payload for a topic. A publication
/// has no key and names no partition, so that the client spreads the records
/// of a topic as it sees fit.
#[derive(Debug, PartialEq, Eq)]
pub struct Publication<'a> {
    pub topic: &'a str,
    pub payload: String,
}

/// The two texts of a [`Publication`].
pub ghost struct PublicationView {
    pub topic: Seq<char>,
    pub payload: Seq<char>,
}

impl<'a> View for Publication<'a> {
    type V = PublicationView;

    open spec fn view(&self) -> PublicationView {
        PublicationView { topic: self.topic@, payload: self.payload@ }
    }
}

/// A sink that publishes the records it accepts to one topic.
pub struct Logger {
    producer: ProducerHandle,
    filter: LevelFilter,
    topic: String,
    deliverable: bool,
}

impl View for Logger {
    type V = LoggerView;

    closed spec fn view(&self) -> LoggerView {
        LoggerView {
            servers: bootstrap_servers(self.producer),
            message_timeout_ms: message_timeout_ms(self.producer),
            filter: self.filter,
            topic: self.topic@,
        }
    }
}

impl ProducerHandle {
    /// Sets up a broker client for the given bootstrap servers, with
    /// [`MESSAGE_TIMEOUT_MS`] for the delivery of each record. The client
    /// connects in the background; a malformed address list makes the call
    /// fail.
    pub fn connect(servers: &str) -> (connected: Result<ProducerHandle, InitError>)
        ensures
            servers@.contains('\0') ==> connected is Err,
            connected matches Err(error) ==> error == InitError::ProducerCreationFailed,
            connected matches Ok(handle) ==> message_timeout_ms(handle) == MESSAGE_TIMEOUT_MS,
            connected matches Ok(handle) ==> (begins_visibly(servers@) ==> bootstrap_servers(handle)
                == servers@),
    {
        InitError::check(create_producer(servers, MESSAGE_TIMEOUT_MS))
    }
}

impl Logger {
    #[verifier::type_invariant]
    spec fn well_formed(self) -> bool {
        self.deliverable == !self.topic@.contains('\0')
    }

    /// A sink on an existing producer handle.
    pub fn new(producer: ProducerHandle, filter: LevelFilter, topic: &str) -> (logger: Logger)
        ensures
            logger@ == (LoggerView {
                servers: bootstrap_servers(producer),
                message_timeout_ms: message_timeout_ms(producer),
                filter,
                topic: topic@,
            }),
    {
        let deliverable = !contains_char(topic, '\0');
        Logger { producer, filter, topic: topic.to_owned(), deliverable }
    }

    /// Sets up a broker client for `server` and a sink on it. Fails where
    /// the client cannot be constructed, which is always the case for an
    /// address with a NUL character.
    pub fn init(server: &str, filter: LevelFilter, topic: &str) -> (made: Result<Logger, InitError>)
        ensures
            server@.contains('\0') ==> made is Err,
            made matches Err(error) ==> error == InitError::ProducerCreationFailed,
            made matches Ok(logger) ==> logger@.is_configured(server@, filter, topic@),
    {
        match ProducerHandle::connect(server) {
            Ok(producer) => Ok(Logger::new(producer, filter, topic)),
            Err(error) => Err(error),
        }
    }

    /// The threshold of the sink.
    pub fn filter(&self) -> (filter: LevelFilter)
        ensures
            filter == self@.filter,
    {
        self.filter
    }

    /// The topic that the sink publishes to.
    pub fn topic(&self) -> (topic: &str)
        ensures
            topic@ == self@.topic,
    {
        self.topic.as_str()
    }

    /// Decides whether a record of severity `level` from `target` is
    /// forwarded. At or above the threshold that depends on the target alone:
    /// the record is forwarded unless the target lies in the suppressed
    /// namespace. Below the threshold no record is forwarded.
    pub fn enabled(&self, level: Level, target: &str) -> (enabled: bool)
        ensures
            enabled == self@.accepts(level, target@),
            level.rank() <= self@.filter.rank() ==> (enabled <==> !is_suppressed(target@)),
            level.rank() > self@.filter.rank() ==> !enabled,
    {
        self.filter.allows(level) && !has_prefix(target, "rdkafka")
    }

    /// The request that [`Logger::log`] makes to the broker client for a log
    /// call: the payload of the record, addressed to the sink's topic. There
    /// is none where the call is filtered out.
    pub fn publication_for<'a>(&'a self, level: Level, target: &str, message: &str) -> (publication:
        Option<Publication<'a>>)
        ensures
            match publication {
                Some(request) => self@.publication(level, target@, message@) == Some(request@),
                None => self@.publication(level, target@, message@) is None,
            },
            publication is Some <==> self@.accepts(level, target@),
    {
        if self.enabled(level, target) {
            Some(
                Publication {
                    topic: self.topic.as_str(),
                    payload: Record::new(level, target, message).to_json(),
                },
            )
        } else {
            None
        }
    }

    /// Forwards one log call. For a record that the sink accepts, the
    /// request of [`Logger::publication_for`] is handed to the broker client
    /// once, without a key and without waiting. A record that the client
    /// does not take is dropped; no error reaches the caller.
    pub fn log(&self, level: Level, target: &str, message: &str) -> (delivery: Delivery)
        ensures
            delivery is Suppressed <==> !self@.accepts(level, target@),
            delivery is Suppressed <==> self@.publication(level, target@, message@) is None,
            delivery is Enqueued ==> self@.deliverable(),
    {
        proof {
            use_type_invariant(self);
        }
        match self.publication_for(level, target, message) {
            None => Delivery::Suppressed,
            Some(request) => {
                if !self.deliverable {
                    return Delivery::Dropped;
                }
                Delivery::of(enqueue(&self.producer, request.topic, request.payload.as_str()))
            },
        }
    }

    /// The bound that [`Logger::flush`] hands to the broker client, in
    /// seconds.
    pub fn flush_bound() -> (secs: u64)
        ensures
            secs == FLUSH_TIMEOUT_SECS,
    {
        FLUSH_TIMEOUT_SECS
    }

    /// Asks the broker client once to deliver every record it was handed,
    /// and blocks until it has done so or [`Logger::flush_bound`] seconds
    /// have passed. The only error is that the time ran out.
    pub fn flush(&self) -> (flushed: Result<(), FlushError>)
        ensures
            flushed matches Err(error) ==> error == FlushError::TimedOut,
    {
        FlushError::check(drain(&self.producer, Logger::flush_bound()))
    }
}

} // verus!
