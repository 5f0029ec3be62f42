//! The broker client: a producer handle and the three calls the sink makes
//! on it.

use rdkafka::config::ClientConfig;
use rdkafka::error::KafkaError;
use rdkafka::producer::{BaseProducer, BaseRecord, Producer};
use std::time::Duration;
use vstd::prelude::*;

verus! {

/// The error type of `rdkafka`, carried through unread.
#[verifier::external_type_specification]
#[verifier::external_body]
pub struct ExKafkaError(KafkaError);

/// An exclusively owned `rdkafka::producer::BaseProducer`. The client keeps
/// its own buffer, network threads and retries, none of which is visible
/// here.
#[verifier::external_body]
pub struct ProducerHandle {
    inner: BaseProducer,
}

/// The text that the client behind a producer handle holds as its list of
/// bootstrap servers.
pub uninterp spec fn bootstrap_servers(handle: ProducerHandle) -> Seq<char>;

/// The time, in milliseconds, that the client behind a producer handle gives
/// each record for its delivery; 0 stands for no limit.
pub uninterp spec fn message_timeout_ms(handle: ProducerHandle) -> u64;

/// Whether a list of servers begins with a visible ASCII character, from `!`
/// to `~`. The client strips leading white space from a list before it
/// stores it; a list that begins in this way is stored as it was given.
pub open spec fn begins_visibly(servers: Seq<char>) -> bool {
    servers.len() > 0 && '!' <= servers[0] && servers[0] <= '~'
}

/// The largest delivery time that the client can be given, in milliseconds.
pub const MAX_MESSAGE_TIMEOUT_MS: u64 = 0x7fff_ffff;

/// Calls `ClientConfig::create` for a `BaseProducer`, with `servers` under
/// `bootstrap.servers` and `timeout_ms` under `message.timeout.ms`. Three
/// things are taken from the client's source and not verified here. The
/// client copies each setting into a C string first, so that a NUL character
/// in `servers` makes the call fail. It reads the time as a C `int`, which
/// holds every value up to [`MAX_MESSAGE_TIMEOUT_MS`], and a handle that
/// comes back holds that time. It stores the list of servers without its
/// leading white space, so that a handle that comes back holds `servers`
/// itself where the list begins with a visible ASCII character. Whether the
/// call succeeds on a list without NUL is for the client to say.
#[verifier::external_body]
pub(crate) fn create_producer(servers: &str, timeout_ms: u64) -> (created: Result<
    ProducerHandle,
    KafkaError,
>)
    requires
        timeout_ms <= MAX_MESSAGE_TIMEOUT_MS,
    ensures
        servers@.contains('\0') ==> created is Err,
        created matches Ok(handle) ==> message_timeout_ms(handle) == timeout_ms,
        created matches Ok(handle) ==> (begins_visibly(servers@) ==> bootstrap_servers(handle)
            == servers@),
{
    let made: Result<BaseProducer, KafkaError> = ClientConfig::new()
        .set("bootstrap.servers", servers)
        .set("message.timeout.ms", timeout_ms.to_string())
        .create();
    made.map(|inner| ProducerHandle { inner })
}

/// Calls `BaseProducer::send` with a record for `topic` that carries
/// `payload` and neither key nor partition. The call never blocks; it
/// reports whether the client took the record into its buffer. The client
/// panics on a topic with a NUL character, which the precondition rules out.
#[verifier::external_body]
pub(crate) fn enqueue(handle: &ProducerHandle, topic: &str, payload: &str) -> (sent: Result<
    (),
    KafkaError,
>)
    requires
        !topic@.contains('\0'),
{
    let record: BaseRecord<'_, (), str> = BaseRecord::to(topic).payload(payload);
    handle.inner.send(record).map_err(|(error, _)| error)
}

/// Calls `Producer::flush` with a bound of `timeout_secs` seconds. The call
/// blocks until the client's buffer is empty or the bound has passed, and
/// fails in the second case.
#[verifier::external_body]
pub(crate) fn drain(handle: &ProducerHandle, timeout_secs: u64) -> (drained: Result<(), KafkaError>) {
    handle.inner.flush(Duration::from_secs(timeout_secs))
}

} // verus!
