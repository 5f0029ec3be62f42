//! The process-wide slot that holds the installed sink.

use crate::level::LevelFilter;
use crate::logger::{FlushError, InitError, Logger, LoggerView};
use vstd::prelude::*;

verus! {

/// The slot for the one sink of a process. It starts out empty, takes a sink
/// once and keeps it from then on.
pub struct Registry {
    sink: Option<Logger>,
}

impl View for Registry {
    type V = Option<LoggerView>;

    closed spec fn view(&self) -> Option<LoggerView> {
        match self.sink {
            Some(logger) => Some(logger@),
            None => None,
        }
    }
}

/// The threshold below which the host's logging facility need not ask the
/// sink at all: the threshold of the installed sink, and `Off` while there
/// is none.
pub open spec fn threshold(installed: Option<LoggerView>) -> LevelFilter {
    match installed {
        Some(logger) => logger.filter,
        None => LevelFilter::Off,
    }
}

impl Registry {
    /// An empty slot.
    pub fn new() -> (registry: Registry)
        ensures
            registry@ is None,
    {
        Registry { sink: None }
    }

    /// Whether a sink is installed.
    pub fn is_installed(&self) -> (installed: bool)
        ensures
            installed == self@ is Some,
    {
        self.sink.is_some()
    }

    /// The installed sink.
    pub fn sink(&self) -> (sink: Option<&Logger>)
        ensures
            match sink {
                Some(logger) => self@ == Some(logger@),
                None => self@ is None,
            },
    {
        self.sink.as_ref()
    }

    /// The global threshold that goes with the slot.
    pub fn max_level(&self) -> (level: LevelFilter)
        ensures
            level == threshold(self@),
    {
        match &self.sink {
            Some(logger) => logger.filter(),
            None => LevelFilter::Off,
        }
    }

    /// Puts `logger` into the slot if the slot is empty. A slot that holds a
    /// sink keeps it, and the call fails.
    pub fn install(&mut self, logger: Logger) -> (installed: Result<(), InitError>)
        ensures
            old(self)@ is None ==> installed is Ok && final(self)@ == Some(logger@),
            old(self)@ is Some ==> installed == Err::<(), InitError>(InitError::AlreadyInitialized)
                && *final(self) == *old(self),
    {
        if self.sink.is_some() {
            Err(InitError::AlreadyInitialized)
        } else {
            self.sink = Some(logger);
            Ok(())
        }
    }
}

/// Sets up a sink for the broker at `server` that forwards records at or
/// above `filter` to `topic`, and installs it in `registry`. The broker
/// client is constructed first; then the sink is installed, unless one is
/// installed already. A failed call leaves the registry as it was.
pub fn init(registry: &mut Registry, server: &str, filter: LevelFilter, topic: &str) -> (done: Result<
    (),
    InitError,
>)
    ensures
        done is Ok ==> old(registry)@ is None,
        done is Ok ==> (final(registry)@ matches Some(sink) && sink.is_configured(
            server@,
            filter,
            topic@,
        )),
        done is Err ==> *final(registry) == *old(registry),
        server@.contains('\0') ==> done == Err::<(), InitError>(InitError::ProducerCreationFailed),
        old(registry)@ is Some ==> done is Err,
        old(registry)@ is None ==> done != Err::<(), InitError>(InitError::AlreadyInitialized),
{
    match Logger::init(server, filter, topic) {
        Ok(logger) => registry.install(logger),
        Err(error) => Err(error),
    }
}

/// Waits for the installed sink to hand its remaining records to the broker.
/// With no sink installed there is nothing to wait for.
pub fn shutdown(registry: &Registry) -> (flushed: Result<(), FlushError>)
    ensures
        registry@ is None ==> flushed is Ok,
{
    match registry.sink() {
        Some(logger) => logger.flush(),
        None => Ok(()),
    }
}

} // verus!
