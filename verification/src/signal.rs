//! The messages by which modules are told to persist and to shut down, and
//! the rules by which a module hears a shutdown that is meant for it.

use crate::bus::{BusError, BusMessage};
use crate::text::str_eq;
use vstd::prelude::*;

verus! {

/// Tells every module to persist its state.
#[derive(Debug, Clone, PartialEq, Eq)]
pub struct PersistModule {}

/// Tells the module of that name to shut down.
#[derive(Debug, Clone, PartialEq, Eq)]
pub struct ShutdownModule {
    pub module: String,
}

/// Says that the module of that name has shut down.
#[derive(Debug, Clone, PartialEq, Eq)]
pub struct ShutdownCompleted {
    pub module: String,
}

impl BusMessage for PersistModule {
}

impl BusMessage for ShutdownModule {
}

impl BusMessage for ShutdownCompleted {
}

/// Why work that heeds shutdowns did not come to its end.
#[derive(Debug, Clone, Copy, PartialEq, Eq)]
pub enum SignalError {
    /// A shutdown came first.
    ShutdownReceived,
    /// The time allowed ran out first.
    TimeoutReached,
}

/// Which shutdowns a listener heeds: those of one module, or all.
#[derive(Debug, Clone, PartialEq, Eq)]
pub enum ShutdownScope {
    Any,
    Module(String),
}

/// Whether a shutdown of `module` is meant for a listener of `scope`.
pub open spec fn heeds(scope: ShutdownScope, module: Seq<char>) -> bool {
    match scope {
        ShutdownScope::Any => true,
        ShutdownScope::Module(name) => name@ == module,
    }
}

/// Whether `event` is meant for a listener of `scope`.
pub fn shutdown_matches(scope: &ShutdownScope, event: &ShutdownModule) -> (r: bool)
    ensures
        r == heeds(*scope, event.module@),
{
    match scope {
        ShutdownScope::Any => true,
        ShutdownScope::Module(name) => str_eq(name.as_str(), event.module.as_str()),
    }
}

/// What a listener for shutdowns does next.
#[derive(Debug, Clone, Copy, PartialEq, Eq)]
pub enum ShutdownWatch {
    /// Wait for the next shutdown message.
    Listen,
    /// A shutdown was heard before: wait fifty milliseconds, then report it again.
    Linger,
    /// Report the shutdown.
    Shutdown,
    /// The channel gave no message: give up.
    Fail,
}

/// For how many milliseconds a listener that has heard its shutdown waits
/// before it reports it again.
pub const SHUTDOWN_LINGER_MS: u64 = 50;

/// How a listener starts: one that has heard its shutdown before lingers,
/// another listens.
pub fn receive_shutdown_start(should_shutdown: bool) -> (r: ShutdownWatch)
    ensures
        r == if should_shutdown {
            ShutdownWatch::Linger
        } else {
            ShutdownWatch::Listen
        },
{
    if should_shutdown {
        ShutdownWatch::Linger
    } else {
        ShutdownWatch::Listen
    }
}

/// How a listener goes on after the channel answered: a shutdown that is
/// meant for it is noted and reported, another is passed over, and a channel
/// that gives no message ends the listening.
pub fn receive_shutdown_event(
    scope: &ShutdownScope,
    should_shutdown: &mut bool,
    event: &Result<ShutdownModule, BusError>,
) -> (r: ShutdownWatch)
    ensures
        match *event {
            Ok(e) => if heeds(*scope, e.module@) {
                r == ShutdownWatch::Shutdown && *final(should_shutdown)
            } else {
                r == ShutdownWatch::Listen && *final(should_shutdown) == *old(should_shutdown)
            },
            Err(_) => r == ShutdownWatch::Fail && *final(should_shutdown) == *old(should_shutdown),
        },
{
    match event {
        Ok(e) => {
            if shutdown_matches(scope, e) {
                *should_shutdown = true;
                ShutdownWatch::Shutdown
            } else {
                ShutdownWatch::Listen
            }
        },
        Err(_) => ShutdownWatch::Fail,
    }
}

/// What came first of a piece of work, a shutdown and a timeout.
#[derive(Debug, PartialEq, Eq)]
pub enum Raced<T> {
    /// The listener for shutdowns came to an end, whichever way.
    Shutdown,
    /// The time allowed ran out.
    Timeout,
    /// The work finished with this result.
    Finished(T),
}

/// The result of work that heeds shutdowns: its own result if it finished
/// first, else what stopped it.
pub fn shutdown_aware_result<T>(raced: Raced<T>) -> (r: Result<T, SignalError>)
    ensures
        r == match raced {
            Raced::Shutdown => Err::<T, SignalError>(SignalError::ShutdownReceived),
            Raced::Timeout => Err::<T, SignalError>(SignalError::TimeoutReached),
            Raced::Finished(v) => Ok::<T, SignalError>(v),
        },
{
    match raced {
        Raced::Shutdown => Err(SignalError::ShutdownReceived),
        Raced::Timeout => Err(SignalError::TimeoutReached),
        Raced::Finished(v) => Ok(v),
    }
}

} // verus!
