use vstd::prelude::*;

verus! {

/// The kinds of failure the system distinguishes, and how each propagates.
#[derive(Clone, Debug)]
pub enum ArbitrageError {
    /// Transient: the consumer schedules a reconnect.
    Warning(String),
    /// Recoverable at a higher loop: disconnect and reconnect.
    GenericError(String),
    /// Ends the worker; the supervisor then shuts the process down.
    UnrecoverableError(String),
    /// Cooperative shutdown; not a failure.
    Exit,
    /// An inbound frame that could not be decoded.
    JsonError(String),
    /// Bad configuration: the process must not start.
    ConfigError(String),
}

pub type ArbitrageResult<T> = Result<T, ArbitrageError>;

/// The process-wide control message every long-lived task races against.
#[derive(Clone, Copy, PartialEq, Eq, Structural, Debug)]
pub enum AppMesssage {
    /// Clean exit.
    Exit,
    /// Exit after a worker failure.
    ExitOnFailure,
}

} // verus!
