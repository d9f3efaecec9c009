//! Why a run stops.
use vstd::prelude::*;

verus! {

/// The remote call that a transport or decoding failure happened in.
#[derive(Clone, Copy, Debug, PartialEq, Eq, Structural)]
pub enum Step {
    Login,
    Semester,
    Version,
    Limits,
    Upload,
}

/// Why a recorded route cannot be replayed.
#[derive(Clone, Copy, Debug, PartialEq, Eq, Structural)]
pub enum RouteError {
    /// The route text is not a list of `east,north` points within range.
    Malformed,
    /// The route has fewer than two points, or no length at all.
    Degenerate,
}

/// Every failure of a run; none of them is retried.
#[derive(Clone, Copy, Debug, PartialEq, Eq, Structural)]
pub enum RunError {
    /// The login was refused or its answer could not be read.
    LoginFailed,
    /// A request failed at the HTTP layer, including a non-2xx status.
    Transport(Step),
    /// An answer did not have the expected shape.
    Deserialization(Step),
    /// The clamped distance is below the minimum effective distance.
    DistanceTooLow,
    /// The clamped distance, though not below the minimum, is too short for
    /// the distance jitter to leave a positive distance.
    SessionTooShort,
    /// The clamped distance is beyond what a session can hold.
    DistanceTooHigh,
    /// A mileage figure from the server is not a decimal number.
    MalformedMileage,
    /// The recorded route is unusable.
    Route(RouteError),
    /// The clock reads a time that cannot be written as a date.
    ClockOutOfRange,
    /// A step was asked for before the steps it depends on.
    OutOfOrder,
}

} // verus!
