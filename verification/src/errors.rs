use vstd::prelude::*;

verus! {

/// Errors surfaced by the queue engine.
///
/// `StoreUnavailable` is returned when the health probe reports the backing
/// store down, before any slower operation is attempted. `StoreTimeout`
/// covers a single store operation that exceeded its deadline. A record that
/// cannot be decoded yields `SerializationError`. `NotFound` means a job id
/// is unknown (or its record has expired), and `Timeout` means a result was
/// polled for but the job has not reached a terminal status yet.
#[derive(Clone, Copy, Debug, PartialEq, Eq, Structural)]
pub enum QueueError {
    StoreUnavailable,
    StoreTimeout,
    SerializationError,
    NotFound,
    Timeout,
}

impl QueueError {
    /// A stable machine-readable name for the error.
    pub fn message(&self) -> (r: &'static str)
        ensures
            r@ == self.spec_message(),
    {
        match self {
            QueueError::StoreUnavailable => "store unavailable",
            QueueError::StoreTimeout => "store operation timed out",
            QueueError::SerializationError => "job record could not be decoded",
            QueueError::NotFound => "job not found",
            QueueError::Timeout => "timed out waiting for job result",
        }
    }

    pub open spec fn spec_message(&self) -> Seq<char> {
        match self {
            QueueError::StoreUnavailable => "store unavailable"@,
            QueueError::StoreTimeout => "store operation timed out"@,
            QueueError::SerializationError => "job record could not be decoded"@,
            QueueError::NotFound => "job not found"@,
            QueueError::Timeout => "timed out waiting for job result"@,
        }
    }
}

/// Error codes used in API responses.
#[derive(Clone, Copy, Debug, PartialEq, Eq, Structural)]
pub enum ErrorCode {
    DatabaseError,
    RedisError,
    AuthError,
    ValidationError,
    NotFound,
    InternalError,
    BadRequest,
    Unauthorized,
    Forbidden,
    Conflict,
    JwtError,
    MqttError,
    QueueError,
}

impl ErrorCode {
    pub fn as_str(&self) -> (r: &'static str)
        ensures
            r@ == self.spec_str(),
    {
        match self {
            ErrorCode::DatabaseError => "DATABASE_ERROR",
            ErrorCode::RedisError => "REDIS_ERROR",
            ErrorCode::AuthError => "AUTH_ERROR",
            ErrorCode::ValidationError => "VALIDATION_ERROR",
            ErrorCode::NotFound => "NOT_FOUND",
            ErrorCode::InternalError => "INTERNAL_ERROR",
            ErrorCode::BadRequest => "BAD_REQUEST",
            ErrorCode::Unauthorized => "UNAUTHORIZED",
            ErrorCode::Forbidden => "FORBIDDEN",
            ErrorCode::Conflict => "CONFLICT",
            ErrorCode::JwtError => "JWT_ERROR",
            ErrorCode::MqttError => "MQTT_ERROR",
            ErrorCode::QueueError => "QUEUE_ERROR",
        }
    }

    pub open spec fn spec_str(&self) -> Seq<char> {
        match self {
            ErrorCode::DatabaseError => "DATABASE_ERROR"@,
            ErrorCode::RedisError => "REDIS_ERROR"@,
            ErrorCode::AuthError => "AUTH_ERROR"@,
            ErrorCode::ValidationError => "VALIDATION_ERROR"@,
            ErrorCode::NotFound => "NOT_FOUND"@,
            ErrorCode::InternalError => "INTERNAL_ERROR"@,
            ErrorCode::BadRequest => "BAD_REQUEST"@,
            ErrorCode::Unauthorized => "UNAUTHORIZED"@,
            ErrorCode::Forbidden => "FORBIDDEN"@,
            ErrorCode::Conflict => "CONFLICT"@,
            ErrorCode::JwtError => "JWT_ERROR"@,
            ErrorCode::MqttError => "MQTT_ERROR"@,
            ErrorCode::QueueError => "QUEUE_ERROR"@,
        }
    }
}

} // verus!
