use jobqueue::errors::{ErrorCode, QueueError};

#[test]
fn error_code_strings() {
    assert_eq!(ErrorCode::DatabaseError.as_str(), "DATABASE_ERROR");
    assert_eq!(ErrorCode::RedisError.as_str(), "REDIS_ERROR");
    assert_eq!(ErrorCode::AuthError.as_str(), "AUTH_ERROR");
    assert_eq!(ErrorCode::ValidationError.as_str(), "VALIDATION_ERROR");
    assert_eq!(ErrorCode::NotFound.as_str(), "NOT_FOUND");
    assert_eq!(ErrorCode::InternalError.as_str(), "INTERNAL_ERROR");
    assert_eq!(ErrorCode::BadRequest.as_str(), "BAD_REQUEST");
    assert_eq!(ErrorCode::Unauthorized.as_str(), "UNAUTHORIZED");
    assert_eq!(ErrorCode::Forbidden.as_str(), "FORBIDDEN");
    assert_eq!(ErrorCode::Conflict.as_str(), "CONFLICT");
    assert_eq!(ErrorCode::JwtError.as_str(), "JWT_ERROR");
    assert_eq!(ErrorCode::MqttError.as_str(), "MQTT_ERROR");
    assert_eq!(ErrorCode::QueueError.as_str(), "QUEUE_ERROR");
}

#[test]
fn queue_error_messages_are_distinct() {
    let errors = vec![
        QueueError::StoreUnavailable,
        QueueError::StoreTimeout,
        QueueError::SerializationError,
        QueueError::NotFound,
        QueueError::Timeout,
    ];
    for (i, a) in errors.iter().enumerate() {
        assert!(!a.message().is_empty());
        for (j, b) in errors.iter().enumerate() {
            if i != j {
                assert_ne!(a.message(), b.message());
            }
        }
    }
    assert_eq!(QueueError::StoreUnavailable.message(), "store unavailable");
}
