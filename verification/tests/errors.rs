use ec3api::error::ApiError;

#[test]
fn each_failure_has_its_sentence() {
    assert_eq!(ApiError::RequestError().message(), "Request failed");
    assert_eq!(
        ApiError::EmptyArray().message(),
        "Request succeded but the material list is empty"
    );
    assert_eq!(ApiError::GwpError.message(), "Wrong GWP format");
    assert_eq!(ApiError::SerializationError.message(), "Serialization error");
    assert_eq!(ApiError::UnitError.message(), "Wrong Unit format");
    assert_eq!(ApiError::AuthError.message(), "Api rejected authentication");
    assert_eq!(ApiError::TooManyRequest("slow down".to_string()).message(), "Too many requests");
    let io = std::io::Error::new(std::io::ErrorKind::NotFound, "gone");
    assert_eq!(ApiError::CacheError(io).message(), "Could not read cache");
    let bad = serde_json::from_str::<serde_json::Value>("{").unwrap_err();
    assert_eq!(ApiError::Deserialize(bad).message(), "Could not deserialize");
    let bad = serde_json::from_str::<serde_json::Value>("{").unwrap_err();
    assert_eq!(ApiError::DeserializationError(bad).message(), "Deserialization error");
}

#[test]
fn outside_failures_convert() {
    let io = std::io::Error::new(std::io::ErrorKind::NotFound, "gone");
    assert!(matches!(ApiError::from(io), ApiError::CacheError(_)));
    let bad = serde_json::from_str::<serde_json::Value>("nope").unwrap_err();
    assert!(matches!(ApiError::from(bad), ApiError::Deserialize(_)));
}
