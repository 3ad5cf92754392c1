use dcm::error::DockerError;

#[test]
fn api_error_message() {
    assert_eq!(DockerError::Api("no such container".to_string()).message(), "docker API error: no such container");
}

#[test]
fn io_error_message() {
    let e: DockerError = std::io::Error::new(std::io::ErrorKind::NotFound, "gone").into();
    assert!(matches!(e, DockerError::Io(_)));
    assert_eq!(e.message(), "IO error: gone");
}

#[test]
fn json_error_message() {
    let inner = serde_json::from_str::<serde_json::Value>("{").unwrap_err();
    let text = inner.to_string();
    let e = DockerError::from(inner);
    assert!(matches!(e, DockerError::Json(_)));
    assert_eq!(e.message(), format!("JSON error: {text}"));
}
