use systemd_units::error::{ServiceError, TimerError};

#[test]
fn test_error_display() {
    let err = ServiceError::ServiceNotFound("nginx".to_string());
    assert_eq!(err.to_string(), "Service not found: nginx");
    let err = ServiceError::InvalidServiceName("../../etc/passwd".to_string());
    assert!(err.to_string().contains("Invalid service name"));
    let err = ServiceError::CommandFailed {
        command: "systemctl start nginx".to_string(),
        exit_code: 1,
        stderr: "Failed to start".to_string(),
    };
    assert!(err.to_string().contains("exit code 1"));
}

#[test]
fn test_error_from_io() {
    let io_err = std::io::Error::new(std::io::ErrorKind::NotFound, "file not found");
    let service_err: ServiceError = io_err.into();
    assert!(matches!(service_err, ServiceError::IoError(_)));
}

#[test]
fn error_texts_exact() {
    let e = ServiceError::CommandFailed { command: "c".to_string(), exit_code: -3, stderr: "s".to_string() };
    assert_eq!(e.to_string(), "Command 'c' failed with exit code -3: s");
    let t = TimerError::CommandFailed { command: "c".to_string(), stderr: "s".to_string(), exit_code: Some(2) };
    assert_eq!(t.to_string(), "Command 'c' failed with exit code Some(2): s");
    let t = TimerError::CommandFailed { command: "c".to_string(), stderr: "s".to_string(), exit_code: None };
    assert_eq!(t.to_string(), "Command 'c' failed with exit code None: s");
    let p = TimerError::ParseError { source: "a".to_string(), reason: "b".to_string() };
    assert_eq!(p.to_string(), "Failed to parse a: b");
    assert_eq!(TimerError::NotFound("x".to_string()).to_string(), "Timer or service not found: x");
}
