use std::io;
use swwws::error::{
    ConfigError, ErrorContext, ErrorReporting, ImageDiscoveryError, IpcError, ProcessError,
    QueueError, StateError, SwwwError, SwwwsError, SystemError, ValidationError,
};

#[test]
fn test_config_error_user_friendly_message() {
    let error = ConfigError::FileRead {
        path: "/nonexistent/config.toml".to_string(),
        source: io::Error::new(io::ErrorKind::NotFound, "File not found"),
    };
    let swwws_error = SwwwsError::Config(error);

    let message = swwws_error.user_friendly_message();
    assert!(message.contains("Configuration file not found"));
    assert!(message.contains("/nonexistent/config.toml"));
}

#[test]
fn test_image_discovery_error_user_friendly_message() {
    let error = ImageDiscoveryError::NoImagesFound { path: "/empty/directory".to_string() };
    let swwws_error = SwwwsError::ImageDiscovery(error);

    let message = swwws_error.user_friendly_message();
    assert!(message.contains("No images found"));
    assert!(message.contains("/empty/directory"));
}

#[test]
fn test_process_error_user_friendly_message() {
    let error = ProcessError::NonZeroExit { code: 1, stderr: "Socket file not found".to_string() };
    let swwws_error = SwwwsError::Process(error);

    let message = swwws_error.user_friendly_message();
    assert!(message.contains("Command returned non-zero exit code"));
    assert!(message.contains("1"));
}

#[test]
fn test_error_conversion() {
    let io_error = io::Error::new(io::ErrorKind::NotFound, "File not found");
    let swwws_error: SwwwsError = io_error.into();

    match swwws_error {
        SwwwsError::System(SystemError::FileSystem) => {}
        _ => panic!("Expected SystemError::FileSystem"),
    }
}

#[test]
fn test_validation_error() {
    let error = ValidationError::General { message: "Duration must be positive".to_string() };
    let swwws_error = SwwwsError::Validation(error);

    let message = swwws_error.user_friendly_message();
    assert!(message.contains("Validation failed"));
    assert!(message.contains("Duration must be positive"));
}

#[test]
fn test_error_context() {
    let error = ConfigError::FileRead {
        path: "/test/config.toml".to_string(),
        source: io::Error::new(io::ErrorKind::PermissionDenied, "Permission denied"),
    };

    let swwws_error = SwwwsError::Config(error);

    let message = swwws_error.user_friendly_message();
    assert!(message.contains("Configuration file not found"));
    assert!(message.contains("/test/config.toml"));
}

#[test]
fn friendly_messages_are_exact() {
    let e = SwwwsError::Config(ConfigError::FileRead {
        path: "/a/b.toml".to_string(),
        source: io::Error::new(io::ErrorKind::NotFound, "x"),
    });
    assert_eq!(e.user_friendly_message(), "Configuration file not found: \"/a/b.toml\"");
    let e = SwwwsError::Config(ConfigError::TomlParse { message: "bad".to_string() });
    assert_eq!(e.user_friendly_message(), "Invalid configuration format: bad");
    let e = SwwwsError::Swww(SwwwError::DaemonNotFound);
    assert_eq!(
        e.user_friendly_message(),
        "swww daemon is not running. Please start swww-daemon first."
    );
    let e = SwwwsError::Ipc(IpcError::DaemonUnresponsive);
    assert_eq!(
        e.user_friendly_message(),
        "swwws daemon is not responding. Please restart the daemon."
    );
    let e = SwwwsError::State(StateError::FileRead {
        path: "/s.json".to_string(),
        source: io::Error::new(io::ErrorKind::NotFound, "x"),
    });
    assert_eq!(e.user_friendly_message(), "Failed to read state file: \"/s.json\"");
    let e = SwwwsError::Process(ProcessError::NonZeroExit { code: -7, stderr: String::new() });
    assert_eq!(
        e.user_friendly_message(),
        "Process execution error: Command returned non-zero exit code: -7"
    );
}

#[test]
fn messages_of_every_area() {
    let io_err = || io::Error::new(io::ErrorKind::Other, "x");
    assert_eq!(
        SwwwsError::Config(ConfigError::Validation { message: "m".to_string() }).message(),
        "Configuration error: Configuration validation failed: m"
    );
    assert_eq!(
        ConfigError::MissingField { field: "path".to_string() }.message(),
        "Missing required configuration: path"
    );
    assert_eq!(
        ConfigError::InvalidValue { field: "queue_size".to_string(), value: "0".to_string() }
            .message(),
        "Invalid configuration value for queue_size: 0"
    );
    assert_eq!(ConfigError::NoConfigDir.message(), "Could not determine config directory");
    assert_eq!(
        ConfigError::FileRead { path: "/c".to_string(), source: io_err() }.message(),
        "Failed to read configuration file: \"/c\""
    );
    assert_eq!(
        ImageDiscoveryError::DirectoryRead { path: "/d".to_string(), source: io_err() }.message(),
        "Failed to read directory: \"/d\""
    );
    assert_eq!(
        ImageDiscoveryError::FileAccess { path: "/d".to_string(), source: io_err() }.message(),
        "Failed to access image file: \"/d\""
    );
    assert_eq!(
        ImageDiscoveryError::UnsupportedFormat { path: "/d".to_string() }.message(),
        "Unsupported image format: \"/d\""
    );
    assert_eq!(
        ImageDiscoveryError::CorruptedImage { path: "/d".to_string() }.message(),
        "Image file is corrupted or invalid: \"/d\""
    );
    assert_eq!(QueueError::EmptyQueue.message(), "Queue is empty");
    assert_eq!(
        QueueError::InvalidPosition { position: 12, max: 7 }.message(),
        "Invalid queue position: 12 (max: 7)"
    );
    assert_eq!(
        QueueError::StateRestore { message: "m".to_string() }.message(),
        "Failed to restore queue from state: m"
    );
    assert_eq!(QueueError::Sorting { message: "m".to_string() }.message(), "Queue sorting error: m");
    assert_eq!(SwwwError::OutputDiscovery.message(), "Failed to discover swww outputs");
    assert_eq!(
        SwwwError::CommandExecution { command: "img".to_string(), stderr: String::new() }
            .message(),
        "swww command execution failed: \"img\""
    );
    assert_eq!(
        SwwwError::InvalidOutput { output: "DP-1".to_string() }.message(),
        "Invalid swww output: DP-1"
    );
    assert_eq!(SwwwError::Process { message: "m".to_string() }.message(), "swww process error: m");
    assert_eq!(IpcError::SocketCreation.message(), "Failed to create IPC socket");
    assert_eq!(IpcError::Connection.message(), "Failed to connect to daemon");
    assert_eq!(IpcError::Send.message(), "Failed to send IPC message");
    assert_eq!(IpcError::Receive.message(), "Failed to receive IPC response");
    assert_eq!(IpcError::Timeout.message(), "IPC timeout");
    assert_eq!(IpcError::InvalidMessage.message(), "Invalid IPC message format");
    assert_eq!(
        StateError::FileWrite { path: "/s".to_string(), source: io_err() }.message(),
        "Failed to write state file: \"/s\""
    );
    assert_eq!(StateError::Serialization.message(), "Failed to serialize state");
    assert_eq!(StateError::Deserialization.message(), "Failed to deserialize state");
    assert_eq!(
        StateError::Corrupted { message: "m".to_string() }.message(),
        "State file is corrupted: m"
    );
    assert_eq!(StateError::DirectoryCreation.message(), "Failed to create state directory");
    assert_eq!(
        ProcessError::Execution { command: "swww".to_string(), source: io_err() }.message(),
        "Command execution failed: \"swww\""
    );
    assert_eq!(ProcessError::Timeout.message(), "Command timed out");
    assert_eq!(ProcessError::Killed.message(), "Command was killed");
    assert_eq!(SystemError::Time.message(), "Failed to get current time");
    assert_eq!(SystemError::TempFile.message(), "Failed to create temporary file");
    assert_eq!(SystemError::Permissions.message(), "Insufficient permissions");
    assert_eq!(SystemError::ResourceLimit.message(), "System resource limit exceeded");
    assert_eq!(
        ValidationError::InvalidPath { path: "/p".to_string() }.message(),
        "Invalid path: \"/p\""
    );
    assert_eq!(
        ValidationError::InvalidDuration { duration: "3x".to_string() }.message(),
        "Invalid duration: 3x"
    );
    assert_eq!(
        ValidationError::InvalidOutput { output: "o".to_string() }.message(),
        "Invalid output name: o"
    );
    assert_eq!(
        ValidationError::InvalidImageFormat { format: "xyz".to_string() }.message(),
        "Invalid image format: xyz"
    );
    assert_eq!(
        SwwwsError::Queue(QueueError::EmptyQueue).message(),
        "Queue error: Queue is empty"
    );
    assert_eq!(
        SwwwsError::System(SystemError::FileSystem).message(),
        "System error: Failed to access file system"
    );
}

#[test]
fn quoting_escapes_what_rust_escapes() {
    let e = ValidationError::InvalidPath { path: "a\"b\\c".to_string() };
    assert_eq!(e.message(), "Invalid path: \"a\\\"b\\\\c\"");
}

#[test]
fn the_error_of_a_result_becomes_an_error_of_the_system() {
    let failed: Result<u8, io::Error> = Err(io::Error::new(io::ErrorKind::Other, "x"));
    match failed.with_context("reading") {
        Err(SwwwsError::System(SystemError::FileSystem)) => {}
        other => panic!("unexpected: {:?}", other),
    }
    let fine: Result<u8, io::Error> = Ok(7);
    assert_eq!(fine.with_context("reading").unwrap(), 7);
    let own: Result<u8, SwwwsError> = Err(SwwwsError::Ipc(IpcError::Timeout));
    match own.with_context(String::from("waiting")) {
        Err(SwwwsError::Ipc(IpcError::Timeout)) => {}
        other => panic!("unexpected: {:?}", other),
    }
}

#[test]
fn errors_of_the_readers_and_writers() {
    let json = serde_json::from_str::<bool>("{").unwrap_err();
    match SwwwsError::from(json) {
        SwwwsError::State(StateError::Serialization) => {}
        other => panic!("unexpected: {:?}", other),
    }
    let de = toml::from_str::<toml::Table>("a = ").unwrap_err();
    let said = de.to_string();
    assert!(!said.is_empty());
    match SwwwsError::from_toml_de(de) {
        SwwwsError::Config(ConfigError::TomlParse { message }) => assert_eq!(message, said),
        other => panic!("unexpected: {:?}", other),
    }
    let ser = toml::to_string(&5u8).unwrap_err();
    let said = ser.to_string();
    assert!(!said.is_empty());
    match SwwwsError::from_toml_ser(ser) {
        SwwwsError::Config(ConfigError::TomlParse { message }) => assert_eq!(message, said),
        other => panic!("unexpected: {:?}", other),
    }
}
