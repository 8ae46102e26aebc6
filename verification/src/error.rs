//! The errors of the system, by area, and the messages shown for them.

use crate::text::{
    debug_text, decimal, decimal_text, join, join3, owned, quoted, signed_decimal,
    signed_decimal_text,
};
use vstd::prelude::*;
use vstd::std_specs::convert::FromSpecImpl;

verus! {

/// `std::io::Error`, carried as the source of an error and never read.
#[verifier::external_type_specification]
#[verifier::external_body]
pub struct ExIoError(std::io::Error);

/// `serde_json::Error`, taken for what it is and never read.
#[verifier::external_type_specification]
#[verifier::external_body]
pub struct ExJsonError(serde_json::Error);

/// `toml::de::Error`, of which only the displayed text is taken.
#[verifier::external_type_specification]
#[verifier::external_body]
pub struct ExTomlDeError(toml::de::Error);

/// `toml::ser::Error`, of which only the displayed text is taken.
#[verifier::external_type_specification]
#[verifier::external_body]
pub struct ExTomlSerError(toml::ser::Error);

/// `std::io::Error::new` with the kind `NotFound` and the given message.
#[verifier::external_body]
pub(crate) fn not_found(message: &str) -> (r: std::io::Error) {
    std::io::Error::new(std::io::ErrorKind::NotFound, message)
}

/// `std::io::Error::new` with the kind `InvalidInput` and the given message.
#[verifier::external_body]
pub(crate) fn invalid_input(message: &str) -> (r: std::io::Error) {
    std::io::Error::new(std::io::ErrorKind::InvalidInput, message)
}

/// Any error of the system, by the area it comes from.
#[derive(Debug)]
pub enum SwwwsError {
    Config(ConfigError),
    ImageDiscovery(ImageDiscoveryError),
    Queue(QueueError),
    Swww(SwwwError),
    Ipc(IpcError),
    State(StateError),
    Process(ProcessError),
    System(SystemError),
    Validation(ValidationError),
}

/// Errors of reading and checking the configuration.
#[derive(Debug)]
pub enum ConfigError {
    FileRead { path: String, source: std::io::Error },
    TomlParse { message: String },
    Validation { message: String },
    MissingField { field: String },
    InvalidValue { field: String, value: String },
    NoConfigDir,
}

/// Errors of finding images on disk.
#[derive(Debug)]
pub enum ImageDiscoveryError {
    DirectoryRead { path: String, source: std::io::Error },
    NoImagesFound { path: String },
    FileAccess { path: String, source: std::io::Error },
    UnsupportedFormat { path: String },
    CorruptedImage { path: String },
}

/// Errors of a rotation queue.
#[derive(Debug)]
pub enum QueueError {
    EmptyQueue,
    InvalidPosition { position: usize, max: usize },
    StateRestore { message: String },
    Sorting { message: String },
}

/// Errors of the wallpaper service.
#[derive(Debug)]
pub enum SwwwError {
    DaemonNotFound,
    OutputDiscovery,
    CommandExecution { command: String, stderr: String },
    InvalidOutput { output: String },
    Process { message: String },
}

/// Errors of the control channel.
#[derive(Debug)]
pub enum IpcError {
    SocketCreation,
    Connection,
    Send,
    Receive,
    Timeout,
    InvalidMessage,
    DaemonUnresponsive,
}

/// Errors of the persisted snapshot.
#[derive(Debug)]
pub enum StateError {
    FileRead { path: String, source: std::io::Error },
    FileWrite { path: String, source: std::io::Error },
    Serialization,
    Deserialization,
    Corrupted { message: String },
    DirectoryCreation,
}

/// Errors of running a command.
#[derive(Debug)]
pub enum ProcessError {
    Execution { command: String, source: std::io::Error },
    NonZeroExit { code: i32, stderr: String },
    Timeout,
    Killed,
}

/// Errors of the machine the daemon runs on.
#[derive(Debug)]
pub enum SystemError {
    Time,
    TempFile,
    FileSystem,
    Permissions,
    ResourceLimit,
}

/// Errors of a value that does not pass a check.
#[derive(Debug)]
pub enum ValidationError {
    InvalidPath { path: String },
    InvalidDuration { duration: String },
    InvalidOutput { output: String },
    InvalidImageFormat { format: String },
    General { message: String },
}

impl ConfigError {
    /// The message of this error.
    pub open spec fn message_text(&self) -> Seq<char> {
        match self {
            ConfigError::FileRead { path, .. } => "Failed to read configuration file: "@
                + debug_text(path@),
            ConfigError::TomlParse { message } => "Failed to parse TOML configuration: "@
                + message@,
            ConfigError::Validation { message } => "Configuration validation failed: "@
                + message@,
            ConfigError::MissingField { field } => "Missing required configuration: "@ + field@,
            ConfigError::InvalidValue { field, value } => "Invalid configuration value for "@
                + field@ + ": "@ + value@,
            ConfigError::NoConfigDir => "Could not determine config directory"@,
        }
    }

    /// The message of this error.
    pub fn message(&self) -> (r: String)
        ensures
            r@ == self.message_text(),
    {
        match self {
            ConfigError::FileRead { path, .. } => join(
                "Failed to read configuration file: ",
                quoted(path.as_str()).as_str(),
            ),
            ConfigError::TomlParse { message } => join(
                "Failed to parse TOML configuration: ",
                message.as_str(),
            ),
            ConfigError::Validation { message } => join(
                "Configuration validation failed: ",
                message.as_str(),
            ),
            ConfigError::MissingField { field } => join(
                "Missing required configuration: ",
                field.as_str(),
            ),
            ConfigError::InvalidValue { field, value } => {
                let head = join3("Invalid configuration value for ", field.as_str(), ": ");
                join(head.as_str(), value.as_str())
            },
            ConfigError::NoConfigDir => owned("Could not determine config directory"),
        }
    }
}

impl ImageDiscoveryError {
    /// The message of this error.
    pub open spec fn message_text(&self) -> Seq<char> {
        match self {
            ImageDiscoveryError::DirectoryRead { path, .. } => "Failed to read directory: "@
                + debug_text(path@),
            ImageDiscoveryError::NoImagesFound { path } => "No images found in directory: "@
                + debug_text(path@),
            ImageDiscoveryError::FileAccess { path, .. } => "Failed to access image file: "@
                + debug_text(path@),
            ImageDiscoveryError::UnsupportedFormat { path } => "Unsupported image format: "@
                + debug_text(path@),
            ImageDiscoveryError::CorruptedImage { path } =>
                "Image file is corrupted or invalid: "@ + debug_text(path@),
        }
    }

    /// The message of this error.
    pub fn message(&self) -> (r: String)
        ensures
            r@ == self.message_text(),
    {
        match self {
            ImageDiscoveryError::DirectoryRead { path, .. } => join(
                "Failed to read directory: ",
                quoted(path.as_str()).as_str(),
            ),
            ImageDiscoveryError::NoImagesFound { path } => join(
                "No images found in directory: ",
                quoted(path.as_str()).as_str(),
            ),
            ImageDiscoveryError::FileAccess { path, .. } => join(
                "Failed to access image file: ",
                quoted(path.as_str()).as_str(),
            ),
            ImageDiscoveryError::UnsupportedFormat { path } => join(
                "Unsupported image format: ",
                quoted(path.as_str()).as_str(),
            ),
            ImageDiscoveryError::CorruptedImage { path } => join(
                "Image file is corrupted or invalid: ",
                quoted(path.as_str()).as_str(),
            ),
        }
    }
}

impl QueueError {
    /// The message of this error.
    pub open spec fn message_text(&self) -> Seq<char> {
        match self {
            QueueError::EmptyQueue => "Queue is empty"@,
            QueueError::InvalidPosition { position, max } => "Invalid queue position: "@
                + decimal_text(*position as nat) + " (max: "@ + decimal_text(*max as nat) + ")"@,
            QueueError::StateRestore { message } => "Failed to restore queue from state: "@
                + message@,
            QueueError::Sorting { message } => "Queue sorting error: "@ + message@,
        }
    }

    /// The message of this error.
    pub fn message(&self) -> (r: String)
        ensures
            r@ == self.message_text(),
    {
        match self {
            QueueError::EmptyQueue => owned("Queue is empty"),
            QueueError::InvalidPosition { position, max } => {
                let head = join3(
                    "Invalid queue position: ",
                    decimal(*position as u64).as_str(),
                    " (max: ",
                );
                join3(head.as_str(), decimal(*max as u64).as_str(), ")")
            },
            QueueError::StateRestore { message } => join(
                "Failed to restore queue from state: ",
                message.as_str(),
            ),
            QueueError::Sorting { message } => join("Queue sorting error: ", message.as_str()),
        }
    }
}

impl SwwwError {
    /// The message of this error.
    pub open spec fn message_text(&self) -> Seq<char> {
        match self {
            SwwwError::DaemonNotFound => "swww daemon not found or not running"@,
            SwwwError::OutputDiscovery => "Failed to discover swww outputs"@,
            SwwwError::CommandExecution { command, .. } => "swww command execution failed: "@
                + debug_text(command@),
            SwwwError::InvalidOutput { output } => "Invalid swww output: "@ + output@,
            SwwwError::Process { message } => "swww process error: "@ + message@,
        }
    }

    /// The message of this error.
    pub fn message(&self) -> (r: String)
        ensures
            r@ == self.message_text(),
    {
        match self {
            SwwwError::DaemonNotFound => owned("swww daemon not found or not running"),
            SwwwError::OutputDiscovery => owned("Failed to discover swww outputs"),
            SwwwError::CommandExecution { command, .. } => join(
                "swww command execution failed: ",
                quoted(command.as_str()).as_str(),
            ),
            SwwwError::InvalidOutput { output } => join(
                "Invalid swww output: ",
                output.as_str(),
            ),
            SwwwError::Process { message } => join("swww process error: ", message.as_str()),
        }
    }
}

impl IpcError {
    /// The message of this error.
    pub open spec fn message_text(&self) -> Seq<char> {
        match self {
            IpcError::SocketCreation => "Failed to create IPC socket"@,
            IpcError::Connection => "Failed to connect to daemon"@,
            IpcError::Send => "Failed to send IPC message"@,
            IpcError::Receive => "Failed to receive IPC response"@,
            IpcError::Timeout => "IPC timeout"@,
            IpcError::InvalidMessage => "Invalid IPC message format"@,
            IpcError::DaemonUnresponsive => "Daemon not responding"@,
        }
    }

    /// The message of this error.
    pub fn message(&self) -> (r: String)
        ensures
            r@ == self.message_text(),
    {
        match self {
            IpcError::SocketCreation => owned("Failed to create IPC socket"),
            IpcError::Connection => owned("Failed to connect to daemon"),
            IpcError::Send => owned("Failed to send IPC message"),
            IpcError::Receive => owned("Failed to receive IPC response"),
            IpcError::Timeout => owned("IPC timeout"),
            IpcError::InvalidMessage => owned("Invalid IPC message format"),
            IpcError::DaemonUnresponsive => owned("Daemon not responding"),
        }
    }
}

impl StateError {
    /// The message of this error.
    pub open spec fn message_text(&self) -> Seq<char> {
        match self {
            StateError::FileRead { path, .. } => "Failed to read state file: "@ + debug_text(
                path@,
            ),
            StateError::FileWrite { path, .. } => "Failed to write state file: "@ + debug_text(
                path@,
            ),
            StateError::Serialization => "Failed to serialize state"@,
            StateError::Deserialization => "Failed to deserialize state"@,
            StateError::Corrupted { message } => "State file is corrupted: "@ + message@,
            StateError::DirectoryCreation => "Failed to create state directory"@,
        }
    }

    /// The message of this error.
    pub fn message(&self) -> (r: String)
        ensures
            r@ == self.message_text(),
    {
        match self {
            StateError::FileRead { path, .. } => join(
                "Failed to read state file: ",
                quoted(path.as_str()).as_str(),
            ),
            StateError::FileWrite { path, .. } => join(
                "Failed to write state file: ",
                quoted(path.as_str()).as_str(),
            ),
            StateError::Serialization => owned("Failed to serialize state"),
            StateError::Deserialization => owned("Failed to deserialize state"),
            StateError::Corrupted { message } => join(
                "State file is corrupted: ",
                message.as_str(),
            ),
            StateError::DirectoryCreation => owned("Failed to create state directory"),
        }
    }
}

impl ProcessError {
    /// The message of this error.
    pub open spec fn message_text(&self) -> Seq<char> {
        match self {
            ProcessError::Execution { command, .. } => "Command execution failed: "@
                + debug_text(command@),
            ProcessError::NonZeroExit { code, .. } => "Command returned non-zero exit code: "@
                + signed_decimal_text(*code as int),
            ProcessError::Timeout => "Command timed out"@,
            ProcessError::Killed => "Command was killed"@,
        }
    }

    /// The message of this error.
    pub fn message(&self) -> (r: String)
        ensures
            r@ == self.message_text(),
    {
        match self {
            ProcessError::Execution { command, .. } => join(
                "Command execution failed: ",
                quoted(command.as_str()).as_str(),
            ),
            ProcessError::NonZeroExit { code, .. } => join(
                "Command returned non-zero exit code: ",
                signed_decimal(*code as i64).as_str(),
            ),
            ProcessError::Timeout => owned("Command timed out"),
            ProcessError::Killed => owned("Command was killed"),
        }
    }
}

impl SystemError {
    /// The message of this error.
    pub open spec fn message_text(&self) -> Seq<char> {
        match self {
            SystemError::Time => "Failed to get current time"@,
            SystemError::TempFile => "Failed to create temporary file"@,
            SystemError::FileSystem => "Failed to access file system"@,
            SystemError::Permissions => "Insufficient permissions"@,
            SystemError::ResourceLimit => "System resource limit exceeded"@,
        }
    }

    /// The message of this error.
    pub fn message(&self) -> (r: String)
        ensures
            r@ == self.message_text(),
    {
        match self {
            SystemError::Time => owned("Failed to get current time"),
            SystemError::TempFile => owned("Failed to create temporary file"),
            SystemError::FileSystem => owned("Failed to access file system"),
            SystemError::Permissions => owned("Insufficient permissions"),
            SystemError::ResourceLimit => owned("System resource limit exceeded"),
        }
    }
}

impl ValidationError {
    /// The message of this error.
    pub open spec fn message_text(&self) -> Seq<char> {
        match self {
            ValidationError::InvalidPath { path } => "Invalid path: "@ + debug_text(path@),
            ValidationError::InvalidDuration { duration } => "Invalid duration: "@ + duration@,
            ValidationError::InvalidOutput { output } => "Invalid output name: "@ + output@,
            ValidationError::InvalidImageFormat { format } => "Invalid image format: "@
                + format@,
            ValidationError::General { message } => "Validation failed: "@ + message@,
        }
    }

    /// The message of this error.
    pub fn message(&self) -> (r: String)
        ensures
            r@ == self.message_text(),
    {
        match self {
            ValidationError::InvalidPath { path } => join(
                "Invalid path: ",
                quoted(path.as_str()).as_str(),
            ),
            ValidationError::InvalidDuration { duration } => join(
                "Invalid duration: ",
                duration.as_str(),
            ),
            ValidationError::InvalidOutput { output } => join(
                "Invalid output name: ",
                output.as_str(),
            ),
            ValidationError::InvalidImageFormat { format } => join(
                "Invalid image format: ",
                format.as_str(),
            ),
            ValidationError::General { message } => join(
                "Validation failed: ",
                message.as_str(),
            ),
        }
    }
}

impl SwwwsError {
    /// The message of this error: the area, then the message of the error
    /// inside.
    pub open spec fn message_text(&self) -> Seq<char> {
        match self {
            SwwwsError::Config(e) => "Configuration error: "@ + e.message_text(),
            SwwwsError::ImageDiscovery(e) => "Image discovery error: "@ + e.message_text(),
            SwwwsError::Queue(e) => "Queue error: "@ + e.message_text(),
            SwwwsError::Swww(e) => "swww integration error: "@ + e.message_text(),
            SwwwsError::Ipc(e) => "IPC error: "@ + e.message_text(),
            SwwwsError::State(e) => "State persistence error: "@ + e.message_text(),
            SwwwsError::Process(e) => "Process execution error: "@ + e.message_text(),
            SwwwsError::System(e) => "System error: "@ + e.message_text(),
            SwwwsError::Validation(e) => "Validation error: "@ + e.message_text(),
        }
    }

    /// The message of this error.
    pub fn message(&self) -> (r: String)
        ensures
            r@ == self.message_text(),
    {
        match self {
            SwwwsError::Config(e) => join("Configuration error: ", e.message().as_str()),
            SwwwsError::ImageDiscovery(e) => join(
                "Image discovery error: ",
                e.message().as_str(),
            ),
            SwwwsError::Queue(e) => join("Queue error: ", e.message().as_str()),
            SwwwsError::Swww(e) => join("swww integration error: ", e.message().as_str()),
            SwwwsError::Ipc(e) => join("IPC error: ", e.message().as_str()),
            SwwwsError::State(e) => join("State persistence error: ", e.message().as_str()),
            SwwwsError::Process(e) => join("Process execution error: ", e.message().as_str()),
            SwwwsError::System(e) => join("System error: ", e.message().as_str()),
            SwwwsError::Validation(e) => join("Validation error: ", e.message().as_str()),
        }
    }

    /// What a user is told of this error: a plainer sentence for the common
    /// failures, the error's message for the rest.
    pub open spec fn friendly_text(&self) -> Seq<char> {
        match self {
            SwwwsError::Config(ConfigError::FileRead { path, .. }) =>
                "Configuration file not found: "@ + debug_text(path@),
            SwwwsError::Config(ConfigError::TomlParse { message }) =>
                "Invalid configuration format: "@ + message@,
            SwwwsError::ImageDiscovery(ImageDiscoveryError::NoImagesFound { path }) =>
                "No images found in directory: "@ + debug_text(path@),
            SwwwsError::Swww(SwwwError::DaemonNotFound) =>
                "swww daemon is not running. Please start swww-daemon first."@,
            SwwwsError::Ipc(IpcError::DaemonUnresponsive) =>
                "swwws daemon is not responding. Please restart the daemon."@,
            SwwwsError::State(StateError::FileRead { path, .. }) => "Failed to read state file: "@
                + debug_text(path@),
            _ => self.message_text(),
        }
    }
}

/// Turning the error of a result into an error of the system.
pub trait ErrorContext<T> {
    /// The result with its error, if it has one, turned into an error of the
    /// system. The context is not kept.
    fn with_context<C>(self, context: C) -> (r: Result<T, SwwwsError>) where
        C: core::fmt::Display + Send + Sync + 'static,
    ;
}

impl<T, E> ErrorContext<T> for Result<T, E> where E: Into<SwwwsError> {
    fn with_context<C>(self, _context: C) -> (r: Result<T, SwwwsError>) where
        C: core::fmt::Display + Send + Sync + 'static,
        ensures
            match self {
                Ok(value) => r == Ok::<T, SwwwsError>(value),
                Err(e) => r matches Err(x) && (<E as vstd::std_specs::convert::IntoSpec<
                    SwwwsError,
                >>::obeys_into_spec() ==> x == <E as vstd::std_specs::convert::IntoSpec<
                    SwwwsError,
                >>::into_spec(e)),
            },
    {
        match self {
            Ok(value) => Ok(value),
            Err(e) => Err(e.into()),
        }
    }
}

/// Reporting an error to a user.
pub trait ErrorReporting {
    /// What a user is told of the error.
    spec fn user_text(&self) -> Seq<char>;

    /// What a user is told of the error.
    fn user_friendly_message(&self) -> (r: String)
        ensures
            r@ == self.user_text(),
    ;
}

impl ErrorReporting for SwwwsError {
    open spec fn user_text(&self) -> Seq<char> {
        self.friendly_text()
    }

    fn user_friendly_message(&self) -> (r: String) {
        match self {
            SwwwsError::Config(ConfigError::FileRead { path, .. }) => join(
                "Configuration file not found: ",
                quoted(path.as_str()).as_str(),
            ),
            SwwwsError::Config(ConfigError::TomlParse { message }) => join(
                "Invalid configuration format: ",
                message.as_str(),
            ),
            SwwwsError::ImageDiscovery(ImageDiscoveryError::NoImagesFound { path }) => join(
                "No images found in directory: ",
                quoted(path.as_str()).as_str(),
            ),
            SwwwsError::Swww(SwwwError::DaemonNotFound) => owned(
                "swww daemon is not running. Please start swww-daemon first.",
            ),
            SwwwsError::Ipc(IpcError::DaemonUnresponsive) => owned(
                "swwws daemon is not responding. Please restart the daemon.",
            ),
            SwwwsError::State(StateError::FileRead { path, .. }) => join(
                "Failed to read state file: ",
                quoted(path.as_str()).as_str(),
            ),
            _ => self.message(),
        }
    }
}

impl From<std::io::Error> for SwwwsError {
    fn from(_err: std::io::Error) -> (r: SwwwsError) {
        SwwwsError::System(SystemError::FileSystem)
    }
}

impl FromSpecImpl<std::io::Error> for SwwwsError {
    open spec fn obeys_from_spec() -> bool {
        true
    }

    open spec fn from_spec(_err: std::io::Error) -> SwwwsError {
        SwwwsError::System(SystemError::FileSystem)
    }
}

impl From<serde_json::Error> for SwwwsError {
    fn from(_err: serde_json::Error) -> (r: SwwwsError) {
        SwwwsError::State(StateError::Serialization)
    }
}

impl FromSpecImpl<serde_json::Error> for SwwwsError {
    open spec fn obeys_from_spec() -> bool {
        true
    }

    open spec fn from_spec(_err: serde_json::Error) -> SwwwsError {
        SwwwsError::State(StateError::Serialization)
    }
}

/// `toml::de::Error::to_string`: what the error says, as it is displayed.
/// Nothing is known of the text.
#[verifier::external_body]
fn toml_de_text(err: &toml::de::Error) -> (r: String) {
    err.to_string()
}

/// `toml::ser::Error::to_string`: what the error says, as it is displayed.
/// Nothing is known of the text.
#[verifier::external_body]
fn toml_ser_text(err: &toml::ser::Error) -> (r: String) {
    err.to_string()
}

impl SwwwsError {
    /// The error of a configuration that cannot be read as TOML; its message
    /// is what the reader's error says.
    pub fn from_toml_de(err: toml::de::Error) -> (r: SwwwsError)
        ensures
            r matches SwwwsError::Config(ConfigError::TomlParse { .. }),
    {
        SwwwsError::Config(ConfigError::TomlParse { message: toml_de_text(&err) })
    }

    /// The error of a configuration that cannot be written as TOML; its
    /// message is what the writer's error says.
    pub fn from_toml_ser(err: toml::ser::Error) -> (r: SwwwsError)
        ensures
            r matches SwwwsError::Config(ConfigError::TomlParse { .. }),
    {
        SwwwsError::Config(ConfigError::TomlParse { message: toml_ser_text(&err) })
    }
}

} // verus!
