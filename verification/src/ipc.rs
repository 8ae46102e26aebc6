//! The control protocol: the requests a client can make and the responses
//! it gets.

use crate::config::option_text;
use crate::error::SwwwsError;
use crate::paths::{socket_path, socket_path_text};
use vstd::prelude::*;

verus! {

/// A request to the daemon.
#[derive(Debug)]
pub enum IpcCommand {
    /// Show the next image, on one output or on all.
    Next { output: Option<String> },
    /// Show the previous image, on one output or on all.
    Previous { output: Option<String> },
    Pause,
    Resume,
    TogglePause,
    /// Read the configuration again.
    Reload,
    Status,
}

/// The answer to a request.
#[derive(Debug)]
pub enum IpcResponse {
    Success { message: String },
    Error { message: String },
    Status { outputs: Vec<OutputStatus>, paused: bool },
}

/// The state of the rotation on one output.
#[derive(Debug)]
pub struct OutputStatus {
    pub name: String,
    pub current_image: Option<String>,
    pub queue_position: usize,
    pub queue_size: usize,
    /// The seconds until the next rotation is due.
    pub timer_remaining: Option<u64>,
    pub paused: bool,
}

/// The record of an output, its texts as characters.
pub struct StatusView {
    pub name: Seq<char>,
    pub current_image: Option<Seq<char>>,
    pub queue_position: usize,
    pub queue_size: usize,
    pub timer_remaining: Option<u64>,
    pub paused: bool,
}

/// A response, its texts as characters.
pub enum ResponseView {
    Success { message: Seq<char> },
    Error { message: Seq<char> },
    Status { outputs: Seq<StatusView>, paused: bool },
}

/// A request, its texts as characters.
pub enum CommandView {
    Next { output: Option<Seq<char>> },
    Previous { output: Option<Seq<char>> },
    Pause,
    Resume,
    TogglePause,
    Reload,
    Status,
}

impl View for OutputStatus {
    type V = StatusView;

    open spec fn view(&self) -> StatusView {
        StatusView {
            name: self.name@,
            current_image: option_text(self.current_image),
            queue_position: self.queue_position,
            queue_size: self.queue_size,
            timer_remaining: self.timer_remaining,
            paused: self.paused,
        }
    }
}

/// The records of a list, as texts.
pub open spec fn status_views(records: Seq<OutputStatus>) -> Seq<StatusView> {
    records.map_values(|r: OutputStatus| r@)
}

impl View for IpcResponse {
    type V = ResponseView;

    open spec fn view(&self) -> ResponseView {
        match self {
            IpcResponse::Success { message } => ResponseView::Success { message: message@ },
            IpcResponse::Error { message } => ResponseView::Error { message: message@ },
            IpcResponse::Status { outputs, paused } => ResponseView::Status {
                outputs: status_views(outputs@),
                paused: *paused,
            },
        }
    }
}

impl View for IpcCommand {
    type V = CommandView;

    open spec fn view(&self) -> CommandView {
        match self {
            IpcCommand::Next { output } => CommandView::Next { output: option_text(*output) },
            IpcCommand::Previous { output } => CommandView::Previous {
                output: option_text(*output),
            },
            IpcCommand::Pause => CommandView::Pause,
            IpcCommand::Resume => CommandView::Resume,
            IpcCommand::TogglePause => CommandView::TogglePause,
            IpcCommand::Reload => CommandView::Reload,
            IpcCommand::Status => CommandView::Status,
        }
    }
}

/// The client's end of the control channel.
#[derive(Debug)]
pub struct IpcClient {
    socket_path: String,
}

/// The daemon's end of the control channel.
#[derive(Debug)]
pub struct IpcServer {
    socket_path: String,
}

impl IpcClient {
    /// The path of the socket.
    pub closed spec fn path(&self) -> Seq<char> {
        self.socket_path@
    }

    /// A client for the socket of this user.
    pub fn new() -> (r: IpcClient)
        ensures
            exists|dir: Option<Seq<char>>| r.path() == #[trigger] socket_path_text(dir),
    {
        IpcClient { socket_path: socket_path() }
    }

    /// The path of the socket.
    pub fn socket_path(&self) -> (r: &String)
        ensures
            r@ == self.path(),
    {
        &self.socket_path
    }
}

impl IpcServer {
    /// The path of the socket.
    pub closed spec fn path(&self) -> Seq<char> {
        self.socket_path@
    }

    /// A server for the socket of this user.
    pub fn new() -> (r: IpcServer)
        ensures
            exists|dir: Option<Seq<char>>| r.path() == #[trigger] socket_path_text(dir),
    {
        IpcServer { socket_path: socket_path() }
    }

    /// The path of the socket.
    pub fn socket_path(&self) -> (r: &String)
        ensures
            r@ == self.path(),
    {
        &self.socket_path
    }

    /// The response that goes back on a connection: that of the handler, or
    /// an error response with the message of the handler's error.
    pub fn response_or_error(handled: Result<IpcResponse, SwwwsError>) -> (r: IpcResponse)
        ensures
            match handled {
                Ok(response) => r == response,
                Err(e) => r@ == (ResponseView::Error { message: e.message_text() }),
            },
    {
        match handled {
            Ok(response) => response,
            Err(e) => IpcResponse::Error { message: e.message() },
        }
    }
}

} // verus!
