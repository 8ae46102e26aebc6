//! What the command-line client shows of a response.

use crate::ipc::{IpcResponse, OutputStatus, StatusView};
use crate::paths::{file_name_part, path_file_name};
use crate::text::{decimal, decimal_text, join, join3, owned, texts};
use vstd::prelude::*;

verus! {

/// A number of seconds as a user reads it: in seconds under a minute, in
/// minutes and seconds under an hour, else in hours and minutes; a part
/// that is zero is left out.
pub open spec fn duration_text(seconds: u64) -> Seq<char> {
    if seconds < 60 {
        decimal_text(seconds as nat) + "s"@
    } else if seconds < 3600 {
        if seconds % 60 == 0 {
            decimal_text((seconds / 60) as nat) + "m"@
        } else {
            decimal_text((seconds / 60) as nat) + "m"@ + decimal_text((seconds % 60) as nat)
                + "s"@
        }
    } else {
        if (seconds % 3600) / 60 == 0 {
            decimal_text((seconds / 3600) as nat) + "h"@
        } else {
            decimal_text((seconds / 3600) as nat) + "h"@ + decimal_text(
                ((seconds % 3600) / 60) as nat,
            ) + "m"@
        }
    }
}

/// A number of seconds as a user reads it.
pub fn format_duration(seconds: u64) -> (r: String)
    ensures
        r@ == duration_text(seconds),
{
    if seconds < 60 {
        join(decimal(seconds).as_str(), "s")
    } else if seconds < 3600 {
        let minutes = seconds / 60;
        let secs = seconds % 60;
        if secs == 0 {
            join(decimal(minutes).as_str(), "m")
        } else {
            let head = join(decimal(minutes).as_str(), "m");
            join3(head.as_str(), decimal(secs).as_str(), "s")
        }
    } else {
        let hours = seconds / 3600;
        let minutes = (seconds % 3600) / 60;
        if minutes == 0 {
            join(decimal(hours).as_str(), "h")
        } else {
            let head = join(decimal(hours).as_str(), "h");
            join3(head.as_str(), decimal(minutes).as_str(), "m")
        }
    }
}

/// What is shown of a response.
#[derive(Debug)]
pub struct Rendered {
    /// The lines to print.
    pub lines: Vec<String>,
    /// Whether the lines are an error: they go to the error stream, and the
    /// client ends with a failure.
    pub failed: bool,
}

/// How the time until the next rotation is shown.
pub open spec fn timer_text(remaining: Option<u64>) -> Seq<char> {
    match remaining {
        Some(n) => if n > 0 {
            duration_text(n)
        } else {
            "ready"@
        },
        None => "no timer"@,
    }
}

/// How the current image is shown: the last part of its name.
pub open spec fn image_text(image: Option<Seq<char>>) -> Seq<char> {
    match image {
        Some(p) => match path_file_name(p) {
            Some(name) => name,
            None => "unknown"@,
        },
        None => "None"@,
    }
}

/// Whether rotation runs, as a user reads it.
pub open spec fn running_text(paused: bool) -> Seq<char> {
    if paused {
        "PAUSED"@
    } else {
        "RUNNING"@
    }
}

/// The line that shows the record of one output: its name, whether it
/// runs, its image, its place in the queue counted from one, and the time
/// until the next rotation.
pub open spec fn status_line(s: StatusView) -> Seq<char> {
    s.name + ": "@ + running_text(s.paused) + " | "@ + image_text(s.current_image) + " | "@
        + decimal_text((s.queue_position + 1) as nat) + "/"@ + decimal_text(s.queue_size as nat)
        + " | "@ + timer_text(s.timer_remaining)
}

/// The lines that show a status: a heading, and one line for each output;
/// one line alone if there is no output.
pub open spec fn status_lines(outputs: Seq<StatusView>, paused: bool) -> Seq<Seq<char>> {
    if outputs.len() == 0 {
        seq!["No outputs found"@]
    } else {
        seq![
            "swwws Status:"@,
            "============="@,
            "Global State: "@ + running_text(paused),
            ""@,
        ] + outputs.map_values(|s: StatusView| status_line(s))
    }
}

fn running(paused: bool) -> (r: &'static str)
    ensures
        r@ == running_text(paused),
{
    if paused {
        "PAUSED"
    } else {
        "RUNNING"
    }
}

/// The line that shows the record of one output.
pub fn render_status_line(status: &OutputStatus) -> (r: String)
    ensures
        r@ == status_line(status@),
{
    let timer = match status.timer_remaining {
        Some(n) => if n > 0 {
            format_duration(n)
        } else {
            owned("ready")
        },
        None => owned("no timer"),
    };
    let image = match &status.current_image {
        Some(p) => match file_name_part(p.as_str()) {
            Some(name) => name,
            None => owned("unknown"),
        },
        None => owned("None"),
    };
    let place = if status.queue_position < usize::MAX {
        decimal((status.queue_position + 1) as u64)
    } else {
        crate::text::decimal_wide(status.queue_position as u128 + 1)
    };
    let a = join3(status.name.as_str(), ": ", running(status.paused));
    let b = join3(a.as_str(), " | ", image.as_str());
    let c = join3(b.as_str(), " | ", place.as_str());
    let d = join3(c.as_str(), "/", decimal(status.queue_size as u64).as_str());
    join3(d.as_str(), " | ", timer.as_str())
}

/// What the client shows of a response: the message of a success with a
/// check mark; the message of an error, which fails the client; the lines
/// of a status.
pub fn render_response(response: &IpcResponse) -> (r: Rendered)
    ensures
        match response {
            IpcResponse::Success { message } => !r.failed && texts(r.lines@) == seq![
                "\u{2713} "@ + message@,
            ],
            IpcResponse::Error { message } => r.failed && texts(r.lines@) == seq![
                "\u{2717} Error: "@ + message@,
            ],
            IpcResponse::Status { outputs, paused } => !r.failed && texts(r.lines@)
                == status_lines(crate::ipc::status_views(outputs@), *paused),
        },
{
    let mut lines: Vec<String> = Vec::new();
    match response {
        IpcResponse::Success { message } => {
            lines.push(join("\u{2713} ", message.as_str()));
            assert(texts(lines@) =~= seq!["\u{2713} "@ + message@]);
            Rendered { lines, failed: false }
        },
        IpcResponse::Error { message } => {
            lines.push(join("\u{2717} Error: ", message.as_str()));
            assert(texts(lines@) =~= seq!["\u{2717} Error: "@ + message@]);
            Rendered { lines, failed: true }
        },
        IpcResponse::Status { outputs, paused } => {
            if outputs.len() == 0 {
                lines.push(owned("No outputs found"));
                assert(texts(lines@) =~= seq!["No outputs found"@]);
                return Rendered { lines, failed: false };
            }
            lines.push(owned("swwws Status:"));
            lines.push(owned("============="));
            lines.push(join("Global State: ", running(*paused)));
            lines.push(owned(""));
            let ghost head = texts(lines@);
            let ghost views = crate::ipc::status_views(outputs@);
            let mut i: usize = 0;
            while i < outputs.len()
                invariant
                    i <= outputs@.len(),
                    views == crate::ipc::status_views(outputs@),
                    texts(lines@) == head + views.map_values(|s: StatusView| status_line(s)).take(
                        i as int,
                    ),
                decreases outputs@.len() - i,
            {
                let ghost before = lines@;
                let line = render_status_line(&outputs[i]);
                lines.push(line);
                assert(views[i as int] == outputs@[i as int]@);
                assert(texts(lines@) =~= texts(before).push(status_line(views[i as int])));
                i += 1;
                assert(texts(lines@) =~= head + views.map_values(
                    |s: StatusView| status_line(s),
                ).take(i as int));
            }
            assert(texts(lines@) =~= head + views.map_values(|s: StatusView| status_line(s)));
            assert(head =~= seq![
                "swwws Status:"@,
                "============="@,
                "Global State: "@ + running_text(*paused),
                ""@,
            ]);
            Rendered { lines, failed: false }
        },
    }
}

} // verus!
