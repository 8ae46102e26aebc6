//! The wallpaper tool as found on this machine.

use crate::error::{SwwwError, SwwwsError};
use crate::executor::RunOutcome;
use crate::parse::{line_names, read_line_names, LineRule};
use crate::text::{owned, texts};
use vstd::prelude::*;

verus! {

/// The wallpaper tool at the path where it was found.
#[derive(Debug)]
pub struct SwwwIntegration {
    swww_path: String,
}

impl SwwwIntegration {
    /// The path of the tool.
    pub closed spec fn path(&self) -> Seq<char> {
        self.swww_path@
    }

    /// The tool at the path where a search found it; an error where the
    /// search found none.
    pub fn new(found: Option<String>) -> (r: Result<SwwwIntegration, SwwwsError>)
        ensures
            match found {
                Some(p) => r matches Ok(s) && s.path() == p@,
                None => r matches Err(SwwwsError::Swww(SwwwError::Process { message }))
                    && message@ == "swww not found in PATH"@,
            },
    {
        match found {
            Some(swww_path) => Ok(SwwwIntegration { swww_path }),
            None => Err(
                SwwwsError::Swww(SwwwError::Process { message: owned("swww not found in PATH") }),
            ),
        }
    }

    /// The path of the tool.
    pub fn get_swww_path(&self) -> (r: String)
        ensures
            r@ == self.path(),
    {
        self.swww_path.clone()
    }

    /// The outputs that the tool names in its answer to a query: on each
    /// line that begins with a colon and a blank, what stands between that
    /// colon and the next.
    pub fn parse_available_outputs(stdout: &str) -> (r: Vec<String>)
        ensures
            texts(r@) == line_names(LineRule::AfterColon, stdout@),
    {
        read_line_names(LineRule::AfterColon, stdout)
    }

    /// What is made of a query to the tool: whether the wallpaper service
    /// is there, which it is if the query succeeded. It is an error if the
    /// query could not be run.
    pub fn check_daemon_running(&self, ran: Result<RunOutcome, std::io::Error>) -> (r: Result<
        bool,
        SwwwsError,
    >)
        ensures
            match ran {
                Ok(outcome) => r == Ok::<bool, SwwwsError>(outcome.succeeded),
                Err(_) => r matches Err(SwwwsError::Swww(SwwwError::Process { message }))
                    && message@ == "Failed to execute swww query"@,
            },
    {
        match ran {
            Ok(outcome) => Ok(outcome.succeeded),
            Err(_) => Err(
                SwwwsError::Swww(
                    SwwwError::Process { message: owned("Failed to execute swww query") },
                ),
            ),
        }
    }

    /// What is made of a query to the tool: the outputs that its answer
    /// names. It is an error if the query could not be run or did not
    /// succeed.
    pub fn get_available_outputs(&self, ran: Result<RunOutcome, std::io::Error>) -> (r: Result<
        Vec<String>,
        SwwwsError,
    >)
        ensures
            match ran {
                Ok(outcome) => if outcome.succeeded {
                    r matches Ok(v) && texts(v@) == line_names(
                        LineRule::AfterColon,
                        outcome.stdout@,
                    )
                } else {
                    r matches Err(SwwwsError::Swww(SwwwError::Process { message })) && message@
                        == "swww query failed"@
                },
                Err(_) => r matches Err(SwwwsError::Swww(SwwwError::Process { message }))
                    && message@ == "Failed to execute swww query"@,
            },
    {
        match ran {
            Ok(outcome) => {
                if outcome.succeeded {
                    Ok(SwwwIntegration::parse_available_outputs(outcome.stdout.as_str()))
                } else {
                    Err(
                        SwwwsError::Swww(
                            SwwwError::Process { message: owned("swww query failed") },
                        ),
                    )
                }
            },
            Err(_) => Err(
                SwwwsError::Swww(
                    SwwwError::Process { message: owned("Failed to execute swww query") },
                ),
            ),
        }
    }
}

} // verus!
