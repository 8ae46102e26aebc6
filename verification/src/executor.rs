//! Running the wallpaper tool: the arguments and the environment it is run
//! with, and what is made of its answer.

use crate::command_builder::{img_head, push_text, CommandBuilder, OutputConfig};
use crate::config::option_text;
use crate::error::{not_found, ProcessError, SwwwsError};
use crate::image_discovery::{FileProbe, ImageDiscovery};
use crate::parse::{line_names, read_line_names, LineRule};
use crate::text::{decimal, decimal_text, join, owned, texts};
use vstd::prelude::*;

verus! {

/// Runs the wallpaper tool.
#[derive(Debug, Clone, Copy)]
pub struct ProcessExecutor;

/// A variable of the environment and its value.
#[derive(Debug)]
pub struct EnvVar {
    pub name: String,
    pub value: String,
}

/// What the session says of itself in the environment.
#[derive(Debug)]
pub struct SessionEnv {
    pub wayland_display: Option<String>,
    pub xdg_runtime_dir: Option<String>,
    pub xdg_current_desktop: Option<String>,
    pub xdg_session_type: Option<String>,
    /// The number of the user.
    pub uid: u32,
}

/// The names and values of a list of variables.
pub open spec fn env_views(vars: Seq<EnvVar>) -> Seq<(Seq<char>, Seq<char>)> {
    vars.map_values(|v: EnvVar| (v.name@, v.value@))
}

/// The value, or the fallback where there is none.
pub open spec fn or_text(value: Option<Seq<char>>, fallback: Seq<char>) -> Seq<char> {
    match value {
        Some(v) => v,
        None => fallback,
    }
}

impl SessionEnv {
    /// The environment that the wallpaper tool is run in: the display (or
    /// `wayland-0`), the runtime directory (or that of the user), the desktop
    /// if it is named, and the kind of session (or `wayland`).
    pub open spec fn variables(&self) -> Seq<(Seq<char>, Seq<char>)> {
        let head = seq![
            ("WAYLAND_DISPLAY"@, or_text(option_text(self.wayland_display), "wayland-0"@)),
            (
                "XDG_RUNTIME_DIR"@,
                or_text(
                    option_text(self.xdg_runtime_dir),
                    "/run/user/"@ + decimal_text(self.uid as nat),
                ),
            ),
        ];
        let middle = match self.xdg_current_desktop {
            Some(d) => head.push(("XDG_CURRENT_DESKTOP"@, d@)),
            None => head,
        };
        middle.push(("XDG_SESSION_TYPE"@, or_text(option_text(self.xdg_session_type), "wayland"@)))
    }
}

fn variable(name: &str, value: String) -> (r: EnvVar)
    ensures
        r.name@ == name@,
        r.value@ == value@,
{
    EnvVar { name: owned(name), value }
}

/// The value, or the fallback where there is none.
fn value_or(value: &Option<String>, fallback: &str) -> (r: String)
    ensures
        r@ == or_text(option_text(*value), fallback@),
{
    match value {
        Some(v) => v.clone(),
        None => owned(fallback),
    }
}

/// A program with the arguments and the environment it is to be run with.
#[derive(Debug)]
pub struct Invocation {
    pub program: String,
    pub args: Vec<String>,
    pub env: Vec<EnvVar>,
}

/// How a run of a program ended.
#[derive(Debug)]
pub struct RunOutcome {
    pub succeeded: bool,
    /// The exit code, if the program ended with one.
    pub code: Option<i32>,
    pub stdout: String,
    pub stderr: String,
}

/// The exit code of a run, or -1 where it ended without one.
pub open spec fn code_or_minus_one(code: Option<i32>) -> i32 {
    match code {
        Some(n) => n,
        None => -1i32,
    }
}

/// Whether `r` is what is made of a run of `command`: the outcome of a run
/// that succeeded; an error with the exit code and the error stream of a
/// run that did not; an error with the command where it could not be run.
pub open spec fn run_checked(
    command: Seq<char>,
    ran: Result<RunOutcome, std::io::Error>,
    r: Result<RunOutcome, SwwwsError>,
) -> bool {
    match ran {
        Err(_) => r matches Err(SwwwsError::Process(ProcessError::Execution { command: c, .. }))
            && c@ == command,
        Ok(outcome) => if outcome.succeeded {
            r == Ok::<RunOutcome, SwwwsError>(outcome)
        } else {
            r matches Err(SwwwsError::Process(ProcessError::NonZeroExit { code, stderr }))
                && code == code_or_minus_one(outcome.code) && stderr@ == outcome.stderr@
        },
    }
}

impl ProcessExecutor {
    /// An executor. It finds the tool by itself and has no use for the
    /// builder.
    pub fn new(_command_builder: CommandBuilder) -> (r: ProcessExecutor)
        ensures
            r == ProcessExecutor,
    {
        ProcessExecutor
    }

    /// What is made of a run of `command`.
    pub fn checked_run(command: &str, ran: Result<RunOutcome, std::io::Error>) -> (r: Result<
        RunOutcome,
        SwwwsError,
    >)
        ensures
            run_checked(command@, ran, r),
    {
        match ran {
            Err(source) => Err(
                SwwwsError::Process(ProcessError::Execution { command: owned(command), source }),
            ),
            Ok(outcome) => {
                if outcome.succeeded {
                    Ok(outcome)
                } else {
                    let code = match outcome.code {
                        Some(n) => n,
                        None => -1,
                    };
                    Err(
                        SwwwsError::Process(
                            ProcessError::NonZeroExit { code, stderr: outcome.stderr },
                        ),
                    )
                }
            },
        }
    }

    /// The query that asks the wallpaper service for its outputs.
    pub fn query_invocation(session: &SessionEnv) -> (r: Invocation)
        ensures
            r.program@ == "swww"@,
            texts(r.args@) == seq!["query"@],
            env_views(r.env@) == session.variables(),
    {
        let mut args: Vec<String> = Vec::new();
        args.push(owned("query"));
        assert(texts(args@) =~= seq!["query"@]);
        Invocation {
            program: owned("swww"),
            args,
            env: ProcessExecutor::session_environment(session),
        }
    }

    /// Prepares the run of the wallpaper tool that shows an image on an
    /// output. The image is checked first, as `validate_image` does; then the
    /// tool must have been found. The run has the arguments of
    /// `img_arguments` and the environment of the session.
    pub fn execute_swww_command(
        &self,
        image: FileProbe,
        tool: Option<String>,
        config: &OutputConfig,
        output_name: Option<&str>,
        session: &SessionEnv,
    ) -> (r: Result<Invocation, SwwwsError>)
        ensures
            match image.fault() {
                Some(fault) => r matches Err(e) && fault.reported_by(e, image.path@),
                None => match tool {
                    None => r matches Err(
                        SwwwsError::Process(ProcessError::Execution { command, .. }),
                    ) && command@ == "swww binary not found"@,
                    Some(program) => r matches Ok(run) && run.program@ == program@ && texts(
                        run.args@,
                    ) == img_head(
                        match output_name {
                            Some(o) => Some(o@),
                            None => None,
                        },
                    ).push(image.path@) + config.options() && env_views(run.env@)
                        == session.variables(),
                },
            },
    {
        let image_path = image.path.clone();
        match ImageDiscovery::validate_image(image) {
            Ok(_) => {},
            Err(e) => {
                return Err(e);
            },
        }
        let program = match tool {
            Some(p) => p,
            None => {
                return Err(ProcessExecutor::tool_missing(not_found("swww not in PATH")));
            },
        };
        Ok(
            Invocation {
                program,
                args: ProcessExecutor::img_arguments(image_path.as_str(), config, output_name),
                env: ProcessExecutor::session_environment(session),
            },
        )
    }

    /// What is made of the answer of the wallpaper service to a query: the
    /// service is there if the query could be run and succeeded.
    pub fn check_swww_daemon(ran: Result<RunOutcome, std::io::Error>) -> (r: Result<
        (),
        SwwwsError,
    >)
        ensures
            match ran {
                Err(_) => r matches Err(
                    SwwwsError::Process(ProcessError::Execution { command, .. }),
                ) && command@ == "swww query"@,
                Ok(outcome) => if outcome.succeeded {
                    r is Ok
                } else {
                    r matches Err(SwwwsError::Process(ProcessError::NonZeroExit { code, stderr }))
                        && code == code_or_minus_one(outcome.code) && stderr@ == outcome.stderr@
                },
            },
    {
        match ProcessExecutor::checked_run("swww query", ran) {
            Ok(_) => Ok(()),
            Err(e) => Err(e),
        }
    }

    /// What is made of the answer of the wallpaper service to a query: the
    /// outputs that it names, as `parse_swww_outputs` reads them.
    pub fn get_swww_outputs(ran: Result<RunOutcome, std::io::Error>) -> (r: Result<
        Vec<String>,
        SwwwsError,
    >)
        ensures
            match ran {
                Err(_) => r matches Err(
                    SwwwsError::Process(ProcessError::Execution { command, .. }),
                ) && command@ == "swww query"@,
                Ok(outcome) => if outcome.succeeded {
                    r matches Ok(v) && texts(v@) == ProcessExecutor::outputs_in(outcome.stdout@)
                } else {
                    r matches Err(SwwwsError::Process(ProcessError::NonZeroExit { code, stderr }))
                        && code == code_or_minus_one(outcome.code) && stderr@ == outcome.stderr@
                },
            },
    {
        match ProcessExecutor::checked_run("swww query", ran) {
            Ok(outcome) => Ok(ProcessExecutor::parse_swww_outputs(outcome.stdout.as_str())),
            Err(e) => Err(e),
        }
    }

    /// The arguments that show an image: the subcommand, the output if one
    /// is named, the image, and the options that are set.
    pub fn img_arguments(image_path: &str, config: &OutputConfig, output_name: Option<&str>) -> (r:
        Vec<String>)
        ensures
            texts(r@) == img_head(
                match output_name {
                    Some(o) => Some(o@),
                    None => None,
                },
            ).push(image_path@) + config.options(),
    {
        let mut args: Vec<String> = Vec::new();
        assert(texts(args@) =~= Seq::empty());
        push_text(&mut args, "img");
        match output_name {
            Some(output) => {
                push_text(&mut args, "-o");
                push_text(&mut args, output);
            },
            None => {},
        }
        push_text(&mut args, image_path);
        let mut options = config.option_arguments();
        let ghost o = options@;
        let ghost a = args@;
        args.append(&mut options);
        assert(texts(args@) =~= texts(a) + texts(o));
        args
    }

    /// The environment that the wallpaper tool is run in.
    pub fn session_environment(session: &SessionEnv) -> (r: Vec<EnvVar>)
        ensures
            env_views(r@) == session.variables(),
    {
        let mut vars: Vec<EnvVar> = Vec::new();
        vars.push(variable("WAYLAND_DISPLAY", value_or(&session.wayland_display, "wayland-0")));
        let home = join("/run/user/", decimal(session.uid as u64).as_str());
        vars.push(variable("XDG_RUNTIME_DIR", value_or(&session.xdg_runtime_dir, home.as_str())));
        match &session.xdg_current_desktop {
            Some(d) => {
                vars.push(variable("XDG_CURRENT_DESKTOP", d.clone()));
            },
            None => {},
        }
        vars.push(variable("XDG_SESSION_TYPE", value_or(&session.xdg_session_type, "wayland")));
        assert(env_views(vars@) =~= session.variables());
        vars
    }

    /// The error of a wallpaper tool that is not to be found.
    pub fn tool_missing(source: std::io::Error) -> (r: SwwwsError)
        ensures
            r matches SwwwsError::Process(ProcessError::Execution { command, .. }) && command@
                == "swww binary not found"@,
    {
        SwwwsError::Process(
            ProcessError::Execution { command: owned("swww binary not found"), source },
        )
    }

    /// The outputs that the wallpaper tool names in its answer to a query:
    /// on each line what stands before the first colon. Where the answer
    /// names none, three usual names stand in.
    pub open spec fn outputs_in(stdout: Seq<char>) -> Seq<Seq<char>> {
        if line_names(LineRule::BeforeColon, stdout).len() > 0 {
            line_names(LineRule::BeforeColon, stdout)
        } else {
            seq!["HDMI-A-1"@, "DP-2"@, "DP-3"@]
        }
    }

    /// The outputs that the wallpaper tool names in its answer to a query.
    pub fn parse_swww_outputs(stdout: &str) -> (r: Vec<String>)
        ensures
            texts(r@) == ProcessExecutor::outputs_in(stdout@),
    {
        let mut outputs = read_line_names(LineRule::BeforeColon, stdout);
        if outputs.len() == 0 {
            outputs.push(owned("HDMI-A-1"));
            outputs.push(owned("DP-2"));
            outputs.push(owned("DP-3"));
            assert(texts(outputs@) =~= seq!["HDMI-A-1"@, "DP-2"@, "DP-3"@]);
        }
        outputs
    }
}

/// How an image is shown on an output with the settings configured for it:
/// every option of the transition is set but the frame rate, and the step
/// is cut to eight bits.
pub fn command_config(settings: &crate::config::OutputConfig) -> (r: OutputConfig)
    ensures
        option_text(r.path) == settings@.path,
        r.mode is None,
        option_text(r.transition_type) == Some(settings@.settings.transition_type),
        r.transition_step == Some((settings@.settings.transition_step % 256) as u8),
        option_text(r.transition_angle) == Some(settings@.settings.transition_angle.text),
        option_text(r.transition_pos) == Some(settings@.settings.transition_pos),
        option_text(r.transition_bezier) == Some(settings@.settings.transition_bezier),
        r.transition_fps is None,
        option_text(r.resize) == Some(settings@.settings.resize),
        option_text(r.fill_color) == Some(settings@.settings.fill_color),
        option_text(r.filter) == Some(settings@.settings.filter),
        r.invert_y == Some(settings@.settings.invert_y),
        option_text(r.transition_wave) == Some(settings@.settings.transition_wave),
{
    OutputConfig {
        path: crate::config::clone_option(&settings.path),
        mode: None,
        transition_type: Some(settings.transition_type.clone()),
        transition_step: Some((settings.transition_step % 256) as u8),
        transition_angle: Some(settings.transition_angle.text.clone()),
        transition_pos: Some(settings.transition_pos.clone()),
        transition_bezier: Some(settings.transition_bezier.clone()),
        transition_fps: None,
        resize: Some(settings.resize.clone()),
        fill_color: Some(settings.fill_color.clone()),
        filter: Some(settings.filter.clone()),
        invert_y: Some(settings.invert_y),
        transition_wave: Some(settings.transition_wave.clone()),
    }
}

} // verus!
