//! The command line of the wallpaper tool for showing one image.

use crate::config::{clone_option, option_text};
use crate::text::{decimal, decimal_text, owned, texts};
use vstd::prelude::*;

verus! {

/// How an image is to be shown: each option is given to the wallpaper tool
/// only if it is set.
#[derive(Debug)]
pub struct OutputConfig {
    pub path: Option<String>,
    pub mode: Option<String>,
    pub transition_type: Option<String>,
    pub transition_step: Option<u8>,
    /// The angle of the transition, as the text that the tool is given.
    pub transition_angle: Option<String>,
    pub transition_pos: Option<String>,
    pub transition_bezier: Option<String>,
    pub transition_fps: Option<u8>,
    pub resize: Option<String>,
    pub fill_color: Option<String>,
    pub filter: Option<String>,
    pub invert_y: Option<bool>,
    pub transition_wave: Option<String>,
}

impl Clone for OutputConfig {
    fn clone(&self) -> (r: OutputConfig)
        ensures
            r.options() == self.options(),
            option_text(r.path) == option_text(self.path),
            option_text(r.mode) == option_text(self.mode),
    {
        OutputConfig {
            path: clone_option(&self.path),
            mode: clone_option(&self.mode),
            transition_type: clone_option(&self.transition_type),
            transition_step: self.transition_step,
            transition_angle: clone_option(&self.transition_angle),
            transition_pos: clone_option(&self.transition_pos),
            transition_bezier: clone_option(&self.transition_bezier),
            transition_fps: self.transition_fps,
            resize: clone_option(&self.resize),
            fill_color: clone_option(&self.fill_color),
            filter: clone_option(&self.filter),
            invert_y: self.invert_y,
            transition_wave: clone_option(&self.transition_wave),
        }
    }
}

/// The arguments with an option and its value added, if there is a value.
pub open spec fn with_option(
    args: Seq<Seq<char>>,
    flag: Seq<char>,
    value: Option<Seq<char>>,
) -> Seq<Seq<char>> {
    match value {
        Some(v) => args.push(flag).push(v),
        None => args,
    }
}

/// The decimal text of a small number that may be absent.
pub open spec fn option_decimal(n: Option<u8>) -> Option<Seq<char>> {
    match n {
        Some(n) => Some(decimal_text(n as nat)),
        None => None,
    }
}

impl OutputConfig {
    /// The options of the transition in the order in which the tool is given
    /// them.
    pub open spec fn options(&self) -> Seq<Seq<char>> {
        let a = with_option(Seq::empty(), "--transition-type"@, option_text(self.transition_type));
        let b = with_option(a, "--transition-step"@, option_decimal(self.transition_step));
        let c = with_option(b, "--transition-angle"@, option_text(self.transition_angle));
        let d = with_option(c, "--transition-pos"@, option_text(self.transition_pos));
        let e = with_option(d, "--transition-bezier"@, option_text(self.transition_bezier));
        let f = with_option(e, "--transition-fps"@, option_decimal(self.transition_fps));
        let g = with_option(f, "--resize"@, option_text(self.resize));
        let h = with_option(g, "--fill-color"@, option_text(self.fill_color));
        let i = with_option(h, "-f"@, option_text(self.filter));
        let j = if self.invert_y == Some(true) {
            i.push("--invert-y"@)
        } else {
            i
        };
        with_option(j, "--transition-wave"@, option_text(self.transition_wave))
    }

    /// The options of the transition in the order in which the tool is given
    /// them.
    pub fn option_arguments(&self) -> (r: Vec<String>)
        ensures
            texts(r@) == self.options(),
    {
        let mut args: Vec<String> = Vec::new();
        assert(texts(args@) =~= Seq::empty());
        push_option(&mut args, "--transition-type", &self.transition_type);
        push_number(&mut args, "--transition-step", self.transition_step);
        push_option(&mut args, "--transition-angle", &self.transition_angle);
        push_option(&mut args, "--transition-pos", &self.transition_pos);
        push_option(&mut args, "--transition-bezier", &self.transition_bezier);
        push_number(&mut args, "--transition-fps", self.transition_fps);
        push_option(&mut args, "--resize", &self.resize);
        push_option(&mut args, "--fill-color", &self.fill_color);
        push_option(&mut args, "-f", &self.filter);
        match self.invert_y {
            Some(true) => {
                push_text(&mut args, "--invert-y");
            },
            _ => {},
        }
        push_option(&mut args, "--transition-wave", &self.transition_wave);
        args
    }
}

/// Adds one argument.
pub fn push_text(args: &mut Vec<String>, text: &str)
    ensures
        texts(final(args)@) == texts(old(args)@).push(text@),
{
    args.push(owned(text));
    assert(texts(args@) =~= texts(old(args)@).push(text@));
}

/// Adds an option and its value, if there is a value.
pub fn push_option(args: &mut Vec<String>, flag: &str, value: &Option<String>)
    ensures
        texts(final(args)@) == with_option(texts(old(args)@), flag@, option_text(*value)),
{
    match value {
        Some(v) => {
            push_text(args, flag);
            push_text(args, v.as_str());
        },
        None => {},
    }
}

/// Adds an option and its number, if there is a number.
pub fn push_number(args: &mut Vec<String>, flag: &str, value: Option<u8>)
    ensures
        texts(final(args)@) == with_option(texts(old(args)@), flag@, option_decimal(value)),
{
    match value {
        Some(n) => {
            push_text(args, flag);
            push_text(args, decimal(n as u64).as_str());
        },
        None => {},
    }
}

/// A program and the arguments it is run with.
#[derive(Debug)]
pub struct CommandLine {
    pub program: String,
    pub args: Vec<String>,
}

/// The first arguments of the command that shows an image: the subcommand,
/// and the output if one is named.
pub open spec fn img_head(output_name: Option<Seq<char>>) -> Seq<Seq<char>> {
    with_option(seq!["img"@], "-o"@, output_name)
}

/// Builds command lines for the wallpaper tool at a given path.
#[derive(Debug)]
pub struct CommandBuilder {
    swww_path: String,
}

impl Clone for CommandBuilder {
    fn clone(&self) -> (r: CommandBuilder)
        ensures
            r.program() == self.program(),
    {
        CommandBuilder { swww_path: self.swww_path.clone() }
    }
}

impl CommandBuilder {
    /// The path of the wallpaper tool.
    pub closed spec fn program(&self) -> Seq<char> {
        self.swww_path@
    }

    /// A builder for the wallpaper tool at `swww_path`.
    pub fn new(swww_path: String) -> (r: CommandBuilder)
        ensures
            r.program() == swww_path@,
    {
        CommandBuilder { swww_path }
    }

    /// The command line that shows the image: the subcommand, the output if
    /// one is named, the options that are set, and the image last.
    pub fn build_img_command(
        &self,
        image_path: &str,
        config: &OutputConfig,
        output_name: Option<&str>,
    ) -> (r: CommandLine)
        ensures
            r.program@ == self.program(),
            texts(r.args@) == (img_head(
                match output_name {
                    Some(o) => Some(o@),
                    None => None,
                },
            ) + config.options()).push(image_path@),
    {
        let mut args: Vec<String> = Vec::new();
        assert(texts(args@) =~= Seq::empty());
        push_text(&mut args, "img");
        match output_name {
            Some(output) => {
                push_text(&mut args, "-o");
                push_text(&mut args, output);
            },
            None => {},
        }
        let ghost head = texts(args@);
        let mut options = config.option_arguments();
        let ghost o = options@;
        let ghost a = args@;
        args.append(&mut options);
        assert(texts(args@) =~= texts(a) + texts(o));
        push_text(&mut args, image_path);
        CommandLine { program: self.swww_path.clone(), args }
    }
}

} // verus!
