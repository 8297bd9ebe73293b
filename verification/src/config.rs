use vstd::prelude::*;
use vstd::string::StringExecFns;

verus! {

/// What is made of the image.
#[derive(Clone, Copy, Debug, PartialEq, Eq, Structural)]
pub enum Function {
    /// The energy map itself.
    Energy,
    /// The image with its energy as alpha channel.
    EnergyAsAlpha,
    /// The image with regions filled by their average colour.
    FillAvgColor,
}

/// The shape of the energy.
#[derive(Clone, Copy, Debug, PartialEq, Eq, Structural)]
pub enum Mode {
    /// One energy per colour channel, shown as a colour image.
    Component,
    /// One energy per pixel, shown in grey.
    Combined,
}

/// The colour space in which differences are taken.
#[derive(Clone, Copy, Debug, PartialEq, Eq, Structural)]
pub enum ColorSpace {
    RGB,
    LAB,
}

/// What is wrong with a request.
#[derive(Clone, Copy, Debug, PartialEq, Eq, Structural)]
pub enum Error {
    /// No path was given.
    MissingPath,
    /// The path is neither a file nor a directory.
    NotFileOrDirectory,
    /// The path is a directory, and directories are not worked on.
    DirectoryNotSupported,
    /// The function asked for is not available.
    FunctionNotSupported,
    /// The path does not end in a file name.
    NoFileName,
}

/// The settings of one run, as given on the command line.
#[derive(Clone, Debug)]
pub struct Config {
    /// Path of the image.
    pub path: String,
    /// The gamma as it was written, if one was given.
    pub gamma: Option<String>,
    pub function: Function,
    pub mode: Mode,
    pub color_space: ColorSpace,
    /// Whether energies taken in LAB space are shown as RGB colours.
    pub convert_lab_to_rgb: bool,
}

/// The text of an optional argument.
pub open spec fn text_of(arg: Option<String>) -> Option<Seq<char>> {
    match arg {
        Some(v) => Some(v@),
        None => None,
    }
}

/// The function that an argument names: `alpha` and `fillavg` name
/// theirs, anything else and no argument name the energy map.
pub open spec fn function_of(arg: Option<Seq<char>>) -> Function {
    if arg == Some("alpha"@) {
        Function::EnergyAsAlpha
    } else if arg == Some("fillavg"@) {
        Function::FillAvgColor
    } else {
        Function::Energy
    }
}

/// The mode that an argument names: `component` names its own, anything
/// else and no argument name the combined mode.
pub open spec fn mode_of(arg: Option<Seq<char>>) -> Mode {
    if arg == Some("component"@) {
        Mode::Component
    } else {
        Mode::Combined
    }
}

/// The colour space that an argument names: `rgb` names its own, anything
/// else and no argument name LAB.
pub open spec fn color_space_of(arg: Option<Seq<char>>) -> ColorSpace {
    if arg == Some("rgb"@) {
        ColorSpace::RGB
    } else {
        ColorSpace::LAB
    }
}

/// Whether an argument asks for LAB energies to be shown as RGB colours:
/// only `yes` does.
pub open spec fn convert_of(arg: Option<Seq<char>>) -> bool {
    arg == Some("yes"@)
}

/// The argument at position `i`, if there is one.
pub open spec fn argument_of(args: Seq<String>, i: int) -> Option<Seq<char>> {
    if 0 <= i < args.len() {
        Some(args[i]@)
    } else {
        None
    }
}

fn is_word(arg: &Option<String>, word: &str) -> (same: bool)
    ensures
        same == (text_of(*arg) == Some(word@)),
{
    match arg {
        Some(v) => *v == String::from_str(word),
        None => false,
    }
}

/// Reads the function out of its argument.
pub fn parse_function(args: Option<String>) -> (function: Function)
    ensures
        function == function_of(text_of(args)),
{
    if is_word(&args, "alpha") {
        Function::EnergyAsAlpha
    } else if is_word(&args, "fillavg") {
        Function::FillAvgColor
    } else {
        Function::Energy
    }
}

/// Reads the mode out of its argument.
pub fn parse_mode(args: Option<String>) -> (mode: Mode)
    ensures
        mode == mode_of(text_of(args)),
{
    if is_word(&args, "component") {
        Mode::Component
    } else {
        Mode::Combined
    }
}

/// Reads the colour space out of its argument.
pub fn parse_color_space(args: Option<String>) -> (color_space: ColorSpace)
    ensures
        color_space == color_space_of(text_of(args)),
{
    if is_word(&args, "rgb") {
        ColorSpace::RGB
    } else {
        ColorSpace::LAB
    }
}

/// Reads out of its argument whether LAB energies are shown as RGB
/// colours.
pub fn parse_component_convert_lab_to_rgb(args: Option<String>) -> (convert: bool)
    ensures
        convert == convert_of(text_of(args)),
{
    is_word(&args, "yes")
}

fn argument(args: &Vec<String>, i: usize) -> (arg: Option<String>)
    ensures
        text_of(arg) == argument_of(args@, i as int),
{
    if i < args.len() {
        Some(args[i].clone())
    } else {
        None
    }
}

impl Mode {
    /// Number of bytes that a pixel of the picture takes.
    pub open spec fn spec_channels(&self) -> int {
        match self {
            Mode::Component => 3,
            Mode::Combined => 1,
        }
    }

    /// Number of bytes that a pixel of the picture takes: three in
    /// component mode, one in combined mode.
    pub fn channels(&self) -> (channels: u8)
        ensures
            channels == self.spec_channels(),
    {
        match self {
            Mode::Component => 3,
            Mode::Combined => 1,
        }
    }
}

impl Error {
    /// The text of the error.
    pub open spec fn spec_message(&self) -> Seq<char> {
        match self {
            Error::MissingPath => "Path not found"@,
            Error::NotFileOrDirectory => "path is not a directory or a file"@,
            Error::DirectoryNotSupported => "directories are not supported"@,
            Error::FunctionNotSupported => "function is not supported"@,
            Error::NoFileName => "path has no file name"@,
        }
    }

    /// The text of the error.
    pub fn message(&self) -> (text: String)
        ensures
            text@ == self.spec_message(),
    {
        match self {
            Error::MissingPath => String::from_str("Path not found"),
            Error::NotFileOrDirectory => String::from_str("path is not a directory or a file"),
            Error::DirectoryNotSupported => String::from_str("directories are not supported"),
            Error::FunctionNotSupported => String::from_str("function is not supported"),
            Error::NoFileName => String::from_str("path has no file name"),
        }
    }
}

impl Config {
    /// Reads the settings out of the arguments of the program, the first
    /// of which is the program's own name. The path is the only one that
    /// has to be there; each of the others falls back to its default
    /// where it is missing or not understood.
    pub fn new(args: &Vec<String>) -> (config: Result<Config, Error>)
        ensures
            args@.len() < 2 ==> config == Err::<Config, Error>(Error::MissingPath),
            args@.len() >= 2 ==> config is Ok && ({
                let c = config->Ok_0;
                &&& c.path@ == args@[1]@
                &&& text_of(c.gamma) == argument_of(args@, 2)
                &&& c.function == function_of(argument_of(args@, 3))
                &&& c.mode == mode_of(argument_of(args@, 4))
                &&& c.color_space == color_space_of(argument_of(args@, 5))
                &&& c.convert_lab_to_rgb == convert_of(argument_of(args@, 6))
            }),
    {
        if args.len() < 2 {
            return Err(Error::MissingPath);
        }
        let path: String = args[1].clone();
        let gamma: Option<String> = argument(args, 2);
        let function: Function = parse_function(argument(args, 3));
        let mode: Mode = parse_mode(argument(args, 4));
        let color_space: ColorSpace = parse_color_space(argument(args, 5));
        let convert_lab_to_rgb: bool = parse_component_convert_lab_to_rgb(argument(args, 6));
        Ok(Config { path, gamma, function, mode, color_space, convert_lab_to_rgb })
    }
}

} // verus!
