use vstd::prelude::*;

use crate::error::Error;

verus! {

/// The shape of an executable command: the argument layer around the
/// library gives each of its commands this interface and performs the
/// plan that `run` below decides.
pub trait Runnable {
    fn run(&self) -> Result<(), Error>;
}

/// The immutable configuration of a generate invocation, as the argument
/// layer hands it in. The four import/export switches are meant to be
/// mutually exclusive; `run` refuses a configuration that sets more than
/// one.
#[derive(PartialEq, Eq, Debug)]
pub struct GenerateCommand {
    pub endpoint_url: String,
    pub lang: String,
    pub edit: bool,
    pub force: bool,
    pub to_clipboard: bool,
    pub from_clipboard: bool,
    pub to_pad: bool,
    pub from_pad: Option<String>,
    pub no_ask_presence: bool,
}

/// The immutable configuration of a new-post invocation.
#[derive(PartialEq, Eq, Debug)]
pub struct NewCommand {
    pub path: String,
    pub lang: String,
    pub edit: bool,
    pub force: bool,
}

/// One invocation of the tool.
#[derive(PartialEq, Eq, Debug)]
pub enum Command {
    GenerateCommand(GenerateCommand),
    NewCommand(NewCommand),
}

#[derive(PartialEq, Eq, Debug)]
pub struct Cli {
    pub command: Command,
}

/// Which of the five generate pipelines the configuration selects.
#[derive(Clone, Copy, PartialEq, Eq, Structural, Debug)]
pub enum GenerateMode {
    /// Render and write to the local tree.
    Local,
    /// Render into the OS clipboard.
    ToClipboard,
    /// Open the pad page and render into the clipboard for pasting.
    ToPad,
    /// Import the clipboard text and write it to the local tree.
    FromClipboard,
    /// Download the pad text and write it to the local tree.
    FromPad,
}

/// What an invocation is to do.
#[derive(Clone, Copy, PartialEq, Eq, Structural, Debug)]
pub enum RunPlan {
    Generate(GenerateMode),
    New,
}

/// How many of the mutually exclusive import/export switches are set.
pub open spec fn spec_sink_count(c: GenerateCommand) -> int {
    (if c.to_clipboard {
        1int
    } else {
        0int
    }) + (if c.from_clipboard {
        1int
    } else {
        0int
    }) + (if c.to_pad {
        1int
    } else {
        0int
    }) + (if c.from_pad is Some {
        1int
    } else {
        0int
    })
}

/// The pipeline a generate configuration selects, or the conflict error
/// where import and export are requested together.
pub open spec fn spec_generate_mode(c: GenerateCommand) -> Result<GenerateMode, Error> {
    if spec_sink_count(c) > 1 {
        Err(Error::ConfigurationConflict)
    } else if c.from_clipboard {
        Ok(GenerateMode::FromClipboard)
    } else if c.from_pad is Some {
        Ok(GenerateMode::FromPad)
    } else if c.to_clipboard {
        Ok(GenerateMode::ToClipboard)
    } else if c.to_pad {
        Ok(GenerateMode::ToPad)
    } else {
        Ok(GenerateMode::Local)
    }
}

pub fn plan_generate(c: &GenerateCommand) -> (r: Result<GenerateMode, Error>)
    ensures
        r == spec_generate_mode(*c),
{
    let mut sinks: u64 = 0;
    if c.to_clipboard {
        sinks = sinks + 1;
    }
    if c.from_clipboard {
        sinks = sinks + 1;
    }
    if c.to_pad {
        sinks = sinks + 1;
    }
    if c.from_pad.is_some() {
        sinks = sinks + 1;
    }
    if sinks > 1 {
        Err(Error::ConfigurationConflict)
    } else if c.from_clipboard {
        Ok(GenerateMode::FromClipboard)
    } else if c.from_pad.is_some() {
        Ok(GenerateMode::FromPad)
    } else if c.to_clipboard {
        Ok(GenerateMode::ToClipboard)
    } else if c.to_pad {
        Ok(GenerateMode::ToPad)
    } else {
        Ok(GenerateMode::Local)
    }
}

/// What an invocation is to do.
pub open spec fn spec_run(command: Command) -> Result<RunPlan, Error> {
    match command {
        Command::GenerateCommand(c) => match spec_generate_mode(c) {
            Ok(m) => Ok(RunPlan::Generate(m)),
            Err(e) => Err(e),
        },
        Command::NewCommand(_) => Ok(RunPlan::New),
    }
}

/// Decides what an invocation is to do; everything that performs the
/// plan — fetching, rendering, writing, the clipboard — happens at the
/// caller's side.
pub fn run(command: &Command) -> (r: Result<RunPlan, Error>)
    ensures
        r == spec_run(*command),
{
    match command {
        Command::GenerateCommand(c) => {
            match plan_generate(c) {
                Ok(m) => Ok(RunPlan::Generate(m)),
                Err(e) => Err(e),
            }
        },
        Command::NewCommand(_) => Ok(RunPlan::New),
    }
}

} // verus!
