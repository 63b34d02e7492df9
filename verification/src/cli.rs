//! The commands of the program, and the rule on how a run gets its data.

use vstd::prelude::*;
use crate::error::AppError;

verus! {

/// The command line of the program.
#[derive(Debug)]
pub struct Cli {
    pub command: Commands,
}

/// The commands of the program.
#[derive(Debug)]
pub enum Commands {
    /// Renders a template with the data given.
    Run {
        /// The name of the template to use.
        template_name: String,
        /// Data arguments, each `key=value`, `key@=filepath` or `key@-`.
        args: Vec<String>,
        /// Whether the user fills the variables in an editor.
        interactive: bool,
        /// Whether the output is kept off the clipboard.
        no_copy: bool,
    },
    /// Manages the stored templates.
    Template { command: TemplateCommands },
}

/// The commands on stored templates.
#[derive(Debug)]
pub enum TemplateCommands {
    /// Lists the templates.
    List,
    /// Creates a template.
    New { name: String },
    /// Edits a template.
    Edit { name: String },
}

/// Where a run takes its data from.
#[derive(Debug, PartialEq, Eq, Clone, Copy)]
pub enum DataSource {
    /// From a document that the user fills in an editor.
    Interactive,
    /// From the data arguments.
    Arguments,
}

/// The message for data arguments given together with the interactive mode.
pub open spec fn mixed_modes_message() -> Seq<char> {
    "Cannot use data arguments with --interactive mode."@
}

/// Where a run takes its data from: the interactive mode excludes data
/// arguments.
pub open spec fn data_source_of(interactive: bool, args: Seq<String>) -> Result<DataSource, Seq<char>> {
    if interactive {
        if args.len() > 0 {
            Err(mixed_modes_message())
        } else {
            Ok(DataSource::Interactive)
        }
    } else {
        Ok(DataSource::Arguments)
    }
}

/// Decides where a run takes its data from.
pub fn data_source(interactive: bool, args: &Vec<String>) -> (r: Result<DataSource, AppError>)
    ensures
        match r {
            Ok(source) => data_source_of(interactive, args@) == Ok::<DataSource, Seq<char>>(source),
            Err(e) => e is InvalidArgument && data_source_of(interactive, args@) == Err::<
                DataSource,
                Seq<char>,
            >(e->InvalidArgument_0@),
        },
{
    if interactive {
        if args.len() > 0 {
            let msg = "Cannot use data arguments with --interactive mode.";
            Err(AppError::InvalidArgument(msg.to_owned()))
        } else {
            Ok(DataSource::Interactive)
        }
    } else {
        Ok(DataSource::Arguments)
    }
}

impl Commands {
    /// Whether the command renders a template.
    pub open spec fn is_run(self) -> bool {
        self is Run
    }

    /// Where the command takes its data from, if it renders a template.
    pub fn source(&self) -> (r: Option<Result<DataSource, AppError>>)
        ensures
            r is Some == self.is_run(),
            match (r, *self) {
                (Some(Ok(source)), Commands::Run { interactive, args, .. }) => data_source_of(
                    interactive,
                    args@,
                ) == Ok::<DataSource, Seq<char>>(source),
                (Some(Err(e)), Commands::Run { interactive, args, .. }) => e is InvalidArgument
                    && data_source_of(interactive, args@) == Err::<DataSource, Seq<char>>(
                    e->InvalidArgument_0@,
                ),
                _ => true,
            },
    {
        match self {
            Commands::Run { interactive, args, .. } => Some(data_source(*interactive, args)),
            Commands::Template { .. } => None,
        }
    }
}

} // verus!
