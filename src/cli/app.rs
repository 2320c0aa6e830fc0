use vstd::prelude::*;
use crate::text::text_is;

verus! {

/// The command line of the analyzer, as plain values.
pub struct CliArgs {
    /// Path to a log file.
    pub file: Option<String>,
    /// Whether to run the interactive dashboard.
    pub interactive: bool,
    /// Output format: `text`, `json` or `csv`.
    pub output: String,
}

/// How results are written.
#[derive(Clone, Copy, Debug, PartialEq, Eq, Structural)]
pub enum OutputFormat {
    Text,
    Json,
    Csv,
}

/// What the command line asks for.
pub enum CliCommand {
    /// Analyse a file and write the results in a format.
    Analyze { file: String, format: OutputFormat },
    /// Open the interactive dashboard.
    Interactive,
    /// Nothing to do: show how to use the program.
    Usage,
}

/// The output format that a name selects; any unknown name means text.
pub open spec fn format_named(name: Seq<char>) -> OutputFormat {
    if name == "json"@ {
        OutputFormat::Json
    } else if name == "csv"@ {
        OutputFormat::Csv
    } else {
        OutputFormat::Text
    }
}

impl OutputFormat {
    /// Selects the output format by name.
    pub fn from_name(name: &String) -> (r: OutputFormat)
        ensures
            r == format_named(name@),
    {
        if text_is(name, "json") {
            OutputFormat::Json
        } else if text_is(name, "csv") {
            OutputFormat::Csv
        } else {
            OutputFormat::Text
        }
    }
}

impl CliArgs {
    /// Decides what to do: a file wins over the interactive flag.
    pub fn command(&self) -> (r: CliCommand)
        ensures
            match self.file {
                Some(f) => r matches CliCommand::Analyze { file, format } && file@ == f@ && format
                    == format_named(self.output@),
                None => if self.interactive {
                    r is Interactive
                } else {
                    r is Usage
                },
            },
    {
        match &self.file {
            Some(f) => CliCommand::Analyze { file: f.clone(), format: OutputFormat::from_name(&self.output) },
            None => if self.interactive {
                CliCommand::Interactive
            } else {
                CliCommand::Usage
            },
        }
    }
}

} // verus!
