//! The command line, as values: what `usfm parse` was asked to do.
//!
//! The flags themselves are read by the program around the library; these
//! are the values they fill in, and the policy that follows from them.
use vstd::prelude::*;
use crate::diagnostics::Severity;
use crate::pipeline::OutputFormat;

verus! {

/// The command line.
pub struct Cli {
    pub command: Command,
}

/// The one command.
pub enum Command {
    /// Parse USFM files and write them out in another format.
    Parse(ParseArgs),
}

/// What `usfm parse` was asked to do.
pub struct ParseArgs {
    /// The USFM files to read, concatenated in the order given.
    pub files: Vec<String>,
    /// The output format.
    pub format: Format,
    /// A stylesheet to parse against, in place of the built-in one.
    pub stylesheet: Option<String>,
    /// Where to write, in place of standard output.
    pub output: Option<String>,
    /// Files of text replacement rules.
    pub replace: Vec<String>,
    /// The other translation of a diglot.
    pub diglot: Vec<String>,
    /// The stylesheet for the diglot files.
    pub diglot_stylesheet: Option<String>,
    /// Replacement rules for the diglot files.
    pub diglot_replace: Vec<String>,
    /// Rewrite the output whenever one of the files changes.
    pub watch: bool,
    /// Write nothing, and fail, if any diagnostic is an error.
    pub strict: bool,
    /// Write nothing, and fail, if any diagnostic is a warning or worse.
    pub deny_warnings: bool,
    /// How diagnostics are written.
    pub diagnostics: DiagnosticFormat,
}

/// `--format`.
#[derive(Clone, Copy, Debug, PartialEq, Eq, Structural)]
pub enum Format {
    Usx,
    Html,
    Json,
    Sile,
    Prompt,
}

/// `--diagnostics`.
#[derive(Clone, Copy, Debug, PartialEq, Eq, Structural)]
pub enum DiagnosticFormat {
    /// One `file:line:col: severity[code]: message` line per diagnostic.
    Text,
    /// One JSON object per line.
    Json,
}

/// The output format a `--format` names.
pub open spec fn output_format_spec(format: Format) -> OutputFormat {
    match format {
        Format::Usx => OutputFormat::Usx,
        Format::Html => OutputFormat::Html,
        Format::Json => OutputFormat::Json,
        Format::Sile => OutputFormat::Sile,
        Format::Prompt => OutputFormat::Prompt,
    }
}

/// The output format a `--format` names.
pub fn output_format(format: Format) -> (out: OutputFormat)
    ensures
        out == output_format_spec(format),
{
    match format {
        Format::Usx => OutputFormat::Usx,
        Format::Html => OutputFormat::Html,
        Format::Json => OutputFormat::Json,
        Format::Sile => OutputFormat::Sile,
        Format::Prompt => OutputFormat::Prompt,
    }
}

impl ParseArgs {
    /// The severity at or above which a diagnostic stops the run, if any.
    /// `--deny-warnings` is the stricter of the two and wins when both are
    /// given.
    pub fn threshold(&self) -> (threshold: Option<Severity>)
        ensures
            threshold == if self.deny_warnings {
                Some(Severity::Warning)
            } else if self.strict {
                Some(Severity::Error)
            } else {
                None
            },
    {
        if self.deny_warnings {
            Some(Severity::Warning)
        } else if self.strict {
            Some(Severity::Error)
        } else {
            None
        }
    }

    /// The flag that set the threshold, for the message that reports it.
    pub fn threshold_flag(&self) -> (flag: &'static str)
        ensures
            flag@ == if self.deny_warnings {
                "--deny-warnings"@
            } else {
                "--strict"@
            },
    {
        if self.deny_warnings {
            "--deny-warnings"
        } else {
            "--strict"
        }
    }
}

} // verus!
