//! The commands of the command-line program, as values.
use vstd::prelude::*;

verus! {

/// The program's arguments: one command.
#[derive(Clone, Debug)]
pub struct Cli {
    pub command: Commands,
}

/// What the program is asked to do.
#[derive(Clone, Debug)]
pub enum Commands {
    /// Audit a journal file.
    Audit {
        input: String,
        format: InputFormat,
        config: Option<String>,
        output: Option<String>,
        export_format: ExportFormat,
        /// Whether a model's analysis is wanted (it needs a key).
        ai: bool,
        /// openai / deepseek / qwen / local.
        ai_provider: String,
        ai_key: String,
    },
    /// Serve the web interface.
    Web { host: String, port: u16 },
    /// Check a configuration file.
    ValidateConfig { config: String },
}

/// The format of the journal file.
#[derive(PartialEq, Eq, Structural, Clone, Copy, Debug)]
pub enum InputFormat {
    Csv,
    Excel,
}

/// Where the report goes.
#[derive(PartialEq, Eq, Structural, Clone, Copy, Debug)]
pub enum ExportFormat {
    Terminal,
    Json,
    Csv,
    Pdf,
}

/// The file an export is written to where no output path is given.
pub open spec fn default_output(f: ExportFormat) -> Option<Seq<char>> {
    match f {
        ExportFormat::Terminal => None,
        ExportFormat::Json => Some("audit_report.json"@),
        ExportFormat::Csv => Some("audit_report.csv"@),
        ExportFormat::Pdf => Some("audit_report.pdf"@),
    }
}

impl ExportFormat {
    /// The file the report is exported to where no output path is given;
    /// none for the terminal.
    pub fn default_output(&self) -> (r: Option<&'static str>)
        ensures
            match r {
                Some(p) => default_output(*self) == Some(p@),
                None => default_output(*self) is None,
            },
    {
        match self {
            ExportFormat::Terminal => None,
            ExportFormat::Json => Some("audit_report.json"),
            ExportFormat::Csv => Some("audit_report.csv"),
            ExportFormat::Pdf => Some("audit_report.pdf"),
        }
    }
}

} // verus!
