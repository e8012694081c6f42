//! Transcript export: markdown rendering of coder rollout records.
use vstd::prelude::*;

pub mod markdown;
pub mod values;
pub mod items;
pub mod records;
pub mod events;
pub mod transcript;
pub mod lookup;
pub mod outputs;

verus! {

/// How much of a session a transcript keeps.
#[derive(Clone, Copy, Debug, PartialEq, Eq, Structural)]
pub enum ExportMode {
    Compact,
    Medium,
    Full,
    Json,
}

/// The name of a mode, as the transcript header prints it.
pub open spec fn mode_name(mode: ExportMode) -> Seq<char> {
    match mode {
        ExportMode::Compact => "compact"@,
        ExportMode::Medium => "medium"@,
        ExportMode::Full => "full"@,
        ExportMode::Json => "json"@,
    }
}

impl ExportMode {
    /// The mode's name.
    pub fn as_str(self) -> (r: &'static str)
        ensures
            r@ == mode_name(self),
    {
        match self {
            ExportMode::Compact => "compact",
            ExportMode::Medium => "medium",
            ExportMode::Full => "full",
            ExportMode::Json => "json",
        }
    }
}

} // verus!
