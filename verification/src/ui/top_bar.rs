//! The journal sources and the actions of the top bar.
use vstd::prelude::*;

verus! {

/// Where records are read from.
#[derive(Clone, Copy, Debug, PartialEq, Eq, Structural)]
pub enum JournalSource {
    ActiveJournal,
    ShadowCopies,
    CarvedSlack,
}

impl JournalSource {
    /// The display name of a source.
    pub open spec fn label(self) -> Seq<char> {
        match self {
            JournalSource::ActiveJournal => "Active $UsnJrnl:$J"@,
            JournalSource::ShadowCopies => "Volume Shadow Copies"@,
            JournalSource::CarvedSlack => "Unallocated Carved Slack"@,
        }
    }

    /// The display name of the source.
    pub fn as_str(&self) -> (s: &'static str)
        ensures
            s@ == self.label(),
    {
        match self {
            JournalSource::ActiveJournal => "Active $UsnJrnl:$J",
            JournalSource::ShadowCopies => "Volume Shadow Copies",
            JournalSource::CarvedSlack => "Unallocated Carved Slack",
        }
    }
}

/// What the user asked for in the top bar.
pub enum TopBarAction {
    NoAction,
    SearchChanged,
    SourceChanged(JournalSource),
    OpenBypassModal,
    ToggleTheme,
    Refresh,
    ExportCsv,
    ExportJson,
}

/// What a source change starts: a journal scan (`true`) or a slack carve (`false`).
pub open spec fn starts_scan(source: JournalSource) -> bool {
    source != JournalSource::CarvedSlack
}

/// Whether choosing `source` starts a journal scan rather than a carve of unallocated
/// clusters.
pub fn source_starts_scan(source: JournalSource) -> (b: bool)
    ensures
        b == starts_scan(source),
{
    match source {
        JournalSource::ActiveJournal => true,
        JournalSource::ShadowCopies => true,
        JournalSource::CarvedSlack => false,
    }
}

} // verus!
