//! The failures that the library reports.

use vstd::prelude::*;
use crate::text::concat;

verus! {

/// The step of a file's synchronization at which outside work failed.
#[derive(Debug, Clone, Copy, PartialEq, Eq, Structural)]
pub enum SyncStage {
    /// Reading the source file to hash it.
    Hash,
    /// Listing the drives that are connected.
    Inventory,
    /// Writing the file to its drive.
    Copy,
}

impl SyncStage {
    /// The stage's name in messages.
    pub fn as_str(&self) -> (s: &'static str)
        ensures
            s@ == match *self {
                SyncStage::Hash => "hash"@,
                SyncStage::Inventory => "inventory"@,
                SyncStage::Copy => "copy"@,
            },
    {
        match self {
            SyncStage::Hash => "hash",
            SyncStage::Inventory => "inventory",
            SyncStage::Copy => "copy",
        }
    }
}

/// A failure, with the text that describes it.
#[derive(Debug, PartialEq, Eq)]
pub enum OrchestratorError {
    /// Outside work on a file failed: the file's path, the stage, the cause.
    Io(String, SyncStage, String),
    /// The configuration is not usable.
    Config(String),
    /// The source file does not exist; holds its path.
    NotFound(String),
    /// No drive is configured for a category; holds the category.
    NoRoute(String),
    /// A file could not be classified.
    Classification(String),
}

/// A failure as a mathematical value.
pub enum ErrorView {
    Io(Seq<char>, SyncStage, Seq<char>),
    Config(Seq<char>),
    NotFound(Seq<char>),
    NoRoute(Seq<char>),
    Classification(Seq<char>),
}

impl View for OrchestratorError {
    type V = ErrorView;

    open spec fn view(&self) -> ErrorView {
        match *self {
            OrchestratorError::Io(path, stage, cause) => ErrorView::Io(path@, stage, cause@),
            OrchestratorError::Config(m) => ErrorView::Config(m@),
            OrchestratorError::NotFound(p) => ErrorView::NotFound(p@),
            OrchestratorError::NoRoute(c) => ErrorView::NoRoute(c@),
            OrchestratorError::Classification(m) => ErrorView::Classification(m@),
        }
    }
}

/// The text of a failure as a sequence of characters.
pub open spec fn error_text(e: ErrorView) -> Seq<char> {
    match e {
        ErrorView::Io(path, stage, cause) => "Sync error: "@ + stage.as_str_spec()
            + " failed for "@ + path + ": "@ + cause,
        ErrorView::Config(m) => "Configuration error: "@ + m,
        ErrorView::NotFound(p) => "File does not exist: "@ + p,
        ErrorView::NoRoute(c) => "No drive configured for category: "@ + c,
        ErrorView::Classification(m) => "File classification error: "@ + m,
    }
}

impl SyncStage {
    /// The stage's name in messages, as a sequence of characters.
    pub open spec fn as_str_spec(&self) -> Seq<char> {
        match *self {
            SyncStage::Hash => "hash"@,
            SyncStage::Inventory => "inventory"@,
            SyncStage::Copy => "copy"@,
        }
    }
}

impl OrchestratorError {
    /// The text that describes the failure.
    pub fn message(&self) -> (m: String)
        ensures
            m@ == error_text(self@),
    {
        match self {
            OrchestratorError::Io(path, stage, cause) => {
                let a = concat("Sync error: ", stage.as_str());
                let b = concat(a.as_str(), " failed for ");
                let c = concat(b.as_str(), path.as_str());
                let d = concat(c.as_str(), ": ");
                concat(d.as_str(), cause.as_str())
            },
            OrchestratorError::Config(m) => concat("Configuration error: ", m.as_str()),
            OrchestratorError::NotFound(p) => concat("File does not exist: ", p.as_str()),
            OrchestratorError::NoRoute(c) => concat(
                "No drive configured for category: ",
                c.as_str(),
            ),
            OrchestratorError::Classification(m) => concat(
                "File classification error: ",
                m.as_str(),
            ),
        }
    }
}

} // verus!
