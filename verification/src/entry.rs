//! The journal entry data model: the canonical entry record, its reduced
//! listing view, and the error taxonomy shared by the stores and the
//! catalog.

use vstd::prelude::*;
use vstd::string::*;

verus! {

/// The mathematical view of a journal entry.
pub ghost struct EntryModel {
    pub id: u32,
    pub title: Seq<char>,
    pub summary: Seq<char>,
    pub content: Seq<char>,
}

/// A journal entry: a stable id, a human-readable title, a short summary
/// and the body. In the store the body holds raw markup; the catalog hands
/// out entries whose body has been rendered to HTML.
pub struct JournalEntry {
    pub id: u32,
    pub title: String,
    pub summary: String,
    pub content: String,
}

impl View for JournalEntry {
    type V = EntryModel;

    open spec fn view(&self) -> EntryModel {
        EntryModel {
            id: self.id,
            title: self.title@,
            summary: self.summary@,
            content: self.content@,
        }
    }
}

impl JournalEntry {
    /// A field-for-field copy of the entry.
    pub fn duplicate(&self) -> (r: JournalEntry)
        ensures
            r@ == self@,
    {
        JournalEntry {
            id: self.id,
            title: self.title.clone(),
            summary: self.summary.clone(),
            content: self.content.clone(),
        }
    }
}

/// The mathematical view of a listing summary.
pub ghost struct SummaryModel {
    pub id: u32,
    pub title: Seq<char>,
    pub summary: Seq<char>,
}

/// The reduced listing view of an entry: id, title and summary, no body.
pub struct EntrySummary {
    pub id: u32,
    pub title: String,
    pub summary: String,
}

impl View for EntrySummary {
    type V = SummaryModel;

    open spec fn view(&self) -> SummaryModel {
        SummaryModel { id: self.id, title: self.title@, summary: self.summary@ }
    }
}

/// The summary belonging to an entry.
pub open spec fn summary_of(e: EntryModel) -> SummaryModel {
    SummaryModel { id: e.id, title: e.title, summary: e.summary }
}

/// `e` with its title replaced.
pub open spec fn with_title(e: EntryModel, title: Seq<char>) -> EntryModel {
    EntryModel { id: e.id, title, summary: e.summary, content: e.content }
}

/// `e` with its summary replaced.
pub open spec fn with_summary(e: EntryModel, summary: Seq<char>) -> EntryModel {
    EntryModel { id: e.id, title: e.title, summary, content: e.content }
}

/// `e` with its body replaced.
pub open spec fn with_content(e: EntryModel, content: Seq<char>) -> EntryModel {
    EntryModel { id: e.id, title: e.title, summary: e.summary, content }
}

/// What can go wrong in a store or catalog operation.
#[derive(Clone, Copy, Debug, PartialEq, Eq, Structural)]
pub enum StoreError {
    /// The id (or title key) names no entry.
    NotFound,
    /// The backing store could not be reached.
    ConnectionFailure,
    /// A row or file could not be read as an entry.
    MalformedInput,
    /// A required configuration value was absent at startup.
    ConfigurationError,
}

impl StoreError {
    /// The message shown for this error on the command line.
    pub open spec fn spec_message(&self) -> Seq<char> {
        match self {
            StoreError::NotFound => "entry not found"@,
            StoreError::ConnectionFailure => "store unreachable"@,
            StoreError::MalformedInput => "malformed entry data"@,
            StoreError::ConfigurationError => "missing configuration value"@,
        }
    }

    /// Format the error for the command line.
    pub fn message(&self) -> (r: String)
        ensures
            r@ == self.spec_message(),
    {
        match self {
            StoreError::NotFound => String::from_str("entry not found"),
            StoreError::ConnectionFailure => String::from_str("store unreachable"),
            StoreError::MalformedInput => String::from_str("malformed entry data"),
            StoreError::ConfigurationError => String::from_str("missing configuration value"),
        }
    }
}

} // verus!
