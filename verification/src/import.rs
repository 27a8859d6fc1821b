//! The import of a relational source into the table.
//!
//! One run checks the layout of the source, then writes every alias, then writes
//! what is known of every sequence. The run is a state machine: the caller probes
//! the source, reads its rows and writes the items, and reports each outcome as an
//! event; the machine says what to do next. The first row that cannot be read, and
//! the first write that fails, end the run: no later row is written.

use crate::keys::InputError;
use crate::records::{FastadirEntry, FastadirEntryView, SeqAlias, SeqAliasView};
use crate::store::{
    alias_put, put_seq_alias, put_seq_info, sequence_put, PutItem, PutItemView, StoreError,
    StoreErrorView,
};
use vstd::prelude::*;
use vstd::string::*;

verus! {

/// What a path of the source turned out to be.
#[derive(Debug, Clone, Copy, PartialEq, Eq, Structural)]
pub enum PathKind {
    Missing,
    File,
    Directory,
    /// Something that is neither a file nor a directory.
    Other,
}

/// What was found at the three places of a source: the database of aliases, the
/// directory of sequences, and the database of sequences in it.
#[derive(Debug, Clone, Copy, PartialEq, Eq, Structural)]
pub struct SourceLayout {
    pub aliases_db: PathKind,
    pub sequences_dir: PathKind,
    pub sequences_db: PathKind,
}

/// The source does not have the layout of a sequence repository.
#[derive(Debug, Clone, Copy, PartialEq, Eq, Structural)]
pub struct SeqRepoInstanceError;

/// Where the parts of a source lie, each relative to the one before: the database
/// of aliases and the directory of sequences in the source directory, the database
/// of sequences in the directory of sequences.
#[derive(Debug, Clone, PartialEq, Eq)]
pub struct SourcePaths {
    pub aliases_db: String,
    pub sequences_dir: String,
    pub sequences_db: String,
}

/// Why a run of the import ended without finishing.
#[derive(Debug, Clone, PartialEq, Eq)]
pub enum SeqRepoImportError {
    /// A part of the source is missing. Nothing was read or written.
    InvalidSourceLayout,
    /// A row could not be read, or cannot be stored as it is.
    SourceReadFailure,
    /// A write failed.
    StoreFailure(StoreError),
    /// An event was reported that does not answer what the run had asked for.
    OutOfOrder,
}

/// An import error as plain data.
pub enum ImportErrorView {
    InvalidSourceLayout,
    SourceReadFailure,
    StoreFailure(StoreErrorView),
    OutOfOrder,
}

impl View for SeqRepoImportError {
    type V = ImportErrorView;

    open spec fn view(&self) -> ImportErrorView {
        match self {
            SeqRepoImportError::InvalidSourceLayout => ImportErrorView::InvalidSourceLayout,
            SeqRepoImportError::SourceReadFailure => ImportErrorView::SourceReadFailure,
            SeqRepoImportError::StoreFailure(e) => ImportErrorView::StoreFailure(e@),
            SeqRepoImportError::OutOfOrder => ImportErrorView::OutOfOrder,
        }
    }
}

/// How many records a finished run has written.
#[derive(Debug, Clone, Copy, PartialEq, Eq, Structural)]
pub struct ImportSummary {
    pub aliases: u64,
    pub sequences: u64,
}

/// Where a run stands.
#[derive(Debug, Clone, PartialEq, Eq)]
pub enum ImportState {
    /// The layout of the source is being checked.
    Validating,
    /// Aliases are being written: `written` so far, and one more is under way
    /// where `writing` holds.
    ImportingAliases { written: u64, writing: bool },
    /// Sequences are being written, after `aliases` aliases.
    ImportingSequenceInfo { aliases: u64, written: u64, writing: bool },
    /// The run has finished.
    Done(ImportSummary),
    /// The run was ended by an error.
    Failed(SeqRepoImportError),
}

/// A run's state as plain data.
pub enum ImportStateView {
    Validating,
    ImportingAliases { written: u64, writing: bool },
    ImportingSequenceInfo { aliases: u64, written: u64, writing: bool },
    Done(ImportSummary),
    Failed(ImportErrorView),
}

impl View for ImportState {
    type V = ImportStateView;

    open spec fn view(&self) -> ImportStateView {
        match self {
            ImportState::Validating => ImportStateView::Validating,
            ImportState::ImportingAliases { written, writing } => ImportStateView::ImportingAliases {
                written: *written,
                writing: *writing,
            },
            ImportState::ImportingSequenceInfo {
                aliases,
                written,
                writing,
            } => ImportStateView::ImportingSequenceInfo {
                aliases: *aliases,
                written: *written,
                writing: *writing,
            },
            ImportState::Done(summary) => ImportStateView::Done(*summary),
            ImportState::Failed(e) => ImportStateView::Failed(e@),
        }
    }
}

/// What the caller reports to a run.
#[derive(Debug, Clone, PartialEq, Eq)]
pub enum ImportEvent {
    /// The source was probed.
    Layout(SourceLayout),
    /// The next row of the table of aliases.
    AliasRow(SeqAlias),
    /// The next row of the table of sequences.
    SequenceRow(FastadirEntry),
    /// The next row could not be read.
    RowFailed,
    /// The table has no more rows.
    EndOfRows,
    /// The item was written.
    PutDone,
    /// The item could not be written.
    PutFailed(StoreError),
}

/// An event as plain data.
pub enum ImportEventView {
    Layout(SourceLayout),
    AliasRow(SeqAliasView),
    SequenceRow(FastadirEntryView),
    RowFailed,
    EndOfRows,
    PutDone,
    PutFailed(StoreErrorView),
}

impl View for ImportEvent {
    type V = ImportEventView;

    open spec fn view(&self) -> ImportEventView {
        match self {
            ImportEvent::Layout(layout) => ImportEventView::Layout(*layout),
            ImportEvent::AliasRow(row) => ImportEventView::AliasRow(row@),
            ImportEvent::SequenceRow(row) => ImportEventView::SequenceRow(row@),
            ImportEvent::RowFailed => ImportEventView::RowFailed,
            ImportEvent::EndOfRows => ImportEventView::EndOfRows,
            ImportEvent::PutDone => ImportEventView::PutDone,
            ImportEvent::PutFailed(e) => ImportEventView::PutFailed(e@),
        }
    }
}

/// What a run asks of the caller.
#[derive(Debug, Clone)]
pub enum ImportAction {
    /// Probe the source and report its layout.
    CheckLayout,
    /// Read the next row of the table of aliases.
    NextAliasRow,
    /// Read the next row of the table of sequences.
    NextSequenceRow,
    /// Write this item.
    Put(PutItem),
    /// Nothing: the run is over.
    Stop,
}

/// An action as plain data.
pub enum ImportActionView {
    CheckLayout,
    NextAliasRow,
    NextSequenceRow,
    Put(PutItemView),
    Stop,
}

impl View for ImportAction {
    type V = ImportActionView;

    open spec fn view(&self) -> ImportActionView {
        match self {
            ImportAction::CheckLayout => ImportActionView::CheckLayout,
            ImportAction::NextAliasRow => ImportActionView::NextAliasRow,
            ImportAction::NextSequenceRow => ImportActionView::NextSequenceRow,
            ImportAction::Put(put) => ImportActionView::Put(put@),
            ImportAction::Stop => ImportActionView::Stop,
        }
    }
}

/// Whether a source has all its parts: both databases are files, and the
/// directory of sequences is a directory.
pub open spec fn layout_complete(layout: SourceLayout) -> bool {
    layout.aliases_db == PathKind::File && layout.sequences_dir == PathKind::Directory
        && layout.sequences_db == PathKind::File
}

/// One more record, as far as the counter reaches.
pub open spec fn one_more(count: u64) -> u64 {
    if count < u64::MAX {
        (count + 1) as u64
    } else {
        count
    }
}

/// How a run goes on from an event: its next state, and what it asks for.
pub open spec fn import_next(state: ImportStateView, event: ImportEventView) -> (
    ImportStateView,
    ImportActionView,
) {
    let out_of_order = (
        ImportStateView::Failed(ImportErrorView::OutOfOrder),
        ImportActionView::Stop,
    );
    let unreadable = (
        ImportStateView::Failed(ImportErrorView::SourceReadFailure),
        ImportActionView::Stop,
    );
    match state {
        ImportStateView::Done(_) => (state, ImportActionView::Stop),
        ImportStateView::Failed(_) => (state, ImportActionView::Stop),
        ImportStateView::Validating => match event {
            ImportEventView::Layout(layout) => if layout_complete(layout) {
                (
                    ImportStateView::ImportingAliases { written: 0, writing: false },
                    ImportActionView::NextAliasRow,
                )
            } else {
                (
                    ImportStateView::Failed(ImportErrorView::InvalidSourceLayout),
                    ImportActionView::Stop,
                )
            },
            _ => out_of_order,
        },
        ImportStateView::ImportingAliases { written, writing: false } => match event {
            ImportEventView::AliasRow(row) => match alias_put(row) {
                Ok(put) => (
                    ImportStateView::ImportingAliases { written, writing: true },
                    ImportActionView::Put(put),
                ),
                Err(_) => unreadable,
            },
            ImportEventView::RowFailed => unreadable,
            ImportEventView::EndOfRows => (
                ImportStateView::ImportingSequenceInfo {
                    aliases: written,
                    written: 0,
                    writing: false,
                },
                ImportActionView::NextSequenceRow,
            ),
            _ => out_of_order,
        },
        ImportStateView::ImportingAliases { written, writing: true } => match event {
            ImportEventView::PutDone => (
                ImportStateView::ImportingAliases { written: one_more(written), writing: false },
                ImportActionView::NextAliasRow,
            ),
            ImportEventView::PutFailed(e) => (
                ImportStateView::Failed(ImportErrorView::StoreFailure(e)),
                ImportActionView::Stop,
            ),
            _ => out_of_order,
        },
        ImportStateView::ImportingSequenceInfo { aliases, written, writing: false } => match event {
            ImportEventView::SequenceRow(row) => (
                ImportStateView::ImportingSequenceInfo { aliases, written, writing: true },
                ImportActionView::Put(sequence_put(row)),
            ),
            ImportEventView::RowFailed => unreadable,
            ImportEventView::EndOfRows => (
                ImportStateView::Done(ImportSummary { aliases, sequences: written }),
                ImportActionView::Stop,
            ),
            _ => out_of_order,
        },
        ImportStateView::ImportingSequenceInfo { aliases, written, writing: true } => match event {
            ImportEventView::PutDone => (
                ImportStateView::ImportingSequenceInfo {
                    aliases,
                    written: one_more(written),
                    writing: false,
                },
                ImportActionView::NextSequenceRow,
            ),
            ImportEventView::PutFailed(e) => (
                ImportStateView::Failed(ImportErrorView::StoreFailure(e)),
                ImportActionView::Stop,
            ),
            _ => out_of_order,
        },
    }
}

/// The result of a run, once it is over.
pub open spec fn import_result(state: ImportStateView) -> Option<
    Result<ImportSummary, ImportErrorView>,
> {
    match state {
        ImportStateView::Done(summary) => Some(Ok(summary)),
        ImportStateView::Failed(e) => Some(Err(e)),
        _ => None,
    }
}

/// Checks that a source has all its parts.
pub fn validate_seqrepo_instance(layout: &SourceLayout) -> (checked: Result<
    (),
    SeqRepoInstanceError,
>)
    ensures
        checked is Ok <==> layout_complete(*layout),
{
    if layout.aliases_db != PathKind::File {
        return Err(SeqRepoInstanceError);
    }
    if layout.sequences_dir != PathKind::Directory {
        return Err(SeqRepoInstanceError);
    }
    if layout.sequences_db != PathKind::File {
        return Err(SeqRepoInstanceError);
    }
    Ok(())
}

/// The places of a source to probe.
pub fn source_paths() -> (paths: SourcePaths)
    ensures
        paths.aliases_db@ == "aliases.sqlite3"@,
        paths.sequences_dir@ == "sequences"@,
        paths.sequences_db@ == "db.sqlite3"@,
{
    SourcePaths {
        aliases_db: "aliases.sqlite3".to_string(),
        sequences_dir: "sequences".to_string(),
        sequences_db: "db.sqlite3".to_string(),
    }
}

/// Counts one more record, as far as the counter reaches.
fn count_one_more(count: u64) -> (next: u64)
    ensures
        next == one_more(count),
{
    if count < u64::MAX {
        count + 1
    } else {
        count
    }
}

/// Begins a run: the layout of the source is to be checked first.
pub fn import() -> (first: (ImportState, ImportAction))
    ensures
        first.0@ == ImportStateView::Validating,
        first.1@ == ImportActionView::CheckLayout,
{
    (ImportState::Validating, ImportAction::CheckLayout)
}

/// Goes on with a run: `event` reports the outcome of what the last step asked
/// for, `state` is the state that the last step gave.
pub fn import_step(state: ImportState, event: ImportEvent) -> (next: (ImportState, ImportAction))
    ensures
        (next.0@, next.1@) == import_next(state@, event@),
{
    match state {
        ImportState::Done(summary) => (ImportState::Done(summary), ImportAction::Stop),
        ImportState::Failed(e) => (ImportState::Failed(e), ImportAction::Stop),
        ImportState::Validating => match event {
            ImportEvent::Layout(layout) => match validate_seqrepo_instance(&layout) {
                Ok(_) => (
                    ImportState::ImportingAliases { written: 0, writing: false },
                    ImportAction::NextAliasRow,
                ),
                Err(_) => (
                    ImportState::Failed(SeqRepoImportError::InvalidSourceLayout),
                    ImportAction::Stop,
                ),
            },
            _ => (ImportState::Failed(SeqRepoImportError::OutOfOrder), ImportAction::Stop),
        },
        ImportState::ImportingAliases { written, writing: false } => match event {
            ImportEvent::AliasRow(row) => match put_seq_alias(&row) {
                Ok(put) => (
                    ImportState::ImportingAliases { written, writing: true },
                    ImportAction::Put(put),
                ),
                Err(_) => (
                    ImportState::Failed(SeqRepoImportError::SourceReadFailure),
                    ImportAction::Stop,
                ),
            },
            ImportEvent::RowFailed => (
                ImportState::Failed(SeqRepoImportError::SourceReadFailure),
                ImportAction::Stop,
            ),
            ImportEvent::EndOfRows => (
                ImportState::ImportingSequenceInfo { aliases: written, written: 0, writing: false },
                ImportAction::NextSequenceRow,
            ),
            _ => (ImportState::Failed(SeqRepoImportError::OutOfOrder), ImportAction::Stop),
        },
        ImportState::ImportingAliases { written, writing: true } => match event {
            ImportEvent::PutDone => (
                ImportState::ImportingAliases { written: count_one_more(written), writing: false },
                ImportAction::NextAliasRow,
            ),
            ImportEvent::PutFailed(e) => (
                ImportState::Failed(SeqRepoImportError::StoreFailure(e)),
                ImportAction::Stop,
            ),
            _ => (ImportState::Failed(SeqRepoImportError::OutOfOrder), ImportAction::Stop),
        },
        ImportState::ImportingSequenceInfo { aliases, written, writing: false } => match event {
            ImportEvent::SequenceRow(row) => (
                ImportState::ImportingSequenceInfo { aliases, written, writing: true },
                ImportAction::Put(put_seq_info(&row)),
            ),
            ImportEvent::RowFailed => (
                ImportState::Failed(SeqRepoImportError::SourceReadFailure),
                ImportAction::Stop,
            ),
            ImportEvent::EndOfRows => (
                ImportState::Done(ImportSummary { aliases, sequences: written }),
                ImportAction::Stop,
            ),
            _ => (ImportState::Failed(SeqRepoImportError::OutOfOrder), ImportAction::Stop),
        },
        ImportState::ImportingSequenceInfo { aliases, written, writing: true } => match event {
            ImportEvent::PutDone => (
                ImportState::ImportingSequenceInfo {
                    aliases,
                    written: count_one_more(written),
                    writing: false,
                },
                ImportAction::NextSequenceRow,
            ),
            ImportEvent::PutFailed(e) => (
                ImportState::Failed(SeqRepoImportError::StoreFailure(e)),
                ImportAction::Stop,
            ),
            _ => (ImportState::Failed(SeqRepoImportError::OutOfOrder), ImportAction::Stop),
        },
    }
}

impl ImportState {
    /// The result of the run, once it is over.
    pub fn result(&self) -> (result: Option<Result<ImportSummary, SeqRepoImportError>>)
        ensures
            match result {
                Some(Ok(summary)) => import_result(self@) == Some(
                    Ok::<_, ImportErrorView>(summary),
                ),
                Some(Err(e)) => import_result(self@) == Some(Err::<ImportSummary, _>(e@)),
                None => import_result(self@) is None,
            },
    {
        match self {
            ImportState::Done(summary) => Some(Ok(*summary)),
            ImportState::Failed(e) => Some(Err(e.clone_error())),
            _ => None,
        }
    }
}

impl SeqRepoImportError {
    /// A copy that holds the same data.
    pub fn clone_error(&self) -> (copy: SeqRepoImportError)
        ensures
            copy@ == self@,
    {
        match self {
            SeqRepoImportError::InvalidSourceLayout => SeqRepoImportError::InvalidSourceLayout,
            SeqRepoImportError::SourceReadFailure => SeqRepoImportError::SourceReadFailure,
            SeqRepoImportError::StoreFailure(e) => SeqRepoImportError::StoreFailure(
                StoreError { kind: e.kind, message: e.message.clone() },
            ),
            SeqRepoImportError::OutOfOrder => SeqRepoImportError::OutOfOrder,
        }
    }
}

/// A run that is over stays over: whatever is reported to it, it keeps its state
/// and asks for nothing. So after a row that could not be read, no row is written.
pub proof fn finished_run_asks_for_nothing(state: ImportStateView, event: ImportEventView)
    requires
        import_result(state) is Some,
    ensures
        import_next(state, event) == (state, ImportActionView::Stop),
{
}

/// A row that cannot be read ends the run with `SourceReadFailure`, in either
/// table, and so does an alias that cannot be stored.
pub proof fn unreadable_row_ends_the_run(state: ImportStateView, alias: SeqAliasView)
    requires
        state matches ImportStateView::ImportingAliases { writing: false, .. }
            || state matches ImportStateView::ImportingSequenceInfo { writing: false, .. },
    ensures
        import_next(state, ImportEventView::RowFailed) == (
            ImportStateView::Failed(ImportErrorView::SourceReadFailure),
            ImportActionView::Stop,
        ),
        state is ImportingAliases && !alias.valid() ==> import_next(
            state,
            ImportEventView::AliasRow(alias),
        ) == (ImportStateView::Failed(ImportErrorView::SourceReadFailure), ImportActionView::Stop),
{
}

/// How far a run has come: it checks the source, imports aliases, imports
/// sequences, and is over.
pub open spec fn phase(state: ImportStateView) -> nat {
    match state {
        ImportStateView::Validating => 0,
        ImportStateView::ImportingAliases { .. } => 1,
        ImportStateView::ImportingSequenceInfo { .. } => 2,
        ImportStateView::Done(_) => 3,
        ImportStateView::Failed(_) => 3,
    }
}

/// Whether `put` is the write that `event` calls for in `state`: the write of the
/// alias row that is reported while aliases are imported, or of the sequence row
/// that is reported while sequences are.
pub open spec fn write_of_the_phase(
    state: ImportStateView,
    event: ImportEventView,
    put: PutItemView,
) -> bool {
    match event {
        ImportEventView::AliasRow(row) => state is ImportingAliases && alias_put(row) == Ok::<
            _,
            InputError,
        >(put),
        ImportEventView::SequenceRow(row) => state is ImportingSequenceInfo && sequence_put(row)
            == put,
        _ => false,
    }
}

/// A run never goes back: no alias is written once sequences are, and each write
/// belongs to the phase in which the run is.
pub proof fn phases_are_sequential(state: ImportStateView, event: ImportEventView)
    ensures
        phase(state) <= phase(import_next(state, event).0),
        import_next(state, event).1 matches ImportActionView::Put(put) ==> write_of_the_phase(
            state,
            event,
            put,
        ),
{
}

} // verus!
